//! Elements of the field that Starknet computes in.
use vstd::prelude::*;

verus! {

/// The order of the field, `2^251 + 17 * 2^192 + 1`.
pub open spec fn prime() -> nat {
    0x800000000000011000000000000000000000000000000000000000000000001nat
}

/// `2^128`: the weight of the upper half of an element.
pub open spec fn half_weight() -> nat {
    0x1_0000_0000_0000_0000_0000_0000_0000_0000nat
}

/// `2^256`: the factor that the raw representation of an element carries.
pub open spec fn raw_factor() -> nat {
    0x1_0000_0000_0000_0000_0000_0000_0000_0000_0000_0000_0000_0000_0000_0000_0000_0000nat
}

/// A field element, held as the two halves of its canonical value.
///
/// Its view is that value, which is below [`prime`].
#[derive(Clone, Copy, Debug, PartialEq, Eq, Structural)]
pub struct Felt {
    hi: u128,
    lo: u128,
}

impl View for Felt {
    type V = nat;

    closed spec fn view(&self) -> nat {
        self.hi as nat * half_weight() + self.lo as nat
    }
}

/// The values of a sequence of elements.
pub open spec fn values(felts: Seq<Felt>) -> Seq<nat> {
    felts.map_values(|f: Felt| f@)
}

/// Appending an element appends its value.
pub proof fn lemma_values_push(felts: Seq<Felt>, felt: Felt)
    ensures
        values(felts.push(felt)) == values(felts).push(felt@),
{
    assert(values(felts.push(felt)) =~= values(felts).push(felt@));
}

impl Felt {
    /// Every element holds the canonical value of its class.
    #[verifier::type_invariant]
    pub open spec fn canonical(self) -> bool {
        self@ < prime()
    }

    /// The element `hi * 2^128 + lo`, if that number is canonical.
    pub fn new(hi: u128, lo: u128) -> (felt: Option<Felt>)
        ensures
            match felt {
                Some(f) => f@ == hi as nat * half_weight() + lo as nat && f@ < prime(),
                None => hi as nat * half_weight() + lo as nat >= prime(),
            },
    {
        let top: u128 = 0x8000000_00000011_00000000_00000000;
        if hi < top || (hi == top && lo < 1) {
            Some(Felt { hi, lo })
        } else {
            None
        }
    }

    /// The element whose value is `n`.
    pub fn from_u128(n: u128) -> (felt: Felt)
        ensures
            felt@ == n,
    {
        Felt { hi: 0, lo: n }
    }

    /// The upper half of the value.
    pub fn hi(&self) -> (hi: u128)
        ensures
            hi == self@ / half_weight(),
            self@ < prime(),
    {
        proof {
            use_type_invariant(self);
        }
        self.hi
    }

    /// The lower half of the value.
    pub fn lo(&self) -> (lo: u128)
        ensures
            lo == self@ % half_weight(),
            self@ < prime(),
    {
        proof {
            use_type_invariant(self);
        }
        self.lo
    }

    /// Whether both elements have the same value.
    pub fn same(&self, other: &Felt) -> (b: bool)
        ensures
            b == (self@ == other@),
    {
        self.hi == other.hi && self.lo == other.lo
    }
}

/// The number that four limbs stand for, the most significant one first.
pub open spec fn limbs_value(limbs: Seq<u64>) -> nat {
    ((limbs[0] as nat * 0x1_0000_0000_0000_0000 + limbs[1] as nat) * 0x1_0000_0000_0000_0000
        + limbs[2] as nat) * 0x1_0000_0000_0000_0000 + limbs[3] as nat
}

/// Two elements with the same value are the same element.
pub proof fn law_value_determines_felt(a: Felt, b: Felt)
    requires
        a@ == b@,
    ensures
        a == b,
{
}

/// The inverse of `2^256` in the field.
spec fn raw_factor_inverse() -> int {
    0x40000000000001100000000000012100000000000000000000000000000000int
}

/// A raw representation stands for one value only: values below the order of the field that agree
/// after multiplication with `2^256` are equal.
pub proof fn lemma_raw_determines_value(a: nat, b: nat)
    requires
        a < prime(),
        b < prime(),
        (a * raw_factor()) % prime() == (b * raw_factor()) % prime(),
    ensures
        a == b,
{
    let p = prime() as int;
    let f = raw_factor() as int;
    let inv = raw_factor_inverse();
    let m = 3618502788666131213697322783095070105623107215331596699973092056135872020479int;
    let x = a as int;
    let y = b as int;
    assert(f * inv == m * p + 1);
    let t = (x * f) / p - (y * f) / p;
    vstd::arithmetic::div_mod::lemma_fundamental_div_mod(x * f, p);
    vstd::arithmetic::div_mod::lemma_fundamental_div_mod(y * f, p);
    assert((x - y) * f == p * t) by (nonlinear_arith)
        requires
            x * f == p * ((x * f) / p) + (x * f) % p,
            y * f == p * ((y * f) / p) + (y * f) % p,
            (x * f) % p == (y * f) % p,
            t == (x * f) / p - (y * f) / p,
    ;
    let k = t * inv - (x - y) * m;
    assert(x - y == p * k) by (nonlinear_arith)
        requires
            (x - y) * f == p * t,
            f * inv == m * p + 1,
            k == t * inv - (x - y) * m,
    ;
    assert(k == 0) by (nonlinear_arith)
        requires
            x - y == p * k,
            0 <= x < p,
            0 <= y < p,
    ;
}

/// `Felt + Felt` of `starknet`: addition in the field, which never overflows. The sum's value is
/// the sum of the values modulo the order of the field.
#[verifier::external_body]
pub(crate) fn felt_add(a: &Felt, b: &Felt) -> (sum: Felt)
    ensures
        sum@ == (a@ + b@) % prime(),
{
    let outside = |f: &Felt| {
        let mut bytes = [0u8; 32];
        bytes[..16].copy_from_slice(&f.hi.to_be_bytes());
        bytes[16..].copy_from_slice(&f.lo.to_be_bytes());
        starknet::core::types::Felt::from_bytes_be(&bytes)
    };
    let bytes = (outside(a) + outside(b)).to_bytes_be();
    Felt {
        hi: u128::from_be_bytes(bytes[..16].try_into().unwrap()),
        lo: u128::from_be_bytes(bytes[16..].try_into().unwrap()),
    }
}

/// `Felt::from_raw` of `starknet`: the element whose raw representation has these limbs, the most
/// significant one first. The raw representation of a value is the value times `2^256`, modulo the
/// order of the field.
#[verifier::external_body]
pub(crate) fn felt_from_raw(limbs: [u64; 4]) -> (felt: Felt)
    requires
        limbs_value(limbs@) < prime(),
    ensures
        (felt@ * raw_factor()) % prime() == limbs_value(limbs@),
        felt@ < prime(),
{
    let bytes = starknet::core::types::Felt::from_raw(limbs).to_bytes_be();
    Felt {
        hi: u128::from_be_bytes(bytes[..16].try_into().unwrap()),
        lo: u128::from_be_bytes(bytes[16..].try_into().unwrap()),
    }
}

/// The order of the field is `2^251 + 17 * 2^192 + 1`, an element has two halves of 128 bits, and a
/// raw representation carries a factor of twice as many.
pub proof fn law_field_constants()
    ensures
        prime() == 0x800000000000000_0000000000000000_0000000000000000_0000000000000000nat
            + 17 * 0x1_0000000000000000_0000000000000000_0000000000000000nat + 1,
        half_weight() == 0x1_0000000000000000nat * 0x1_0000000000000000nat,
        raw_factor() == 0x1_0000000000000000_0000000000000000nat
            * 0x1_0000000000000000_0000000000000000nat,
{
}

/// The values of a sequence stand in the places of its elements.
pub proof fn law_values_in_place(felts: Seq<Felt>)
    ensures
        values(felts).len() == felts.len(),
        forall|i: int| 0 <= i < felts.len() ==> #[trigger] values(felts)[i] == felts[i]@,
{
}

/// Four limbs are the digits of a number to the base `2^64`, the most significant one first.
pub proof fn law_limbs_are_digits(a: u64, b: u64, c: u64, d: u64)
    ensures
        limbs_value(seq![a, b, c, d]) == a
            * 0x1_0000000000000000_0000000000000000_0000000000000000nat + b
            * 0x1_0000000000000000_0000000000000000nat + c * 0x1_0000000000000000nat + d,
{
}

} // verus!
