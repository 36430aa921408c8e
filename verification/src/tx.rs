//! Invoke transactions of version 3: what is hashed, what is signed and what is sent.
use crate::abigen::{Call, CallView};
use crate::felt::{half_weight, lemma_values_push, values, Felt};
use vstd::prelude::*;

verus! {

/// How the calldata of `__execute__` holds its calls.
#[derive(Clone, Copy, Debug, PartialEq, Eq, Structural)]
pub enum ExecutionEncoding {
    /// The calldata of all calls stands together at the end.
    Legacy,
    /// Each call is self-contained.
    New,
}

/// An account that sends transactions.
#[derive(Clone, Copy, Debug, PartialEq, Eq, Structural)]
pub struct SenderAccount {
    pub address: Felt,
    pub chain_id: Felt,
    pub encoding: ExecutionEncoding,
}

/// How much of one resource a transaction may use, and at what price.
#[derive(Clone, Copy, Debug, PartialEq, Eq, Structural)]
pub struct ResourceBounds {
    pub max_amount: u64,
    pub max_price_per_unit: u128,
}

/// The bounds of both kinds of gas.
#[derive(Clone, Copy, Debug, PartialEq, Eq, Structural)]
pub struct ResourceBoundsMapping {
    pub l1_gas: ResourceBounds,
    pub l2_gas: ResourceBounds,
}

/// Where data is made available.
#[derive(Clone, Copy, Debug, PartialEq, Eq, Structural)]
pub enum DataAvailabilityMode {
    L1,
    L2,
}

/// The amount, and the price, of gas on the first layer that every transaction allows.
pub const L1_GAS_BOUND: u64 = 20000005000;

/// The bounds that every transaction carries. Resources of the second layer are not used.
pub open spec fn fixed_bounds() -> ResourceBoundsMapping {
    ResourceBoundsMapping {
        l1_gas: ResourceBounds {
            max_amount: L1_GAS_BOUND,
            max_price_per_unit: L1_GAS_BOUND as u128,
        },
        l2_gas: ResourceBounds { max_amount: 0, max_price_per_unit: 0 },
    }
}

/// The values of a list of calls.
pub open spec fn call_views(calls: Seq<Call>) -> Seq<CallView> {
    calls.map_values(|c: Call| c@)
}

/// One call in the calldata of `__execute__`: its target, its selector, how much calldata it has,
/// and that calldata.
pub open spec fn encoded_call(call: CallView) -> Seq<nat> {
    seq![call.to, call.selector, call.calldata.len()] + call.calldata
}

/// Calls in the calldata of `__execute__`, one after the other.
pub open spec fn encoded_call_list(calls: Seq<CallView>) -> Seq<nat>
    decreases calls.len(),
{
    if calls.len() == 0 {
        Seq::empty()
    } else {
        encoded_call_list(calls.drop_last()) + encoded_call(calls.last())
    }
}

/// The calldata of all calls, one after the other.
pub open spec fn joined_calldata(calls: Seq<CallView>) -> Seq<nat>
    decreases calls.len(),
{
    if calls.len() == 0 {
        Seq::empty()
    } else {
        joined_calldata(calls.drop_last()) + calls.last().calldata
    }
}

/// Calls without their calldata: the target and the selector of each, where its part of the joined
/// calldata starts, and how long that part is.
pub open spec fn legacy_call_list(calls: Seq<CallView>) -> Seq<nat>
    decreases calls.len(),
{
    if calls.len() == 0 {
        Seq::empty()
    } else {
        let before = calls.drop_last();
        let call = calls.last();
        legacy_call_list(before) + seq![
            call.to,
            call.selector,
            joined_calldata(before).len(),
            call.calldata.len(),
        ]
    }
}

/// The calldata of `__execute__`: how many calls there are, and the calls. In the legacy encoding
/// the joined calldata follows, led by its length.
pub open spec fn encoded_calls(encoding: ExecutionEncoding, calls: Seq<CallView>) -> Seq<nat> {
    match encoding {
        ExecutionEncoding::New => seq![calls.len()] + encoded_call_list(calls),
        ExecutionEncoding::Legacy => {
            let data = joined_calldata(calls);
            seq![calls.len()] + legacy_call_list(calls) + seq![data.len()] + data
        },
    }
}

impl SenderAccount {
    /// Encodes calls as calldata of `__execute__`, in the account's encoding.
    pub fn encode_calls(&self, calls: &Vec<Call>) -> (calldata: Vec<Felt>)
        ensures
            values(calldata@) == encoded_calls(self.encoding, call_views(calls@)),
    {
        match self.encoding {
            ExecutionEncoding::New => encode_calls_new(calls),
            ExecutionEncoding::Legacy => encode_calls_legacy(calls),
        }
    }
}

/// Encodes calls with the calldata of all of them at the end.
fn encode_calls_legacy(calls: &Vec<Call>) -> (calldata: Vec<Felt>)
    ensures
        values(calldata@) == encoded_calls(ExecutionEncoding::Legacy, call_views(calls@)),
{
    let mut calldata: Vec<Felt> = Vec::new();
    let mut joined: Vec<Felt> = Vec::new();
    calldata.push(Felt::from_u128(calls.len() as u128));
    let ghost views = call_views(calls@);
    assert(values(calldata@) =~= seq![views.len()] + legacy_call_list(views.take(0)));
    assert(values(joined@) =~= joined_calldata(views.take(0)));
    let mut i: usize = 0;
    while i < calls.len()
        invariant
            i <= calls@.len(),
            views == call_views(calls@),
            values(calldata@) == seq![views.len()] + legacy_call_list(views.take(i as int)),
            values(joined@) == joined_calldata(views.take(i as int)),
        decreases calls@.len() - i,
    {
        let call: &Call = &calls[i];
        let ghost before = values(calldata@);
        let ghost joined_before = values(joined@);
        calldata.push(call.to);
        calldata.push(call.selector);
        calldata.push(Felt::from_u128(joined.len() as u128));
        calldata.push(Felt::from_u128(call.calldata.len() as u128));
        assert(values(calldata@) =~= before + seq![
            call@.to,
            call@.selector,
            joined_before.len(),
            call@.calldata.len(),
        ]);
        let mut j: usize = 0;
        while j < call.calldata.len()
            invariant
                j <= call.calldata@.len(),
                values(joined@) == joined_before + call@.calldata.take(j as int),
            decreases call.calldata@.len() - j,
        {
            proof {
                lemma_values_push(joined@, call.calldata@[j as int]);
                assert(call@.calldata.take(j + 1) =~= call@.calldata.take(j as int).push(
                    call.calldata@[j as int]@,
                ));
            }
            joined.push(call.calldata[j]);
            j = j + 1;
            assert(values(joined@) =~= joined_before + call@.calldata.take(j as int));
        }
        assert(call@.calldata.take(j as int) =~= call@.calldata);
        proof {
            let taken = views.take(i + 1);
            assert(taken.drop_last() =~= views.take(i as int));
            assert(taken.last() == call@);
        }
        i = i + 1;
        assert(values(calldata@) =~= seq![views.len()] + legacy_call_list(views.take(i as int)));
    }
    assert(views.take(i as int) =~= views);
    let ghost head = values(calldata@);
    let ghost data = values(joined@);
    calldata.push(Felt::from_u128(joined.len() as u128));
    calldata.append(&mut joined);
    assert(values(calldata@) =~= head + seq![data.len()] + data);
    calldata
}

/// Encodes calls with each call self-contained.
fn encode_calls_new(calls: &Vec<Call>) -> (calldata: Vec<Felt>)
    ensures
        values(calldata@) == encoded_calls(ExecutionEncoding::New, call_views(calls@)),
{
    let mut calldata: Vec<Felt> = Vec::new();
    calldata.push(Felt::from_u128(calls.len() as u128));
    let ghost views = call_views(calls@);
    assert(values(calldata@) =~= seq![views.len()] + encoded_call_list(views.take(0)));
    let mut i: usize = 0;
    while i < calls.len()
        invariant
            i <= calls@.len(),
            views == call_views(calls@),
            values(calldata@) == seq![views.len()] + encoded_call_list(views.take(i as int)),
        decreases calls@.len() - i,
    {
        let call: &Call = &calls[i];
        let ghost before = values(calldata@);
        calldata.push(call.to);
        calldata.push(call.selector);
        calldata.push(Felt::from_u128(call.calldata.len() as u128));
        let ghost head = seq![call@.to, call@.selector, call@.calldata.len()];
        assert(values(calldata@) =~= before + head);
        let mut j: usize = 0;
        while j < call.calldata.len()
            invariant
                j <= call.calldata@.len(),
                values(calldata@) == before + head + call@.calldata.take(j as int),
            decreases call.calldata@.len() - j,
        {
            proof {
                lemma_values_push(calldata@, call.calldata@[j as int]);
                assert(call@.calldata.take(j + 1) =~= call@.calldata.take(j as int).push(
                    call.calldata@[j as int]@,
                ));
            }
            calldata.push(call.calldata[j]);
            j = j + 1;
            assert(values(calldata@) =~= before + head + call@.calldata.take(j as int));
        }
        assert(call@.calldata.take(j as int) =~= call@.calldata);
        proof {
            let taken = views.take(i + 1);
            assert(taken.drop_last() =~= views.take(i as int));
            assert(taken.last() == call@);
        }
        i = i + 1;
        assert(values(calldata@) =~= seq![views.len()] + encoded_call_list(views.take(i as int)));
    }
    assert(views.take(i as int) =~= views);
    calldata
}

/// Everything that the hash of an invoke transaction covers.
#[derive(Debug, PartialEq, Eq)]
pub struct InvokeHashInput {
    pub sender_address: Felt,
    pub calldata: Vec<Felt>,
    pub tip: u64,
    pub resource_bounds: ResourceBoundsMapping,
    pub paymaster_data: Vec<Felt>,
    pub chain_id: Felt,
    pub nonce: Felt,
    pub nonce_data_availability_mode: DataAvailabilityMode,
    pub fee_data_availability_mode: DataAvailabilityMode,
    pub account_deployment_data: Vec<Felt>,
    pub is_query: bool,
}

/// The values of an [`InvokeHashInput`].
#[verifier::ext_equal]
pub struct InvokeHashInputView {
    pub sender_address: nat,
    pub calldata: Seq<nat>,
    pub tip: u64,
    pub resource_bounds: ResourceBoundsMapping,
    pub paymaster_data: Seq<nat>,
    pub chain_id: nat,
    pub nonce: nat,
    pub nonce_data_availability_mode: DataAvailabilityMode,
    pub fee_data_availability_mode: DataAvailabilityMode,
    pub account_deployment_data: Seq<nat>,
    pub is_query: bool,
}

impl View for InvokeHashInput {
    type V = InvokeHashInputView;

    open spec fn view(&self) -> InvokeHashInputView {
        InvokeHashInputView {
            sender_address: self.sender_address@,
            calldata: values(self.calldata@),
            tip: self.tip,
            resource_bounds: self.resource_bounds,
            paymaster_data: values(self.paymaster_data@),
            chain_id: self.chain_id@,
            nonce: self.nonce@,
            nonce_data_availability_mode: self.nonce_data_availability_mode,
            fee_data_availability_mode: self.fee_data_availability_mode,
            account_deployment_data: values(self.account_deployment_data@),
            is_query: self.is_query,
        }
    }
}

/// What is hashed when `account` sends `calls` with `nonce`: no tip, the fixed bounds, data on the
/// first layer, and neither paymaster nor deployment data.
pub open spec fn invoke_hash_input(
    account: SenderAccount,
    calls: Seq<CallView>,
    nonce: nat,
) -> InvokeHashInputView {
    InvokeHashInputView {
        sender_address: account.address@,
        calldata: encoded_calls(account.encoding, calls),
        tip: 0,
        resource_bounds: fixed_bounds(),
        paymaster_data: Seq::empty(),
        chain_id: account.chain_id@,
        nonce,
        nonce_data_availability_mode: DataAvailabilityMode::L1,
        fee_data_availability_mode: DataAvailabilityMode::L1,
        account_deployment_data: Seq::empty(),
        is_query: false,
    }
}

/// The bounds that every transaction carries.
fn resource_bounds() -> (bounds: ResourceBoundsMapping)
    ensures
        bounds == fixed_bounds(),
{
    ResourceBoundsMapping {
        l1_gas: ResourceBounds {
            max_amount: L1_GAS_BOUND,
            max_price_per_unit: L1_GAS_BOUND as u128,
        },
        l2_gas: ResourceBounds { max_amount: 0, max_price_per_unit: 0 },
    }
}

/// What is to be hashed when `account` sends `calls` with `nonce`.
pub fn hash_input(account: &SenderAccount, calls: &Vec<Call>, nonce: &Felt) -> (input:
    InvokeHashInput)
    ensures
        input@ == invoke_hash_input(*account, call_views(calls@), nonce@),
        input.sender_address == account.address,
        values(input.calldata@) == encoded_calls(account.encoding, call_views(calls@)),
        input.chain_id == account.chain_id,
        input.nonce == *nonce,
        input.tip == 0,
        input.resource_bounds.l1_gas.max_amount == 20000005000,
        input.resource_bounds.l1_gas.max_price_per_unit == 20000005000,
        input.resource_bounds.l2_gas.max_amount == 0,
        input.resource_bounds.l2_gas.max_price_per_unit == 0,
        input.paymaster_data@.len() == 0,
        input.account_deployment_data@.len() == 0,
        input.nonce_data_availability_mode == DataAvailabilityMode::L1,
        input.fee_data_availability_mode == DataAvailabilityMode::L1,
        !input.is_query,
{
    let input: InvokeHashInput = InvokeHashInput {
        sender_address: account.address,
        calldata: account.encode_calls(calls),
        tip: 0,
        resource_bounds: resource_bounds(),
        paymaster_data: Vec::new(),
        chain_id: account.chain_id,
        nonce: *nonce,
        nonce_data_availability_mode: DataAvailabilityMode::L1,
        fee_data_availability_mode: DataAvailabilityMode::L1,
        account_deployment_data: Vec::new(),
        is_query: false,
    };
    assert(input@ =~= invoke_hash_input(*account, call_views(calls@), nonce@));
    input
}

/// An invoke transaction of version 3, as it is sent.
#[derive(Debug, PartialEq, Eq)]
pub struct BroadcastedInvokeTransactionV3 {
    pub sender_address: Felt,
    pub calldata: Vec<Felt>,
    pub signature: Vec<Felt>,
    pub nonce: Felt,
    pub resource_bounds: ResourceBoundsMapping,
    pub tip: u64,
    pub paymaster_data: Vec<Felt>,
    pub account_deployment_data: Vec<Felt>,
    pub nonce_data_availability_mode: DataAvailabilityMode,
    pub fee_data_availability_mode: DataAvailabilityMode,
    pub is_query: bool,
}

/// The values of a [`BroadcastedInvokeTransactionV3`].
#[verifier::ext_equal]
pub struct InvokeTransactionView {
    pub sender_address: nat,
    pub calldata: Seq<nat>,
    pub signature: Seq<nat>,
    pub nonce: nat,
    pub resource_bounds: ResourceBoundsMapping,
    pub tip: u64,
    pub paymaster_data: Seq<nat>,
    pub account_deployment_data: Seq<nat>,
    pub nonce_data_availability_mode: DataAvailabilityMode,
    pub fee_data_availability_mode: DataAvailabilityMode,
    pub is_query: bool,
}

impl View for BroadcastedInvokeTransactionV3 {
    type V = InvokeTransactionView;

    open spec fn view(&self) -> InvokeTransactionView {
        InvokeTransactionView {
            sender_address: self.sender_address@,
            calldata: values(self.calldata@),
            signature: values(self.signature@),
            nonce: self.nonce@,
            resource_bounds: self.resource_bounds,
            tip: self.tip,
            paymaster_data: values(self.paymaster_data@),
            account_deployment_data: values(self.account_deployment_data@),
            nonce_data_availability_mode: self.nonce_data_availability_mode,
            fee_data_availability_mode: self.fee_data_availability_mode,
            is_query: self.is_query,
        }
    }
}

/// The transaction with which `account` sends `calls`, signed with the signature `(r, s)`.
pub open spec fn invoke_transaction(
    account: SenderAccount,
    calls: Seq<CallView>,
    nonce: nat,
    signature: (nat, nat),
) -> InvokeTransactionView {
    InvokeTransactionView {
        sender_address: account.address@,
        calldata: encoded_calls(account.encoding, calls),
        signature: seq![signature.0, signature.1],
        nonce,
        resource_bounds: fixed_bounds(),
        tip: 0,
        paymaster_data: Seq::empty(),
        account_deployment_data: Seq::empty(),
        nonce_data_availability_mode: DataAvailabilityMode::L1,
        fee_data_availability_mode: DataAvailabilityMode::L1,
        is_query: false,
    }
}

/// An ECDSA signature on the STARK curve.
#[derive(Clone, Copy, Debug, PartialEq, Eq, Structural)]
pub struct Signature {
    pub r: Felt,
    pub s: Felt,
}

/// Why a hash could not be signed.
#[derive(Clone, Copy, Debug, PartialEq, Eq, Structural)]
pub enum SignError {
    /// The hash is `2^251` or more.
    MessageHashOutOfRange,
}

/// Puts a signed transaction together.
pub fn assemble(
    account: &SenderAccount,
    calls: &Vec<Call>,
    nonce: &Felt,
    signature: &Signature,
) -> (transaction: BroadcastedInvokeTransactionV3)
    ensures
        transaction@ == invoke_transaction(
            *account,
            call_views(calls@),
            nonce@,
            (signature.r@, signature.s@),
        ),
        transaction.sender_address == account.address,
        values(transaction.calldata@) == encoded_calls(account.encoding, call_views(calls@)),
        transaction.signature@ == seq![signature.r, signature.s],
        transaction.nonce == *nonce,
        transaction.tip == 0,
        transaction.resource_bounds.l1_gas.max_amount == 20000005000,
        transaction.resource_bounds.l1_gas.max_price_per_unit == 20000005000,
        transaction.resource_bounds.l2_gas.max_amount == 0,
        transaction.resource_bounds.l2_gas.max_price_per_unit == 0,
        transaction.paymaster_data@.len() == 0,
        transaction.account_deployment_data@.len() == 0,
        transaction.nonce_data_availability_mode == DataAvailabilityMode::L1,
        transaction.fee_data_availability_mode == DataAvailabilityMode::L1,
        !transaction.is_query,
{
    let mut parts: Vec<Felt> = Vec::new();
    parts.push(signature.r);
    parts.push(signature.s);
    let transaction: BroadcastedInvokeTransactionV3 = BroadcastedInvokeTransactionV3 {
        sender_address: account.address,
        calldata: account.encode_calls(calls),
        signature: parts,
        nonce: *nonce,
        resource_bounds: resource_bounds(),
        tip: 0,
        paymaster_data: Vec::new(),
        account_deployment_data: Vec::new(),
        nonce_data_availability_mode: DataAvailabilityMode::L1,
        fee_data_availability_mode: DataAvailabilityMode::L1,
        is_query: false,
    };
    assert(transaction@ =~= invoke_transaction(
        *account,
        call_views(calls@),
        nonce@,
        (signature.r@, signature.s@),
    ));
    transaction
}

/// `2^251`: signed hashes and the parts of a signature are below it.
pub open spec fn element_upper_bound() -> nat {
    0x800000000000000000000000000000000000000000000000000000000000000nat
}

/// The order of the STARK curve.
pub open spec fn curve_order() -> nat {
    0x800000000000010ffffffffffffffffb781126dcae7b2321e66a241adc64d2fnat
}

/// The error with which `starknet` refuses to sign.
#[verifier::external_type_specification]
#[verifier::external_body]
pub struct ExEcdsaSignError(starknet::core::crypto::EcdsaSignError);

/// The parts `(r, s)` of the signature that `SigningKey::sign` of `starknet` makes with a private
/// key for a hash. Signing is deterministic.
pub uninterp spec fn ecdsa_signature(private_key: nat, hash: nat) -> (nat, nat);

/// `SigningKey::sign` of `starknet`, which is what a `LocalWallet` signs with. It refuses a hash of
/// `2^251` or more, and no other. Otherwise it signs deterministically, and both parts of the
/// signature are positive and below `2^251`. The signature itself is named rather than described.
///
/// For a zero hash and a key that is a multiple of the curve's order it would look for a signature
/// forever.
#[verifier::external_body]
fn signing_key_sign(private_key: &Felt, hash: &Felt) -> (signature: Result<
    Signature,
    starknet::core::crypto::EcdsaSignError,
>)
    requires
        hash@ != 0 || private_key@ % curve_order() != 0,
    ensures
        signature is Ok <==> hash@ < element_upper_bound(),
        signature matches Ok(parts) ==> {
            &&& (parts.r@, parts.s@) == ecdsa_signature(private_key@, hash@)
            &&& 0 < parts.r@ < element_upper_bound()
            &&& 0 < parts.s@ < element_upper_bound()
        },
{
    let outside = |f: &Felt| {
        let bytes = [f.hi().to_be_bytes(), f.lo().to_be_bytes()].concat();
        starknet::core::types::Felt::from_bytes_be_slice(&bytes)
    };
    let inside = |f: starknet::core::types::Felt| {
        let bytes = f.to_bytes_be();
        let hi = u128::from_be_bytes(bytes[..16].try_into().unwrap());
        Felt::new(hi, u128::from_be_bytes(bytes[16..].try_into().unwrap())).unwrap()
    };
    starknet::signers::SigningKey::from_secret_scalar(outside(private_key))
        .sign(&outside(hash))
        .map(|parts| Signature { r: inside(parts.r), s: inside(parts.s) })
}

/// Whether a signature can be found: all but a zero hash under a key that is a multiple of the
/// curve's order has one.
pub fn signable(private_key: &Felt, hash: &Felt) -> (b: bool)
    ensures
        b == (hash@ != 0 || private_key@ % curve_order() != 0),
{
    let hi: u128 = private_key.hi();
    let lo: u128 = private_key.lo();
    let order_hi: u128 = 0x800000000000010ffffffffffffffff;
    let order_lo: u128 = 0xb781126dcae7b2321e66a241adc64d2f;
    proof {
        assert(private_key@ == hi * half_weight() + lo);
        assert(curve_order() == order_hi * half_weight() + order_lo);
        assert(private_key@ % curve_order() == 0 <==> private_key@ == 0 || private_key@
            == curve_order());
    }
    !hash.same(&Felt::from_u128(0)) || !((hi == 0 && lo == 0) || (hi == order_hi && lo
        == order_lo))
}

/// Signs a hash with a private key.
pub fn sign_hash(private_key: &Felt, hash: &Felt) -> (signature: Result<Signature, SignError>)
    requires
        hash@ != 0 || private_key@ % curve_order() != 0,
    ensures
        signature == Err::<Signature, SignError>(SignError::MessageHashOutOfRange) <==> hash@
            >= element_upper_bound(),
        signature is Ok <==> hash@ < element_upper_bound(),
        signature matches Ok(parts) ==> {
            &&& (parts.r@, parts.s@) == ecdsa_signature(private_key@, hash@)
            &&& 0 < parts.r@ < element_upper_bound()
            &&& 0 < parts.s@ < element_upper_bound()
        },
{
    match signing_key_sign(private_key, hash) {
        Ok(signature) => Ok(signature),
        Err(_) => Err(SignError::MessageHashOutOfRange),
    }
}

/// Whether a hash is small enough to be signed.
pub fn hash_in_range(hash: &Felt) -> (b: bool)
    ensures
        b == (hash@ < element_upper_bound()),
{
    let bound_hi: u128 = 0x8000000_00000000_00000000_00000000;
    let hi: u128 = hash.hi();
    let lo: u128 = hash.lo();
    proof {
        assert(hash@ == hi * half_weight() + lo);
        assert(element_upper_bound() == bound_hi * half_weight());
    }
    hi < bound_hi
}

/// The signed transaction with which `account` sends `calls`. `tx_hash` is the hash of what
/// [`hash_input`] gives for the same account, calls and nonce.
pub fn tx(
    account: &SenderAccount,
    private_key: &Felt,
    calls: &Vec<Call>,
    nonce: &Felt,
    tx_hash: &Felt,
) -> (transaction: BroadcastedInvokeTransactionV3)
    requires
        tx_hash@ < element_upper_bound(),
        tx_hash@ != 0 || private_key@ % curve_order() != 0,
    ensures
        transaction@ == invoke_transaction(
            *account,
            call_views(calls@),
            nonce@,
            ecdsa_signature(private_key@, tx_hash@),
        ),
        transaction.sender_address == account.address,
        values(transaction.calldata@) == encoded_calls(account.encoding, call_views(calls@)),
        transaction.signature@.len() == 2,
        (transaction.signature@[0]@, transaction.signature@[1]@) == ecdsa_signature(
            private_key@,
            tx_hash@,
        ),
        transaction.nonce == *nonce,
        transaction.tip == 0,
        transaction.resource_bounds.l1_gas.max_amount == 20000005000,
        transaction.resource_bounds.l1_gas.max_price_per_unit == 20000005000,
        transaction.resource_bounds.l2_gas.max_amount == 0,
        transaction.resource_bounds.l2_gas.max_price_per_unit == 0,
        transaction.paymaster_data@.len() == 0,
        transaction.account_deployment_data@.len() == 0,
        transaction.nonce_data_availability_mode == DataAvailabilityMode::L1,
        transaction.fee_data_availability_mode == DataAvailabilityMode::L1,
        !transaction.is_query,
{
    let signature: Signature = sign_hash(private_key, tx_hash).unwrap();
    assemble(account, calls, nonce, &signature)
}

/// What is sent is what was hashed: the hash of a transaction covers everything in it but the
/// signature.
pub proof fn law_hash_covers_transaction(
    account: SenderAccount,
    calls: Seq<CallView>,
    nonce: nat,
    signature: (nat, nat),
)
    ensures
        ({
            let input = invoke_hash_input(account, calls, nonce);
            let sent = invoke_transaction(account, calls, nonce, signature);
            &&& sent.sender_address == input.sender_address
            &&& sent.calldata == input.calldata
            &&& sent.nonce == input.nonce
            &&& sent.resource_bounds == input.resource_bounds
            &&& sent.tip == input.tip
            &&& sent.paymaster_data == input.paymaster_data
            &&& sent.account_deployment_data == input.account_deployment_data
            &&& sent.nonce_data_availability_mode == input.nonce_data_availability_mode
            &&& sent.fee_data_availability_mode == input.fee_data_availability_mode
            &&& sent.is_query == input.is_query
        }),
{
}

/// The encoding of a list of calls starts with the encoding of the first one.
proof fn lemma_encoded_call_list_front(calls: Seq<CallView>)
    requires
        calls.len() > 0,
    ensures
        encoded_call_list(calls) == encoded_call(calls.first()) + encoded_call_list(
            calls.drop_first(),
        ),
    decreases calls.len(),
{
    if calls.len() == 1 {
        assert(calls.drop_last() =~= Seq::empty());
        assert(calls.drop_first() =~= Seq::empty());
        assert(encoded_call_list(calls) =~= encoded_call(calls.first()) + encoded_call_list(
            calls.drop_first(),
        ));
    } else {
        lemma_encoded_call_list_front(calls.drop_last());
        assert(calls.drop_last().drop_first() =~= calls.drop_first().drop_last());
        assert(calls.drop_first().last() == calls.last());
        assert(encoded_call_list(calls) =~= encoded_call(calls.first()) + (encoded_call_list(
            calls.drop_first().drop_last(),
        ) + encoded_call(calls.last())));
    }
}

/// Lists of as many calls with the same encoding are the same list.
proof fn lemma_encoded_call_list_injective(a: Seq<CallView>, b: Seq<CallView>)
    requires
        a.len() == b.len(),
        encoded_call_list(a) == encoded_call_list(b),
    ensures
        a == b,
    decreases a.len(),
{
    if a.len() == 0 {
        assert(a =~= b);
    } else {
        lemma_encoded_call_list_front(a);
        lemma_encoded_call_list_front(b);
        let whole = encoded_call_list(a);
        let x = a.first();
        let y = b.first();
        let rest_a = encoded_call_list(a.drop_first());
        let rest_b = encoded_call_list(b.drop_first());
        assert(whole == encoded_call(x) + rest_a);
        assert(whole == encoded_call(y) + rest_b);
        assert(whole[0] == x.to && whole[0] == y.to);
        assert(whole[1] == x.selector && whole[1] == y.selector);
        assert(whole[2] == x.calldata.len() && whole[2] == y.calldata.len());
        let end = 3 + x.calldata.len() as int;
        assert(whole.subrange(3, end) =~= x.calldata);
        assert(whole.subrange(3, end) =~= y.calldata);
        assert(x =~= y);
        assert(whole.subrange(end, whole.len() as int) =~= rest_a);
        assert(whole.subrange(end, whole.len() as int) =~= rest_b);
        lemma_encoded_call_list_injective(a.drop_first(), b.drop_first());
        assert(a =~= seq![x] + a.drop_first());
        assert(b =~= seq![y] + b.drop_first());
    }
}

/// Lists of as many calls that agree in the legacy encoding but for the joined calldata agree in
/// everything but that.
proof fn lemma_legacy_call_list_injective(a: Seq<CallView>, b: Seq<CallView>)
    requires
        a.len() == b.len(),
        legacy_call_list(a) == legacy_call_list(b),
    ensures
        forall|i: int|
            0 <= i < a.len() ==> (#[trigger] a[i]).to == b[i].to && a[i].selector == b[i].selector
                && a[i].calldata.len() == b[i].calldata.len(),
    decreases a.len(),
{
    if a.len() > 0 {
        let whole = legacy_call_list(a);
        let n = whole.len() as int;
        let rest_a = legacy_call_list(a.drop_last());
        let rest_b = legacy_call_list(b.drop_last());
        assert(n == rest_a.len() + 4 && n == rest_b.len() + 4);
        assert(whole.subrange(0, n - 4) =~= rest_a);
        assert(whole.subrange(0, n - 4) =~= rest_b);
        lemma_legacy_call_list_injective(a.drop_last(), b.drop_last());
        assert(whole[n - 4] == a.last().to && whole[n - 4] == b.last().to);
        assert(whole[n - 3] == a.last().selector && whole[n - 3] == b.last().selector);
        assert(whole[n - 1] == a.last().calldata.len() && whole[n - 1] == b.last().calldata.len());
        assert forall|i: int| 0 <= i < a.len() implies (#[trigger] a[i]).to == b[i].to
            && a[i].selector == b[i].selector && a[i].calldata.len() == b[i].calldata.len() by {
            if i < a.len() - 1 {
                assert(a.drop_last()[i] == a[i]);
                assert(b.drop_last()[i] == b[i]);
            }
        }
    }
}

/// Joined calldata falls apart in one way only, once the length of each part is known.
proof fn lemma_joined_calldata_injective(a: Seq<CallView>, b: Seq<CallView>)
    requires
        a.len() == b.len(),
        joined_calldata(a) == joined_calldata(b),
        forall|i: int| 0 <= i < a.len() ==> (#[trigger] a[i]).calldata.len() == b[i].calldata.len(),
    ensures
        forall|i: int| 0 <= i < a.len() ==> (#[trigger] a[i]).calldata == b[i].calldata,
    decreases a.len(),
{
    if a.len() > 0 {
        let whole = joined_calldata(a);
        let n = whole.len() as int;
        assert(a.last().calldata.len() == b.last().calldata.len()) by {
            assert(a[a.len() - 1].calldata.len() == b[a.len() - 1].calldata.len());
        }
        let cut = n - a.last().calldata.len();
        assert(whole.subrange(cut, n) =~= a.last().calldata);
        assert(whole.subrange(cut, n) =~= b.last().calldata);
        assert(whole.subrange(0, cut) =~= joined_calldata(a.drop_last()));
        assert(whole.subrange(0, cut) =~= joined_calldata(b.drop_last()));
        assert forall|i: int| 0 <= i < a.len() - 1 implies (#[trigger] a.drop_last()[i]).calldata.len()
            == b.drop_last()[i].calldata.len() by {
            assert(a[i].calldata.len() == b[i].calldata.len());
        }
        lemma_joined_calldata_injective(a.drop_last(), b.drop_last());
        assert forall|i: int| 0 <= i < a.len() implies (#[trigger] a[i]).calldata
            == b[i].calldata by {
            if i < a.len() - 1 {
                assert(a.drop_last()[i].calldata == b.drop_last()[i].calldata);
            }
        }
    }
}

/// The list of calls without calldata takes four numbers per call.
proof fn lemma_legacy_call_list_len(calls: Seq<CallView>)
    ensures
        legacy_call_list(calls).len() == 4 * calls.len(),
    decreases calls.len(),
{
    if calls.len() > 0 {
        lemma_legacy_call_list_len(calls.drop_last());
    }
}

/// Calldata tells the calls apart: in either encoding, different lists of calls are encoded
/// differently.
pub proof fn law_encoding_injective(
    encoding: ExecutionEncoding,
    a: Seq<CallView>,
    b: Seq<CallView>,
)
    requires
        encoded_calls(encoding, a) == encoded_calls(encoding, b),
    ensures
        a == b,
{
    let whole = encoded_calls(encoding, a);
    let end = whole.len() as int;
    assert(whole[0] == a.len() && whole[0] == b.len());
    match encoding {
        ExecutionEncoding::New => {
            assert(whole.subrange(1, end) =~= encoded_call_list(a));
            assert(whole.subrange(1, end) =~= encoded_call_list(b));
            lemma_encoded_call_list_injective(a, b);
        },
        ExecutionEncoding::Legacy => {
            lemma_legacy_call_list_len(a);
            lemma_legacy_call_list_len(b);
            let cut = 1 + 4 * a.len() as int;
            assert(whole.subrange(1, cut) =~= legacy_call_list(a));
            assert(whole.subrange(1, cut) =~= legacy_call_list(b));
            assert(whole.subrange(cut + 1, end) =~= joined_calldata(a));
            assert(whole.subrange(cut + 1, end) =~= joined_calldata(b));
            lemma_legacy_call_list_injective(a, b);
            lemma_joined_calldata_injective(a, b);
            assert forall|i: int| 0 <= i < a.len() implies #[trigger] a[i] == b[i] by {
                assert(a[i].calldata == b[i].calldata);
                assert(a[i] =~= b[i]);
            }
            assert(a =~= b);
        },
    }
}

/// Reads self-contained calls, as many as `count`, and nothing after them: a target, a selector, a
/// length, and that many felts for each.
pub open spec fn read_calls(data: Seq<nat>, count: nat) -> Option<Seq<CallView>>
    decreases count,
{
    if count == 0 {
        if data.len() == 0 {
            Some(Seq::empty())
        } else {
            None
        }
    } else if data.len() < 3 || data.len() < 3 + data[2] {
        None
    } else {
        let end = 3 + data[2] as int;
        let call = CallView { to: data[0], selector: data[1], calldata: data.subrange(3, end) };
        match read_calls(data.subrange(end, data.len() as int), (count - 1) as nat) {
            Some(rest) => Some(seq![call] + rest),
            None => None,
        }
    }
}

/// Reads calls whose calldata stands together at the end: for each call a target, a selector, where
/// its calldata starts and how long it is; then the length of all calldata, and the calldata.
pub open spec fn read_legacy_calls(data: Seq<nat>, count: nat) -> Option<Seq<CallView>> {
    let rest = data.subrange(1 + 4 * count as int, data.len() as int);
    if data.len() < 2 + 4 * count || rest.len() != 1 + rest[0] {
        None
    } else {
        Some(
            Seq::new(
                count,
                |i: int|
                    CallView {
                        to: data[1 + 4 * i],
                        selector: data[2 + 4 * i],
                        calldata: rest.subrange(
                            1 + data[3 + 4 * i] as int,
                            1 + data[3 + 4 * i] as int + data[4 + 4 * i],
                        ),
                    },
            ),
        )
    }
}

/// Reads the calldata of `__execute__` as a contract does: how many calls there are, then the calls.
pub open spec fn read_calldata(encoding: ExecutionEncoding, data: Seq<nat>) -> Option<
    Seq<CallView>,
> {
    if data.len() == 0 {
        None
    } else {
        match encoding {
            ExecutionEncoding::New => read_calls(data.subrange(1, data.len() as int), data[0]),
            ExecutionEncoding::Legacy => read_legacy_calls(data, data[0]),
        }
    }
}

/// Reading back self-contained calls gives the calls.
proof fn lemma_read_calls(calls: Seq<CallView>)
    ensures
        read_calls(encoded_call_list(calls), calls.len()) == Some(calls),
    decreases calls.len(),
{
    let data = encoded_call_list(calls);
    if calls.len() == 0 {
        assert(calls =~= Seq::empty());
    } else {
        lemma_encoded_call_list_front(calls);
        let first = calls.first();
        let rest = calls.drop_first();
        lemma_read_calls(rest);
        let end = 3 + first.calldata.len() as int;
        assert(data == encoded_call(first) + encoded_call_list(rest));
        assert(data[0] == first.to);
        assert(data[1] == first.selector);
        assert(data[2] == first.calldata.len());
        assert(data.subrange(3, end) =~= first.calldata);
        assert(data.subrange(end, data.len() as int) =~= encoded_call_list(rest));
        let call = CallView { to: data[0], selector: data[1], calldata: data.subrange(3, end) };
        assert(call =~= first);
        assert(seq![call] + rest =~= calls);
    }
}

/// The entry of call `i` in the legacy encoding, and where its calldata stands.
proof fn lemma_legacy_entry(calls: Seq<CallView>, i: int)
    requires
        0 <= i < calls.len(),
    ensures
        ({
            let list = legacy_call_list(calls);
            let joined = joined_calldata(calls);
            let start = joined_calldata(calls.take(i)).len() as int;
            &&& list.len() == 4 * calls.len()
            &&& list[4 * i] == calls[i].to
            &&& list[4 * i + 1] == calls[i].selector
            &&& list[4 * i + 2] == start
            &&& list[4 * i + 3] == calls[i].calldata.len()
            &&& start + calls[i].calldata.len() <= joined.len()
            &&& joined.subrange(start, start + calls[i].calldata.len()) == calls[i].calldata
        }),
    decreases calls.len(),
{
    lemma_legacy_call_list_len(calls);
    let before = calls.drop_last();
    lemma_legacy_call_list_len(before);
    let joined = joined_calldata(calls);
    if i == calls.len() - 1 {
        assert(calls.take(i) =~= before);
        let start = joined_calldata(before).len() as int;
        assert(joined.subrange(start, start + calls[i].calldata.len()) =~= calls[i].calldata);
    } else {
        lemma_legacy_entry(before, i);
        assert(before[i] == calls[i]);
        assert(before.take(i) =~= calls.take(i));
        let start = joined_calldata(calls.take(i)).len() as int;
        let end = start + calls[i].calldata.len();
        assert(joined.subrange(start, end) =~= joined_calldata(before).subrange(start, end));
    }
}

/// A contract that reads the calldata finds the calls that were encoded, every one with its own
/// target, selector and calldata, in their order and with nothing left over.
pub proof fn law_calldata_reads_back(encoding: ExecutionEncoding, calls: Seq<CallView>)
    ensures
        read_calldata(encoding, encoded_calls(encoding, calls)) == Some(calls),
{
    let whole = encoded_calls(encoding, calls);
    let n = calls.len();
    assert(whole[0] == n);
    match encoding {
        ExecutionEncoding::New => {
            lemma_read_calls(calls);
            assert(whole.subrange(1, whole.len() as int) =~= encoded_call_list(calls));
        },
        ExecutionEncoding::Legacy => {
            lemma_legacy_call_list_len(calls);
            let list = legacy_call_list(calls);
            let joined = joined_calldata(calls);
            let rest = whole.subrange(1 + 4 * n as int, whole.len() as int);
            assert(rest =~= seq![joined.len()] + joined);
            let read = read_legacy_calls(whole, n);
            assert(read is Some);
            assert forall|i: int| 0 <= i < n implies #[trigger] read->0[i] == calls[i] by {
                lemma_legacy_entry(calls, i);
                assert(whole[1 + 4 * i] == list[4 * i]);
                assert(whole[2 + 4 * i] == list[4 * i + 1]);
                assert(whole[3 + 4 * i] == list[4 * i + 2]);
                assert(whole[4 + 4 * i] == list[4 * i + 3]);
                let start = whole[3 + 4 * i] as int;
                let len = whole[4 + 4 * i] as int;
                assert(rest.subrange(1 + start, 1 + start + len) =~= joined.subrange(
                    start,
                    start + len,
                ));
                assert(read->0[i] =~= calls[i]);
            }
            assert(read->0 =~= calls);
        },
    }
}

/// The calldata of one call, felt by felt.
pub proof fn law_calldata_of_one_call(call: CallView)
    ensures
        encoded_calls(ExecutionEncoding::New, seq![call]) == seq![
            1nat,
            call.to,
            call.selector,
            call.calldata.len(),
        ] + call.calldata,
        encoded_calls(ExecutionEncoding::Legacy, seq![call]) == seq![
            1nat,
            call.to,
            call.selector,
            0nat,
            call.calldata.len(),
            call.calldata.len(),
        ] + call.calldata,
{
    let calls = seq![call];
    assert(calls.drop_last() =~= Seq::empty());
    reveal_with_fuel(encoded_call_list, 2);
    reveal_with_fuel(legacy_call_list, 2);
    reveal_with_fuel(joined_calldata, 2);
    assert(encoded_calls(ExecutionEncoding::New, calls) =~= seq![
        1nat,
        call.to,
        call.selector,
        call.calldata.len(),
    ] + call.calldata);
    assert(encoded_calls(ExecutionEncoding::Legacy, calls) =~= seq![
        1nat,
        call.to,
        call.selector,
        0nat,
        call.calldata.len(),
        call.calldata.len(),
    ] + call.calldata);
}

/// Without calls the calldata is their number, and in the legacy encoding the length of the empty
/// joined calldata. One more call that is self-contained raises the number and is added at the end.
pub proof fn law_calldata_grows_by_one_call(calls: Seq<CallView>, call: CallView)
    ensures
        encoded_calls(ExecutionEncoding::New, Seq::empty()) == seq![0nat],
        encoded_calls(ExecutionEncoding::Legacy, Seq::empty()) == seq![0nat, 0nat],
        encoded_calls(ExecutionEncoding::New, calls.push(call)) == encoded_calls(
            ExecutionEncoding::New,
            calls,
        ).update(0, calls.len() + 1) + seq![call.to, call.selector, call.calldata.len()]
            + call.calldata,
{
    assert(encoded_calls(ExecutionEncoding::New, Seq::empty()) =~= seq![0nat]);
    assert(encoded_calls(ExecutionEncoding::Legacy, Seq::empty()) =~= seq![0nat, 0nat]);
    assert(calls.push(call).drop_last() =~= calls);
    assert(encoded_calls(ExecutionEncoding::New, calls.push(call)) =~= encoded_calls(
        ExecutionEncoding::New,
        calls,
    ).update(0, calls.len() + 1) + seq![call.to, call.selector, call.calldata.len()]
        + call.calldata);
}

/// Where each felt of the legacy calldata stands: the number of calls; four felts for call `i`; the
/// length of all calldata; and the calldata. The calldata of the first call starts at zero, and that
/// of every other where the one before it ends.
pub proof fn law_legacy_calldata_layout(calls: Seq<CallView>, i: int)
    requires
        0 <= i < calls.len(),
    ensures
        ({
            let data = encoded_calls(ExecutionEncoding::Legacy, calls);
            let n = calls.len();
            &&& data[0] == n
            &&& data[1 + 4 * i] == calls[i].to
            &&& data[2 + 4 * i] == calls[i].selector
            &&& data[3] == 0
            &&& i + 1 < n ==> data[3 + 4 * (i + 1)] == data[3 + 4 * i] + data[4 + 4 * i]
            &&& i + 1 == n ==> data[1 + 4 * n as int] == data[3 + 4 * i] + data[4 + 4 * i]
            &&& data[4 + 4 * i] == calls[i].calldata.len()
            &&& data.len() == 2 + 4 * n + data[1 + 4 * n as int]
        }),
{
    let data = encoded_calls(ExecutionEncoding::Legacy, calls);
    let list = legacy_call_list(calls);
    let n = calls.len() as int;
    lemma_legacy_call_list_len(calls);
    lemma_legacy_entry(calls, 0);
    lemma_legacy_entry(calls, i);
    assert(calls.take(0) =~= Seq::empty());
    assert(calls.take(i + 1).drop_last() =~= calls.take(i));
    assert(data[3] == list[2]);
    assert(data[1 + 4 * i] == list[4 * i]);
    assert(data[2 + 4 * i] == list[4 * i + 1]);
    assert(data[3 + 4 * i] == list[4 * i + 2]);
    assert(data[4 + 4 * i] == list[4 * i + 3]);
    if i + 1 < n {
        lemma_legacy_entry(calls, i + 1);
        assert(data[3 + 4 * (i + 1)] == list[4 * (i + 1) + 2]);
    } else {
        assert(calls.take(i + 1) =~= calls);
    }
}

/// Field by field, what the hash of a transaction covers: the sender and the chain are the
/// account's, the nonce is the given one, the calldata reads as the calls, and everything else is
/// the same for every transaction.
pub proof fn law_hash_input_fields(account: SenderAccount, calls: Seq<CallView>, nonce: nat)
    ensures
        ({
            let input = invoke_hash_input(account, calls, nonce);
            &&& input.sender_address == account.address@
            &&& input.chain_id == account.chain_id@
            &&& input.nonce == nonce
            &&& read_calldata(account.encoding, input.calldata) == Some(calls)
            &&& input.tip == 0
            &&& input.resource_bounds.l1_gas.max_amount == 20000005000
            &&& input.resource_bounds.l1_gas.max_price_per_unit == 20000005000
            &&& input.resource_bounds.l2_gas.max_amount == 0
            &&& input.resource_bounds.l2_gas.max_price_per_unit == 0
            &&& input.paymaster_data.len() == 0
            &&& input.account_deployment_data.len() == 0
            &&& input.nonce_data_availability_mode == DataAvailabilityMode::L1
            &&& input.fee_data_availability_mode == DataAvailabilityMode::L1
            &&& !input.is_query
        }),
{
    law_calldata_reads_back(account.encoding, calls);
}

/// Field by field, what a sent transaction holds: the sender is the account, the nonce is the given
/// one, the calldata reads as the calls, the signature is its two parts in order, and everything
/// else is the same for every transaction.
pub proof fn law_transaction_fields(
    account: SenderAccount,
    calls: Seq<CallView>,
    nonce: nat,
    signature: (nat, nat),
)
    ensures
        ({
            let sent = invoke_transaction(account, calls, nonce, signature);
            &&& sent.sender_address == account.address@
            &&& sent.nonce == nonce
            &&& sent.signature.len() == 2
            &&& sent.signature[0] == signature.0
            &&& sent.signature[1] == signature.1
            &&& read_calldata(account.encoding, sent.calldata) == Some(calls)
            &&& sent.tip == 0
            &&& sent.resource_bounds.l1_gas.max_amount == 20000005000
            &&& sent.resource_bounds.l1_gas.max_price_per_unit == 20000005000
            &&& sent.resource_bounds.l2_gas.max_amount == 0
            &&& sent.resource_bounds.l2_gas.max_price_per_unit == 0
            &&& sent.paymaster_data.len() == 0
            &&& sent.account_deployment_data.len() == 0
            &&& sent.nonce_data_availability_mode == DataAvailabilityMode::L1
            &&& sent.fee_data_availability_mode == DataAvailabilityMode::L1
            &&& !sent.is_query
        }),
{
    law_calldata_reads_back(account.encoding, calls);
}

/// The hash tells transactions apart: accounts with the same encoding hash the same only for the
/// same address, chain, calls and nonce.
pub proof fn law_hash_input_determines_transaction(
    a: SenderAccount,
    calls_a: Seq<CallView>,
    nonce_a: nat,
    b: SenderAccount,
    calls_b: Seq<CallView>,
    nonce_b: nat,
)
    requires
        a.encoding == b.encoding,
        invoke_hash_input(a, calls_a, nonce_a) == invoke_hash_input(b, calls_b, nonce_b),
    ensures
        a.address@ == b.address@,
        a.chain_id@ == b.chain_id@,
        calls_a == calls_b,
        nonce_a == nonce_b,
{
    law_hash_input_fields(a, calls_a, nonce_a);
    law_hash_input_fields(b, calls_b, nonce_b);
}

/// Hashes are signed below `2^251`, and the curve has fewer points than the field has elements but
/// more than that bound.
pub proof fn law_signing_constants()
    ensures
        element_upper_bound() == 0x800_0000_0000_0000nat
            * 0x1_0000000000000000_0000000000000000_0000000000000000nat,
        curve_order() == 0x800000000000010ffffffffffffffffb781126dcae7b2321e66a241adc64d2fnat,
        element_upper_bound() < curve_order() < crate::felt::prime(),
{
}

/// The values of a list of calls stand in the places of the calls.
pub proof fn law_call_views_in_place(calls: Seq<Call>)
    ensures
        call_views(calls).len() == calls.len(),
        forall|i: int|
            0 <= i < calls.len() ==> (#[trigger] call_views(calls)[i]).to == calls[i].to@
                && call_views(calls)[i].selector == calls[i].selector@
                && call_views(calls)[i].calldata == values(calls[i].calldata@),
{
}

/// The values of what is hashed, and of what is sent, are those of their fields.
pub proof fn law_transaction_view_fields(
    input: InvokeHashInput,
    sent: BroadcastedInvokeTransactionV3,
)
    ensures
        input@.sender_address == input.sender_address@,
        input@.calldata == values(input.calldata@),
        input@.tip == input.tip,
        input@.resource_bounds == input.resource_bounds,
        input@.paymaster_data == values(input.paymaster_data@),
        input@.chain_id == input.chain_id@,
        input@.nonce == input.nonce@,
        input@.nonce_data_availability_mode == input.nonce_data_availability_mode,
        input@.fee_data_availability_mode == input.fee_data_availability_mode,
        input@.account_deployment_data == values(input.account_deployment_data@),
        input@.is_query == input.is_query,
        sent@.sender_address == sent.sender_address@,
        sent@.calldata == values(sent.calldata@),
        sent@.signature == values(sent.signature@),
        sent@.nonce == sent.nonce@,
        sent@.resource_bounds == sent.resource_bounds,
        sent@.tip == sent.tip,
        sent@.paymaster_data == values(sent.paymaster_data@),
        sent@.account_deployment_data == values(sent.account_deployment_data@),
        sent@.nonce_data_availability_mode == sent.nonce_data_availability_mode,
        sent@.fee_data_availability_mode == sent.fee_data_availability_mode,
        sent@.is_query == sent.is_query,
{
}

} // verus!
