//! Bindings of the contract that the benchmark drives: its argument types, and the calls that its
//! entry points take.
use crate::felt::{felt_from_raw, half_weight, limbs_value, lemma_raw_determines_value, prime,
    raw_factor, values, Felt};
use vstd::prelude::*;

verus! {

/// The selector of the entry point `move`.
pub open spec fn move_selector_value() -> nat {
    0x239e4c8fbd11b680d7214cfc26d1780d5c099453f0832beb15fd040aebd4ebbnat
}

/// The selector of the entry point `spawn`.
pub open spec fn spawn_selector_value() -> nat {
    0x217c73ea9ef26581623f20edd45571c1d024612b70d0af3e0842c5b0dc253cdnat
}

/// The address of the actions contract.
pub open spec fn actions_contract_value() -> nat {
    0x1455a4751d41c1daa6a672c46037c1df81d50fa9daeea653e8946026f6653e2nat
}

/// One call into a contract.
#[derive(Debug, PartialEq, Eq)]
pub struct Call {
    pub to: Felt,
    pub selector: Felt,
    pub calldata: Vec<Felt>,
}

/// The values of a [`Call`].
#[verifier::ext_equal]
pub struct CallView {
    pub to: nat,
    pub selector: nat,
    pub calldata: Seq<nat>,
}

impl View for Call {
    type V = CallView;

    open spec fn view(&self) -> CallView {
        CallView { to: self.to@, selector: self.selector@, calldata: values(self.calldata@) }
    }
}

/// A block that is named rather than numbered.
#[derive(Clone, Copy, Debug, PartialEq, Eq, Structural)]
pub enum BlockTag {
    Latest,
    Pending,
}

/// The block that a query runs against.
#[derive(Clone, Copy, Debug, PartialEq, Eq, Structural)]
pub enum BlockId {
    Hash(Felt),
    Number(u64),
    Tag(BlockTag),
}

/// Why a value could not be read from felts.
#[derive(Debug, PartialEq, Eq)]
pub enum CairoSerdeError {
    Deserialize(String),
}

/// Where a player is headed. `Nowhere` is the first variant of the contract's type.
#[derive(Clone, Copy, Debug, PartialEq, Eq, Structural)]
pub enum Direction {
    Nowhere,
    Left,
    Right,
    Up,
    Down,
}

/// The variant's number in the contract's type.
pub open spec fn direction_index(direction: Direction) -> nat {
    match direction {
        Direction::Nowhere => 0,
        Direction::Left => 1,
        Direction::Right => 2,
        Direction::Up => 3,
        Direction::Down => 4,
    }
}

/// The felts that a direction is written as: the number of its variant.
pub open spec fn serialized_direction(direction: Direction) -> Seq<nat> {
    seq![direction_index(direction)]
}

/// The low bits of a number, as many as a `usize` has.
pub open spec fn low_usize(value: nat) -> nat {
    if usize::MAX == 0xffff_ffff {
        value % 0x1_0000_0000
    } else {
        value % 0x1_0000_0000_0000_0000
    }
}

/// The variant that a felt is read as: the value's low bits, as many as a `usize` has, are its
/// number.
pub open spec fn direction_of(value: nat) -> Option<Direction> {
    let index = low_usize(value);
    if index == 0 {
        Some(Direction::Nowhere)
    } else if index == 1 {
        Some(Direction::Left)
    } else if index == 2 {
        Some(Direction::Right)
    } else if index == 3 {
        Some(Direction::Up)
    } else if index == 4 {
        Some(Direction::Down)
    } else {
        None
    }
}

/// `usize::cairo_serialize` of `cainome`: one felt, whose value is the number.
#[verifier::external_body]
fn usize_cairo_serialize(n: &usize) -> (felts: Vec<Felt>)
    ensures
        values(felts@) == seq![*n as nat],
{
    let felts = <usize as cainome::cairo_serde::CairoSerde>::cairo_serialize(n);
    felts
        .iter()
        .map(|felt| {
            let bytes = felt.to_bytes_be();
            let hi = u128::from_be_bytes(bytes[..16].try_into().unwrap());
            let lo = u128::from_be_bytes(bytes[16..].try_into().unwrap());
            Felt::new(hi, lo).unwrap()
        })
        .collect()
}

impl Direction {
    /// How many felts the serialized direction takes.
    pub fn cairo_serialized_size(direction: &Direction) -> (size: usize)
        ensures
            size == 1,
            size == serialized_direction(*direction).len(),
    {
        match direction {
            Direction::Nowhere => 1,
            Direction::Left => 1,
            Direction::Right => 1,
            Direction::Up => 1,
            Direction::Down => 1,
        }
    }

    /// The direction as felts: the number of its variant.
    pub fn cairo_serialize(direction: &Direction) -> (felts: Vec<Felt>)
        ensures
            values(felts@) == serialized_direction(*direction),
            felts@.len() == 1,
            felts@[0]@ == (match *direction {
                Direction::Nowhere => 0nat,
                Direction::Left => 1nat,
                Direction::Right => 2nat,
                Direction::Up => 3nat,
                Direction::Down => 4nat,
            }),
    {
        let felts: Vec<Felt> = match direction {
            Direction::Nowhere => usize_cairo_serialize(&0usize),
            Direction::Left => usize_cairo_serialize(&1usize),
            Direction::Right => usize_cairo_serialize(&2usize),
            Direction::Up => usize_cairo_serialize(&3usize),
            Direction::Down => usize_cairo_serialize(&4usize),
        };
        assert(values(felts@).len() == 1);
        assert(values(felts@)[0] == felts@[0]@);
        felts
    }

    /// Reads a direction from the felt at `offset`.
    pub fn cairo_deserialize(felts: &[Felt], offset: usize) -> (direction: Result<
        Direction,
        CairoSerdeError,
    >)
        requires
            offset < felts@.len(),
        ensures
            match direction_of(felts@[offset as int]@) {
                Some(d) => direction == Ok::<Direction, CairoSerdeError>(d),
                None => direction matches Err(CairoSerdeError::Deserialize(message)) && message@
                    == "Index not handle for enum Direction"@,
            },
            direction is Ok <==> felts@[offset as int]@ % (usize::MAX as nat + 1) < 5,
            direction matches Ok(d) ==> felts@[offset as int]@ % (usize::MAX as nat + 1) == (match d {
                Direction::Nowhere => 0nat,
                Direction::Left => 1nat,
                Direction::Right => 2nat,
                Direction::Up => 3nat,
                Direction::Down => 4nat,
            }),
    {
        let felt: Felt = felts[offset];
        let index: u128 = felt.lo() % (usize::MAX as u128 + 1);
        proof {
            lemma_low_bits(felt@);
        }
        if index == 0 {
            Ok(Direction::Nowhere)
        } else if index == 1 {
            Ok(Direction::Left)
        } else if index == 2 {
            Ok(Direction::Right)
        } else if index == 3 {
            Ok(Direction::Up)
        } else if index == 4 {
            Ok(Direction::Down)
        } else {
            Err(CairoSerdeError::Deserialize("Index not handle for enum Direction".to_string()))
        }
    }
}

/// Cutting a value to 128 bits first does not change its low `usize`.
proof fn lemma_low_bits(value: nat)
    ensures
        (value % half_weight()) % (usize::MAX as nat + 1) == low_usize(value),
{
    let m = usize::MAX as int + 1;
    assert(m == 0x1_0000_0000 || m == 0x1_0000_0000_0000_0000);
    let k = half_weight() as int / m;
    assert(half_weight() as int == m * k);
    vstd::arithmetic::div_mod::lemma_mod_mod(value as int, m, k);
}

/// The selector of the entry point `move`.
fn move_selector() -> (selector: Felt)
    ensures
        selector@ == move_selector_value(),
{
    let limbs: [u64; 4] = [
        67542746491835804,
        12863064398400549321,
        17438469324404153095,
        10377031306845665431,
    ];
    proof {
        lemma_move_selector_raw();
    }
    let selector: Felt = felt_from_raw(limbs);
    proof {
        lemma_raw_determines_value(selector@, move_selector_value());
    }
    selector
}

/// The selector of the entry point `spawn`.
fn spawn_selector() -> (selector: Felt)
    ensures
        selector@ == spawn_selector_value(),
{
    let limbs: [u64; 4] = [
        427316234342132431,
        10119134573058282481,
        17664319446359752539,
        173372654641669380,
    ];
    proof {
        lemma_spawn_selector_raw();
    }
    let selector: Felt = felt_from_raw(limbs);
    proof {
        lemma_raw_determines_value(selector@, spawn_selector_value());
    }
    selector
}

proof fn lemma_move_selector_raw()
    ensures
        (move_selector_value() * raw_factor()) % prime() == limbs_value(
            seq![
                67542746491835804u64,
                12863064398400549321u64,
                17438469324404153095u64,
                10377031306845665431u64,
            ],
        ),
{
    let raw = 0xeff5c523ccd59cb282c8eb3da371c9f201e37523a7db0790029efe63a4b897int;
    let q = 32221279889110694237232453363867517455758687501772825964967848026574918731625int;
    assert(move_selector_value() * raw_factor() == q * prime() + raw);
    vstd::arithmetic::div_mod::lemma_fundamental_div_mod_converse(
        (move_selector_value() * raw_factor()) as int,
        prime() as int,
        q,
        raw,
    );
}

proof fn lemma_spawn_selector_raw()
    ensures
        (spawn_selector_value() * raw_factor()) % prime() == limbs_value(
            seq![
                427316234342132431u64,
                10119134573058282481u64,
                17664319446359752539u64,
                173372654641669380u64,
            ],
        ),
{
    let raw = 0x5ee21d9e2b86acf8c6e6347dd8353f1f52444f2674c3f5b0267f182c5aee504int;
    let q = 30292426130953538553709003470956363876498629285423910786424206828692325866236int;
    assert(spawn_selector_value() * raw_factor() == q * prime() + raw);
    vstd::arithmetic::div_mod::lemma_fundamental_div_mod_converse(
        (spawn_selector_value() * raw_factor()) as int,
        prime() as int,
        q,
        raw,
    );
}

/// The address of the actions contract.
pub fn actions_contract() -> (address: Felt)
    ensures
        address@ == actions_contract_value(),
        address@ == 0x1455a4751d41c1daa6a672c46037c1df81d50fa9daeea653e8946026f6653e2nat,
{
    Felt::new(0x1455a4751d41c1daa6a672c46037c1d, 0xf81d50fa9daeea653e8946026f6653e2).unwrap()
}

/// The contract as seen by an account that can execute its entry points.
#[derive(Debug)]
pub struct SpawnAndMoveAction<A> {
    pub address: Felt,
    pub account: A,
    pub block_id: BlockId,
}

impl<A> SpawnAndMoveAction<A> {
    /// Binds the contract at `address` to `account`. Queries run against the pending block.
    pub fn new(address: Felt, account: A) -> (action: Self)
        ensures
            action.address == address,
            action.account == account,
            action.block_id == BlockId::Tag(BlockTag::Pending),
    {
        Self { address, account, block_id: BlockId::Tag(BlockTag::Pending) }
    }

    /// Points the binding at another contract.
    pub fn set_contract_address(&mut self, address: Felt)
        ensures
            final(self).address == address,
            final(self).account == old(self).account,
            final(self).block_id == old(self).block_id,
    {
        self.address = address;
    }

    /// Runs queries against another block.
    pub fn set_block(&mut self, block_id: BlockId)
        ensures
            final(self).block_id == block_id,
            final(self).address == old(self).address,
            final(self).account == old(self).account,
    {
        self.block_id = block_id;
    }

    /// The binding with queries against another block.
    pub fn with_block(self, block_id: BlockId) -> (action: Self)
        ensures
            action.block_id == block_id,
            action.address == self.address,
            action.account == self.account,
    {
        Self { block_id, ..self }
    }

    /// The call that moves the player.
    pub fn move_getcall(&self, direction: &Direction) -> (call: Call)
        ensures
            call@ == move_call(self.address@, *direction),
            call.to == self.address,
            call.selector@ == 0x239e4c8fbd11b680d7214cfc26d1780d5c099453f0832beb15fd040aebd4ebbnat,
            call.calldata@.len() == 1,
            call.calldata@[0]@ == (match *direction {
                Direction::Nowhere => 0nat,
                Direction::Left => 1nat,
                Direction::Right => 2nat,
                Direction::Up => 3nat,
                Direction::Down => 4nat,
            }),
    {
        let calldata: Vec<Felt> = Direction::cairo_serialize(direction);
        Call { to: self.address, selector: move_selector(), calldata }
    }

    /// The calls that the account executes to spawn the player.
    pub fn spawn(&self) -> (calls: Vec<Call>)
        ensures
            calls@.len() == 1,
            calls@[0]@ == spawn_call(self.address@),
            calls@[0].to == self.address,
            calls@[0].selector@
                == 0x217c73ea9ef26581623f20edd45571c1d024612b70d0af3e0842c5b0dc253cdnat,
            calls@[0].calldata@.len() == 0,
    {
        let calldata: Vec<Felt> = Vec::new();
        let call: Call = Call { to: self.address, selector: spawn_selector(), calldata };
        assert(values(call.calldata@) =~= Seq::<nat>::empty());
        let mut calls: Vec<Call> = Vec::new();
        calls.push(call);
        calls
    }
}

/// The values of the call that moves the player.
pub open spec fn move_call(address: nat, direction: Direction) -> CallView {
    CallView {
        to: address,
        selector: move_selector_value(),
        calldata: serialized_direction(direction),
    }
}

/// The values of the call that spawns the player.
pub open spec fn spawn_call(address: nat) -> CallView {
    CallView { to: address, selector: spawn_selector_value(), calldata: Seq::empty() }
}

/// The contract as seen by a provider that can only read.
#[derive(Debug)]
pub struct SpawnAndMoveActionReader<P> {
    pub address: Felt,
    pub provider: P,
    pub block_id: BlockId,
}

impl<P> SpawnAndMoveActionReader<P> {
    /// Binds the contract at `address` to `provider`. Queries run against the pending block.
    pub fn new(address: Felt, provider: P) -> (reader: Self)
        ensures
            reader.address == address,
            reader.provider == provider,
            reader.block_id == BlockId::Tag(BlockTag::Pending),
    {
        Self { address, provider, block_id: BlockId::Tag(BlockTag::Pending) }
    }

    /// Points the binding at another contract.
    pub fn set_contract_address(&mut self, address: Felt)
        ensures
            final(self).address == address,
            final(self).provider == old(self).provider,
            final(self).block_id == old(self).block_id,
    {
        self.address = address;
    }

    /// The provider that queries go through.
    pub fn provider(&self) -> (provider: &P)
        ensures
            *provider == self.provider,
    {
        &self.provider
    }

    /// Runs queries against another block.
    pub fn set_block(&mut self, block_id: BlockId)
        ensures
            final(self).block_id == block_id,
            final(self).address == old(self).address,
            final(self).provider == old(self).provider,
    {
        self.block_id = block_id;
    }

    /// The binding with queries against another block.
    pub fn with_block(self, block_id: BlockId) -> (reader: Self)
        ensures
            reader.block_id == block_id,
            reader.address == self.address,
            reader.provider == self.provider,
    {
        Self { block_id, ..self }
    }
}

/// Reading back a written direction gives that direction, whatever felts stand around it.
pub proof fn law_direction_round_trip(direction: Direction, before: Seq<nat>, after: Seq<nat>)
    ensures
        direction_of((before + serialized_direction(direction) + after)[before.len() as int])
            == Some(direction),
{
}

/// Different directions are written differently.
pub proof fn law_direction_injective(a: Direction, b: Direction)
    requires
        serialized_direction(a) == serialized_direction(b),
    ensures
        a == b,
{
    assert(serialized_direction(a)[0] == direction_index(a));
    assert(serialized_direction(b)[0] == direction_index(b));
}

/// A move goes to the given contract, enters at the selector of `move`, and hands over one felt: the
/// number of the direction.
pub proof fn law_move_call_fields(address: nat, direction: Direction)
    ensures
        move_call(address, direction).to == address,
        move_call(address, direction).selector
            == 0x239e4c8fbd11b680d7214cfc26d1780d5c099453f0832beb15fd040aebd4ebbnat,
        move_call(address, direction).calldata == seq![
            match direction {
                Direction::Nowhere => 0nat,
                Direction::Left => 1nat,
                Direction::Right => 2nat,
                Direction::Up => 3nat,
                Direction::Down => 4nat,
            },
        ],
{
}

/// A spawn goes to the given contract, enters at the selector of `spawn`, and hands over nothing.
pub proof fn law_spawn_call_fields(address: nat)
    ensures
        spawn_call(address).to == address,
        spawn_call(address).selector
            == 0x217c73ea9ef26581623f20edd45571c1d024612b70d0af3e0842c5b0dc253cdnat,
        spawn_call(address).calldata == Seq::<nat>::empty(),
{
}

/// Moving and spawning are told apart by the selector, whatever the contracts and the direction.
pub proof fn law_move_is_not_spawn(a: nat, b: nat, direction: Direction)
    ensures
        move_call(a, direction).selector != spawn_call(b).selector,
{
}

/// Which direction a felt is read as depends on its value modulo the number of `usize` values:
/// a direction is read exactly where that is its number, and none where it is five or more.
pub proof fn law_direction_read_by_number(value: nat, direction: Direction)
    ensures
        direction_of(value) == Some(direction) <==> value % (usize::MAX as nat + 1) == (match direction {
                Direction::Nowhere => 0nat,
                Direction::Left => 1nat,
                Direction::Right => 2nat,
                Direction::Up => 3nat,
                Direction::Down => 4nat,
            }),
        direction_of(value) is None <==> value % (usize::MAX as nat + 1) >= 5,
{
    assert(usize::MAX as nat + 1 == 0x1_0000_0000 || usize::MAX as nat + 1
        == 0x1_0000_0000_0000_0000);
}

/// The values of a call are those of its fields.
pub proof fn law_call_view_fields(call: Call)
    ensures
        call@.to == call.to@,
        call@.selector == call.selector@,
        call@.calldata.len() == call.calldata@.len(),
        forall|i: int|
            0 <= i < call.calldata@.len() ==> #[trigger] call@.calldata[i] == call.calldata@[i]@,
{
}

} // verus!
