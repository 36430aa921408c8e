//! Which transactions a benchmark sends, in which order and with which nonces.
use crate::abigen::{actions_contract, actions_contract_value, law_move_call_fields, move_call, Call,
    CallView, Direction, SpawnAndMoveAction};
use crate::felt::{felt_add, prime, values, Felt};
use crate::tx::{call_views, curve_order, ecdsa_signature, element_upper_bound, encoded_calls,
    hash_in_range, hash_input, invoke_hash_input, invoke_transaction, law_transaction_fields,
    read_calldata, tx, BroadcastedInvokeTransactionV3, InvokeHashInput, InvokeTransactionView, SenderAccount,
    SignError};
use vstd::prelude::*;

verus! {

/// The next nonce of each address.
///
/// Its view maps the value of an address to the value of its nonce.
#[derive(Debug)]
pub struct NonceTable {
    entries: Vec<(Felt, Felt)>,
}

/// Whether `address` is the key of entry `i`.
spec fn has_key(entries: Seq<(Felt, Felt)>, i: int, address: nat) -> bool {
    0 <= i < entries.len() && entries[i].0@ == address
}

impl View for NonceTable {
    type V = Map<nat, nat>;

    closed spec fn view(&self) -> Map<nat, nat> {
        Map::new(
            |address: nat| exists|i: int| has_key(self.entries@, i, address),
            |address: nat|
                self.entries@[choose|i: int| has_key(self.entries@, i, address)].1@,
        )
    }
}

impl NonceTable {
    /// No address has two entries.
    pub closed spec fn wf(&self) -> bool {
        forall|i: int, j: int|
            0 <= i < j < self.entries@.len() ==> (#[trigger] self.entries@[i]).0@ != (
            #[trigger] self.entries@[j]).0@
    }

    /// The view at the key of an entry is the value of that entry.
    proof fn lemma_entry(&self, i: int)
        requires
            self.wf(),
            0 <= i < self.entries@.len(),
        ensures
            self@.contains_key(self.entries@[i].0@),
            self@[self.entries@[i].0@] == self.entries@[i].1@,
    {
        let address = self.entries@[i].0@;
        assert(has_key(self.entries@, i, address));
        let j = choose|j: int| has_key(self.entries@, j, address);
        assert(has_key(self.entries@, j, address));
        assert(i == j);
    }

    /// A table without addresses.
    pub fn new() -> (table: NonceTable)
        ensures
            table.wf(),
            table@ == Map::<nat, nat>::empty(),
    {
        let table: NonceTable = NonceTable { entries: Vec::new() };
        assert(table@ =~= Map::<nat, nat>::empty());
        table
    }

    /// The entry of an address.
    fn position(&self, address: &Felt) -> (position: Option<usize>)
        requires
            self.wf(),
        ensures
            match position {
                Some(i) => has_key(self.entries@, i as int, address@),
                None => !self@.contains_key(address@),
            },
    {
        let mut i: usize = 0;
        while i < self.entries.len()
            invariant
                i <= self.entries@.len(),
                forall|j: int| 0 <= j < i ==> !#[trigger] has_key(self.entries@, j, address@),
            decreases self.entries@.len() - i,
        {
            let key: Felt = self.entries[i].0;
            if key.same(address) {
                return Some(i);
            }
            i = i + 1;
        }
        assert(forall|j: int| !#[trigger] has_key(self.entries@, j, address@));
        None
    }

    /// Sets the nonce of an address.
    pub fn insert(&mut self, address: &Felt, nonce: &Felt)
        requires
            old(self).wf(),
        ensures
            final(self).wf(),
            final(self)@ == old(self)@.insert(address@, nonce@),
    {
        let ghost before = *self;
        match self.position(address) {
            Some(i) => {
                self.entries.set(i, (*address, *nonce));
                proof {
                    lemma_update(before, *self, i as int, address@, nonce@);
                }
            },
            None => {
                self.entries.push((*address, *nonce));
                proof {
                    lemma_append(before, *self, address@, nonce@);
                }
            },
        }
    }

    /// The nonce of an address, which then moves on to the next one.
    pub fn take(&mut self, address: &Felt) -> (nonce: Felt)
        requires
            old(self).wf(),
            old(self)@.contains_key(address@),
        ensures
            final(self).wf(),
            nonce@ == old(self)@[address@],
            final(self)@ == old(self)@.insert(address@, (old(self)@[address@] + 1) % prime()),
    {
        let ghost before = *self;
        let i: usize = self.position(address).unwrap();
        proof {
            before.lemma_entry(i as int);
        }
        let nonce: Felt = self.entries[i].1;
        let next: Felt = felt_add(&nonce, &Felt::from_u128(1));
        self.entries.set(i, (*address, next));
        proof {
            lemma_update(before, *self, i as int, address@, next@);
        }
        nonce
    }
}

/// Overwriting the entry of an address overwrites it in the view.
proof fn lemma_update(before: NonceTable, after: NonceTable, i: int, address: nat, nonce: nat)
    requires
        before.wf(),
        has_key(before.entries@, i, address),
        after.entries@ == before.entries@.update(i, after.entries@[i]),
        after.entries@[i].0@ == address,
        after.entries@[i].1@ == nonce,
    ensures
        after.wf(),
        after@ == before@.insert(address, nonce),
{
    assert(after.wf());
    let target = before@.insert(address, nonce);
    assert forall|a: nat|
        #![trigger after@.dom().contains(a)]
        #![trigger after@[a]]
        #![trigger target.dom().contains(a)]
        #![trigger target[a]]
        after@.dom().contains(a) == target.dom().contains(a) && (after@.dom().contains(a)
            ==> after@[a] == target[a]) by {
        lemma_lookup(before, a);
        lemma_lookup(after, a);
        if exists|j: int| has_key(before.entries@, j, a) {
            let j = choose|j: int| has_key(before.entries@, j, a);
            assert(has_key(after.entries@, j, a));
            after.lemma_entry(j);
            before.lemma_entry(j);
        }
        if exists|j: int| has_key(after.entries@, j, a) {
            let j = choose|j: int| has_key(after.entries@, j, a);
            assert(has_key(before.entries@, j, a));
        }
    }
    assert(after@ =~= target);
}

/// Appending an entry for a new address adds it to the view.
proof fn lemma_append(before: NonceTable, after: NonceTable, address: nat, nonce: nat)
    requires
        before.wf(),
        !before@.contains_key(address),
        after.entries@ == before.entries@.push(after.entries@.last()),
        after.entries@.last().0@ == address,
        after.entries@.last().1@ == nonce,
    ensures
        after.wf(),
        after@ == before@.insert(address, nonce),
{
    let n = before.entries@.len() as int;
    assert forall|j: int| 0 <= j < n implies (#[trigger] before.entries@[j]).0@ != address by {
        assert(has_key(before.entries@, j, before.entries@[j].0@));
    }
    assert(after.wf());
    let target = before@.insert(address, nonce);
    assert forall|a: nat|
        #![trigger after@.dom().contains(a)]
        #![trigger after@[a]]
        #![trigger target.dom().contains(a)]
        #![trigger target[a]]
        after@.dom().contains(a) == target.dom().contains(a) && (after@.dom().contains(a)
            ==> after@[a] == target[a]) by {
        lemma_lookup(before, a);
        lemma_lookup(after, a);
        assert(has_key(after.entries@, n, address));
        after.lemma_entry(n);
        if exists|j: int| has_key(before.entries@, j, a) {
            let j = choose|j: int| has_key(before.entries@, j, a);
            assert(has_key(after.entries@, j, a));
            after.lemma_entry(j);
            before.lemma_entry(j);
        }
        if exists|j: int| has_key(after.entries@, j, a) {
            let j = choose|j: int| has_key(after.entries@, j, a);
            if j < n {
                assert(has_key(before.entries@, j, a));
            }
        }
    }
    assert(after@ =~= target);
}

/// An address is in the view if and only if an entry has it as its key.
proof fn lemma_lookup(table: NonceTable, address: nat)
    ensures
        table@.contains_key(address) <==> exists|i: int| has_key(table.entries@, i, address),
{
}

/// A transaction that is yet to be hashed and signed.
#[derive(Debug, PartialEq, Eq)]
pub struct PreparedTx {
    /// Which of the senders it comes from.
    pub sender: usize,
    pub calls: Vec<Call>,
    pub nonce: Felt,
}

/// The values of a [`PreparedTx`].
#[verifier::ext_equal]
pub struct PreparedTxView {
    pub sender: nat,
    pub calls: Seq<CallView>,
    pub nonce: nat,
}

impl View for PreparedTx {
    type V = PreparedTxView;

    open spec fn view(&self) -> PreparedTxView {
        PreparedTxView {
            sender: self.sender as nat,
            calls: call_views(self.calls@),
            nonce: self.nonce@,
        }
    }
}

/// The addresses of the senders.
pub open spec fn addresses(senders: Seq<SenderAccount>) -> Seq<nat> {
    senders.map_values(|a: SenderAccount| a.address@)
}

/// The nonce that each address starts with. Where senders share an address, the nonce of the last
/// of them counts.
pub open spec fn starting_nonces(addresses: Seq<nat>, nonces: Seq<nat>) -> Map<nat, nat>
    decreases addresses.len(),
{
    if addresses.len() == 0 {
        Map::empty()
    } else {
        starting_nonces(addresses.drop_last(), nonces.drop_last()).insert(
            addresses.last(),
            nonces.last(),
        )
    }
}

/// How many of the first `k` transactions `address` sends, when the senders take turns.
pub open spec fn sent_before(addresses: Seq<nat>, k: nat, address: nat) -> nat
    decreases k,
{
    if k == 0 {
        0
    } else {
        let last = (k - 1) as nat;
        sent_before(addresses, last, address) + if addresses[(last % addresses.len()) as int]
            == address {
            1nat
        } else {
            0nat
        }
    }
}

/// The nonce of transaction `k`: where its address started, plus one for each transaction that the
/// address sent before.
pub open spec fn nonce_of(addresses: Seq<nat>, nonces: Seq<nat>, k: nat) -> nat {
    let address = addresses[(k % addresses.len()) as int];
    (starting_nonces(addresses, nonces)[address] + sent_before(addresses, k, address)) % prime()
}

/// Transaction `k`: the senders take turns, and each transaction moves the player nowhere.
pub open spec fn planned_tx(addresses: Seq<nat>, nonces: Seq<nat>, k: nat) -> PreparedTxView {
    PreparedTxView {
        sender: k % addresses.len(),
        calls: seq![move_call(actions_contract_value(), Direction::Nowhere)],
        nonce: nonce_of(addresses, nonces, k),
    }
}

/// How many batches `total_txs` transactions take: the quotient, rounded up.
pub open spec fn batch_count(total_txs: u64, batch_size: nat) -> nat {
    ((total_txs as usize + batch_size - 1) / batch_size as int) as nat
}

/// All transactions of a benchmark.
pub open spec fn plan(addresses: Seq<nat>, nonces: Seq<nat>, total_txs: u64) -> Seq<
    PreparedTxView,
> {
    Seq::new(
        batch_count(total_txs, addresses.len()) * addresses.len(),
        |k: int| planned_tx(addresses, nonces, k as nat),
    )
}

/// The values of a list of prepared transactions.
pub open spec fn prepared_views(txs: Seq<PreparedTx>) -> Seq<PreparedTxView> {
    txs.map_values(|tx: PreparedTx| tx@)
}

/// How many batches `total_txs` transactions take.
pub fn num_batches(total_txs: u64, batch_size: usize) -> (batches: usize)
    requires
        batch_size > 0,
        (total_txs as usize) + batch_size - 1 <= usize::MAX,
    ensures
        batches == batch_count(total_txs, batch_size as nat),
        (total_txs as usize) <= batches * batch_size < (total_txs as usize) + batch_size,
{
    proof {
        law_batches_round_up(total_txs, batch_size as nat);
    }
    (total_txs as usize + (batch_size - 1)) / batch_size
}

/// The nonces that the senders start with, by address.
fn init_nonces(senders: &Vec<SenderAccount>, nonces: &Vec<Felt>) -> (table: NonceTable)
    requires
        nonces@.len() == senders@.len(),
    ensures
        table.wf(),
        table@ == starting_nonces(addresses(senders@), values(nonces@)),
        forall|a: nat| #[trigger] table@.contains_key(a) ==> table@[a] < prime(),
        forall|i: int| 0 <= i < senders@.len() ==> table@.contains_key(
            #[trigger] addresses(senders@)[i],
        ),
{
    let mut table: NonceTable = NonceTable::new();
    let ghost addrs = addresses(senders@);
    let ghost starts = values(nonces@);
    let mut i: usize = 0;
    while i < senders.len()
        invariant
            i <= senders@.len(),
            nonces@.len() == senders@.len(),
            addrs == addresses(senders@),
            starts == values(nonces@),
            table.wf(),
            table@ == starting_nonces(addrs.take(i as int), starts.take(i as int)),
            forall|a: nat| #[trigger] table@.contains_key(a) ==> table@[a] < prime(),
            forall|j: int| 0 <= j < i ==> table@.contains_key(#[trigger] addrs[j]),
        decreases senders@.len() - i,
    {
        let nonce: Felt = nonces[i];
        let address: Felt = senders[i].address;
        proof {
            use_type_invariant(&nonce);
            assert(addrs.take(i + 1).drop_last() =~= addrs.take(i as int));
            assert(starts.take(i + 1).drop_last() =~= starts.take(i as int));
            assert(addrs.take(i + 1).last() == address@);
            assert(starts.take(i + 1).last() == nonce@);
        }
        table.insert(&address, &nonce);
        i = i + 1;
    }
    assert(addrs.take(i as int) =~= addrs);
    assert(starts.take(i as int) =~= starts);
    table
}

/// The state of the nonces after `k` transactions.
spec fn nonces_after(addrs: Seq<nat>, start: Map<nat, nat>, k: nat, now: Map<nat, nat>) -> bool {
    &&& now.dom() == start.dom()
    &&& forall|a: nat| #[trigger]
        start.contains_key(a) ==> now[a] == (start[a] + sent_before(addrs, k, a)) % prime()
}

/// Sending transaction `k` moves the nonces on.
proof fn lemma_nonces_step(
    addrs: Seq<nat>,
    start: Map<nat, nat>,
    k: nat,
    now: Map<nat, nat>,
    next: Map<nat, nat>,
)
    requires
        addrs.len() > 0,
        nonces_after(addrs, start, k, now),
        start.contains_key(addrs[(k % addrs.len()) as int]),
        ({
            let address = addrs[(k % addrs.len()) as int];
            next == now.insert(address, (now[address] + 1) % prime())
        }),
    ensures
        nonces_after(addrs, start, k + 1, next),
{
    let address = addrs[(k % addrs.len()) as int];
    assert(next.dom() =~= start.dom());
    assert forall|a: nat| #[trigger] start.contains_key(a) implies next[a] == (start[a]
        + sent_before(addrs, k + 1, a)) % prime() by {
        if a == address {
            let x = (start[a] + sent_before(addrs, k, a)) as int;
            vstd::arithmetic::div_mod::lemma_add_mod_noop(x, 1, prime() as int);
            vstd::arithmetic::div_mod::lemma_small_mod(1, prime());
        }
    }
}

/// The transactions of a benchmark: enough full batches, each with one transaction from every
/// sender, to make up at least `total_txs`. `nonces` holds the current nonce of each sender.
pub fn prepare_txs(senders: &Vec<SenderAccount>, nonces: &Vec<Felt>, total_txs: u64) -> (txs: Vec<
    PreparedTx,
>)
    requires
        senders@.len() > 0,
        nonces@.len() == senders@.len(),
        (total_txs as usize) + senders@.len() - 1 <= usize::MAX,
    ensures
        txs@.len() == batch_count(total_txs, senders@.len()) * senders@.len(),
        forall|k: int|
            0 <= k < txs@.len() ==> (#[trigger] txs@[k])@ == planned_tx(
                addresses(senders@),
                values(nonces@),
                k as nat,
            ),
        prepared_views(txs@) == plan(addresses(senders@), values(nonces@), total_txs),
        forall|k: int| 0 <= k < txs@.len() ==> (#[trigger] txs@[k]).sender < senders@.len(),
        (total_txs as usize) <= txs@.len() < (total_txs as usize) + senders@.len(),
        forall|k: int|
            0 <= k < txs@.len() ==> {
                let tx = #[trigger] txs@[k];
                &&& tx.sender == k % senders@.len() as int
                &&& tx.calls@.len() == 1
                &&& tx.calls@[0].to@
                    == 0x1455a4751d41c1daa6a672c46037c1df81d50fa9daeea653e8946026f6653e2nat
                &&& tx.calls@[0].selector@
                    == 0x239e4c8fbd11b680d7214cfc26d1780d5c099453f0832beb15fd040aebd4ebbnat
                &&& tx.calls@[0].calldata@.len() == 1
                &&& tx.calls@[0].calldata@[0]@ == 0
                &&& tx.nonce@ == nonce_of(addresses(senders@), values(nonces@), k as nat)
            },
{
    let batches: usize = num_batches(total_txs, senders.len());
    let contract: Felt = actions_contract();
    let mut table: NonceTable = init_nonces(senders, nonces);
    let mut txs: Vec<PreparedTx> = Vec::new();
    let ghost addrs = addresses(senders@);
    let ghost starts = values(nonces@);
    let ghost start = starting_nonces(addrs, starts);
    let ghost n = senders@.len();
    assert(nonces_after(addrs, start, 0, table@)) by {
        assert forall|a: nat| #[trigger] start.contains_key(a) implies table@[a] == (start[a]
            + sent_before(addrs, 0, a)) % prime() by {
            vstd::arithmetic::div_mod::lemma_small_mod(start[a], prime());
        }
    }
    let mut batch: usize = 0;
    while batch < batches
        invariant
            batch <= batches,
            n == senders@.len(),
            n > 0,
            addrs == addresses(senders@),
            starts == values(nonces@),
            start == starting_nonces(addrs, starts),
            forall|i: int| 0 <= i < n ==> start.contains_key(#[trigger] addrs[i]),
            contract@ == actions_contract_value(),
            table.wf(),
            txs@.len() == batch * n,
            nonces_after(addrs, start, txs@.len(), table@),
            forall|k: int|
                0 <= k < txs@.len() ==> (#[trigger] txs@[k])@ == planned_tx(addrs, starts, k as nat),
        decreases batches - batch,
    {
        let mut sender: usize = 0;
        while sender < senders.len()
            invariant
                sender <= n,
                n == senders@.len(),
                n > 0,
                addrs == addresses(senders@),
                starts == values(nonces@),
                start == starting_nonces(addrs, starts),
                forall|i: int| 0 <= i < n ==> start.contains_key(#[trigger] addrs[i]),
                contract@ == actions_contract_value(),
                table.wf(),
                txs@.len() == batch * n + sender,
                nonces_after(addrs, start, txs@.len(), table@),
                forall|k: int|
                    0 <= k < txs@.len() ==> (#[trigger] txs@[k])@ == planned_tx(
                        addrs,
                        starts,
                        k as nat,
                    ),
            decreases n - sender,
        {
            let account: SenderAccount = senders[sender];
            let ghost k = txs@.len();
            let ghost now = table@;
            proof {
                vstd::arithmetic::div_mod::lemma_fundamental_div_mod_converse(
                    k as int,
                    n as int,
                    batch as int,
                    sender as int,
                );
                assert(addrs[sender as int] == account.address@);
                assert(start.contains_key(addrs[sender as int]));
            }
            let nonce: Felt = table.take(&account.address);
            let call: Call = SpawnAndMoveAction::new(contract, account).move_getcall(
                &Direction::Nowhere,
            );
            let mut calls: Vec<Call> = Vec::new();
            calls.push(call);
            let tx: PreparedTx = PreparedTx { sender, calls, nonce };
            proof {
                lemma_nonces_step(addrs, start, k, now, table@);
                assert(tx@ =~= planned_tx(addrs, starts, k));
            }
            txs.push(tx);
            sender = sender + 1;
        }
        assert((batch + 1) * n == batch * n + n) by (nonlinear_arith);
        batch = batch + 1;
    }
    proof {
        assert(prepared_views(txs@) =~= plan(addrs, starts, total_txs));
        assert forall|k: int| 0 <= k < txs@.len() implies (#[trigger] txs@[k]).sender < n by {
            assert(txs@[k]@.sender == k as nat % n);
            vstd::arithmetic::div_mod::lemma_mod_bound(k, n as int);
        }
        assert forall|k: int| 0 <= k < txs@.len() implies {
            let tx = #[trigger] txs@[k];
            &&& tx.sender == k % n as int
            &&& tx.calls@.len() == 1
            &&& tx.calls@[0].to@
                == 0x1455a4751d41c1daa6a672c46037c1df81d50fa9daeea653e8946026f6653e2nat
            &&& tx.calls@[0].selector@
                == 0x239e4c8fbd11b680d7214cfc26d1780d5c099453f0832beb15fd040aebd4ebbnat
            &&& tx.calls@[0].calldata@.len() == 1
            &&& tx.calls@[0].calldata@[0]@ == 0
            &&& tx.nonce@ == nonce_of(addrs, starts, k as nat)
        } by {
            let tx = txs@[k];
            let views = call_views(tx.calls@);
            assert(tx@ == planned_tx(addrs, starts, k as nat));
            assert(views.len() == 1);
            assert(views[0] == tx.calls@[0]@);
            law_move_call_fields(actions_contract_value(), Direction::Nowhere);
            assert(views[0].calldata.len() == 1);
            assert(views[0].calldata[0] == tx.calls@[0].calldata@[0]@);
        }
    }
    txs
}

/// What is to be hashed for each prepared transaction, in order.
pub fn hash_inputs(senders: &Vec<SenderAccount>, prepared: &Vec<PreparedTx>) -> (inputs: Vec<
    InvokeHashInput,
>)
    requires
        forall|k: int| 0 <= k < prepared@.len() ==> (#[trigger] prepared@[k]).sender < senders@.len(),
    ensures
        inputs@.len() == prepared@.len(),
        forall|k: int|
            0 <= k < prepared@.len() ==> (#[trigger] inputs@[k])@ == invoke_hash_input(
                senders@[prepared@[k].sender as int],
                call_views(prepared@[k].calls@),
                prepared@[k].nonce@,
            ),
        forall|k: int|
            0 <= k < prepared@.len() ==> {
                let input = #[trigger] inputs@[k];
                let sender = senders@[prepared@[k].sender as int];
                &&& input.sender_address == sender.address
                &&& input.chain_id == sender.chain_id
                &&& input.nonce == prepared@[k].nonce
            },
{
    let mut inputs: Vec<InvokeHashInput> = Vec::new();
    let mut k: usize = 0;
    while k < prepared.len()
        invariant
            k <= prepared@.len(),
            forall|i: int|
                0 <= i < prepared@.len() ==> (#[trigger] prepared@[i]).sender < senders@.len(),
            inputs@.len() == k,
            forall|i: int|
                0 <= i < k ==> (#[trigger] inputs@[i])@ == invoke_hash_input(
                    senders@[prepared@[i].sender as int],
                    call_views(prepared@[i].calls@),
                    prepared@[i].nonce@,
                ),
            forall|i: int|
                0 <= i < k ==> {
                    let input = #[trigger] inputs@[i];
                    let sender = senders@[prepared@[i].sender as int];
                    &&& input.sender_address == sender.address
                    &&& input.chain_id == sender.chain_id
                    &&& input.nonce == prepared@[i].nonce
                },
        decreases prepared@.len() - k,
    {
        let one: &PreparedTx = &prepared[k];
        inputs.push(hash_input(&senders[one.sender], &one.calls, &one.nonce));
        k = k + 1;
    }
    inputs
}

/// A prepared transaction as it is sent: from its sender, with its calls and its nonce, and with
/// the signature of its hash under its sender's key.
pub open spec fn signed_tx(
    senders: Seq<SenderAccount>,
    keys: Seq<nat>,
    prepared: PreparedTxView,
    hash: nat,
) -> InvokeTransactionView {
    invoke_transaction(
        senders[prepared.sender as int],
        prepared.calls,
        prepared.nonce,
        ecdsa_signature(keys[prepared.sender as int], hash),
    )
}

/// Signs prepared transactions, each with the key of its sender. `hashes` holds the hash of each
/// transaction, and `keys` the private key of each sender.
pub fn sign_txs(
    senders: &Vec<SenderAccount>,
    keys: &Vec<Felt>,
    prepared: &Vec<PreparedTx>,
    hashes: &Vec<Felt>,
) -> (txs: Result<Vec<BroadcastedInvokeTransactionV3>, SignError>)
    requires
        keys@.len() == senders@.len(),
        hashes@.len() == prepared@.len(),
        forall|k: int| 0 <= k < prepared@.len() ==> (#[trigger] prepared@[k]).sender < senders@.len(),
        forall|k: int|
            0 <= k < prepared@.len() ==> (#[trigger] hashes@[k])@ != 0
                || keys@[prepared@[k].sender as int]@ % curve_order() != 0,
    ensures
        txs is Ok <==> forall|k: int|
            0 <= k < hashes@.len() ==> (#[trigger] hashes@[k])@ < element_upper_bound(),
        match txs {
            Ok(signed) => signed@.len() == prepared@.len() && forall|k: int|
                0 <= k < prepared@.len() ==> (#[trigger] signed@[k])@ == signed_tx(
                    senders@,
                    values(keys@),
                    prepared@[k]@,
                    hashes@[k]@,
                ),
            Err(e) => e == SignError::MessageHashOutOfRange,
        },
        txs matches Ok(signed) ==> forall|k: int|
            0 <= k < prepared@.len() ==> {
                let sent = #[trigger] signed@[k];
                let sender = prepared@[k].sender as int;
                &&& sent.sender_address == senders@[sender].address
                &&& sent.nonce == prepared@[k].nonce
                &&& sent.signature@.len() == 2
                &&& (sent.signature@[0]@, sent.signature@[1]@) == ecdsa_signature(
                    keys@[sender]@,
                    hashes@[k]@,
                )
            },
{
    let mut txs: Vec<BroadcastedInvokeTransactionV3> = Vec::new();
    let mut k: usize = 0;
    while k < prepared.len()
        invariant
            k <= prepared@.len(),
            keys@.len() == senders@.len(),
            hashes@.len() == prepared@.len(),
            forall|i: int|
                0 <= i < prepared@.len() ==> (#[trigger] prepared@[i]).sender < senders@.len(),
            forall|i: int|
                0 <= i < prepared@.len() ==> (#[trigger] hashes@[i])@ != 0
                    || keys@[prepared@[i].sender as int]@ % curve_order() != 0,
            forall|i: int| 0 <= i < k ==> (#[trigger] hashes@[i])@ < element_upper_bound(),
            txs@.len() == k,
            forall|i: int|
                0 <= i < k ==> (#[trigger] txs@[i])@ == signed_tx(
                    senders@,
                    values(keys@),
                    prepared@[i]@,
                    hashes@[i]@,
                ),
            forall|i: int|
                0 <= i < k ==> {
                    let sent = #[trigger] txs@[i];
                    let sender = prepared@[i].sender as int;
                    &&& sent.sender_address == senders@[sender].address
                    &&& sent.nonce == prepared@[i].nonce
                    &&& sent.signature@.len() == 2
                    &&& (sent.signature@[0]@, sent.signature@[1]@) == ecdsa_signature(
                        keys@[sender]@,
                        hashes@[i]@,
                    )
                },
        decreases prepared@.len() - k,
    {
        let one: &PreparedTx = &prepared[k];
        let hash: Felt = hashes[k];
        if !hash_in_range(&hash) {
            assert(hashes@[k as int]@ >= element_upper_bound());
            return Err(SignError::MessageHashOutOfRange);
        }
        assert(one.sender < senders@.len());
        assert(hashes@[k as int]@ != 0 || keys@[one.sender as int]@ % curve_order() != 0);
        txs.push(tx(&senders[one.sender], &keys[one.sender], &one.calls, &one.nonce, &hash));
        k = k + 1;
    }
    Ok(txs)
}

/// Batches are rounded up: together they hold at least the requested number of transactions, and
/// one batch less would not.
pub proof fn law_batches_round_up(total_txs: u64, batch_size: nat)
    requires
        batch_size > 0,
    ensures
        (total_txs as usize) <= batch_count(total_txs, batch_size) * batch_size,
        batch_count(total_txs, batch_size) * batch_size < (total_txs as usize) + batch_size,
{
    let x = (total_txs as usize) + batch_size - 1;
    let b = batch_size as int;
    vstd::arithmetic::div_mod::lemma_fundamental_div_mod(x, b);
    vstd::arithmetic::div_mod::lemma_div_pos_is_pos(x, b);
    assert(b * (x / b) == (x / b) * b) by (nonlinear_arith);
}

/// Every batch has exactly one transaction from each sender, in the order of the senders.
pub proof fn law_batch_holds_every_sender(
    addresses: Seq<nat>,
    nonces: Seq<nat>,
    batch: nat,
    sender: nat,
)
    requires
        sender < addresses.len(),
    ensures
        planned_tx(addresses, nonces, batch * addresses.len() + sender).sender == sender,
{
    vstd::arithmetic::div_mod::lemma_fundamental_div_mod_converse(
        (batch * addresses.len() + sender) as int,
        addresses.len() as int,
        batch as int,
        sender as int,
    );
}

/// From one transaction to a later one, an address sends at most one transaction per step.
proof fn lemma_sent_before_grows(addresses: Seq<nat>, i: nat, j: nat, address: nat)
    requires
        i <= j,
    ensures
        sent_before(addresses, i, address) <= sent_before(addresses, j, address),
        sent_before(addresses, j, address) <= sent_before(addresses, i, address) + (j - i),
    decreases j - i,
{
    if i < j {
        lemma_sent_before_grows(addresses, i, (j - 1) as nat, address);
    }
}

/// No nonce is used twice: two transactions of the same address have different nonces. (A list of
/// transactions is always shorter than the order of the field.)
pub proof fn law_nonces_unique(addresses: Seq<nat>, nonces: Seq<nat>, i: nat, j: nat)
    requires
        addresses.len() > 0,
        i < j < prime(),
        addresses[(i % addresses.len()) as int] == addresses[(j % addresses.len()) as int],
    ensures
        nonce_of(addresses, nonces, i) != nonce_of(addresses, nonces, j),
{
    let address = addresses[(i % addresses.len()) as int];
    let p = prime() as int;
    lemma_sent_before_grows(addresses, i + 1, j, address);
    let x = (starting_nonces(addresses, nonces)[address] + sent_before(addresses, i, address))
        as int;
    let y = (starting_nonces(addresses, nonces)[address] + sent_before(addresses, j, address))
        as int;
    assert(0 < y - x < p);
    if x % p == y % p {
        vstd::arithmetic::div_mod::lemma_fundamental_div_mod(x, p);
        vstd::arithmetic::div_mod::lemma_fundamental_div_mod(y, p);
        let q = y / p - x / p;
        assert(p * (y / p) - p * (x / p) == p * q) by (nonlinear_arith)
            requires
                q == y / p - x / p,
        ;
        assert(false) by (nonlinear_arith)
            requires
                0 < y - x < p,
                y - x == p * q,
        ;
    }
}

/// Where no two senders share an address, each starts with its own nonce.
proof fn lemma_starting_nonce(addresses: Seq<nat>, nonces: Seq<nat>, i: int)
    requires
        addresses.len() == nonces.len(),
        addresses.no_duplicates(),
        0 <= i < addresses.len(),
    ensures
        starting_nonces(addresses, nonces)[addresses[i]] == nonces[i],
    decreases addresses.len(),
{
    if i < addresses.len() - 1 {
        assert(addresses.drop_last().no_duplicates());
        lemma_starting_nonce(addresses.drop_last(), nonces.drop_last(), i);
        assert(addresses.drop_last()[i] == addresses[i]);
        assert(nonces.drop_last()[i] == nonces[i]);
        assert(addresses[i] != addresses.last());
    }
}

/// Where no two senders share an address, a sender has sent one transaction per full batch, and
/// one more if its turn in the current batch has passed.
proof fn lemma_sent_per_batch(addresses: Seq<nat>, k: nat, i: int)
    requires
        addresses.no_duplicates(),
        0 <= i < addresses.len(),
    ensures
        sent_before(addresses, k, addresses[i]) == k / addresses.len() + if i < k % addresses.len() {
            1nat
        } else {
            0nat
        },
    decreases k,
{
    let n = addresses.len() as int;
    if k == 0 {
        vstd::arithmetic::div_mod::lemma_small_mod(0, addresses.len());
        vstd::arithmetic::div_mod::lemma_div_basics(n);
    } else {
        let last = (k - 1) as nat;
        lemma_sent_per_batch(addresses, last, i);
        let q = last as int / n;
        let r = last as int % n;
        vstd::arithmetic::div_mod::lemma_fundamental_div_mod(last as int, n);
        assert(n * q == q * n) by (nonlinear_arith);
        if r + 1 < n {
            vstd::arithmetic::div_mod::lemma_fundamental_div_mod_converse(k as int, n, q, r + 1);
        } else {
            assert((q + 1) * n == q * n + n) by (nonlinear_arith);
            vstd::arithmetic::div_mod::lemma_fundamental_div_mod_converse(k as int, n, q + 1, 0);
        }
        assert(addresses[r] == addresses[i] ==> r == i);
    }
}

/// Where no two senders share an address, the nonces of a sender are consecutive: its transaction
/// in batch `k / n` has the nonce that it started with plus `k / n`.
pub proof fn law_nonces_consecutive(addresses: Seq<nat>, nonces: Seq<nat>, k: nat)
    requires
        addresses.len() > 0,
        addresses.len() == nonces.len(),
        addresses.no_duplicates(),
    ensures
        nonce_of(addresses, nonces, k) == (nonces[(k % addresses.len()) as int] + k
            / addresses.len()) % prime(),
{
    let i = (k % addresses.len()) as int;
    lemma_starting_nonce(addresses, nonces, i);
    lemma_sent_per_batch(addresses, k, i);
}

/// What a benchmark sends is its plan: transaction `k` comes from sender `k % n`, carries the one
/// call that moves the player nowhere and the planned nonce, and is signed with that sender's key.
pub proof fn law_sent_as_planned(
    senders: Seq<SenderAccount>,
    keys: Seq<nat>,
    nonces: Seq<nat>,
    k: nat,
    hash: nat,
)
    requires
        senders.len() > 0,
    ensures
        ({
            let addrs = addresses(senders);
            let sender = (k % senders.len()) as int;
            let calls = seq![move_call(actions_contract_value(), Direction::Nowhere)];
            let nonce = nonce_of(addrs, nonces, k);
            let signature = ecdsa_signature(keys[sender], hash);
            let sent = signed_tx(senders, keys, planned_tx(addrs, nonces, k), hash);
            &&& sent == invoke_transaction(senders[sender], calls, nonce, signature)
            &&& sent.sender_address == addrs[sender]
            &&& sent.calldata == encoded_calls(senders[sender].encoding, calls)
            &&& sent.nonce == nonce
            &&& sent.signature == seq![signature.0, signature.1]
        }),
{
    vstd::arithmetic::div_mod::lemma_mod_bound(k as int, senders.len() as int);
}

/// More transactions take no fewer batches.
proof fn lemma_batch_count_monotone(less: u64, more: u64, batch_size: nat)
    requires
        batch_size > 0,
        less <= more <= usize::MAX,
    ensures
        batch_count(less, batch_size) <= batch_count(more, batch_size),
{
    vstd::arithmetic::div_mod::lemma_div_is_ordered(
        less + batch_size - 1,
        more + batch_size - 1,
        batch_size as int,
    );
    vstd::arithmetic::div_mod::lemma_div_pos_is_pos(less + batch_size - 1, batch_size as int);
}

/// Asking for more transactions extends the plan and changes nothing of it.
pub proof fn law_larger_total_extends_plan(
    addresses: Seq<nat>,
    nonces: Seq<nat>,
    less: u64,
    more: u64,
)
    requires
        addresses.len() > 0,
        less <= more <= usize::MAX,
    ensures
        plan(addresses, nonces, less).is_prefix_of(plan(addresses, nonces, more)),
{
    let n = addresses.len() as int;
    let a = batch_count(less, addresses.len()) as int;
    let b = batch_count(more, addresses.len()) as int;
    lemma_batch_count_monotone(less, more, addresses.len());
    assert(a * n <= b * n) by (nonlinear_arith)
        requires
            a <= b,
            n > 0,
    ;
    assert(plan(addresses, nonces, less) =~= plan(addresses, nonces, more).subrange(0, a * n));
}

/// Totals that fill the last batch more or less have the same plan: all those above `k * n` and up
/// to `(k + 1) * n`, where `n` is the number of senders.
pub proof fn law_totals_of_one_batch_agree(
    addresses: Seq<nat>,
    nonces: Seq<nat>,
    a: u64,
    b: u64,
    k: nat,
)
    requires
        addresses.len() > 0,
        a <= usize::MAX,
        b <= usize::MAX,
        k * addresses.len() < a <= (k + 1) * addresses.len(),
        k * addresses.len() < b <= (k + 1) * addresses.len(),
    ensures
        plan(addresses, nonces, a) == plan(addresses, nonces, b),
        plan(addresses, nonces, a).len() == (k + 1) * addresses.len(),
{
    let n = addresses.len() as int;
    assert((k + 1) * n == k * n + n) by (nonlinear_arith);
    vstd::arithmetic::div_mod::lemma_fundamental_div_mod_converse(
        a + n - 1,
        n,
        k as int + 1,
        a - 1 - k * n,
    );
    vstd::arithmetic::div_mod::lemma_fundamental_div_mod_converse(
        b + n - 1,
        n,
        k as int + 1,
        b - 1 - k * n,
    );
}

/// Every planned transaction makes one call: to the actions contract, with the selector of `move`
/// and the number of the first direction.
pub proof fn law_planned_call(addresses: Seq<nat>, nonces: Seq<nat>, k: nat)
    ensures
        ({
            let calls = planned_tx(addresses, nonces, k).calls;
            &&& calls.len() == 1
            &&& calls[0].to
                == 0x1455a4751d41c1daa6a672c46037c1df81d50fa9daeea653e8946026f6653e2nat
            &&& calls[0].selector
                == 0x239e4c8fbd11b680d7214cfc26d1780d5c099453f0832beb15fd040aebd4ebbnat
            &&& calls[0].calldata == seq![0nat]
        }),
{
    law_move_call_fields(actions_contract_value(), Direction::Nowhere);
}

/// The plan is made of full batches, enough for the requested transactions and not a batch more,
/// and transaction `batch * n + sender` comes from that sender.
pub proof fn law_plan_fills_batches(
    addresses: Seq<nat>,
    nonces: Seq<nat>,
    total_txs: u64,
    batch: nat,
    sender: nat,
)
    requires
        sender < addresses.len(),
    ensures
        ({
            let txs = plan(addresses, nonces, total_txs);
            let n = addresses.len();
            &&& (total_txs as usize) <= txs.len() < (total_txs as usize) + n
            &&& txs.len() % n == 0
            &&& batch * n + sender < txs.len() ==> {
                let tx = txs[(batch * n + sender) as int];
                &&& tx.sender == sender
                &&& tx == planned_tx(addresses, nonces, batch * n + sender)
            }
        }),
{
    let n = addresses.len();
    law_batches_round_up(total_txs, n);
    law_batch_holds_every_sender(addresses, nonces, batch, sender);
    vstd::arithmetic::div_mod::lemma_mod_multiples_basic(
        batch_count(total_txs, n) as int,
        n as int,
    );
}

/// An address starts with the nonce of its last sender.
proof fn lemma_last_starting_nonce(addresses: Seq<nat>, nonces: Seq<nat>, j: int)
    requires
        addresses.len() == nonces.len(),
        0 <= j < addresses.len(),
        forall|i: int| j < i < addresses.len() ==> (#[trigger] addresses[i]) != addresses[j],
    ensures
        starting_nonces(addresses, nonces)[addresses[j]] == nonces[j],
    decreases addresses.len(),
{
    if j < addresses.len() - 1 {
        let a = addresses.drop_last();
        let b = nonces.drop_last();
        assert(addresses[addresses.len() - 1] != addresses[j]);
        assert forall|i: int| j < i < a.len() implies (#[trigger] a[i]) != a[j] by {
            assert(addresses[i] != addresses[j]);
        }
        lemma_last_starting_nonce(a, b, j);
        assert(a[j] == addresses[j]);
        assert(b[j] == nonces[j]);
    }
}

/// Transactions of other addresses do not count.
proof fn lemma_sent_by_others(addresses: Seq<nat>, from: nat, to: nat, address: nat)
    requires
        from <= to,
        forall|m: nat|
            from <= m < to ==> addresses[#[trigger] (m % addresses.len()) as int] != address,
    ensures
        sent_before(addresses, to, address) == sent_before(addresses, from, address),
    decreases to - from,
{
    if from < to {
        let last = (to - 1) as nat;
        lemma_sent_by_others(addresses, from, last, address);
        assert(addresses[(last % addresses.len()) as int] != address);
    }
}

/// The first transaction of an address has the nonce that was given for it. Where several senders
/// have that address, it is the nonce of the last of them.
pub proof fn law_first_nonce(addresses: Seq<nat>, nonces: Seq<nat>, k: nat, j: int)
    requires
        addresses.len() > 0,
        addresses.len() == nonces.len(),
        0 <= j < addresses.len(),
        addresses[(k % addresses.len()) as int] == addresses[j],
        forall|i: int| j < i < addresses.len() ==> (#[trigger] addresses[i]) != addresses[j],
        forall|m: nat|
            m < k ==> addresses[#[trigger] (m % addresses.len()) as int] != addresses[j],
    ensures
        planned_tx(addresses, nonces, k).nonce == nonces[j]
            % 0x800000000000011000000000000000000000000000000000000000000000001nat,
{
    lemma_last_starting_nonce(addresses, nonces, j);
    lemma_sent_by_others(addresses, 0, k, addresses[j]);
}

/// From one transaction of an address to its next, the nonce goes up by one in the field.
pub proof fn law_next_nonce(addresses: Seq<nat>, nonces: Seq<nat>, i: nat, k: nat)
    requires
        addresses.len() > 0,
        i < k,
        addresses[(i % addresses.len()) as int] == addresses[(k % addresses.len()) as int],
        forall|m: nat|
            i < m < k ==> addresses[#[trigger] (m % addresses.len()) as int] != addresses[(k
                % addresses.len()) as int],
    ensures
        planned_tx(addresses, nonces, k).nonce == (planned_tx(addresses, nonces, i).nonce + 1)
            % 0x800000000000011000000000000000000000000000000000000000000000001nat,
{
    let address = addresses[(k % addresses.len()) as int];
    lemma_sent_by_others(addresses, i + 1, k, address);
    let x = (starting_nonces(addresses, nonces)[address] + sent_before(addresses, i, address))
        as int;
    vstd::arithmetic::div_mod::lemma_add_mod_noop(x, 1, prime() as int);
    vstd::arithmetic::div_mod::lemma_small_mod(1, prime());
}

/// A signed transaction comes from the sender that it was prepared for, with the prepared nonce and
/// calldata that reads as the prepared calls, and its signature is the one that the sender's own key
/// gives for the hash.
pub proof fn law_signed_tx_fields(
    senders: Seq<SenderAccount>,
    keys: Seq<nat>,
    prepared: PreparedTxView,
    hash: nat,
)
    ensures
        ({
            let sent = signed_tx(senders, keys, prepared, hash);
            let sender = prepared.sender as int;
            &&& sent.sender_address == senders[sender].address@
            &&& sent.nonce == prepared.nonce
            &&& sent.signature.len() == 2
            &&& (sent.signature[0], sent.signature[1]) == ecdsa_signature(keys[sender], hash)
            &&& read_calldata(senders[sender].encoding, sent.calldata) == Some(prepared.calls)
        }),
{
    let sender = prepared.sender as int;
    law_transaction_fields(
        senders[sender],
        prepared.calls,
        prepared.nonce,
        ecdsa_signature(keys[sender], hash),
    );
}

/// The addresses of senders, and the values of prepared transactions, stand in the places of the
/// senders and the transactions, and are those of their fields.
pub proof fn law_lists_in_place(senders: Seq<SenderAccount>, txs: Seq<PreparedTx>)
    ensures
        addresses(senders).len() == senders.len(),
        forall|i: int|
            0 <= i < senders.len() ==> #[trigger] addresses(senders)[i] == senders[i].address@,
        prepared_views(txs).len() == txs.len(),
        forall|i: int|
            0 <= i < txs.len() ==> {
                let view = #[trigger] prepared_views(txs)[i];
                &&& view.sender == txs[i].sender
                &&& view.nonce == txs[i].nonce@
                &&& view.calls == call_views(txs[i].calls@)
            },
{
}

} // verus!
