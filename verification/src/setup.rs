//! What has to be asked of the node before transactions can be prepared, and in which order.
use crate::abigen::{actions_contract, actions_contract_value, law_spawn_call_fields, spawn_call,
    Call, CallView, SpawnAndMoveAction};
use crate::felt::{lemma_values_push, values, Felt};
use crate::prepare::{addresses, plan, prepare_txs, prepared_views, PreparedTx};
use crate::tx::{call_views, ExecutionEncoding, SenderAccount};
use vstd::prelude::*;

verus! {

/// What the preparation asks of the node next.
#[derive(Debug, PartialEq, Eq)]
pub enum PreparationStep {
    /// Ask for the identifier of the chain.
    FetchChainId,
    /// Let an account execute the calls that spawn its player.
    Spawn { account: usize, calls: Vec<Call> },
    /// Wait until a spawn is done.
    AwaitSpawn { tx_hash: Felt },
    /// Ask for the current nonce of an account.
    FetchNonce { account: usize },
    /// Nothing more: prepare the transactions.
    Ready,
}

/// The values of a [`PreparationStep`].
#[verifier::ext_equal]
pub enum PreparationStepView {
    FetchChainId,
    Spawn { account: nat, calls: Seq<CallView> },
    AwaitSpawn { tx_hash: nat },
    FetchNonce { account: nat },
    Ready,
}

impl View for PreparationStep {
    type V = PreparationStepView;

    open spec fn view(&self) -> PreparationStepView {
        match self {
            PreparationStep::FetchChainId => PreparationStepView::FetchChainId,
            PreparationStep::Spawn { account, calls } => PreparationStepView::Spawn {
                account: *account as nat,
                calls: call_views(calls@),
            },
            PreparationStep::AwaitSpawn { tx_hash } => PreparationStepView::AwaitSpawn {
                tx_hash: tx_hash@,
            },
            PreparationStep::FetchNonce { account } => PreparationStepView::FetchNonce {
                account: *account as nat,
            },
            PreparationStep::Ready => PreparationStepView::Ready,
        }
    }
}

/// A preparation under way.
#[derive(Debug)]
pub struct Preparation {
    addresses: Vec<Felt>,
    total_txs: u64,
    chain_id: Option<Felt>,
    spawned: usize,
    waiting: Option<Felt>,
    nonces: Vec<Felt>,
}

/// The state of a [`Preparation`].
#[verifier::ext_equal]
pub struct PreparationView {
    /// The addresses of the accounts.
    pub addresses: Seq<nat>,
    /// How many transactions are asked for.
    pub total_txs: u64,
    /// The identifier of the chain, once it is known.
    pub chain_id: Option<nat>,
    /// How many accounts have spawned their player.
    pub spawned: nat,
    /// The spawn that is being waited for.
    pub waiting: Option<nat>,
    /// The nonces of the first accounts.
    pub nonces: Seq<nat>,
}

/// The value of an element that may be missing.
pub open spec fn value_of(felt: Option<Felt>) -> Option<nat> {
    match felt {
        Some(f) => Some(f@),
        None => None,
    }
}

impl View for Preparation {
    type V = PreparationView;

    closed spec fn view(&self) -> PreparationView {
        PreparationView {
            addresses: values(self.addresses@),
            total_txs: self.total_txs,
            chain_id: value_of(self.chain_id),
            spawned: self.spawned as nat,
            waiting: value_of(self.waiting),
            nonces: values(self.nonces@),
        }
    }
}

/// What the preparation asks next, by its state: the chain first, then the spawn of each account
/// and its completion, then all nonces.
pub open spec fn next_request(state: PreparationView) -> PreparationStepView {
    if state.chain_id is None {
        PreparationStepView::FetchChainId
    } else if state.waiting is Some {
        PreparationStepView::AwaitSpawn { tx_hash: state.waiting->0 }
    } else if state.spawned < state.addresses.len() {
        PreparationStepView::Spawn {
            account: state.spawned,
            calls: seq![spawn_call(actions_contract_value())],
        }
    } else if state.nonces.len() < state.addresses.len() {
        PreparationStepView::FetchNonce { account: state.nonces.len() }
    } else {
        PreparationStepView::Ready
    }
}

/// The state before anything was asked.
pub open spec fn unprepared(addresses: Seq<nat>, total_txs: u64) -> PreparationView {
    PreparationView {
        addresses,
        total_txs,
        chain_id: None,
        spawned: 0,
        waiting: None,
        nonces: Seq::empty(),
    }
}

/// The state once the chain is known.
pub open spec fn with_chain_id(state: PreparationView, chain_id: nat) -> PreparationView {
    PreparationView { chain_id: Some(chain_id), ..state }
}

/// The state once a spawn was sent.
pub open spec fn with_spawn(state: PreparationView, tx_hash: nat) -> PreparationView {
    PreparationView { waiting: Some(tx_hash), ..state }
}

/// The state once a spawn is done.
pub open spec fn with_spawned(state: PreparationView) -> PreparationView {
    PreparationView { waiting: None, spawned: state.spawned + 1, ..state }
}

/// The state once the next nonce is known.
pub open spec fn with_nonce(state: PreparationView, nonce: nat) -> PreparationView {
    PreparationView { nonces: state.nonces.push(nonce), ..state }
}

impl Preparation {
    /// There is an account, the rounded-up number of transactions can be counted, and no account
    /// is ahead of what was asked.
    pub open spec fn wf(&self) -> bool {
        &&& self@.addresses.len() > 0
        &&& (self@.total_txs as usize) + self@.addresses.len() - 1 <= usize::MAX
        &&& self@.spawned <= self@.addresses.len()
        &&& self@.waiting is Some ==> self@.spawned < self@.addresses.len()
        &&& self@.nonces.len() <= self@.addresses.len()
    }

    /// The preparation of `total_txs` transactions from the accounts with these addresses.
    pub fn new(addresses: Vec<Felt>, total_txs: u64) -> (preparation: Preparation)
        requires
            addresses@.len() > 0,
            (total_txs as usize) + addresses@.len() - 1 <= usize::MAX,
        ensures
            preparation.wf(),
            preparation@ == unprepared(values(addresses@), total_txs),
    {
        let preparation: Preparation = Preparation {
            addresses,
            total_txs,
            chain_id: None,
            spawned: 0,
            waiting: None,
            nonces: Vec::new(),
        };
        assert(preparation@.nonces =~= Seq::<nat>::empty());
        preparation
    }

    /// What to ask of the node next.
    pub fn step(&self) -> (step: PreparationStep)
        requires
            self.wf(),
        ensures
            step@ == next_request(self@),
            match step {
                PreparationStep::FetchChainId => self@.chain_id is None,
                PreparationStep::Spawn { account, calls } => {
                    &&& account == self@.spawned
                    &&& calls@.len() == 1
                    &&& calls@[0].to@
                        == 0x1455a4751d41c1daa6a672c46037c1df81d50fa9daeea653e8946026f6653e2nat
                    &&& calls@[0].selector@
                        == 0x217c73ea9ef26581623f20edd45571c1d024612b70d0af3e0842c5b0dc253cdnat
                    &&& calls@[0].calldata@.len() == 0
                },
                PreparationStep::AwaitSpawn { tx_hash } => self@.waiting == Some(tx_hash@),
                PreparationStep::FetchNonce { account } => account == self@.nonces.len(),
                PreparationStep::Ready => self@.nonces.len() == self@.addresses.len(),
            },
    {
        if self.chain_id.is_none() {
            return PreparationStep::FetchChainId;
        }
        if let Some(tx_hash) = self.waiting {
            return PreparationStep::AwaitSpawn { tx_hash };
        }
        if self.spawned < self.addresses.len() {
            let account: usize = self.spawned;
            // Do spawn first
            let calls: Vec<Call> = SpawnAndMoveAction::new(
                actions_contract(),
                self.addresses[account],
            ).spawn();
            assert(call_views(calls@) =~= seq![spawn_call(actions_contract_value())]);
            PreparationStep::Spawn { account, calls }
        } else if self.nonces.len() < self.addresses.len() {
            PreparationStep::FetchNonce { account: self.nonces.len() }
        } else {
            PreparationStep::Ready
        }
    }

    /// Records the identifier of the chain.
    pub fn record_chain_id(&mut self, chain_id: &Felt)
        requires
            old(self).wf(),
        ensures
            final(self).wf(),
            final(self)@ == with_chain_id(old(self)@, chain_id@),
    {
        self.chain_id = Some(*chain_id);
    }

    /// Records the transaction that spawns the player of the account whose turn it is.
    pub fn record_spawn(&mut self, tx_hash: &Felt)
        requires
            old(self).wf(),
            next_request(old(self)@) is Spawn,
        ensures
            final(self).wf(),
            final(self)@ == with_spawn(old(self)@, tx_hash@),
    {
        self.waiting = Some(*tx_hash);
    }

    /// Records that the spawn that was waited for is done.
    pub fn record_spawned(&mut self)
        requires
            old(self).wf(),
            next_request(old(self)@) is AwaitSpawn,
        ensures
            final(self).wf(),
            final(self)@ == with_spawned(old(self)@),
    {
        assert(self.spawned < self.addresses.len());
        self.waiting = None;
        self.spawned = self.spawned + 1;
    }

    /// Records the nonce of the account whose turn it is.
    pub fn record_nonce(&mut self, nonce: &Felt)
        requires
            old(self).wf(),
            next_request(old(self)@) is FetchNonce,
        ensures
            final(self).wf(),
            final(self)@ == with_nonce(old(self)@, nonce@),
    {
        proof {
            lemma_values_push(self.nonces@, *nonce);
        }
        self.nonces.push(*nonce);
    }

    /// The accounts that send the transactions, all with the new encoding.
    pub fn senders(&self) -> (senders: Vec<SenderAccount>)
        requires
            self.wf(),
            self@.chain_id is Some,
        ensures
            addresses(senders@) == self@.addresses,
            senders@.len() == self@.addresses.len(),
            forall|i: int|
                0 <= i < senders@.len() ==> (#[trigger] senders@[i]).address@
                    == self@.addresses[i],
            forall|i: int|
                0 <= i < senders@.len() ==> (#[trigger] senders@[i]).chain_id@ == self@.chain_id->0
                    && senders@[i].encoding == ExecutionEncoding::New,
    {
        let chain_id: Felt = self.chain_id.unwrap();
        let mut senders: Vec<SenderAccount> = Vec::new();
        let mut i: usize = 0;
        while i < self.addresses.len()
            invariant
                i <= self.addresses@.len(),
                senders@.len() == i,
                forall|j: int|
                    0 <= j < i ==> (#[trigger] senders@[j]).address == self.addresses@[j]
                        && senders@[j].chain_id == chain_id && senders@[j].encoding
                        == ExecutionEncoding::New,
            decreases self.addresses@.len() - i,
        {
            senders.push(
                SenderAccount {
                    address: self.addresses[i],
                    chain_id,
                    encoding: ExecutionEncoding::New,
                },
            );
            i = i + 1;
        }
        assert(addresses(senders@) =~= self@.addresses);
        senders
    }

    /// The transactions, once everything was asked.
    pub fn txs(&self) -> (txs: Vec<PreparedTx>)
        requires
            self.wf(),
            next_request(self@) == PreparationStepView::Ready,
        ensures
            prepared_views(txs@) == plan(self@.addresses, self@.nonces, self@.total_txs),
            forall|k: int|
                0 <= k < txs@.len() ==> (#[trigger] txs@[k]).sender < self@.addresses.len(),
    {
        let senders: Vec<SenderAccount> = self.senders();
        assert(senders@.len() == self@.addresses.len());
        prepare_txs(&senders, &self.nonces, self.total_txs)
    }
}

/// The state after `i` answers of a node that gives `chain_id`, the hash of each spawn and the
/// nonce of each account.
pub open spec fn preparation_after(
    addresses: Seq<nat>,
    total_txs: u64,
    chain_id: nat,
    hashes: Seq<nat>,
    nonces: Seq<nat>,
    i: nat,
) -> PreparationView
    decreases i,
{
    if i == 0 {
        unprepared(addresses, total_txs)
    } else {
        let state = preparation_after(
            addresses,
            total_txs,
            chain_id,
            hashes,
            nonces,
            (i - 1) as nat,
        );
        match next_request(state) {
            PreparationStepView::FetchChainId => with_chain_id(state, chain_id),
            PreparationStepView::Spawn { account, .. } => with_spawn(state, hashes[account as int]),
            PreparationStepView::AwaitSpawn { .. } => with_spawned(state),
            PreparationStepView::FetchNonce { account } => with_nonce(
                state,
                nonces[account as int],
            ),
            PreparationStepView::Ready => state,
        }
    }
}

/// What is known after `i` answers.
proof fn lemma_preparation_after(
    addresses: Seq<nat>,
    total_txs: u64,
    chain_id: nat,
    hashes: Seq<nat>,
    nonces: Seq<nat>,
    i: nat,
)
    requires
        nonces.len() == addresses.len(),
        1 <= i <= 1 + 3 * addresses.len(),
    ensures
        ({
            let n = addresses.len();
            let state = preparation_after(addresses, total_txs, chain_id, hashes, nonces, i);
            let j = (i - 1) as nat;
            &&& state.addresses == addresses
            &&& state.total_txs == total_txs
            &&& state.chain_id == Some(chain_id)
            &&& if j < 2 * n {
                &&& state.spawned == j / 2
                &&& state.waiting == if j % 2 == 1 {
                    Some(hashes[j as int / 2])
                } else {
                    None
                }
                &&& state.nonces == Seq::<nat>::empty()
            } else {
                &&& state.spawned == n
                &&& state.waiting == None::<nat>
                &&& state.nonces == nonces.take(j - 2 * n)
            }
        }),
    decreases i,
{
    let n = addresses.len();
    let state = preparation_after(addresses, total_txs, chain_id, hashes, nonces, i);
    if i == 1 {
        let start = preparation_after(addresses, total_txs, chain_id, hashes, nonces, 0);
        assert(state == with_chain_id(start, chain_id));
        assert(nonces.take(0) =~= Seq::<nat>::empty());
    } else {
        let before = (i - 1) as nat;
        lemma_preparation_after(addresses, total_txs, chain_id, hashes, nonces, before);
        let j = (i - 1) as nat;
        if j == 2 * n {
            assert(nonces.take(0) =~= Seq::<nat>::empty());
        } else if j > 2 * n {
            assert(nonces.take(j - 2 * n) =~= nonces.take(j - 1 - 2 * n).push(
                nonces[j - 1 - 2 * n],
            ));
        }
    }
}

/// The order of requests: the chain first; then, for one account after the other, its spawn and
/// the wait for it; and only when every player has spawned the nonces, in the order of the
/// accounts. Then the preparation is ready, with what the node answered.
pub proof fn law_preparation_order(
    addresses: Seq<nat>,
    total_txs: u64,
    chain_id: nat,
    hashes: Seq<nat>,
    nonces: Seq<nat>,
    account: nat,
)
    requires
        nonces.len() == addresses.len(),
        account < addresses.len(),
    ensures
        ({
            let n = addresses.len();
            let request = |i: nat|
                next_request(
                    preparation_after(addresses, total_txs, chain_id, hashes, nonces, i),
                );
            let done = preparation_after(
                addresses,
                total_txs,
                chain_id,
                hashes,
                nonces,
                1 + 3 * n,
            );
            &&& request(0) == PreparationStepView::FetchChainId
            &&& request(1 + 2 * account) == (PreparationStepView::Spawn {
                account,
                calls: seq![spawn_call(actions_contract_value())],
            })
            &&& request(2 + 2 * account) == (PreparationStepView::AwaitSpawn {
                tx_hash: hashes[account as int],
            })
            &&& request(1 + 2 * n + account) == (PreparationStepView::FetchNonce { account })
            &&& request(1 + 3 * n) == PreparationStepView::Ready
            &&& done.chain_id == Some(chain_id)
            &&& done.nonces == nonces
        }),
{
    let n = addresses.len();
    lemma_preparation_after(addresses, total_txs, chain_id, hashes, nonces, 1 + 2 * account);
    lemma_preparation_after(addresses, total_txs, chain_id, hashes, nonces, 2 + 2 * account);
    lemma_preparation_after(addresses, total_txs, chain_id, hashes, nonces, 1 + 2 * n + account);
    lemma_preparation_after(addresses, total_txs, chain_id, hashes, nonces, 1 + 3 * n);
    assert(nonces.take(n as int) =~= nonces);
}

/// A nonce is asked for only when every account has spawned its player.
pub proof fn law_nonces_after_spawns(state: PreparationView)
    requires
        state.spawned <= state.addresses.len(),
        next_request(state) is FetchNonce,
    ensures
        state.chain_id is Some,
        state.waiting is None,
        state.spawned == state.addresses.len(),
{
}

/// What is asked next, in every state: the chain while it is unknown; the spawn that is under way;
/// the spawn of the next account, which calls the actions contract with the selector of `spawn` and
/// without arguments; the next nonce once every account has spawned; and nothing more once every
/// nonce is known.
pub proof fn law_next_request(state: PreparationView)
    requires
        state.spawned <= state.addresses.len(),
        state.nonces.len() <= state.addresses.len(),
    ensures
        ({
            let n = state.addresses.len();
            let next = next_request(state);
            let idle = state.chain_id is Some && state.waiting is None;
            &&& next is FetchChainId <==> state.chain_id is None
            &&& next is AwaitSpawn <==> state.chain_id is Some && state.waiting is Some
            &&& next matches PreparationStepView::AwaitSpawn { tx_hash } ==> state.waiting == Some(
                tx_hash,
            )
            &&& next is Spawn <==> idle && state.spawned < n
            &&& next matches PreparationStepView::Spawn { account, calls } ==> {
                &&& account == state.spawned
                &&& calls.len() == 1
                &&& calls[0].to
                    == 0x1455a4751d41c1daa6a672c46037c1df81d50fa9daeea653e8946026f6653e2nat
                &&& calls[0].selector
                    == 0x217c73ea9ef26581623f20edd45571c1d024612b70d0af3e0842c5b0dc253cdnat
                &&& calls[0].calldata.len() == 0
            }
            &&& next is FetchNonce <==> idle && state.spawned == n && state.nonces.len() < n
            &&& next matches PreparationStepView::FetchNonce { account } ==> account
                == state.nonces.len()
            &&& next is Ready <==> idle && state.spawned == n && state.nonces.len() == n
        }),
{
    law_spawn_call_fields(actions_contract_value());
}

/// Nothing is known at the start, and each answer changes only what it answers.
pub proof fn law_answers_recorded(
    addresses: Seq<nat>,
    total_txs: u64,
    state: PreparationView,
    value: nat,
)
    ensures
        ({
            let start = unprepared(addresses, total_txs);
            &&& start.addresses == addresses
            &&& start.total_txs == total_txs
            &&& start.chain_id is None
            &&& start.spawned == 0
            &&& start.waiting is None
            &&& start.nonces.len() == 0
        }),
        ({
            let after = with_chain_id(state, value);
            &&& after.chain_id == Some(value)
            &&& after.addresses == state.addresses
            &&& after.total_txs == state.total_txs
            &&& after.spawned == state.spawned
            &&& after.waiting == state.waiting
            &&& after.nonces == state.nonces
        }),
        ({
            let after = with_spawn(state, value);
            &&& after.waiting == Some(value)
            &&& after.addresses == state.addresses
            &&& after.total_txs == state.total_txs
            &&& after.chain_id == state.chain_id
            &&& after.spawned == state.spawned
            &&& after.nonces == state.nonces
        }),
        ({
            let after = with_spawned(state);
            &&& after.waiting is None
            &&& after.spawned == state.spawned + 1
            &&& after.addresses == state.addresses
            &&& after.total_txs == state.total_txs
            &&& after.chain_id == state.chain_id
            &&& after.nonces == state.nonces
        }),
        ({
            let after = with_nonce(state, value);
            &&& after.nonces.len() == state.nonces.len() + 1
            &&& after.nonces.last() == value
            &&& state.nonces.is_prefix_of(after.nonces)
            &&& after.addresses == state.addresses
            &&& after.total_txs == state.total_txs
            &&& after.chain_id == state.chain_id
            &&& after.spawned == state.spawned
            &&& after.waiting == state.waiting
        }),
{
    assert(state.nonces =~= with_nonce(state, value).nonces.subrange(
        0,
        state.nonces.len() as int,
    ));
}

/// The values of a step are those of its fields.
pub proof fn law_preparation_step_view_fields(account: usize, calls: Vec<Call>, felt: Felt)
    ensures
        PreparationStep::FetchChainId@ == PreparationStepView::FetchChainId,
        (PreparationStep::Spawn { account, calls })@ == (PreparationStepView::Spawn {
            account: account as nat,
            calls: call_views(calls@),
        }),
        (PreparationStep::AwaitSpawn { tx_hash: felt })@ == (PreparationStepView::AwaitSpawn {
            tx_hash: felt@,
        }),
        (PreparationStep::FetchNonce { account })@ == (PreparationStepView::FetchNonce {
            account: account as nat,
        }),
        PreparationStep::Ready@ == PreparationStepView::Ready,
        value_of(Some(felt)) == Some(felt@),
        value_of(None) == None::<nat>,
{
}

} // verus!
