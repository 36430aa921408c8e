//! The course of a benchmark, and what it measures.
use crate::duration::Duration;
use crate::felt::{lemma_values_push, values, Felt};
use crate::prepare::{law_batch_holds_every_sender, planned_tx};
use vstd::prelude::*;

verus! {

/// What was measured.
#[derive(Clone, Copy, Debug, PartialEq, Eq, Structural)]
pub struct BenchmarkMetrics {
    /// total transactions sent throughout the benchmark
    pub total_transactions: u64,
    /// the average latency for each transaction submission
    pub avg_latency: Duration,
    /// the total duration of which the benchmark routine was executed
    pub total_duration: Duration,
}

impl BenchmarkMetrics {
    /// The metrics of `total_transactions` transactions: the average latency is the time that
    /// submitting them took, divided by their number. Without transactions it is zero.
    pub fn new(
        total_transactions: u64,
        submission_duration: &Duration,
        total_duration: &Duration,
    ) -> (metrics: BenchmarkMetrics)
        ensures
            metrics.total_transactions == total_transactions,
            metrics.total_duration == *total_duration,
            metrics.avg_latency@ == average(submission_duration@, total_transactions as nat),
            total_transactions > 0 ==> metrics.avg_latency@ * total_transactions
                <= submission_duration@ < (metrics.avg_latency@ + 1) * total_transactions,
            total_transactions == 0 ==> metrics.avg_latency@ == 0,
    {
        let avg_latency: Duration = if total_transactions > 0 {
            submission_duration.split(total_transactions)
        } else {
            Duration::from_millis(0)
        };
        BenchmarkMetrics { total_transactions, avg_latency, total_duration: *total_duration }
    }
}

/// The share of each of `n`, in whole nanoseconds. Where there is none, it is zero.
pub open spec fn average(nanos: nat, n: nat) -> nat {
    if n > 0 {
        nanos / n
    } else {
        0
    }
}

/// The interval between two polls in whole milliseconds, cut to 64 bits.
pub fn poll_interval_millis(poll_interval: &Duration) -> (millis: u64)
    ensures
        millis == (poll_interval@ / 1_000_000) % 0x1_0000_0000_0000_0000,
{
    (poll_interval.as_millis() % 0x1_0000_0000_0000_0000) as u64
}

/// The receipt of a transaction of any kind, with the steps that its execution took.
#[derive(Clone, Copy, Debug, PartialEq, Eq, Structural)]
pub enum TransactionReceipt {
    Invoke { steps: u64 },
    L1Handler { steps: u64 },
    Declare { steps: u64 },
    Deploy { steps: u64 },
    DeployAccount { steps: u64 },
}

/// The steps in a receipt.
pub open spec fn receipt_steps(receipt: TransactionReceipt) -> nat {
    match receipt {
        TransactionReceipt::Invoke { steps } => steps as nat,
        TransactionReceipt::L1Handler { steps } => steps as nat,
        TransactionReceipt::Declare { steps } => steps as nat,
        TransactionReceipt::Deploy { steps } => steps as nat,
        TransactionReceipt::DeployAccount { steps } => steps as nat,
    }
}

/// The steps in all receipts.
pub open spec fn sum_of_steps(receipts: Seq<TransactionReceipt>) -> nat
    decreases receipts.len(),
{
    if receipts.len() == 0 {
        0
    } else {
        sum_of_steps(receipts.drop_last()) + receipt_steps(receipts.last())
    }
}

/// The first receipts have no more steps than all of them.
proof fn lemma_steps_of_prefix(receipts: Seq<TransactionReceipt>, i: int)
    requires
        0 <= i <= receipts.len(),
    ensures
        sum_of_steps(receipts.take(i)) <= sum_of_steps(receipts),
    decreases receipts.len(),
{
    if i == receipts.len() {
        assert(receipts.take(i) =~= receipts);
    } else {
        lemma_steps_of_prefix(receipts.drop_last(), i);
        assert(receipts.drop_last().take(i) =~= receipts.take(i));
    }
}

/// The steps in all receipts.
pub fn total_steps(receipts: &Vec<TransactionReceipt>) -> (total: u64)
    requires
        sum_of_steps(receipts@) <= u64::MAX,
    ensures
        total == sum_of_steps(receipts@),
{
    let mut total: u64 = 0;
    let mut i: usize = 0;
    assert(receipts@.take(0) =~= Seq::empty());
    while i < receipts.len()
        invariant
            i <= receipts@.len(),
            sum_of_steps(receipts@) <= u64::MAX,
            total == sum_of_steps(receipts@.take(i as int)),
        decreases receipts@.len() - i,
    {
        let steps: u64 = match receipts[i] {
            TransactionReceipt::Invoke { steps } => steps,
            TransactionReceipt::L1Handler { steps } => steps,
            TransactionReceipt::Declare { steps } => steps,
            TransactionReceipt::Deploy { steps } => steps,
            TransactionReceipt::DeployAccount { steps } => steps,
        };
        proof {
            assert(receipts@.take(i + 1).drop_last() =~= receipts@.take(i as int));
            lemma_steps_of_prefix(receipts@, i + 1);
        }
        total = total + steps;
        i = i + 1;
    }
    assert(receipts@.take(i as int) =~= receipts@);
    total
}

/// What a benchmark does next.
#[derive(Clone, Copy, Debug, PartialEq, Eq, Structural)]
pub enum Step {
    /// Submit the transactions from `start` up to, but not with, `end`, all at once.
    Submit { start: usize, end: usize },
    /// Wait for the receipt of a transaction.
    AwaitReceipt { tx_hash: Felt },
    /// Take the metrics.
    Finish,
    /// Stop: a transaction was not accepted.
    Abort,
}

/// A benchmark under way: batches are submitted one after the other, then the receipt of the last
/// transaction is awaited.
#[derive(Debug)]
pub struct BenchmarkRun {
    txs: usize,
    batch_size: usize,
    pending: Vec<Felt>,
    polled: bool,
    failed: bool,
}

/// The state of a [`BenchmarkRun`].
#[verifier::ext_equal]
pub struct RunView {
    /// How many transactions there are to submit.
    pub txs: nat,
    /// How many are submitted at once.
    pub batch_size: nat,
    /// The hashes of the accepted transactions, in the order of submission.
    pub pending: Seq<nat>,
    /// Whether the last receipt has been awaited.
    pub polled: bool,
    /// Whether a transaction was not accepted.
    pub failed: bool,
}

/// The values of a [`Step`].
pub enum StepView {
    Submit { start: nat, end: nat },
    AwaitReceipt { tx_hash: nat },
    Finish,
    Abort,
}

impl View for Step {
    type V = StepView;

    open spec fn view(&self) -> StepView {
        match *self {
            Step::Submit { start, end } => StepView::Submit { start: start as nat, end: end as nat },
            Step::AwaitReceipt { tx_hash } => StepView::AwaitReceipt { tx_hash: tx_hash@ },
            Step::Finish => StepView::Finish,
            Step::Abort => StepView::Abort,
        }
    }
}

impl View for BenchmarkRun {
    type V = RunView;

    closed spec fn view(&self) -> RunView {
        RunView {
            txs: self.txs as nat,
            batch_size: self.batch_size as nat,
            pending: values(self.pending@),
            polled: self.polled,
            failed: self.failed,
        }
    }
}

/// Where the batch that starts at `start` ends: a batch later, or with the last transaction.
pub open spec fn batch_end(txs: nat, batch_size: nat, start: nat) -> nat {
    if start + batch_size < txs {
        start + batch_size
    } else {
        txs
    }
}

/// The state of a benchmark before the first batch.
pub open spec fn unstarted(txs: nat, batch_size: nat) -> RunView {
    RunView { txs, batch_size, pending: Seq::empty(), polled: false, failed: false }
}

/// What a benchmark does next, by its state.
pub open spec fn next_step(run: RunView) -> StepView {
    let start = run.pending.len();
    if run.failed {
        StepView::Abort
    } else if start < run.txs {
        StepView::Submit { start, end: batch_end(run.txs, run.batch_size, start) }
    } else if start > 0 && !run.polled {
        StepView::AwaitReceipt { tx_hash: run.pending.last() }
    } else {
        StepView::Finish
    }
}

/// How many transactions of a batch were accepted before the first that was not.
pub open spec fn accepted<E>(results: Seq<Result<Felt, E>>) -> nat
    decreases results.len(),
{
    if results.len() == 0 || results.first() is Err {
        0
    } else {
        1 + accepted(results.drop_first())
    }
}

/// The hashes of the first `n` transactions of a batch.
pub open spec fn hashes<E>(results: Seq<Result<Felt, E>>, n: nat) -> Seq<nat> {
    Seq::new(n, |i: int| results[i]->Ok_0@)
}

/// The state once the results of a batch are recorded: what was accepted before the first refusal
/// is pending, and a refusal ends the benchmark.
pub open spec fn batch_recorded<E>(run: RunView, results: Seq<Result<Felt, E>>) -> RunView {
    RunView {
        pending: run.pending + hashes(results, accepted(results)),
        failed: accepted(results) < results.len(),
        ..run
    }
}

/// A batch's leading acceptances are found by looking at one result after the other.
proof fn lemma_accepted<E>(results: Seq<Result<Felt, E>>, n: nat)
    requires
        n <= results.len(),
        forall|i: int| 0 <= i < n ==> (#[trigger] results[i]) is Ok,
        n < results.len() ==> results[n as int] is Err,
    ensures
        accepted(results) == n,
    decreases n,
{
    if n > 0 {
        assert(results.first() is Ok);
        assert forall|i: int| 0 <= i < n - 1 implies (#[trigger] results.drop_first()[i]) is Ok by {
            assert(results.drop_first()[i] == results[i + 1]);
        }
        lemma_accepted(results.drop_first(), (n - 1) as nat);
    }
}

impl BenchmarkRun {
    /// A batch is not empty, and no more transactions are pending than there are.
    pub open spec fn wf(&self) -> bool {
        &&& self@.batch_size > 0
        &&& self@.pending.len() <= self@.txs
        &&& self@.txs <= usize::MAX
    }

    /// A benchmark that has yet to submit `txs` transactions.
    pub fn new(txs: usize, batch_size: usize) -> (run: BenchmarkRun)
        requires
            batch_size > 0,
        ensures
            run.wf(),
            run@ == unstarted(txs as nat, batch_size as nat),
    {
        let run: BenchmarkRun = BenchmarkRun {
            txs,
            batch_size,
            pending: Vec::new(),
            polled: false,
            failed: false,
        };
        assert(run@.pending =~= Seq::<nat>::empty());
        run
    }

    /// What to do next.
    pub fn step(&self) -> (step: Step)
        requires
            self.wf(),
        ensures
            step@ == next_step(self@),
            match step {
                Step::Submit { start, end } => start == self@.pending.len() && start < end
                    <= self@.txs && end - start <= self@.batch_size && (end == self@.txs || end
                    - start == self@.batch_size),
                Step::AwaitReceipt { tx_hash } => self@.pending.len() == self@.txs && self@.txs > 0
                    && tx_hash@ == self@.pending.last(),
                Step::Finish => self@.pending.len() == self@.txs,
                Step::Abort => self@.failed,
            },
    {
        let start: usize = self.pending.len();
        if self.failed {
            Step::Abort
        } else if start < self.txs {
            let end: usize = if self.batch_size < self.txs - start {
                start + self.batch_size
            } else {
                self.txs
            };
            Step::Submit { start, end }
        } else if start > 0 && !self.polled {
            Step::AwaitReceipt { tx_hash: self.pending[start - 1] }
        } else {
            Step::Finish
        }
    }

    /// Records what became of a submitted batch. The first refusal is returned, and ends the
    /// benchmark; what was accepted after it is not recorded.
    pub fn record_batch<E>(&mut self, results: Vec<Result<Felt, E>>) -> (outcome: Result<(), E>)
        requires
            old(self).wf(),
            next_step(old(self)@) matches StepView::Submit { start, end } && results@.len() == end
                - start,
        ensures
            final(self).wf(),
            final(self)@ == batch_recorded(old(self)@, results@),
            match outcome {
                Ok(_) => accepted(results@) == results@.len(),
                Err(e) => accepted(results@) < results@.len() && results@[accepted(results@) as int]
                    == Err::<Felt, E>(e),
            },
    {
        let ghost all = results@;
        let ghost before = self@;
        assert(self@.pending =~= before.pending + hashes(all, 0));
        for result in iter: results
            invariant
                iter.seq() == all,
                before == old(self)@,
                self@.txs == before.txs,
                self@.batch_size == before.batch_size,
                self@.polled == before.polled,
                self@.failed == before.failed,
                !before.failed,
                before.batch_size > 0,
                before.txs <= usize::MAX,
                before.pending.len() + all.len() <= before.txs,
                forall|i: int| 0 <= i < iter.index() ==> (#[trigger] all[i]) is Ok,
                self@.pending == before.pending + hashes(all, iter.index() as nat),
        {
            let ghost n = iter.index() as nat;
            match result {
                Ok(hash) => {
                    proof {
                        lemma_values_push(self.pending@, hash);
                        assert(hashes(all, n + 1) =~= hashes(all, n).push(hash@));
                        assert(before.pending + hashes(all, n + 1) =~= (before.pending + hashes(
                            all,
                            n,
                        )).push(hash@));
                    }
                    self.pending.push(hash);
                },
                Err(e) => {
                    proof {
                        lemma_accepted(all, n);
                    }
                    self.failed = true;
                    return Err(e);
                },
            }
        }
        proof {
            lemma_accepted(all, all.len());
        }
        Ok(())
    }

    /// Records that the last receipt was awaited, whether or not it came.
    pub fn record_receipt(&mut self)
        requires
            old(self).wf(),
        ensures
            final(self).wf(),
            final(self)@ == (RunView { polled: true, ..old(self)@ }),
    {
        self.polled = true;
    }

    /// The hashes of the accepted transactions, in the order of submission.
    pub fn submitted(&self) -> (hashes: &Vec<Felt>)
        ensures
            values(hashes@) == self@.pending,
    {
        &self.pending
    }

    /// The metrics of the accepted transactions.
    pub fn metrics(&self, submission_duration: &Duration, total_duration: &Duration) -> (metrics:
        BenchmarkMetrics)
        ensures
            metrics.total_transactions == self@.pending.len(),
            metrics.total_duration == *total_duration,
            metrics.avg_latency@ == average(submission_duration@, self@.pending.len()),
            self@.pending.len() > 0 ==> metrics.avg_latency@ * self@.pending.len()
                <= submission_duration@ < (metrics.avg_latency@ + 1) * self@.pending.len(),
            self@.pending.len() == 0 ==> metrics.avg_latency@ == 0,
    {
        BenchmarkMetrics::new(self.pending.len() as u64, submission_duration, total_duration)
    }
}

/// The state after `i` batches, where every transaction is accepted and `hashes` are the hashes of
/// the transactions, in order.
pub open spec fn run_after(hashes: Seq<nat>, batch_size: nat, i: nat) -> RunView
    decreases i,
{
    if i == 0 {
        unstarted(hashes.len(), batch_size)
    } else {
        let run = run_after(hashes, batch_size, (i - 1) as nat);
        match next_step(run) {
            StepView::Submit { start, end } => RunView {
                pending: run.pending + hashes.subrange(start as int, end as int),
                ..run
            },
            _ => run,
        }
    }
}

/// Recording a batch that was accepted as a whole takes the state after `i` batches to the state
/// after `i + 1`.
pub proof fn law_accepted_batch_moves_on<E>(
    hashes: Seq<nat>,
    batch_size: nat,
    i: nat,
    results: Seq<Result<Felt, E>>,
)
    requires
        batch_size > 0,
        next_step(run_after(hashes, batch_size, i)) matches StepView::Submit { start, end }
            && results.len() == end - start && forall|j: int|
            0 <= j < results.len() ==> (#[trigger] results[j]) is Ok && results[j]->Ok_0@
                == hashes[start + j],
    ensures
        batch_recorded(run_after(hashes, batch_size, i), results) == run_after(
            hashes,
            batch_size,
            i + 1,
        ),
{
    law_submitted_once_in_order(hashes, batch_size, i);
    lemma_accepted(results, results.len());
    let run = run_after(hashes, batch_size, i);
    let start = run.pending.len();
    let end = batch_end(run.txs, run.batch_size, start);
    assert(self::hashes(results, results.len()) =~= hashes.subrange(start as int, end as int));
    assert(batch_recorded(run, results) =~= run_after(hashes, batch_size, i + 1));
}

/// A refusal within a batch leaves the hashes up to it pending, and the benchmark stops.
pub proof fn law_refused_batch_stops<E>(run: RunView, results: Seq<Result<Felt, E>>, j: nat)
    requires
        j < results.len(),
        forall|k: int| 0 <= k < j ==> (#[trigger] results[k]) is Ok,
        results[j as int] is Err,
    ensures
        batch_recorded(run, results).pending == run.pending + hashes(results, j),
        next_step(batch_recorded(run, results)) == StepView::Abort,
{
    lemma_accepted(results, j);
}

/// The smaller of two numbers.
pub open spec fn smaller(a: nat, b: nat) -> nat {
    if a < b {
        a
    } else {
        b
    }
}

/// Every transaction is submitted once and in order: after `i` batches the first `i * batch_size`
/// transactions are pending, or all of them if there are no more.
pub proof fn law_submitted_once_in_order(hashes: Seq<nat>, batch_size: nat, i: nat)
    requires
        batch_size > 0,
    ensures
        run_after(hashes, batch_size, i) == (RunView {
            txs: hashes.len(),
            batch_size,
            pending: hashes.take(smaller(i * batch_size, hashes.len()) as int),
            polled: false,
            failed: false,
        }),
        run_after(hashes, batch_size, i).pending.is_prefix_of(hashes),
        run_after(hashes, batch_size, i).pending.len() == (if i * batch_size < hashes.len() {
            i * batch_size
        } else {
            hashes.len()
        }),
    decreases i,
{
    let run = run_after(hashes, batch_size, i);
    if i == 0 {
        assert(0 * batch_size == 0) by (nonlinear_arith);
        assert(run.pending =~= hashes.take(0));
    } else {
        let b = batch_size as int;
        let j = i - 1;
        law_submitted_once_in_order(hashes, batch_size, j as nat);
        assert(i * b == j * b + b) by (nonlinear_arith)
            requires
                j == i - 1,
        ;
        assert(run.pending =~= hashes.take(smaller(i * batch_size, hashes.len()) as int));
    }
}

/// Once the batches hold all transactions, the receipt of the last one is awaited, and nothing
/// else. Where there are no transactions, there is nothing to await.
pub proof fn law_last_receipt_is_awaited(hashes: Seq<nat>, batch_size: nat, i: nat)
    requires
        batch_size > 0,
        hashes.len() <= i * batch_size,
    ensures
        ({
            let run = run_after(hashes, batch_size, i);
            let polled = RunView { polled: true, ..run };
            &&& hashes.len() > 0 ==> next_step(run) == (StepView::AwaitReceipt {
                tx_hash: hashes.last(),
            })
            &&& hashes.len() == 0 ==> next_step(run) == StepView::Finish
            &&& next_step(polled) == StepView::Finish
        }),
{
    law_submitted_once_in_order(hashes, batch_size, i);
    assert(hashes.take(hashes.len() as int) =~= hashes);
}

/// Where the transactions fill all batches, batch `i` holds the transactions from `i * batch_size`
/// up to `(i + 1) * batch_size`.
pub proof fn law_full_batches(hashes: Seq<nat>, batch_size: nat, batches: nat, i: nat)
    requires
        batch_size > 0,
        hashes.len() == batches * batch_size,
        i < batches,
    ensures
        next_step(run_after(hashes, batch_size, i)) == (StepView::Submit {
            start: i * batch_size,
            end: (i + 1) * batch_size,
        }),
{
    law_submitted_once_in_order(hashes, batch_size, i);
    let b = batch_size as int;
    assert((i + 1) * b == i * b + b) by (nonlinear_arith);
    assert((i + 1) * b <= batches * b) by (nonlinear_arith)
        requires
            i < batches,
            b > 0,
    ;
}

/// The transactions that are submitted at once come from different senders: where the batches are
/// those that were prepared, every submitted batch has one transaction from each sender.
pub proof fn law_senders_do_not_meet(
    addresses: Seq<nat>,
    nonces: Seq<nat>,
    hashes: Seq<nat>,
    batches: nat,
    i: nat,
)
    requires
        addresses.len() > 0,
        hashes.len() == batches * addresses.len(),
        i < batches,
    ensures
        next_step(run_after(hashes, addresses.len(), i)) matches StepView::Submit { start, end }
            && end == start + addresses.len() && forall|sender: nat|
            sender < addresses.len() ==> (#[trigger] planned_tx(
                addresses,
                nonces,
                start + sender,
            )).sender == sender,
{
    law_full_batches(hashes, addresses.len(), batches, i);
    let n = addresses.len();
    assert((i + 1) * n == i * n + n) by (nonlinear_arith);
    assert forall|sender: nat| sender < n implies (#[trigger] planned_tx(
        addresses,
        nonces,
        i * n + sender,
    )).sender == sender by {
        law_batch_holds_every_sender(addresses, nonces, i, sender);
    }
}

/// A benchmark that was refused a transaction does nothing more.
pub proof fn law_refusal_ends_the_run(run: RunView)
    requires
        run.failed,
    ensures
        next_step(run) == StepView::Abort,
        next_step(RunView { polled: true, ..run }) == StepView::Abort,
{
}

/// The average is the largest whole number of nanoseconds that, taken once for each transaction,
/// does not exceed the whole. Where there are no transactions it is zero.
pub proof fn law_average_divides(nanos: nat, n: nat)
    ensures
        n > 0 ==> average(nanos, n) * n <= nanos < (average(nanos, n) + 1) * n,
        n == 0 ==> average(nanos, n) == 0,
{
    if n > 0 {
        let x = nanos as int;
        let m = n as int;
        vstd::arithmetic::div_mod::lemma_fundamental_div_mod(x, m);
        assert((x / m) * m <= x < (x / m + 1) * m) by (nonlinear_arith)
            requires
                x == m * (x / m) + x % m,
                0 <= x % m < m,
        ;
    }
}

/// The steps of receipts add up: none have no steps, one more receipt of any kind adds its own
/// steps, and two lists together have the steps of both.
pub proof fn law_steps_add_up(
    receipts: Seq<TransactionReceipt>,
    more: Seq<TransactionReceipt>,
    steps: u64,
)
    ensures
        sum_of_steps(Seq::empty()) == 0,
        sum_of_steps(receipts.push(TransactionReceipt::Invoke { steps })) == sum_of_steps(receipts)
            + steps,
        sum_of_steps(receipts.push(TransactionReceipt::L1Handler { steps })) == sum_of_steps(
            receipts,
        ) + steps,
        sum_of_steps(receipts.push(TransactionReceipt::Declare { steps })) == sum_of_steps(receipts)
            + steps,
        sum_of_steps(receipts.push(TransactionReceipt::Deploy { steps })) == sum_of_steps(receipts)
            + steps,
        sum_of_steps(receipts.push(TransactionReceipt::DeployAccount { steps })) == sum_of_steps(
            receipts,
        ) + steps,
        sum_of_steps(receipts + more) == sum_of_steps(receipts) + sum_of_steps(more),
    decreases more.len(),
{
    assert forall|receipt: TransactionReceipt| #[trigger]
        receipts.push(receipt).drop_last() == receipts by {
        assert(receipts.push(receipt).drop_last() =~= receipts);
    }
    if more.len() == 0 {
        assert(receipts + more =~= receipts);
    } else {
        law_steps_add_up(receipts, more.drop_last(), steps);
        assert((receipts + more).drop_last() =~= receipts + more.drop_last());
    }
}

/// A benchmark starts with all transactions to submit, none pending, nothing polled or refused.
pub proof fn law_start_of_a_run(txs: nat, batch_size: nat)
    ensures
        unstarted(txs, batch_size).txs == txs,
        unstarted(txs, batch_size).batch_size == batch_size,
        unstarted(txs, batch_size).pending.len() == 0,
        !unstarted(txs, batch_size).polled,
        !unstarted(txs, batch_size).failed,
{
}

/// What comes next, in every state. After a refusal, nothing. While transactions are left, the
/// batch that starts with the first of them: it is not empty, holds no more than a batch and no more
/// than are left, and is short only where it ends the list. Then the receipt of the last one, once.
/// Then the end.
pub proof fn law_next_step(run: RunView)
    requires
        run.batch_size > 0,
        run.pending.len() <= run.txs,
    ensures
        next_step(run) is Abort <==> run.failed,
        next_step(run) is Submit <==> !run.failed && run.pending.len() < run.txs,
        next_step(run) matches StepView::Submit { start, end } ==> {
            &&& start == run.pending.len()
            &&& start < end <= run.txs
            &&& end - start <= run.batch_size
            &&& end == run.txs || end - start == run.batch_size
        },
        next_step(run) is AwaitReceipt <==> !run.failed && run.pending.len() == run.txs && run.txs
            > 0 && !run.polled,
        next_step(run) matches StepView::AwaitReceipt { tx_hash } ==> tx_hash
            == run.pending[run.txs - 1],
        next_step(run) is Finish <==> !run.failed && run.pending.len() == run.txs && (run.txs == 0
            || run.polled),
{
}

/// The accepted transactions of a batch are those before the first refusal: all before it were
/// accepted, and it was not.
pub proof fn law_accepted_up_to_the_first_refusal<E>(results: Seq<Result<Felt, E>>)
    ensures
        accepted(results) <= results.len(),
        forall|i: int| 0 <= i < accepted(results) ==> (#[trigger] results[i]) is Ok,
        accepted(results) < results.len() ==> results[accepted(results) as int] is Err,
    decreases results.len(),
{
    if results.len() > 0 && results.first() is Ok {
        let rest = results.drop_first();
        law_accepted_up_to_the_first_refusal(rest);
        assert forall|i: int| 0 <= i < accepted(results) implies (#[trigger] results[i]) is Ok by {
            if i > 0 {
                assert(rest[i - 1] == results[i]);
            }
        }
    }
}

/// What recording a batch changes: the hashes of its leading acceptances come behind those that are
/// pending, in order and up to the first refusal, and the benchmark has failed exactly if there is
/// one. Nothing else changes.
pub proof fn law_batch_recorded<E>(run: RunView, results: Seq<Result<Felt, E>>)
    ensures
        ({
            let after = batch_recorded(run, results);
            let n = after.pending.len() - run.pending.len();
            &&& after.txs == run.txs
            &&& after.batch_size == run.batch_size
            &&& after.polled == run.polled
            &&& 0 <= n <= results.len()
            &&& run.pending.is_prefix_of(after.pending)
            &&& forall|i: int|
                0 <= i < n ==> (#[trigger] results[i]) is Ok && after.pending[run.pending.len() + i]
                    == results[i]->Ok_0@
            &&& n < results.len() ==> results[n] is Err
            &&& after.failed <==> exists|i: int|
                0 <= i < results.len() && (#[trigger] results[i]) is Err
        }),
{
    law_accepted_up_to_the_first_refusal(results);
    let after = batch_recorded(run, results);
    assert(run.pending =~= after.pending.subrange(0, run.pending.len() as int));
}

/// The values of a step are those of its fields.
pub proof fn law_step_view_fields(start: usize, end: usize, tx_hash: Felt)
    ensures
        (Step::Submit { start, end })@ == (StepView::Submit {
            start: start as nat,
            end: end as nat,
        }),
        (Step::AwaitReceipt { tx_hash })@ == (StepView::AwaitReceipt { tx_hash: tx_hash@ }),
        Step::Finish@ == StepView::Finish,
        Step::Abort@ == StepView::Abort,
{
}

} // verus!
