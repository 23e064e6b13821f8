//! The batcher benchmark: how it collects batches, a stand-in for the model, and the
//! statistics.
use vstd::prelude::*;

use crate::float::Fp64;

verus! {

/// One half, in binary64.
pub const HALF: u64 = 0x3fe0_0000_0000_0000;

/// How long the stand-in model takes for `n_rows` rows, in microseconds: a fixed time and
/// 100 for each row, or no time at all where the fixed time is zero.
pub fn fake_delay_us(n_rows: usize, fixed_us: u64) -> (us: u64)
    requires
        fixed_us > 0 ==> fixed_us + 100 * n_rows <= u64::MAX,
    ensures
        us == if fixed_us == 0 {
            0
        } else {
            fixed_us + 100 * n_rows
        },
{
    if fixed_us == 0 {
        0
    } else {
        fixed_us + 100 * n_rows as u64
    }
}

/// What the stand-in model predicts: one half for each row.
pub fn fake_predict(n_rows: usize) -> (v: Vec<Fp64>)
    ensures
        v@ == Seq::new(n_rows as nat, |i: int| Fp64 { bits: HALF }),
{
    let mut v: Vec<Fp64> = Vec::new();
    let mut i: usize = 0;
    while i < n_rows
        invariant
            i <= n_rows,
            v@ =~= Seq::new(i as nat, |k: int| Fp64 { bits: HALF }),
        decreases n_rows - i,
    {
        v.push(Fp64 { bits: HALF });
        i = i + 1;
    }
    v
}

/// A request of the benchmark, with the handle by which its reply is sent.
pub struct BenchItem<T> {
    pub row_count: usize,
    pub tx: T,
}

/// The sum of the row counts.
pub open spec fn bench_rows<T>(items: Seq<BenchItem<T>>) -> int
    decreases items.len(),
{
    if items.len() == 0 {
        0
    } else {
        bench_rows(items.drop_last()) + items.last().row_count
    }
}

/// When the benchmark dispatches a batch.
#[derive(Clone, Copy, Debug, PartialEq, Eq, Structural)]
pub struct BenchPolicy {
    /// The number of rows at which a batch is full.
    pub max_batch: usize,
    /// How long an incomplete batch waits for more requests, in nanoseconds from when the
    /// queue was first found empty. With 0 it does not wait.
    pub wait_ns: u128,
}

/// What the loop of the benchmark does next.
#[derive(Clone, Copy, Debug, PartialEq, Eq, Structural)]
pub enum BenchStep {
    /// Wait for a request.
    Receive,
    /// Take a request if one is queued.
    TryReceive,
    /// Wait for a request until `deadline`, in nanoseconds on the clock of the loop.
    Wait { deadline: u128 },
    /// Run the batch.
    Dispatch,
    /// End: the queue is closed and empty.
    Stop,
}

/// A batch that the benchmark collects.
pub struct BenchCollecting<T> {
    pub items: Seq<BenchItem<T>>,
    pub total: int,
    /// When the wait ends, once it has begun.
    pub deadline: Option<u128>,
    pub step: BenchStep,
}

/// What the loop of the benchmark meets with.
pub enum BenchEvent<T> {
    /// A receive or a wait brought this request, or found the queue closed and empty.
    Received(Option<BenchItem<T>>),
    /// An attempt to receive brought this request, or found at this time that none is
    /// queued.
    Tried(Option<BenchItem<T>>, u128),
    /// A wait was ended, because its deadline came.
    Woken,
}

impl<T> BenchCollecting<T> {
    /// What holds of every batch under collection: the rows are counted right, and a request
    /// is only asked for while the batch is not full.
    pub open spec fn wf(self, policy: BenchPolicy) -> bool {
        &&& self.total == bench_rows(self.items)
        &&& match self.step {
            BenchStep::Receive | BenchStep::Stop => self.items.len() == 0 && self.deadline is None,
            BenchStep::TryReceive => self.items.len() > 0 && self.total < policy.max_batch,
            BenchStep::Wait { deadline } => {
                &&& self.items.len() > 0
                &&& self.total < policy.max_batch
                &&& policy.wait_ns > 0
                &&& self.deadline == Some(deadline)
            },
            BenchStep::Dispatch => self.items.len() > 0,
        }
    }
}

/// An empty batch.
pub open spec fn bench_start<T>() -> BenchCollecting<T> {
    BenchCollecting { items: seq![], total: 0, deadline: None, step: BenchStep::Receive }
}

/// A batch with one more request. What is queued already is taken until the batch is full.
pub open spec fn bench_grown<T>(
    policy: BenchPolicy,
    c: BenchCollecting<T>,
    item: BenchItem<T>,
) -> BenchCollecting<T> {
    let total = c.total + item.row_count;
    BenchCollecting {
        items: c.items.push(item),
        total,
        step: if total < policy.max_batch {
            BenchStep::TryReceive
        } else {
            BenchStep::Dispatch
        },
        ..c
    }
}

/// When a wait ends that begins now, as far as the clock goes.
pub open spec fn bench_deadline(policy: BenchPolicy, now: u128) -> u128 {
    if now + policy.wait_ns <= u128::MAX {
        (now + policy.wait_ns) as u128
    } else {
        u128::MAX
    }
}

/// A batch after an event. The wait begins when the queue is found empty for the first time.
pub open spec fn bench_advanced<T>(
    policy: BenchPolicy,
    c: BenchCollecting<T>,
    e: BenchEvent<T>,
) -> BenchCollecting<T> {
    match e {
        BenchEvent::Received(Some(item)) => bench_grown(policy, c, item),
        BenchEvent::Received(None) => BenchCollecting {
            step: if c.items.len() > 0 {
                BenchStep::Dispatch
            } else {
                BenchStep::Stop
            },
            ..c
        },
        BenchEvent::Tried(Some(item), _) => bench_grown(policy, c, item),
        BenchEvent::Tried(None, now) => match c.deadline {
            Some(deadline) => BenchCollecting { step: BenchStep::Wait { deadline }, ..c },
            None => if policy.wait_ns > 0 {
                let deadline = bench_deadline(policy, now);
                BenchCollecting {
                    deadline: Some(deadline),
                    step: BenchStep::Wait { deadline },
                    ..c
                }
            } else {
                BenchCollecting { step: BenchStep::Dispatch, ..c }
            },
        },
        BenchEvent::Woken => BenchCollecting { step: BenchStep::Dispatch, ..c },
    }
}

/// Collects the batches of the benchmark.
pub struct BenchCollector<T> {
    pub items: Vec<BenchItem<T>>,
    pub total: usize,
    /// When the wait ends, once it has begun.
    pub deadline: Option<u128>,
    /// What the loop does next.
    pub step: BenchStep,
}

impl<T> View for BenchCollector<T> {
    type V = BenchCollecting<T>;

    open spec fn view(&self) -> BenchCollecting<T> {
        BenchCollecting {
            items: self.items@,
            total: self.total as int,
            deadline: self.deadline,
            step: self.step,
        }
    }
}

impl<T> BenchCollector<T> {
    /// What holds of every batch under collection. A wait that has begun is one that the
    /// policy asks for.
    pub open spec fn wf(self, policy: BenchPolicy) -> bool {
        self@.wf(policy) && (self.deadline is Some ==> policy.wait_ns > 0)
    }

    /// Starts an empty batch.
    pub fn new() -> (c: BenchCollector<T>)
        ensures
            c@ == bench_start::<T>(),
            forall|policy: BenchPolicy| #[trigger] c.wf(policy),
    {
        let c = BenchCollector {
            items: Vec::new(),
            total: 0,
            deadline: None,
            step: BenchStep::Receive,
        };
        assert(c.items@ =~= seq![]);
        c
    }

    fn grow(&mut self, policy: &BenchPolicy, item: BenchItem<T>)
        requires
            old(self).total == bench_rows(old(self).items@),
            old(self).total + item.row_count <= usize::MAX,
            old(self).deadline is Some ==> policy.wait_ns > 0,
        ensures
            final(self)@ == bench_grown(*policy, old(self)@, item),
            final(self).wf(*policy),
    {
        let ghost before = self.items@;
        self.total = self.total + item.row_count;
        self.items.push(item);
        assert(self.items@.drop_last() =~= before);
        self.step = if self.total < policy.max_batch {
            BenchStep::TryReceive
        } else {
            BenchStep::Dispatch
        };
    }

    /// Takes what a receive or a wait brought. Nothing means that the queue is closed and
    /// empty.
    pub fn received(&mut self, policy: &BenchPolicy, item: Option<BenchItem<T>>)
        requires
            old(self).wf(*policy),
            old(self).step is Receive || old(self).step is Wait,
            item matches Some(i) ==> old(self).total + i.row_count <= usize::MAX,
        ensures
            final(self)@ == bench_advanced(*policy, old(self)@, BenchEvent::Received(item)),
            final(self).wf(*policy),
    {
        match item {
            Some(i) => self.grow(policy, i),
            None => {
                self.step = if self.items.len() > 0 {
                    BenchStep::Dispatch
                } else {
                    BenchStep::Stop
                };
            },
        }
    }

    /// Takes what an attempt to receive brought at the time `now`.
    pub fn tried(&mut self, policy: &BenchPolicy, item: Option<BenchItem<T>>, now: u128)
        requires
            old(self).wf(*policy),
            old(self).step is TryReceive,
            item matches Some(i) ==> old(self).total + i.row_count <= usize::MAX,
        ensures
            final(self)@ == bench_advanced(*policy, old(self)@, BenchEvent::Tried(item, now)),
            final(self).wf(*policy),
    {
        match item {
            Some(i) => self.grow(policy, i),
            None => match self.deadline {
                Some(deadline) => {
                    self.step = BenchStep::Wait { deadline };
                },
                None => if policy.wait_ns > 0 {
                    let deadline: u128 = if policy.wait_ns <= u128::MAX - now {
                        now + policy.wait_ns
                    } else {
                        u128::MAX
                    };
                    self.deadline = Some(deadline);
                    self.step = BenchStep::Wait { deadline };
                } else {
                    self.step = BenchStep::Dispatch;
                },
            },
        }
    }

    /// Ends a wait because its deadline came.
    pub fn woken(&mut self, policy: &BenchPolicy)
        requires
            old(self).wf(*policy),
            old(self).step is Wait,
        ensures
            final(self)@ == bench_advanced(*policy, old(self)@, BenchEvent::<T>::Woken),
            final(self).wf(*policy),
    {
        self.step = BenchStep::Dispatch;
    }
}

proof fn lemma_bench_rows_prefix<T>(items: Seq<BenchItem<T>>, i: int)
    requires
        0 <= i <= items.len(),
    ensures
        0 <= bench_rows(items.take(i)) <= bench_rows(items),
    decreases items.len(),
{
    if i == items.len() {
        assert(items.take(i) =~= items);
        if items.len() > 0 {
            lemma_bench_rows_prefix(items.drop_last(), i - 1);
        }
    } else {
        assert(items.take(i) =~= items.drop_last().take(i));
        lemma_bench_rows_prefix(items.drop_last(), i);
    }
}

/// Answers the requests of a batch with the predictions of the stand-in model for `total`
/// rows: each with as many as it has rows.
pub fn dispatch_batch<T>(items: Vec<BenchItem<T>>, total: usize) -> (r: Vec<(T, Vec<Fp64>)>)
    requires
        bench_rows(items@) <= total,
    ensures
        r@.len() == items@.len(),
        forall|i: int| 0 <= i < r@.len() ==> (#[trigger] r@[i]).0 == items@[i].tx,
        forall|i: int|
            0 <= i < r@.len() ==> (#[trigger] r@[i]).1@ == Seq::new(
                items@[i].row_count as nat,
                |k: int| Fp64 { bits: HALF },
            ),
{
    let ghost all = items@;
    let predictions = fake_predict(total);
    let mut out: Vec<(T, Vec<Fp64>)> = Vec::new();
    let mut offset: usize = 0;
    assert(all.take(0) =~= seq![]);
    for item in it: items.into_iter()
        invariant
            it.seq() == all,
            bench_rows(all) <= total,
            predictions@ == Seq::new(total as nat, |i: int| Fp64 { bits: HALF }),
            offset == bench_rows(all.take(it.index())),
            out@.len() == it.index(),
            forall|i: int| 0 <= i < out@.len() ==> (#[trigger] out@[i]).0 == all[i].tx,
            forall|i: int|
                0 <= i < out@.len() ==> (#[trigger] out@[i]).1@ == Seq::new(
                    all[i].row_count as nat,
                    |k: int| Fp64 { bits: HALF },
                ),
    {
        proof {
            let k = it.index();
            assert(all.take(k + 1).drop_last() =~= all.take(k));
            lemma_bench_rows_prefix(all, k + 1);
        }
        let end: usize = offset + item.row_count;
        let own = vstd::slice::slice_to_vec(
            vstd::slice::slice_subrange(&predictions, offset, end),
        );
        assert(own@ =~= Seq::new(item.row_count as nat, |k: int| Fp64 { bits: HALF }));
        out.push((item.tx, own));
        offset = end;
    }
    out
}

/// The position of a percentile among `len` sorted values.
pub open spec fn percentile_index(len: nat, pct: nat) -> int {
    let scaled = len * pct;
    let wanted = if scaled == 0 {
        0
    } else {
        (scaled - 1) / 100
    };
    if wanted < len {
        wanted
    } else {
        len - 1
    }
}

/// A percentile of sorted values.
pub fn percentile<T: Copy>(sorted: &[T], pct: usize) -> (r: T)
    requires
        sorted@.len() > 0,
        sorted@.len() * pct <= usize::MAX,
    ensures
        r == sorted@[percentile_index(sorted@.len(), pct as nat)],
{
    let len: usize = sorted.len();
    let scaled: usize = len * pct;
    let wanted: usize = if scaled == 0 {
        0
    } else {
        (scaled - 1) / 100
    };
    let index: usize = if wanted < len {
        wanted
    } else {
        len - 1
    };
    assert(index == percentile_index(sorted@.len(), pct as nat));
    sorted[index]
}

/// A higher percentile is not found further to the front, and the hundredth is the last
/// value.
pub proof fn law_percentiles_are_ordered(len: nat, a: nat, b: nat)
    requires
        len > 0,
        a <= b,
    ensures
        0 <= percentile_index(len, a) <= percentile_index(len, b) < len,
        percentile_index(len, 100) == len - 1,
{
    assert(len * a <= len * b) by (nonlinear_arith)
        requires
            a <= b,
    ;
}

/// Whether the values up to position `i` are at least `pct` percent of `len` values.
pub open spec fn reaches_share(i: int, len: nat, pct: nat) -> bool {
    100 * (i + 1) >= pct * len
}

/// A percentile is the nearest rank: the first position up to which that share of the values
/// stands.
pub proof fn law_percentile_is_the_nearest_rank(len: nat, pct: nat)
    requires
        len > 0,
        1 <= pct <= 100,
    ensures
        reaches_share(percentile_index(len, pct), len, pct),
        forall|j: int|
            0 <= j < percentile_index(len, pct) ==> !(#[trigger] reaches_share(j, len, pct)),
{
    let scaled = len * pct;
    assert(0 < scaled <= 100 * len) by (nonlinear_arith)
        requires
            scaled == len * pct,
            len > 0,
            1 <= pct <= 100,
    ;
    assert(pct * len == scaled) by (nonlinear_arith)
        requires
            scaled == len * pct,
    ;
}

proof fn lemma_bench_rows_concat<T>(a: Seq<BenchItem<T>>, b: Seq<BenchItem<T>>)
    ensures
        bench_rows(a + b) == bench_rows(a) + bench_rows(b),
    decreases b.len(),
{
    if b.len() == 0 {
        assert(a + b =~= a);
    } else {
        assert((a + b).drop_last() =~= a + b.drop_last());
        lemma_bench_rows_concat(a, b.drop_last());
    }
}

/// The rows of requests add up.
pub proof fn law_bench_rows_add_up<T>(
    a: Seq<BenchItem<T>>,
    b: Seq<BenchItem<T>>,
    item: BenchItem<T>,
)
    ensures
        bench_rows(Seq::<BenchItem<T>>::empty()) == 0,
        bench_rows(seq![item]) == item.row_count,
        bench_rows(a + b) == bench_rows(a) + bench_rows(b),
{
    reveal_with_fuel(bench_rows, 2);
    assert(seq![item].drop_last() =~= Seq::<BenchItem<T>>::empty());
    lemma_bench_rows_concat(a, b);
}

/// What a request does to a batch, in numbers, whether it was waited for or queued: it stands
/// behind the others, its rows are added, the deadline stays, and the batch goes exactly when
/// its rows have reached the maximum. No request at all ends the batch, or the loop.
pub proof fn law_bench_receiving_in_numbers<T>(
    policy: BenchPolicy,
    c: BenchCollecting<T>,
    item: BenchItem<T>,
    now: u128,
)
    ensures
        ({
            let after = bench_advanced(policy, c, BenchEvent::Received(Some(item)));
            &&& after.items == c.items.push(item)
            &&& after.total == c.total + item.row_count
            &&& after.deadline == c.deadline
            &&& after.total >= policy.max_batch ==> after.step == BenchStep::Dispatch
            &&& after.total < policy.max_batch ==> after.step == BenchStep::TryReceive
            &&& bench_advanced(policy, c, BenchEvent::Tried(Some(item), now)) == after
        }),
        ({
            let after = bench_advanced(policy, c, BenchEvent::Received(None));
            &&& after.items == c.items
            &&& after.total == c.total
            &&& after.deadline == c.deadline
            &&& c.items.len() > 0 ==> after.step == BenchStep::Dispatch
            &&& c.items.len() == 0 ==> after.step == BenchStep::Stop
        }),
{
}

/// What an empty queue and the end of a wait do to a batch, in numbers: without a wait the batch
/// goes; otherwise it waits, for as long as the policy says from when the queue was first found
/// empty, and then goes.
pub proof fn law_bench_waiting_in_numbers<T>(
    policy: BenchPolicy,
    c: BenchCollecting<T>,
    now: u128,
)
    ensures
        ({
            let after = bench_advanced(policy, c, BenchEvent::Tried(None, now));
            &&& after.items == c.items
            &&& after.total == c.total
            &&& c.deadline matches Some(d) ==> after.deadline == Some(d) && after.step
                == (BenchStep::Wait { deadline: d })
            &&& c.deadline is None && policy.wait_ns == 0 ==> after.step == BenchStep::Dispatch
                && after.deadline is None
            &&& c.deadline is None && policy.wait_ns > 0 ==> {
                &&& after.deadline matches Some(d)
                &&& after.step == (BenchStep::Wait { deadline: d })
                &&& now + policy.wait_ns <= u128::MAX ==> d == now + policy.wait_ns
                &&& now + policy.wait_ns > u128::MAX ==> d == u128::MAX
            }
        }),
        ({
            let after = bench_advanced(policy, c, BenchEvent::<T>::Woken);
            &&& after.items == c.items
            &&& after.total == c.total
            &&& after.deadline == c.deadline
            &&& after.step == BenchStep::Dispatch
        }),
{
}

/// A batch starts with nothing, and with a request to wait for.
pub proof fn law_bench_start<T>()
    ensures
        bench_start::<T>().items.len() == 0,
        bench_start::<T>().total == 0,
        bench_start::<T>().deadline is None,
        bench_start::<T>().step == BenchStep::Receive,
{
}

/// A collector is what its fields say.
pub proof fn law_bench_collector_is_its_fields<T>(c: BenchCollector<T>)
    ensures
        c@.items == c.items@,
        c@.total == c.total,
        c@.deadline == c.deadline,
        c@.step == c.step,
{
}

/// The percentile of nothing is the first value, and there is none beyond the last.
pub proof fn law_percentiles_at_the_ends(len: nat, pct: nat)
    requires
        len > 0,
        pct >= 100,
    ensures
        percentile_index(len, 0) == 0,
        percentile_index(len, pct) == len - 1,
{
    assert(len * 0 == 0);
    assert(len * pct >= 100 * len) by (nonlinear_arith)
        requires
            pct >= 100,
    ;
}

/// The stand-in model, called: one half for each row, after a fixed time and 100 microseconds
/// more for each further row, or at once where there is no fixed time.
pub proof fn law_the_stand_in_model(
    n_rows: usize,
    fixed_us: u64,
    us: u64,
    more: u64,
    v: Vec<Fp64>,
)
    requires
        n_rows < usize::MAX,
        call_ensures(fake_delay_us, (n_rows, fixed_us), us),
        call_ensures(fake_delay_us, ((n_rows + 1) as usize, fixed_us), more),
        call_ensures(fake_predict, (n_rows,), v),
    ensures
        fixed_us == 0 ==> us == 0,
        fixed_us > 0 ==> more == us + 100,
        fixed_us > 0 && n_rows == 0 ==> us == fixed_us,
        v@.len() == n_rows,
        forall|i: int| 0 <= i < v@.len() ==> (#[trigger] v@[i]).bits == 0x3fe0_0000_0000_0000,
{
}

/// Each request of the benchmark is answered, to its own sender, with as many predictions as it
/// has rows.
pub proof fn law_bench_requests_are_answered<T>(
    items: Vec<BenchItem<T>>,
    total: usize,
    r: Vec<(T, Vec<Fp64>)>,
)
    requires
        call_ensures(dispatch_batch::<T>, (items, total), r),
    ensures
        r@.len() == items@.len(),
        forall|i: int|
            0 <= i < r@.len() ==> {
                &&& (#[trigger] r@[i]).0 == items@[i].tx
                &&& r@[i].1@.len() == items@[i].row_count
            },
{
}

/// A percentile, called: of sorted values it is one that at least that share of the values does
/// not exceed.
pub proof fn law_percentile_value(sorted: &[u64], pct: usize, r: u64, j: int)
    requires
        call_ensures(percentile::<u64>, (sorted, pct), r),
        sorted@.len() > 0,
        1 <= pct <= 100,
        forall|a: int, b: int| 0 <= a <= b < sorted@.len() ==> sorted@[a] <= sorted@[b],
        0 <= j < sorted@.len(),
        100 * j < pct * sorted@.len(),
    ensures
        sorted@[j] <= r,
        exists|i: int|
            0 <= i < sorted@.len() && #[trigger] sorted@[i] == r && 100 * (i + 1) >= pct
                * sorted@.len(),
{
    let n = sorted@.len();
    let i = percentile_index(n, pct as nat);
    law_percentile_is_the_nearest_rank(n, pct as nat);
    law_percentiles_are_ordered(n, pct as nat, pct as nat);
    assert(reaches_share(i, n, pct as nat));
    assert(100 * (i + 1) >= pct * n);
    assert(sorted@[i] == r);
    assert(j <= i);
}

} // verus!
