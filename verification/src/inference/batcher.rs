//! Dynamic batching: which worker takes a request, when a batch is complete, what the
//! model is run on, and which predictions go back to whom.
//!
//! A worker collects requests into a batch. The batch is dispatched by the first of:
//!   1. its rows reach `max_batch_size`;
//!   2. its rows reach any preferred batch size;
//!   3. the wait has elapsed since its first request arrived.
//!
//! With a maximum of one row every request is dispatched by itself, at once.
use std::sync::Arc;
use vstd::prelude::*;

use crate::float::{Fp32, Fp64};
use crate::inference::{column_output, InferInputs, InferOutput};
use crate::model::{CatBoostModel, ModelRegistry};

verus! {

/// Every worker's queue is full, and the request is shed. Over HTTP it is answered with
/// status 429, over gRPC with RESOURCE_EXHAUSTED.
#[derive(Clone, Copy, Debug, PartialEq, Eq, Structural)]
pub struct OverloadError;

impl OverloadError {
    /// The text of the error.
    pub fn message(&self) -> (s: String)
        ensures
            s@ == "server overloaded, try again later"@,
    {
        "server overloaded, try again later".to_owned()
    }
}

/// A request in a batch, with the handle by which its reply is sent.
pub struct BatchItem<T> {
    pub float_features: Vec<Vec<Fp32>>,
    pub cat_features: Vec<Vec<String>>,
    pub row_count: usize,
    /// When the request arrived, in nanoseconds on the clock of the batcher.
    pub arrival_ns: u128,
    pub tx: T,
}

/// When batches are dispatched.
pub struct BatchPolicy {
    /// The number of rows at which a batch is full.
    pub max_batch_size: usize,
    /// How long an incomplete batch waits for more requests, in nanoseconds from the arrival
    /// of its first one. With 0 it does not wait.
    pub wait_ns: u128,
    /// Numbers of rows at which a batch does not wait any longer.
    pub preferred_batch_sizes: Vec<usize>,
}

/// Whether `total_rows` has reached a preferred size.
pub open spec fn reaches_preferred(preferred: Seq<usize>, total_rows: int) -> bool {
    exists|i: int| 0 <= i < preferred.len() && total_rows >= #[trigger] preferred[i]
}

/// Whether `total_rows` has reached or passed any preferred dispatch size.
pub fn hits_preferred(preferred: &[usize], total_rows: usize) -> (r: bool)
    ensures
        r == reaches_preferred(preferred@, total_rows as int),
{
    let mut i: usize = 0;
    while i < preferred.len()
        invariant
            i <= preferred@.len(),
            forall|j: int| 0 <= j < i ==> total_rows < #[trigger] preferred@[j],
        decreases preferred@.len() - i,
    {
        if total_rows >= preferred[i] {
            assert(total_rows >= preferred@[i as int]);
            return true;
        }
        i = i + 1;
    }
    false
}

/// What a worker does next.
#[derive(Clone, Copy, Debug, PartialEq, Eq, Structural)]
pub enum Step {
    /// Wait for at least one request and take up to `limit` of them.
    Receive { limit: usize },
    /// Take a request if one is queued.
    TryReceive,
    /// As `Receive`, but only until `deadline`, in nanoseconds on the clock of the batcher.
    Wait { limit: usize, deadline: u128 },
    /// Run the batch.
    Dispatch,
    /// End: the queue is closed and empty.
    Stop,
}

/// The sum of the row counts.
pub open spec fn rows_of<T>(batch: Seq<BatchItem<T>>) -> int
    decreases batch.len(),
{
    if batch.len() == 0 {
        0
    } else {
        rows_of(batch.drop_last()) + batch.last().row_count
    }
}

impl BatchPolicy {
    /// How many requests the first receive takes.
    pub open spec fn first_limit(self) -> usize {
        if self.max_batch_size == 0 {
            1
        } else {
            self.max_batch_size
        }
    }

    /// How many requests a wait takes into a batch that holds `held` of them.
    pub open spec fn wait_limit(self, held: int) -> usize {
        if self.max_batch_size <= held {
            1
        } else {
            (self.max_batch_size - held) as usize
        }
    }

    /// Whether an incomplete batch waits for more requests.
    pub open spec fn waits(self) -> bool {
        self.wait_ns > 0
    }

    /// Whether a batch of `held` requests with `total_rows` rows takes no more of them. With
    /// a maximum of one row a single request fills a batch, whatever its rows.
    pub open spec fn full(self, held: int, total_rows: int) -> bool {
        total_rows >= self.max_batch_size || (self.max_batch_size <= 1 && held >= 1)
    }

    /// Whether a batch is full or has reached a preferred size.
    pub open spec fn complete(self, held: int, total_rows: int) -> bool {
        self.full(held, total_rows) || reaches_preferred(
            self.preferred_batch_sizes@,
            total_rows,
        )
    }

    /// Whether the wait has elapsed at the time `now` since a request arrived.
    pub open spec fn elapsed(self, arrival_ns: u128, now: u128) -> bool {
        now - arrival_ns >= self.wait_ns
    }

    /// When the wait of a batch ends whose first request arrived at this time, as far as the
    /// clock goes.
    pub open spec fn deadline(self, arrival_ns: u128) -> u128 {
        if arrival_ns + self.wait_ns <= u128::MAX {
            (arrival_ns + self.wait_ns) as u128
        } else {
            u128::MAX
        }
    }

    /// What is done with a batch that has just grown. What is queued already is taken
    /// before anything else, until the batch is full.
    pub open spec fn after_items(self, held: int, total_rows: int) -> Step {
        if self.full(held, total_rows) {
            Step::Dispatch
        } else {
            Step::TryReceive
        }
    }

    /// What is done at the time `now` with a batch for which nothing more is queued, and
    /// whose first request arrived at `arrival_ns`.
    pub open spec fn after_drain(
        self,
        held: int,
        total_rows: int,
        arrival_ns: u128,
        now: u128,
    ) -> Step {
        if self.complete(held, total_rows) || !self.waits() || self.elapsed(arrival_ns, now) {
            Step::Dispatch
        } else {
            Step::Wait { limit: self.wait_limit(held), deadline: self.deadline(arrival_ns) }
        }
    }

    fn is_full(&self, held: usize, total_rows: usize) -> (r: bool)
        ensures
            r == self.full(held as int, total_rows as int),
    {
        total_rows >= self.max_batch_size || (self.max_batch_size <= 1 && held >= 1)
    }

    fn has_elapsed(&self, arrival_ns: u128, now: u128) -> (r: bool)
        ensures
            r == self.elapsed(arrival_ns, now),
    {
        if now >= arrival_ns {
            now - arrival_ns >= self.wait_ns
        } else {
            false
        }
    }

    fn choose_after_items(&self, held: usize, total_rows: usize) -> (s: Step)
        ensures
            s == self.after_items(held as int, total_rows as int),
    {
        if self.is_full(held, total_rows) {
            Step::Dispatch
        } else {
            Step::TryReceive
        }
    }

    fn choose_after_drain(
        &self,
        held: usize,
        total_rows: usize,
        arrival_ns: u128,
        now: u128,
    ) -> (s: Step)
        ensures
            s == self.after_drain(held as int, total_rows as int, arrival_ns, now),
    {
        if self.is_full(held, total_rows) || hits_preferred(
            &self.preferred_batch_sizes,
            total_rows,
        ) || self.wait_ns == 0 || self.has_elapsed(arrival_ns, now) {
            Step::Dispatch
        } else {
            let limit: usize = if self.max_batch_size <= held {
                1
            } else {
                self.max_batch_size - held
            };
            let deadline: u128 = if self.wait_ns <= u128::MAX - arrival_ns {
                arrival_ns + self.wait_ns
            } else {
                u128::MAX
            };
            Step::Wait { limit, deadline }
        }
    }
}

/// A batch that is being collected, and what the worker does next.
pub struct Collecting<T> {
    pub batch: Seq<BatchItem<T>>,
    pub total_rows: int,
    pub step: Step,
}

/// What a worker meets with.
pub enum Event<T> {
    /// A receive or a wait brought these requests. None at all means that the queue is
    /// closed and empty.
    Received(Seq<BatchItem<T>>),
    /// An attempt to receive brought this request, or found at this time that none is
    /// queued.
    Tried(Option<BatchItem<T>>, u128),
    /// A wait was ended at this time, because its deadline came.
    Woken(u128),
}

impl<T> Collecting<T> {
    /// What holds of every batch under collection: the rows are counted right, a request
    /// is only asked for while the batch is not full, and the worker only waits while the
    /// batch is incomplete, until the wait since the first request has elapsed.
    pub open spec fn wf(self, policy: BatchPolicy) -> bool {
        &&& self.total_rows == rows_of(self.batch)
        &&& match self.step {
            Step::Receive { limit } => {
                &&& self.batch.len() == 0
                &&& limit == policy.first_limit()
            },
            Step::TryReceive => {
                &&& self.batch.len() > 0
                &&& !policy.full(self.batch.len() as int, self.total_rows)
            },
            Step::Wait { limit, deadline } => {
                &&& self.batch.len() > 0
                &&& policy.waits()
                &&& !policy.complete(self.batch.len() as int, self.total_rows)
                &&& limit == policy.wait_limit(self.batch.len() as int)
                &&& deadline == policy.deadline(self.batch[0].arrival_ns)
            },
            Step::Dispatch => self.batch.len() > 0,
            Step::Stop => self.batch.len() == 0,
        }
    }

    /// Whether an event is one that the worker has asked for.
    pub open spec fn expects(self, e: Event<T>) -> bool {
        match e {
            Event::Received(items) => match self.step {
                Step::Receive { limit } => items.len() <= limit,
                Step::Wait { limit, .. } => items.len() <= limit,
                _ => false,
            },
            Event::Tried(_, _) => self.step is TryReceive,
            Event::Woken(_) => self.step is Wait,
        }
    }
}

/// An empty batch.
pub open spec fn nothing_collected<T>(policy: BatchPolicy) -> Collecting<T> {
    Collecting {
        batch: seq![],
        total_rows: 0,
        step: Step::Receive { limit: policy.first_limit() },
    }
}

/// A batch after an event.
pub open spec fn advanced<T>(policy: BatchPolicy, c: Collecting<T>, e: Event<T>) -> Collecting<T> {
    match e {
        Event::Received(items) => if items.len() > 0 {
            let batch = c.batch + items;
            let total_rows = c.total_rows + rows_of(items);
            Collecting {
                batch,
                total_rows,
                step: policy.after_items(batch.len() as int, total_rows),
            }
        } else if c.batch.len() > 0 {
            Collecting { step: Step::Dispatch, ..c }
        } else {
            Collecting { step: Step::Stop, ..c }
        },
        Event::Tried(Some(item), _) => {
            let batch = c.batch.push(item);
            let total_rows = c.total_rows + item.row_count;
            Collecting {
                batch,
                total_rows,
                step: policy.after_items(batch.len() as int, total_rows),
            }
        },
        Event::Tried(None, now) => Collecting {
            step: policy.after_drain(
                c.batch.len() as int,
                c.total_rows,
                c.batch[0].arrival_ns,
                now,
            ),
            ..c
        },
        Event::Woken(now) => if policy.elapsed(c.batch[0].arrival_ns, now) {
            Collecting { step: Step::Dispatch, ..c }
        } else {
            c
        },
    }
}

/// Every batch under collection stays as it should be.
pub proof fn law_collecting_stays_well_formed<T>(
    policy: BatchPolicy,
    c: Collecting<T>,
    e: Event<T>,
)
    requires
        c.wf(policy),
        c.expects(e),
    ensures
        advanced(policy, c, e).wf(policy),
{
    match e {
        Event::Received(items) => {
            lemma_rows_of_concat(c.batch, items);
        },
        Event::Tried(Some(item), _) => {
            assert(c.batch.push(item).drop_last() =~= c.batch);
        },
        _ => {},
    }
}

/// A batch that is being collected.
pub struct Collector<T> {
    pub batch: Vec<BatchItem<T>>,
    pub total_rows: usize,
    /// What the worker does next.
    pub step: Step,
}

impl<T> View for Collector<T> {
    type V = Collecting<T>;

    open spec fn view(&self) -> Collecting<T> {
        Collecting {
            batch: self.batch@,
            total_rows: self.total_rows as int,
            step: self.step,
        }
    }
}

impl<T> Collector<T> {
    /// Starts an empty batch.
    pub fn new(policy: &BatchPolicy) -> (c: Collector<T>)
        ensures
            c@ == nothing_collected::<T>(*policy),
            c@.wf(*policy),
    {
        let limit: usize = if policy.max_batch_size == 0 {
            1
        } else {
            policy.max_batch_size
        };
        let c = Collector { batch: Vec::new(), total_rows: 0, step: Step::Receive { limit } };
        assert(c.batch@ =~= seq![]);
        c
    }

    /// Takes the requests that a receive or a wait brought. None at all means that the
    /// queue is closed and empty.
    pub fn received(&mut self, policy: &BatchPolicy, items: Vec<BatchItem<T>>)
        requires
            old(self)@.wf(*policy),
            old(self)@.expects(Event::Received(items@)),
            old(self).total_rows + rows_of(items@) <= usize::MAX,
        ensures
            final(self)@ == advanced(*policy, old(self)@, Event::Received(items@)),
            final(self)@.wf(*policy),
    {
        proof {
            law_collecting_stays_well_formed(*policy, self@, Event::Received(items@));
        }
        let mut items = items;
        if items.len() == 0 {
            if self.batch.len() > 0 {
                self.step = Step::Dispatch;
            } else {
                self.step = Step::Stop;
            }
            return;
        }
        let added: usize = count_rows(&items);
        self.batch.append(&mut items);
        self.total_rows = self.total_rows + added;
        self.step = policy.choose_after_items(self.batch.len(), self.total_rows);
    }

    /// Takes what an attempt to receive brought at the time `now`.
    pub fn tried(&mut self, policy: &BatchPolicy, item: Option<BatchItem<T>>, now: u128)
        requires
            old(self)@.wf(*policy),
            old(self).step is TryReceive,
            item matches Some(i) ==> old(self).total_rows + i.row_count <= usize::MAX,
        ensures
            final(self)@ == advanced(*policy, old(self)@, Event::Tried(item, now)),
            final(self)@.wf(*policy),
    {
        proof {
            law_collecting_stays_well_formed(*policy, self@, Event::Tried(item, now));
        }
        match item {
            Some(i) => {
                self.total_rows = self.total_rows + i.row_count;
                self.batch.push(i);
                self.step = policy.choose_after_items(self.batch.len(), self.total_rows);
            },
            None => {
                self.step = policy.choose_after_drain(
                    self.batch.len(),
                    self.total_rows,
                    self.batch[0].arrival_ns,
                    now,
                );
            },
        }
    }

    /// Ends a wait at the time `now`. Before the deadline nothing changes.
    pub fn deadline(&mut self, policy: &BatchPolicy, now: u128)
        requires
            old(self)@.wf(*policy),
            old(self).step is Wait,
        ensures
            final(self)@ == advanced(*policy, old(self)@, Event::<T>::Woken(now)),
            final(self)@.wf(*policy),
    {
        if policy.has_elapsed(self.batch[0].arrival_ns, now) {
            self.step = Step::Dispatch;
        }
    }
}

proof fn lemma_rows_of_concat<T>(a: Seq<BatchItem<T>>, b: Seq<BatchItem<T>>)
    ensures
        rows_of(a + b) == rows_of(a) + rows_of(b),
    decreases b.len(),
{
    if b.len() == 0 {
        assert(a + b =~= a);
    } else {
        assert((a + b).drop_last() =~= a + b.drop_last());
        lemma_rows_of_concat(a, b.drop_last());
    }
}

proof fn lemma_rows_of_prefix<T>(a: Seq<BatchItem<T>>, i: int)
    requires
        0 <= i <= a.len(),
    ensures
        0 <= rows_of(a.take(i)) <= rows_of(a),
    decreases a.len(),
{
    if a.len() == 0 {
        assert(a.take(i) =~= a);
    } else if i == a.len() {
        assert(a.take(i) =~= a);
        lemma_rows_of_prefix(a.drop_last(), i - 1);
    } else {
        assert(a.take(i) =~= a.drop_last().take(i));
        lemma_rows_of_prefix(a.drop_last(), i);
    }
}

/// The rows of a batch.
fn count_rows<T>(batch: &Vec<BatchItem<T>>) -> (n: usize)
    requires
        rows_of(batch@) <= usize::MAX,
    ensures
        n == rows_of(batch@),
{
    let mut n: usize = 0;
    let mut i: usize = 0;
    while i < batch.len()
        invariant
            i <= batch@.len(),
            n == rows_of(batch@.take(i as int)),
            rows_of(batch@) <= usize::MAX,
        decreases batch@.len() - i,
    {
        proof {
            assert(batch@.take(i + 1).drop_last() =~= batch@.take(i as int));
            lemma_rows_of_prefix(batch@, i + 1);
        }
        n = n + batch[i].row_count;
        i = i + 1;
    }
    assert(batch@.take(i as int) =~= batch@);
    n
}

/// Whether an event shows that nothing more is queued, at a time at which the wait since
/// `arrival_ns` has elapsed or at which a preferred size is reached.
pub open spec fn drained_and_due<T>(
    policy: BatchPolicy,
    c: Collecting<T>,
    arrival_ns: u128,
    e: Event<T>,
) -> bool {
    let preferred = reaches_preferred(policy.preferred_batch_sizes@, c.total_rows);
    match e {
        Event::Tried(None, now) => preferred || policy.elapsed(arrival_ns, now),
        Event::Woken(now) => preferred || policy.elapsed(arrival_ns, now),
        _ => false,
    }
}

/// A batch that waits is dispatched at the first of three triggers, and not before: it is
/// full, or what was queued has been taken and either a preferred size is reached or the wait
/// has elapsed since the first request of the batch arrived. The queue is open.
pub proof fn law_dispatch_at_the_first_trigger<T>(
    policy: BatchPolicy,
    c: Collecting<T>,
    e: Event<T>,
)
    requires
        c.wf(policy),
        c.expects(e),
        policy.waits(),
        e != Event::<T>::Received(seq![]),
    ensures
        advanced(policy, c, e).batch.len() > 0,
        c.batch.len() > 0 ==> advanced(policy, c, e).batch[0] == c.batch[0],
        advanced(policy, c, e).step == Step::Dispatch <==> {
            let after = advanced(policy, c, e);
            ||| policy.full(after.batch.len() as int, after.total_rows)
            ||| drained_and_due(policy, after, after.batch[0].arrival_ns, e)
        },
{
    if let Event::Received(items) = e {
        if items.len() == 0 {
            assert(items =~= seq![]);
        }
    }
}

/// A wait ends when it has elapsed since the first request arrived: its deadline is that
/// arrival and the wait, and the batch is dispatched once the deadline has come.
pub proof fn law_wait_is_counted_from_the_first_arrival<T>(
    policy: BatchPolicy,
    c: Collecting<T>,
    now: u128,
)
    requires
        c.wf(policy),
        c.step is Wait,
        c.batch[0].arrival_ns + policy.wait_ns <= u128::MAX,
    ensures
        c.step->deadline == c.batch[0].arrival_ns + policy.wait_ns,
        advanced(policy, c, Event::Woken(now)).step == Step::Dispatch <==> now
            >= c.step->deadline,
{
}

/// A batch whose rows have reached the maximum is dispatched at once: nothing more is
/// taken from the queue, and nothing is waited for.
pub proof fn law_full_batch_is_dispatched(
    policy: BatchPolicy,
    held: int,
    total_rows: int,
    arrival_ns: u128,
    now: u128,
)
    requires
        total_rows >= policy.max_batch_size,
    ensures
        policy.after_items(held, total_rows) == Step::Dispatch,
        policy.after_drain(held, total_rows, arrival_ns, now) == Step::Dispatch,
{
}

/// A batch whose rows have reached a preferred size takes what is queued already and
/// does not wait for more.
pub proof fn law_preferred_size_is_not_waited_for(
    policy: BatchPolicy,
    held: int,
    total_rows: int,
    arrival_ns: u128,
    now: u128,
)
    requires
        reaches_preferred(policy.preferred_batch_sizes@, total_rows),
    ensures
        policy.after_drain(held, total_rows, arrival_ns, now) == Step::Dispatch,
        !(policy.after_items(held, total_rows) is Wait),
{
}

/// A worker asks for more requests only while its batch is not full, and waits for them
/// only while the policy has it wait and no preferred size is reached.
pub proof fn law_asks_only_for_incomplete_batches<T>(policy: BatchPolicy, c: Collecting<T>)
    requires
        c.wf(policy),
    ensures
        c.step is TryReceive || c.step is Wait ==> c.total_rows < policy.max_batch_size,
        c.step is Wait ==> policy.waits() && !reaches_preferred(
            policy.preferred_batch_sizes@,
            c.total_rows,
        ),
{
}

/// The requests that an event brings.
pub open spec fn brought<T>(e: Event<T>) -> Seq<BatchItem<T>> {
    match e {
        Event::Received(items) => items,
        Event::Tried(Some(item), _) => seq![item],
        _ => seq![],
    }
}

proof fn lemma_single_rows<T>(batch: Seq<BatchItem<T>>)
    requires
        forall|j: int| 0 <= j < batch.len() ==> (#[trigger] batch[j]).row_count <= 1,
    ensures
        rows_of(batch) <= batch.len(),
    decreases batch.len(),
{
    if batch.len() > 0 {
        let front = batch.drop_last();
        assert forall|j: int| 0 <= j < front.len() implies (#[trigger] front[j]).row_count <= 1 by {
            assert(front[j] == batch[j]);
        }
        lemma_single_rows(front);
        assert(batch.last() == batch[batch.len() - 1]);
    }
}

proof fn lemma_rows_at_least_requests<T>(batch: Seq<BatchItem<T>>)
    requires
        forall|j: int| 0 <= j < batch.len() ==> (#[trigger] batch[j]).row_count >= 1,
    ensures
        rows_of(batch) >= batch.len(),
    decreases batch.len(),
{
    if batch.len() > 0 {
        let front = batch.drop_last();
        assert forall|j: int| 0 <= j < front.len() implies (#[trigger] front[j]).row_count >= 1 by {
            assert(front[j] == batch[j]);
        }
        lemma_rows_at_least_requests(front);
        assert(batch.last() == batch[batch.len() - 1]);
    }
}

/// A batch of requests with one row at most stays within the maximum: what a worker asks
/// for never makes the batch larger than that.
pub proof fn law_single_rows_stay_within_the_maximum<T>(
    policy: BatchPolicy,
    c: Collecting<T>,
    e: Event<T>,
)
    requires
        c.wf(policy),
        c.expects(e),
        forall|j: int| 0 <= j < c.batch.len() ==> (#[trigger] c.batch[j]).row_count <= 1,
        forall|j: int| 0 <= j < brought(e).len() ==> (#[trigger] brought(e)[j]).row_count <= 1,
    ensures
        rows_of(c.batch + brought(e)) <= crate::inference::larger(
            policy.max_batch_size as nat,
            1,
        ),
{
    lemma_rows_of_concat(c.batch, brought(e));
    lemma_single_rows(c.batch);
    lemma_single_rows(brought(e));
}

/// A batch of requests with a row or more holds no more of them than the maximum, and with a
/// maximum of one row no batch holds more than one request, whatever its rows.
pub proof fn law_requests_stay_within_the_maximum<T>(
    policy: BatchPolicy,
    c: Collecting<T>,
    e: Event<T>,
)
    requires
        c.wf(policy),
        c.expects(e),
        policy.max_batch_size <= 1 || forall|j: int|
            0 <= j < c.batch.len() ==> (#[trigger] c.batch[j]).row_count >= 1,
    ensures
        (c.batch + brought(e)).len() <= crate::inference::larger(policy.max_batch_size as nat, 1),
{
    if policy.max_batch_size > 1 {
        lemma_rows_at_least_requests(c.batch);
    }
}

/// With a maximum of one row every request is dispatched by itself, as soon as it is
/// received, whatever its rows and whatever the wait.
pub proof fn law_passthrough<T>(policy: BatchPolicy, items: Seq<BatchItem<T>>)
    requires
        policy.max_batch_size <= 1,
        nothing_collected::<T>(policy).expects(Event::Received(items)),
        items.len() > 0,
    ensures
        items.len() == 1,
        advanced(policy, nothing_collected(policy), Event::Received(items)).batch == items,
        advanced(policy, nothing_collected(policy), Event::Received(items)).step
            == Step::Dispatch,
{
    assert(seq![] + items =~= items);
}

/// What a worker has dispatched, batch after batch, and what it is collecting.
pub struct WorkerRun<T> {
    pub dispatched: Seq<Collecting<T>>,
    pub current: Collecting<T>,
}

/// What a worker has done after these events. It starts a new batch when it has dispatched
/// one.
pub open spec fn run_of<T>(policy: BatchPolicy, events: Seq<Event<T>>) -> WorkerRun<T>
    decreases events.len(),
{
    if events.len() == 0 {
        WorkerRun { dispatched: seq![], current: nothing_collected(policy) }
    } else {
        let before = run_of(policy, events.drop_last());
        let c = advanced(policy, before.current, events.last());
        if c.step == Step::Dispatch {
            WorkerRun {
                dispatched: before.dispatched.push(c),
                current: nothing_collected(policy),
            }
        } else {
            WorkerRun { current: c, ..before }
        }
    }
}

/// The requests that the events bring, one behind the other.
pub open spec fn all_brought<T>(events: Seq<Event<T>>) -> Seq<BatchItem<T>>
    decreases events.len(),
{
    if events.len() == 0 {
        seq![]
    } else {
        all_brought(events.drop_last()) + brought(events.last())
    }
}

/// Whether a worker can meet with these events when `arrived` are all requests that are ever
/// put into its queue, in order. Each event is one that it has asked for, the queue hands
/// out its requests from the front, and a receive brings none only once the queue is closed
/// and empty.
pub open spec fn possible<T>(
    policy: BatchPolicy,
    arrived: Seq<BatchItem<T>>,
    events: Seq<Event<T>>,
) -> bool
    decreases events.len(),
{
    if events.len() == 0 {
        true
    } else {
        let front = events.drop_last();
        let e = events.last();
        let taken = all_brought(front).len() as int;
        &&& possible(policy, arrived, front)
        &&& run_of(policy, front).current.expects(e)
        &&& taken + brought(e).len() <= arrived.len()
        &&& brought(e) == arrived.subrange(taken, taken + brought(e).len())
        &&& e == Event::<T>::Received(seq![]) ==> taken == arrived.len()
    }
}

/// The batches that were dispatched.
pub open spec fn batches<T>(dispatched: Seq<Collecting<T>>) -> Seq<Seq<BatchItem<T>>> {
    dispatched.map_values(|c: Collecting<T>| c.batch)
}

/// Over a whole run of a worker no request is lost, dispatched twice or out of order: the
/// dispatched batches, one behind the other, and the batch under collection are the requests
/// that were taken from the queue. No batch is dispatched empty or with a wrong count of its
/// rows. The worker stops only at a closed and empty queue, and then every request that was
/// ever put into the queue has been dispatched.
pub proof fn law_every_request_is_dispatched_once<T>(
    policy: BatchPolicy,
    arrived: Seq<BatchItem<T>>,
    events: Seq<Event<T>>,
)
    requires
        possible(policy, arrived, events),
    ensures
        all_brought(events).len() <= arrived.len(),
        batches(run_of(policy, events).dispatched).flatten() + run_of(policy, events).current.batch
            == arrived.take(all_brought(events).len() as int),
        forall|i: int|
            0 <= i < run_of(policy, events).dispatched.len() ==> {
                let c = #[trigger] run_of(policy, events).dispatched[i];
                &&& c.batch.len() > 0
                &&& c.total_rows == rows_of(c.batch)
            },
        run_of(policy, events).current.wf(policy),
        run_of(policy, events).current.step != Step::Dispatch,
        run_of(policy, events).current.step == Step::Stop ==> {
            &&& events.last() == Event::<T>::Received(seq![])
            &&& batches(run_of(policy, events).dispatched).flatten() == arrived
        },
    decreases events.len(),
{
    let r = run_of(policy, events);
    if events.len() == 0 {
        assert(batches(r.dispatched) =~= seq![]);
        assert(batches(r.dispatched).flatten() + r.current.batch =~= arrived.take(0));
    } else {
        let front = events.drop_last();
        let e = events.last();
        let before = run_of(policy, front);
        let c = advanced(policy, before.current, e);
        let taken = all_brought(front).len() as int;
        law_every_request_is_dispatched_once(policy, arrived, front);
        law_collecting_stays_well_formed(policy, before.current, e);
        assert(c.batch =~= before.current.batch + brought(e));
        let sofar = batches(before.dispatched).flatten();
        assert(arrived.take(taken) + brought(e) =~= arrived.take(
            all_brought(events).len() as int,
        ));
        assert(sofar + c.batch =~= (sofar + before.current.batch) + brought(e));
        if c.step == Step::Dispatch {
            assert(batches(r.dispatched) =~= batches(before.dispatched).push(c.batch));
            batches(before.dispatched).lemma_flatten_push(c.batch);
            assert(batches(r.dispatched).flatten() + r.current.batch =~= sofar + c.batch);
        }
        if r.current.step == Step::Stop {
            assert(e == Event::<T>::Received(seq![])) by {
                if let Event::Received(items) = e {
                    assert(items =~= seq![]);
                }
            }
            assert(sofar + c.batch =~= sofar);
            assert(arrived.take(arrived.len() as int) =~= arrived);
        }
    }
}

proof fn lemma_held_requests_have_rows<T>(
    sofar: Seq<BatchItem<T>>,
    held: Seq<BatchItem<T>>,
    arrived: Seq<BatchItem<T>>,
    taken: int,
)
    requires
        0 <= taken <= arrived.len(),
        sofar + held == arrived.take(taken),
        forall|j: int| 0 <= j < arrived.len() ==> (#[trigger] arrived[j]).row_count >= 1,
    ensures
        forall|j: int| 0 <= j < held.len() ==> (#[trigger] held[j]).row_count >= 1,
{
    assert forall|j: int| 0 <= j < held.len() implies (#[trigger] held[j]).row_count >= 1 by {
        let k = sofar.len() + j;
        assert((sofar + held).len() == taken);
        assert((sofar + held)[k] == held[j]);
        assert(arrived.take(taken)[k] == arrived[k]);
    }
}

/// Over a whole run of a worker every batch holds at most as many requests as the maximum,
/// where each request has a row or more. With a maximum of one row every batch is a single
/// request, whatever its rows, and none is ever held back.
pub proof fn law_batches_stay_within_the_maximum<T>(
    policy: BatchPolicy,
    arrived: Seq<BatchItem<T>>,
    events: Seq<Event<T>>,
)
    requires
        possible(policy, arrived, events),
        policy.max_batch_size <= 1 || forall|j: int|
            0 <= j < arrived.len() ==> (#[trigger] arrived[j]).row_count >= 1,
    ensures
        forall|i: int|
            0 <= i < run_of(policy, events).dispatched.len() ==> (
            #[trigger] run_of(policy, events).dispatched[i]).batch.len()
                <= crate::inference::larger(policy.max_batch_size as nat, 1),
        run_of(policy, events).current.batch.len() <= crate::inference::larger(
            policy.max_batch_size as nat,
            1,
        ),
        policy.max_batch_size <= 1 ==> {
            &&& forall|i: int|
                0 <= i < run_of(policy, events).dispatched.len() ==> (
                #[trigger] run_of(policy, events).dispatched[i]).batch.len() == 1
            &&& run_of(policy, events).current.batch.len() == 0
        },
    decreases events.len(),
{
    law_every_request_is_dispatched_once(policy, arrived, events);
    if events.len() > 0 {
        let front = events.drop_last();
        let e = events.last();
        let before = run_of(policy, front);
        let c = advanced(policy, before.current, e);
        law_batches_stay_within_the_maximum(policy, arrived, front);
        law_every_request_is_dispatched_once(policy, arrived, front);
        law_collecting_stays_well_formed(policy, before.current, e);
        if policy.max_batch_size > 1 {
            lemma_held_requests_have_rows(
                batches(before.dispatched).flatten(),
                before.current.batch,
                arrived,
                all_brought(front).len() as int,
            );
        }
        law_requests_stay_within_the_maximum(policy, before.current, e);
        assert(c.batch =~= before.current.batch + brought(e));
    }
}

/// The rows of numeric features of all requests, one behind the other.
pub open spec fn all_floats<T>(batch: Seq<BatchItem<T>>) -> Seq<Seq<Fp32>>
    decreases batch.len(),
{
    if batch.len() == 0 {
        seq![]
    } else {
        all_floats(batch.drop_last()) + crate::inference::grid(batch.last().float_features@)
    }
}

/// Whether any request has categorical features.
pub open spec fn any_cats<T>(batch: Seq<BatchItem<T>>) -> bool {
    exists|i: int| 0 <= i < batch.len() && (#[trigger] batch[i]).cat_features@.len() > 0
}

/// The categorical rows of a request in a batch where some request has them. A request
/// without any stands in with an empty row for each of its rows.
pub open spec fn cat_block<T>(item: BatchItem<T>) -> Seq<Seq<Seq<char>>> {
    if item.cat_features@.len() == 0 {
        Seq::new(item.row_count as nat, |i: int| Seq::<Seq<char>>::empty())
    } else {
        crate::inference::text_grid(item.cat_features@)
    }
}

/// The categorical rows of all requests, one behind the other.
pub open spec fn cat_blocks<T>(batch: Seq<BatchItem<T>>) -> Seq<Seq<Seq<char>>>
    decreases batch.len(),
{
    if batch.len() == 0 {
        seq![]
    } else {
        cat_blocks(batch.drop_last()) + cat_block(batch.last())
    }
}

/// The categorical rows of a batch: none where no request has any.
pub open spec fn all_cats<T>(batch: Seq<BatchItem<T>>) -> Seq<Seq<Seq<char>>> {
    if any_cats(batch) {
        cat_blocks(batch)
    } else {
        seq![]
    }
}

/// A batch as the model is run on it, with what is needed to answer the requests.
pub struct CombinedBatch<T> {
    pub inputs: InferInputs,
    pub row_counts: Vec<usize>,
    pub senders: Vec<T>,
}

fn has_cats<T>(batch: &Vec<BatchItem<T>>) -> (r: bool)
    ensures
        r == any_cats(batch@),
{
    let mut i: usize = 0;
    while i < batch.len()
        invariant
            i <= batch@.len(),
            forall|j: int| 0 <= j < i ==> (#[trigger] batch@[j]).cat_features@.len() == 0,
        decreases batch@.len() - i,
    {
        if batch[i].cat_features.len() > 0 {
            assert(batch@[i as int].cat_features@.len() > 0);
            return true;
        }
        i = i + 1;
    }
    false
}

/// Appends `n` empty rows.
fn append_empty_rows(out: &mut Vec<Vec<String>>, n: usize)
    ensures
        crate::inference::text_grid(final(out)@) == crate::inference::text_grid(old(out)@)
            + Seq::new(n as nat, |i: int| Seq::<Seq<char>>::empty()),
{
    let ghost before = crate::inference::text_grid(out@);
    let mut k: usize = 0;
    while k < n
        invariant
            k <= n,
            crate::inference::text_grid(out@) =~= before + Seq::new(
                k as nat,
                |i: int| Seq::<Seq<char>>::empty(),
            ),
        decreases n - k,
    {
        let row: Vec<String> = Vec::new();
        let ghost sofar = crate::inference::text_grid(out@);
        assert(crate::frames::texts(row@) =~= Seq::<Seq<char>>::empty());
        out.push(row);
        assert(crate::inference::text_grid(out@) =~= sofar.push(Seq::<Seq<char>>::empty()));
        k = k + 1;
    }
}

/// Puts the requests of a batch together.
pub fn combine<T>(batch: Vec<BatchItem<T>>) -> (r: CombinedBatch<T>)
    ensures
        r.inputs.floats() == all_floats(batch@),
        r.inputs.cats() == all_cats(batch@),
        r.row_counts@ == batch@.map_values(|i: BatchItem<T>| i.row_count),
        r.senders@ == batch@.map_values(|i: BatchItem<T>| i.tx),
{
    let ghost all = batch@;
    let mut float_features: Vec<Vec<Fp32>> = Vec::new();
    let mut cat_features: Vec<Vec<String>> = Vec::new();
    let mut row_counts: Vec<usize> = Vec::new();
    let mut senders: Vec<T> = Vec::new();
    let with_cats: bool = has_cats(&batch);
    for item in it: batch.into_iter()
        invariant
            it.seq() == all,
            with_cats == any_cats(all),
            crate::inference::grid(float_features@) =~= all_floats(all.take(it.index())),
            with_cats ==> crate::inference::text_grid(cat_features@) =~= cat_blocks(
                all.take(it.index()),
            ),
            !with_cats ==> cat_features@.len() == 0,
            row_counts@ =~= all.take(it.index()).map_values(|i: BatchItem<T>| i.row_count),
            senders@ =~= all.take(it.index()).map_values(|i: BatchItem<T>| i.tx),
    {
        let ghost k = it.index();
        assert(item == all[k]);
        assert(all.take(k + 1).drop_last() =~= all.take(k));
        assert(all.take(k + 1).last() == item);
        let mut floats = item.float_features;
        let mut cats = item.cat_features;
        row_counts.push(item.row_count);
        senders.push(item.tx);
        let ghost floats_before = float_features@;
        let ghost new_floats = floats@;
        float_features.append(&mut floats);
        assert(crate::inference::grid(float_features@) =~= crate::inference::grid(floats_before)
            + crate::inference::grid(new_floats));
        if with_cats {
            if cats.len() == 0 {
                append_empty_rows(&mut cat_features, item.row_count);
            } else {
                let ghost cats_before = cat_features@;
                let ghost new_cats = cats@;
                cat_features.append(&mut cats);
                assert(crate::inference::text_grid(cat_features@)
                    =~= crate::inference::text_grid(cats_before) + crate::inference::text_grid(
                    new_cats,
                ));
            }
        }
    }
    assert(all.take(all.len() as int) =~= all);
    CombinedBatch { inputs: InferInputs { float_features, cat_features }, row_counts, senders }
}

/// The sum of the counts.
pub open spec fn total(counts: Seq<usize>) -> int
    decreases counts.len(),
{
    if counts.len() == 0 {
        0
    } else {
        total(counts.drop_last()) + counts.last()
    }
}

/// The predictions that belong to the `i`-th request.
pub open spec fn share(predictions: Seq<Fp64>, counts: Seq<usize>, i: int) -> Seq<Fp64> {
    predictions.subrange(total(counts.take(i)), total(counts.take(i + 1)))
}

/// Where the share of a request lies among the predictions.
proof fn lemma_total_prefix(counts: Seq<usize>, i: int)
    requires
        0 <= i < counts.len(),
    ensures
        total(counts.take(i + 1)) == total(counts.take(i)) + counts[i],
        0 <= total(counts.take(i)),
        total(counts.take(i + 1)) <= total(counts),
    decreases counts.len(),
{
    assert(counts.take(i + 1).drop_last() =~= counts.take(i));
    if i == counts.len() - 1 {
        assert(counts.take(i + 1) =~= counts);
        lemma_total_nonnegative(counts.take(i));
    } else {
        assert(counts.drop_last().take(i) =~= counts.take(i));
        assert(counts.drop_last().take(i + 1) =~= counts.take(i + 1));
        lemma_total_prefix(counts.drop_last(), i);
    }
}

proof fn lemma_total_nonnegative(counts: Seq<usize>)
    ensures
        total(counts) >= 0,
    decreases counts.len(),
{
    if counts.len() > 0 {
        lemma_total_nonnegative(counts.drop_last());
    }
}

/// What a request is answered.
pub type Reply = Result<Vec<Fp64>, String>;

/// Answers the requests of a batch with the outcome of running the model: each with its
/// share of the predictions, or all with the text of the failure.
pub fn replies<T>(
    senders: Vec<T>,
    row_counts: Vec<usize>,
    outcome: Result<InferOutput, String>,
) -> (r: Vec<(T, Reply)>)
    requires
        senders@.len() == row_counts@.len(),
        outcome matches Ok(out) ==> total(row_counts@) <= out.predictions@.len(),
    ensures
        r@.len() == senders@.len(),
        forall|i: int| 0 <= i < r@.len() ==> (#[trigger] r@[i]).0 == senders@[i],
        forall|i: int|
            0 <= i < r@.len() ==> match outcome {
                Ok(out) => (#[trigger] r@[i]).1 is Ok && (r@[i].1->Ok_0)@ == share(
                    out.predictions@,
                    row_counts@,
                    i,
                ),
                Err(text) => r@[i].1 is Err && (r@[i].1->Err_0)@ == text@,
            },
{
    let ghost all = senders@;
    let mut out: Vec<(T, Reply)> = Vec::new();
    match outcome {
        Ok(o) => {
            let available: usize = o.predictions.len();
            let count: usize = row_counts.len();
            let mut offset: usize = 0;
            let mut i: usize = 0;
            assert(row_counts@.take(0) =~= Seq::<usize>::empty());
            for tx in it: senders.into_iter()
                invariant
                    it.seq() == all,
                    i == it.index(),
                    all.len() == row_counts@.len(),
                    count == row_counts@.len(),
                    out@.len() == i,
                    offset == total(row_counts@.take(i as int)),
                    total(row_counts@) <= available,
                    available == o.predictions@.len(),
                    forall|j: int|
                        0 <= j < out@.len() ==> (#[trigger] out@[j]).0 == all[j] && out@[j].1 is Ok
                            && (out@[j].1->Ok_0)@ == share(o.predictions@, row_counts@, j),
            {
                proof {
                    lemma_total_prefix(row_counts@, i as int);
                }
                let end: usize = offset + row_counts[i];
                let one = vstd::slice::slice_to_vec(
                    vstd::slice::slice_subrange(&o.predictions, offset, end),
                );
                out.push((tx, Ok(one)));
                offset = end;
                i = i + 1;
            }
            out
        },
        Err(text) => {
            for tx in it: senders.into_iter()
                invariant
                    it.seq() == all,
                    out@.len() == it.index(),
                    forall|j: int|
                        0 <= j < out@.len() ==> (#[trigger] out@[j]).0 == all[j] && out@[j].1
                            == Err::<Vec<Fp64>, String>(text),
            {
                out.push((tx, Err(text.clone())));
            }
            out
        },
    }
}

/// What is done with a batch that is dispatched.
pub enum Dispatch<M, T> {
    /// The model is run on it.
    Run { model: Arc<CatBoostModel<M>>, combined: CombinedBatch<T> },
    /// Its requests are answered at once.
    Answer(Vec<(T, Reply)>),
}

/// Dispatches a batch: puts its requests together for the model, or answers all of them
/// with a failure where the model is not loaded.
pub fn dispatch<M, T>(registry: &ModelRegistry<M>, batch: Vec<BatchItem<T>>) -> (d: Dispatch<M, T>)
    ensures
        match d {
            Dispatch::Run { model, combined } => {
                &&& registry.loaded
                &&& *model == *registry.model
                &&& combined.inputs.floats() == all_floats(batch@)
                &&& combined.inputs.cats() == all_cats(batch@)
                &&& combined.row_counts@ == batch@.map_values(|i: BatchItem<T>| i.row_count)
                &&& combined.senders@ == batch@.map_values(|i: BatchItem<T>| i.tx)
            },
            Dispatch::Answer(answers) => {
                &&& !registry.loaded
                &&& answers@.len() == batch@.len()
                &&& forall|i: int|
                    0 <= i < answers@.len() ==> {
                        &&& (#[trigger] answers@[i]).0 == batch@[i].tx
                        &&& answers@[i].1 is Err
                        &&& (answers@[i].1->Err_0)@ == crate::model::registry::not_loaded_text(
                            registry.name@,
                        )
                    }
            },
        },
{
    let combined = combine(batch);
    match registry.current_model() {
        Ok(model) => Dispatch::Run { model, combined },
        Err(e) => Dispatch::Answer(
            replies(combined.senders, combined.row_counts, Err(e.message())),
        ),
    }
}

/// The `k`-th row, or an empty one where there are not that many.
pub open spec fn row_at<A>(rows: Seq<Seq<A>>, k: int) -> Seq<A> {
    if 0 <= k < rows.len() {
        rows[k]
    } else {
        seq![]
    }
}

/// What a model that looks at one row at a time predicts for `n` rows.
pub open spec fn predicted(
    model: spec_fn(Seq<Fp32>, Seq<Seq<char>>) -> Fp64,
    floats: Seq<Seq<Fp32>>,
    cats: Seq<Seq<Seq<char>>>,
    n: nat,
) -> Seq<Fp64> {
    Seq::new(n, |k: int| model(row_at(floats, k), row_at(cats, k)))
}

/// Whether the requests of a batch line up as far as the `i`-th: each of them has as many
/// numeric rows as it counts, unless no request of the batch has any, and each has as many
/// categorical rows as it counts, or none.
pub open spec fn aligned<T>(batch: Seq<BatchItem<T>>, i: int) -> bool {
    &&& (forall|j: int|
        0 <= j <= i ==> (#[trigger] batch[j]).float_features@.len() == batch[j].row_count) || (
    forall|j: int| 0 <= j < batch.len() ==> (#[trigger] batch[j]).float_features@.len() == 0)
    &&& forall|j: int|
        0 <= j <= i ==> (#[trigger] batch[j]).cat_features@.len() == 0
            || batch[j].cat_features@.len() == batch[j].row_count
}

/// The rows of a batch are the sum of its row counts.
proof fn lemma_rows_of_is_total<T>(batch: Seq<BatchItem<T>>)
    ensures
        rows_of(batch) == total(batch.map_values(|i: BatchItem<T>| i.row_count)),
        rows_of(batch) >= 0,
    decreases batch.len(),
{
    let counts = batch.map_values(|i: BatchItem<T>| i.row_count);
    if batch.len() > 0 {
        lemma_rows_of_is_total(batch.drop_last());
        assert(batch.drop_last().map_values(|i: BatchItem<T>| i.row_count) =~= counts.drop_last());
    }
}

proof fn lemma_float_row<T>(batch: Seq<BatchItem<T>>, i: int, k: int)
    requires
        0 <= i < batch.len(),
        0 <= k < batch[i].row_count,
        forall|j: int|
            0 <= j <= i ==> (#[trigger] batch[j]).float_features@.len() == batch[j].row_count,
    ensures
        rows_of(batch.take(i)) + k < all_floats(batch).len(),
        all_floats(batch)[rows_of(batch.take(i)) + k] == batch[i].float_features@[k]@,
    decreases batch.len(),
{
    let front = batch.drop_last();
    lemma_rows_of_is_total(batch.take(i));
    assert(batch.last() == batch[batch.len() - 1]);
    if i == batch.len() - 1 {
        assert forall|j: int| 0 <= j < front.len() implies (
        #[trigger] front[j]).float_features@.len() == front[j].row_count by {
            assert(front[j] == batch[j]);
        }
        lemma_float_count(front);
        assert(batch.take(i) =~= front);
    } else {
        assert forall|j: int| 0 <= j <= i implies (#[trigger] front[j]).float_features@.len()
            == front[j].row_count by {
            assert(front[j] == batch[j]);
        }
        lemma_float_row(front, i, k);
        assert(front.take(i) =~= batch.take(i));
    }
}

proof fn lemma_float_count<T>(batch: Seq<BatchItem<T>>)
    requires
        forall|j: int|
            0 <= j < batch.len() ==> (#[trigger] batch[j]).float_features@.len()
                == batch[j].row_count,
    ensures
        all_floats(batch).len() == rows_of(batch),
    decreases batch.len(),
{
    if batch.len() > 0 {
        let front = batch.drop_last();
        assert forall|j: int| 0 <= j < front.len() implies (
        #[trigger] front[j]).float_features@.len() == front[j].row_count by {
            assert(front[j] == batch[j]);
        }
        lemma_float_count(front);
        assert(batch.last() == batch[batch.len() - 1]);
    }
}

proof fn lemma_no_floats<T>(batch: Seq<BatchItem<T>>)
    requires
        forall|j: int| 0 <= j < batch.len() ==> (#[trigger] batch[j]).float_features@.len() == 0,
    ensures
        all_floats(batch).len() == 0,
    decreases batch.len(),
{
    if batch.len() > 0 {
        let front = batch.drop_last();
        assert forall|j: int| 0 <= j < front.len() implies (
        #[trigger] front[j]).float_features@.len() == 0 by {
            assert(front[j] == batch[j]);
        }
        lemma_no_floats(front);
        assert(batch.last() == batch[batch.len() - 1]);
    }
}

proof fn lemma_cat_row<T>(batch: Seq<BatchItem<T>>, i: int, k: int)
    requires
        0 <= i < batch.len(),
        0 <= k < batch[i].row_count,
        forall|j: int|
            0 <= j <= i ==> (#[trigger] batch[j]).cat_features@.len() == 0
                || batch[j].cat_features@.len() == batch[j].row_count,
    ensures
        rows_of(batch.take(i)) + k < cat_blocks(batch).len(),
        cat_blocks(batch)[rows_of(batch.take(i)) + k] == cat_block(batch[i])[k],
    decreases batch.len(),
{
    let front = batch.drop_last();
    lemma_rows_of_is_total(batch.take(i));
    assert(batch.last() == batch[batch.len() - 1]);
    if i == batch.len() - 1 {
        assert forall|j: int| 0 <= j < front.len() implies (
        #[trigger] front[j]).cat_features@.len() == 0 || front[j].cat_features@.len()
            == front[j].row_count by {
            assert(front[j] == batch[j]);
        }
        lemma_cat_count(front);
        assert(batch.take(i) =~= front);
    } else {
        assert forall|j: int| 0 <= j <= i implies (#[trigger] front[j]).cat_features@.len() == 0
            || front[j].cat_features@.len() == front[j].row_count by {
            assert(front[j] == batch[j]);
        }
        lemma_cat_row(front, i, k);
        assert(front.take(i) =~= batch.take(i));
    }
}

proof fn lemma_cat_count<T>(batch: Seq<BatchItem<T>>)
    requires
        forall|j: int|
            0 <= j < batch.len() ==> (#[trigger] batch[j]).cat_features@.len() == 0
                || batch[j].cat_features@.len() == batch[j].row_count,
    ensures
        cat_blocks(batch).len() == rows_of(batch),
    decreases batch.len(),
{
    if batch.len() > 0 {
        let front = batch.drop_last();
        assert forall|j: int| 0 <= j < front.len() implies (
        #[trigger] front[j]).cat_features@.len() == 0 || front[j].cat_features@.len()
            == front[j].row_count by {
            assert(front[j] == batch[j]);
        }
        lemma_cat_count(front);
        assert(batch.last() == batch[batch.len() - 1]);
    }
}

/// Batching does not show: where the model looks at one row at a time, and the requests of
/// a batch line up or there is only one, the share of the predictions that a request is sent
/// is what the model predicts for that request alone.
pub proof fn law_batching_is_transparent<T>(
    model: spec_fn(Seq<Fp32>, Seq<Seq<char>>) -> Fp64,
    batch: Seq<BatchItem<T>>,
    i: int,
)
    requires
        0 <= i < batch.len(),
        aligned(batch, i) || batch.len() == 1,
    ensures
        share(
            predicted(model, all_floats(batch), all_cats(batch), rows_of(batch) as nat),
            batch.map_values(|b: BatchItem<T>| b.row_count),
            i,
        ) == predicted(
            model,
            crate::inference::grid(batch[i].float_features@),
            crate::inference::text_grid(batch[i].cat_features@),
            batch[i].row_count as nat,
        ),
{
    let counts = batch.map_values(|b: BatchItem<T>| b.row_count);
    let n = batch[i].row_count as int;
    let whole = predicted(model, all_floats(batch), all_cats(batch), rows_of(batch) as nat);
    let floats = crate::inference::grid(batch[i].float_features@);
    let cats = crate::inference::text_grid(batch[i].cat_features@);
    let alone = predicted(model, floats, cats, n as nat);
    let offset = rows_of(batch.take(i));
    lemma_rows_of_is_total(batch);
    lemma_rows_of_is_total(batch.take(i));
    assert(batch.take(i).map_values(|b: BatchItem<T>| b.row_count) =~= counts.take(i));
    lemma_total_prefix(counts, i);
    assert forall|k: int| 0 <= k < n implies share(whole, counts, i)[k] == alone[k] by {
        if aligned(batch, i) {
            if forall|j: int|
                0 <= j <= i ==> (#[trigger] batch[j]).float_features@.len()
                    == batch[j].row_count {
                lemma_float_row(batch, i, k);
            } else {
                lemma_no_floats(batch);
            }
            assert(row_at(all_floats(batch), offset + k) == row_at(floats, k));
            if any_cats(batch) {
                lemma_cat_row(batch, i, k);
            } else {
                assert(batch[i].cat_features@.len() == 0);
            }
            assert(row_at(all_cats(batch), offset + k) =~= row_at(cats, k));
        } else {
            lemma_single(batch);
            assert(batch.take(0) =~= seq![]);
            assert(row_at(all_cats(batch), k) =~= row_at(cats, k));
        }
    }
    assert(share(whole, counts, i) =~= alone);
}

proof fn lemma_single<T>(batch: Seq<BatchItem<T>>)
    requires
        batch.len() == 1,
    ensures
        all_floats(batch) == crate::inference::grid(batch[0].float_features@),
        all_cats(batch) == crate::inference::text_grid(batch[0].cat_features@),
{
    reveal_with_fuel(all_floats, 2);
    reveal_with_fuel(cat_blocks, 2);
    assert(batch.drop_last() =~= seq![]);
    assert(all_floats(batch) =~= crate::inference::grid(batch[0].float_features@));
    if any_cats(batch) {
        assert(all_cats(batch) =~= crate::inference::text_grid(batch[0].cat_features@));
    } else {
        assert(batch[0].cat_features@.len() == 0);
        assert(all_cats(batch) =~= crate::inference::text_grid(batch[0].cat_features@));
    }
}

/// The share of a request holds one prediction for each of its rows.
pub proof fn law_share_fits_the_request(predictions: Seq<Fp64>, counts: Seq<usize>, i: int)
    requires
        total(counts) <= predictions.len(),
        0 <= i < counts.len(),
    ensures
        share(predictions, counts, i).len() == counts[i],
{
    lemma_total_prefix(counts, i);
}

/// The shares of all requests, one behind the other, are the predictions for the rows of
/// the batch: none is lost, sent twice or sent out of order.
pub proof fn law_shares_cover_predictions(predictions: Seq<Fp64>, counts: Seq<usize>)
    requires
        total(counts) <= predictions.len(),
    ensures
        Seq::new(counts.len(), |i: int| share(predictions, counts, i)).flatten()
            == predictions.take(total(counts)),
    decreases counts.len(),
{
    lemma_total_nonnegative(counts);
    let shares = Seq::new(counts.len(), |i: int| share(predictions, counts, i));
    if counts.len() == 0 {
        assert(shares =~= seq![]);
        assert(predictions.take(0) =~= seq![]);
    } else {
        let front = counts.drop_last();
        let last = counts.len() - 1;
        lemma_total_prefix(counts, last);
        lemma_total_nonnegative(front);
        assert(counts.take(last) =~= front);
        assert(counts.take(last + 1) =~= counts);
        law_shares_cover_predictions(predictions, front);
        let fewer = Seq::new(front.len(), |i: int| share(predictions, front, i));
        assert forall|i: int| 0 <= i < front.len() implies fewer[i] == shares[i] by {
            assert(front.take(i) =~= counts.take(i));
            assert(front.take(i + 1) =~= counts.take(i + 1));
        }
        assert(shares.drop_last() =~= fewer);
        assert(shares =~= fewer.push(shares.last()));
        fewer.lemma_flatten_push(shares.last());
        assert(predictions.take(total(front)) + shares.last() =~= predictions.take(
            total(counts),
        ));
    }
}

/// Why a request got no predictions.
#[derive(Debug)]
pub enum InferError {
    /// Every worker's queue is full.
    Overload(OverloadError),
    /// A worker's queue is closed.
    ShutDown,
    /// The worker went away without a reply.
    Dropped,
    /// Running the model failed, with this text.
    Failed(String),
}

/// What came of handing a request to a worker.
#[derive(Clone, Copy, Debug, PartialEq, Eq, Structural)]
pub enum SendOutcome {
    /// It is queued.
    Sent,
    /// The worker's queue is full.
    Full,
    /// The worker's queue is closed.
    Closed,
}

/// What is done next with a request.
#[derive(Clone, Copy, Debug, PartialEq, Eq, Structural)]
pub enum Placing {
    /// Hand it to this worker.
    Try(usize),
    /// Wait for the reply.
    Await,
    /// Give up: every worker is busy.
    Overloaded,
    /// Give up: a worker's queue is closed.
    ShutDown,
}

/// The search for a worker: it starts at worker `start`, and `tried` workers have turned
/// out to be busy.
#[derive(Clone, Copy, Debug, PartialEq, Eq, Structural)]
pub struct Placement {
    pub start: usize,
    pub tried: usize,
    pub workers: usize,
}

/// The `i`-th worker that is tried when the search starts at `start`.
pub open spec fn worker_at(start: int, i: int, workers: int) -> int {
    (start + i) % workers
}

/// What follows an attempt, and the search from there on.
pub open spec fn placed(p: Placement, outcome: SendOutcome) -> (Placement, Placing) {
    let further = Placement { tried: (p.tried + 1) as usize, ..p };
    match outcome {
        SendOutcome::Sent => (p, Placing::Await),
        SendOutcome::Closed => (p, Placing::ShutDown),
        SendOutcome::Full => if p.tried + 1 < p.workers {
            (
                further,
                Placing::Try(
                    worker_at(p.start as int, p.tried + 1, p.workers as int) as usize,
                ),
            )
        } else {
            (further, Placing::Overloaded)
        },
    }
}

/// How a search ends if its attempts come out like this, or the worker that is tried next.
pub open spec fn search(p: Placement, outcomes: Seq<SendOutcome>) -> Placing
    decreases outcomes.len(),
{
    if outcomes.len() == 0 {
        Placing::Try(worker_at(p.start as int, p.tried as int, p.workers as int) as usize)
    } else {
        let (next, placing) = placed(p, outcomes[0]);
        if placing is Try {
            search(next, outcomes.drop_first())
        } else {
            placing
        }
    }
}

impl Placement {
    /// Whether there is a worker left to try.
    pub open spec fn wf(self) -> bool {
        &&& self.start < self.workers
        &&& self.tried < self.workers
    }

    /// The worker that is tried now.
    pub fn worker(&self) -> (w: usize)
        requires
            self.wf(),
        ensures
            w == worker_at(self.start as int, self.tried as int, self.workers as int),
            w < self.workers,
    {
        let ahead: usize = self.workers - self.start;
        if self.tried < ahead {
            proof {
                vstd::arithmetic::div_mod::lemma_small_mod(
                    (self.start + self.tried) as nat,
                    self.workers as nat,
                );
            }
            self.start + self.tried
        } else {
            proof {
                vstd::arithmetic::div_mod::lemma_fundamental_div_mod_converse(
                    self.start + self.tried,
                    self.workers as int,
                    1,
                    self.tried - ahead,
                );
            }
            self.tried - ahead
        }
    }

    /// Decides what follows an attempt. A busy worker hands the request on to the next
    /// one; the request is shed once all of them are busy.
    pub fn after(&mut self, outcome: SendOutcome) -> (p: Placing)
        requires
            old(self).wf(),
        ensures
            (*final(self), p) == placed(*old(self), outcome),
            p is Try ==> final(self).wf(),
    {
        match outcome {
            SendOutcome::Sent => Placing::Await,
            SendOutcome::Closed => Placing::ShutDown,
            SendOutcome::Full => {
                self.tried = self.tried + 1;
                if self.tried < self.workers {
                    Placing::Try(self.worker())
                } else {
                    Placing::Overloaded
                }
            },
        }
    }
}

/// The worker that is tried first when `next` requests have been counted.
pub open spec fn first_worker(next: usize, workers: usize) -> usize {
    (next as int % workers as int) as usize
}

/// The count after one more request. It starts again at zero behind the largest number.
pub open spec fn counted(next: usize) -> usize {
    if next == usize::MAX {
        0
    } else {
        (next + 1) as usize
    }
}

/// Collects concurrent requests into larger batches. Each of the workers has a queue of
/// its own; requests are handed out to them in turn.
pub struct DynamicBatcher<R> {
    pub registry: R,
    pub policy: BatchPolicy,
    /// The number of requests that a worker's queue holds.
    pub capacity: usize,
    pub workers: usize,
    /// Counts requests, to choose the worker that is tried first.
    pub next: usize,
}

impl<R> DynamicBatcher<R> {
    /// Whether there is a worker.
    pub open spec fn wf(self) -> bool {
        self.workers > 0
    }

    /// Sets up a batcher. There is at least one worker, and each queue holds four full
    /// batches of one-row requests, but no less than 64 requests.
    pub fn start(
        registry: R,
        max_batch_size: usize,
        max_wait_ns: u128,
        preferred_batch_sizes: Vec<usize>,
        num_workers: usize,
    ) -> (b: DynamicBatcher<R>)
        requires
            4 * max_batch_size <= usize::MAX,
        ensures
            b.wf(),
            b.registry == registry,
            b.policy == (BatchPolicy {
                max_batch_size,
                wait_ns: max_wait_ns,
                preferred_batch_sizes,
            }),
            b.workers == crate::inference::larger(num_workers as nat, 1),
            b.capacity == crate::inference::larger(4 * max_batch_size as nat, 64),
            b.next == 0,
    {
        let workers: usize = if num_workers < 1 {
            1
        } else {
            num_workers
        };
        let wanted: usize = max_batch_size * 4;
        let capacity: usize = if wanted < 64 {
            64
        } else {
            wanted
        };
        let policy = BatchPolicy {
            max_batch_size,
            wait_ns: max_wait_ns,
            preferred_batch_sizes,
        };
        DynamicBatcher { registry, policy, capacity, workers, next: 0 }
    }

    /// Takes in a request that arrives at this time: wraps it for a batch, and chooses the
    /// worker that is tried first.
    pub fn infer<T>(&mut self, inputs: InferInputs, arrival_ns: u128, tx: T) -> (r: (
        BatchItem<T>,
        Placement,
    ))
        requires
            old(self).wf(),
        ensures
            r.0.float_features == inputs.float_features,
            r.0.cat_features == inputs.cat_features,
            r.0.row_count == crate::inference::larger(
                inputs.float_features@.len(),
                inputs.cat_features@.len(),
            ),
            r.0.arrival_ns == arrival_ns,
            r.0.tx == tx,
            r.1.wf(),
            r.1 == (Placement {
                start: first_worker(old(self).next, old(self).workers),
                tried: 0,
                workers: old(self).workers,
            }),
            *final(self) == (DynamicBatcher { next: counted(old(self).next), ..*old(self) }),
    {
        let row_count: usize = inputs.row_count();
        let item = BatchItem {
            float_features: inputs.float_features,
            cat_features: inputs.cat_features,
            row_count,
            arrival_ns,
            tx,
        };
        let start: usize = self.next % self.workers;
        self.next = self.next.wrapping_add(1);
        (item, Placement { start, tried: 0, workers: self.workers })
    }
}

/// The error of a request whose search for a worker has ended like this, if it found none.
pub open spec fn refusal_of(p: Placing) -> Option<InferError> {
    match p {
        Placing::Overloaded => Some(InferError::Overload(OverloadError)),
        Placing::ShutDown => Some(InferError::ShutDown),
        _ => None,
    }
}

/// Turns the end of a search for a worker into the error of the request, if it found none.
pub fn refusal(p: Placing) -> (r: Option<InferError>)
    ensures
        r == refusal_of(p),
{
    match p {
        Placing::Overloaded => Some(InferError::Overload(OverloadError)),
        Placing::ShutDown => Some(InferError::ShutDown),
        _ => None,
    }
}

/// What a request of `row_count` rows is answered once its worker has replied, or has gone
/// away without a reply.
pub fn infer_result(row_count: usize, reply: Option<Reply>) -> (r: Result<InferOutput, InferError>)
    ensures
        match reply {
            None => r == Err::<InferOutput, InferError>(InferError::Dropped),
            Some(Err(text)) => r == Err::<InferOutput, InferError>(InferError::Failed(text)),
            Some(Ok(p)) => r is Ok && (r->Ok_0).predictions == p && (r->Ok_0).shape@ == seq![
                row_count as i64,
                1i64,
            ],
        },
{
    match reply {
        None => Err(InferError::Dropped),
        Some(Err(text)) => Err(InferError::Failed(text)),
        Some(Ok(p)) => column_output(row_count, Ok(p)),
    }
}

/// A request is shed if and only if every worker that was left to try is busy.
pub proof fn law_shed_only_when_all_are_busy(p: Placement, outcomes: Seq<SendOutcome>)
    requires
        p.wf(),
    ensures
        search(p, outcomes) == Placing::Overloaded <==> {
            &&& outcomes.len() >= p.workers - p.tried
            &&& forall|i: int|
                0 <= i < p.workers - p.tried ==> #[trigger] outcomes[i] == SendOutcome::Full
        },
    decreases outcomes.len(),
{
    if outcomes.len() > 0 {
        let (next, placing) = placed(p, outcomes[0]);
        let rest = outcomes.drop_first();
        if placing is Try {
            law_shed_only_when_all_are_busy(next, rest);
            if search(next, rest) == Placing::Overloaded {
                assert forall|i: int| 0 <= i < p.workers - p.tried implies #[trigger] outcomes[i]
                    == SendOutcome::Full by {
                    if i > 0 {
                        assert(rest[i - 1] == outcomes[i]);
                    }
                }
            }
        }
    }
}

/// A request that finds a worker goes to the first one that is not busy.
pub proof fn law_first_free_worker_takes_the_request(
    p: Placement,
    outcomes: Seq<SendOutcome>,
    k: int,
)
    requires
        p.wf(),
        0 <= k < outcomes.len(),
        k < p.workers - p.tried,
        forall|i: int| 0 <= i < k ==> #[trigger] outcomes[i] == SendOutcome::Full,
    ensures
        search(p, outcomes.take(k)) == Placing::Try(
            worker_at(p.start as int, p.tried + k, p.workers as int) as usize,
        ),
        outcomes[k] == SendOutcome::Sent ==> search(p, outcomes) == Placing::Await,
        outcomes[k] == SendOutcome::Closed ==> search(p, outcomes) == Placing::ShutDown,
    decreases k,
{
    if k > 0 {
        let (next, placing) = placed(p, outcomes[0]);
        let rest = outcomes.drop_first();
        assert(outcomes[0] == SendOutcome::Full);
        assert forall|i: int| 0 <= i < k - 1 implies #[trigger] rest[i] == SendOutcome::Full by {
            assert(rest[i] == outcomes[i + 1]);
        }
        law_first_free_worker_takes_the_request(next, rest, k - 1);
        assert(outcomes.take(k).drop_first() =~= rest.take(k - 1));
        assert(outcomes.take(k)[0] == outcomes[0]);
        assert(rest[k - 1] == outcomes[k]);
    }
}

/// A search that is not ended by a worker tries every worker once.
pub proof fn law_every_worker_is_tried_once(start: int, workers: int, w: int)
    requires
        0 <= start < workers,
        0 <= w < workers,
    ensures
        exists|i: int| 0 <= i < workers && #[trigger] worker_at(start, i, workers) == w,
        forall|i: int, j: int|
            0 <= i < workers && 0 <= j < workers && #[trigger] worker_at(start, i, workers)
                == #[trigger] worker_at(start, j, workers) ==> i == j,
{
    assert forall|i: int| 0 <= i < workers implies #[trigger] worker_at(start, i, workers) == if i
        < workers - start {
        start + i
    } else {
        start + i - workers
    } by {
        if i < workers - start {
            vstd::arithmetic::div_mod::lemma_small_mod((start + i) as nat, workers as nat);
        } else {
            vstd::arithmetic::div_mod::lemma_fundamental_div_mod_converse(
                start + i,
                workers,
                1,
                start + i - workers,
            );
        }
    }
    if w >= start {
        assert(worker_at(start, w - start, workers) == w);
    } else {
        assert(worker_at(start, w - start + workers, workers) == w);
    }
}

/// Requests go round the workers: the search for the worker of one request starts right
/// behind the start of the search before it. Where the count starts again, this takes a
/// number of workers that divides the number of counts.
pub proof fn law_round_robin(next: usize, workers: usize)
    requires
        workers > 0,
        next < usize::MAX || (usize::MAX + 1) % workers as int == 0,
    ensures
        first_worker(counted(next), workers) == worker_at(
            first_worker(next, workers) as int,
            1,
            workers as int,
        ),
{
    let n = next as int;
    let w = workers as int;
    vstd::arithmetic::div_mod::lemma_add_mod_noop(n, 1, w);
    vstd::arithmetic::div_mod::lemma_add_mod_noop(n % w, 1, w);
    vstd::arithmetic::div_mod::lemma_mod_twice(n, w);
    vstd::arithmetic::div_mod::lemma_mod_bound(n, w);
    vstd::arithmetic::div_mod::lemma_mod_bound(n + 1, w);
    if next == usize::MAX {
        vstd::arithmetic::div_mod::lemma_small_mod(0, workers as nat);
    }
}

/// The rows of requests add up: none for no request, those of the request for one, and for
/// two runs of requests the sum of both.
pub proof fn law_rows_add_up<T>(a: Seq<BatchItem<T>>, b: Seq<BatchItem<T>>, item: BatchItem<T>)
    ensures
        rows_of(Seq::<BatchItem<T>>::empty()) == 0,
        rows_of(seq![item]) == item.row_count,
        rows_of(a + b) == rows_of(a) + rows_of(b),
{
    reveal_with_fuel(rows_of, 2);
    assert(seq![item].drop_last() =~= Seq::<BatchItem<T>>::empty());
    lemma_rows_of_concat(a, b);
}

/// When a batch goes, in numbers. One that has just grown is dispatched exactly when its rows
/// have reached the maximum, or the maximum is at most one; otherwise what is queued is taken.
/// One for which nothing is queued is dispatched exactly when its rows have reached the
/// maximum or a preferred size, the wait is zero, or so much time has passed since its first
/// request arrived; otherwise it waits until then, for as many requests as fill it up.
pub proof fn law_dispatch_in_numbers(
    policy: BatchPolicy,
    held: int,
    total_rows: int,
    arrival_ns: u128,
    now: u128,
)
    requires
        held >= 1,
    ensures
        policy.max_batch_size > 1 ==> (policy.after_items(held, total_rows) == Step::Dispatch
            <==> total_rows >= policy.max_batch_size),
        policy.max_batch_size <= 1 ==> policy.after_items(held, total_rows) == Step::Dispatch,
        policy.after_items(held, total_rows) == Step::Dispatch || policy.after_items(
            held,
            total_rows,
        ) == Step::TryReceive,
        policy.after_drain(held, total_rows, arrival_ns, now) == Step::Dispatch <==> {
            ||| total_rows >= policy.max_batch_size
            ||| policy.max_batch_size <= 1
            ||| policy.wait_ns == 0
            ||| now - arrival_ns >= policy.wait_ns
            ||| exists|i: int|
                0 <= i < policy.preferred_batch_sizes@.len() && total_rows
                    >= #[trigger] policy.preferred_batch_sizes@[i]
        },
        policy.after_drain(held, total_rows, arrival_ns, now) == Step::Dispatch
            || policy.after_drain(held, total_rows, arrival_ns, now) is Wait,
        policy.after_drain(held, total_rows, arrival_ns, now) matches Step::Wait {
            limit,
            deadline,
        } ==> {
            &&& held < policy.max_batch_size ==> held + limit == policy.max_batch_size
            &&& held >= policy.max_batch_size ==> limit == 1
            &&& arrival_ns + policy.wait_ns <= u128::MAX ==> deadline == arrival_ns
                + policy.wait_ns
            &&& arrival_ns + policy.wait_ns > u128::MAX ==> deadline == u128::MAX
        },
{
}

/// Where the batch starts: with nothing, and with a receive of as many requests as the
/// maximum has rows, but of one at least.
pub proof fn law_start_in_numbers<T>(policy: BatchPolicy)
    ensures
        nothing_collected::<T>(policy).batch.len() == 0,
        nothing_collected::<T>(policy).total_rows == 0,
        nothing_collected::<T>(policy).step matches Step::Receive { limit } && {
            &&& policy.max_batch_size >= 1 ==> limit == policy.max_batch_size
            &&& policy.max_batch_size == 0 ==> limit == 1
        },
{
}

/// What requests that are received do to a batch, in numbers: they stand behind those that it
/// holds, their rows are added, and the batch goes exactly when its rows reach the maximum or
/// the maximum is at most one. No request at all ends the batch, or the worker.
pub proof fn law_receiving_in_numbers<T>(
    policy: BatchPolicy,
    c: Collecting<T>,
    items: Seq<BatchItem<T>>,
)
    ensures
        items.len() > 0 ==> {
            let after = advanced(policy, c, Event::Received(items));
            &&& after.batch == c.batch + items
            &&& after.total_rows == c.total_rows + rows_of(items)
            &&& after.step == if after.total_rows >= policy.max_batch_size
                || policy.max_batch_size <= 1 {
                Step::Dispatch
            } else {
                Step::TryReceive
            }
        },
        items.len() == 0 ==> {
            let after = advanced(policy, c, Event::Received(items));
            &&& after.batch == c.batch
            &&& after.total_rows == c.total_rows
            &&& c.batch.len() > 0 ==> after.step == Step::Dispatch
            &&& c.batch.len() == 0 ==> after.step == Step::Stop
        },
{
}

/// What an attempt to receive and a wake-up do to a batch, in numbers.
pub proof fn law_trying_in_numbers<T>(
    policy: BatchPolicy,
    c: Collecting<T>,
    item: BatchItem<T>,
    now: u128,
)
    requires
        c.batch.len() > 0,
    ensures
        ({
            let after = advanced(policy, c, Event::Tried(Some(item), now));
            &&& after.batch == c.batch.push(item)
            &&& after.total_rows == c.total_rows + item.row_count
            &&& after.step == if after.total_rows >= policy.max_batch_size
                || policy.max_batch_size <= 1 {
                Step::Dispatch
            } else {
                Step::TryReceive
            }
        }),
        ({
            let after = advanced(policy, c, Event::Tried(None, now));
            &&& after.batch == c.batch
            &&& after.total_rows == c.total_rows
            &&& after.step == Step::Dispatch <==> {
                ||| c.total_rows >= policy.max_batch_size
                ||| policy.max_batch_size <= 1
                ||| policy.wait_ns == 0
                ||| now - c.batch[0].arrival_ns >= policy.wait_ns
                ||| exists|i: int|
                    0 <= i < policy.preferred_batch_sizes@.len() && c.total_rows
                        >= #[trigger] policy.preferred_batch_sizes@[i]
            }
            &&& after.step == Step::Dispatch || after.step is Wait
        }),
        ({
            let after = advanced(policy, c, Event::Woken(now));
            &&& after.batch == c.batch
            &&& after.total_rows == c.total_rows
            &&& now - c.batch[0].arrival_ns >= policy.wait_ns ==> after.step == Step::Dispatch
            &&& now - c.batch[0].arrival_ns < policy.wait_ns ==> after.step == c.step
        }),
{
}

/// Which events a worker can meet with: a receive or a wait brings no more requests than it
/// has asked for.
pub proof fn law_expected_events<T>(
    c: Collecting<T>,
    items: Seq<BatchItem<T>>,
    item: Option<BatchItem<T>>,
    now: u128,
)
    ensures
        c.expects(Event::Received(items)) <==> {
            ||| c.step matches Step::Receive { limit } && items.len() <= limit
            ||| c.step matches Step::Wait { limit, deadline } && items.len() <= limit
        },
        c.expects(Event::Tried(item, now)) <==> c.step == Step::TryReceive,
        c.expects(Event::Woken(now)) <==> c.step is Wait,
{
}

/// A collector is what its fields say.
pub proof fn law_collector_is_its_fields<T>(c: Collector<T>)
    ensures
        c@.batch == c.batch@,
        c@.total_rows == c.total_rows,
        c@.step == c.step,
{
}

proof fn lemma_all_floats_concat<T>(a: Seq<BatchItem<T>>, b: Seq<BatchItem<T>>)
    ensures
        all_floats(a + b) == all_floats(a) + all_floats(b),
    decreases b.len(),
{
    if b.len() == 0 {
        assert(a + b =~= a);
        assert(all_floats(a) + all_floats(b) =~= all_floats(a));
    } else {
        assert((a + b).drop_last() =~= a + b.drop_last());
        lemma_all_floats_concat(a, b.drop_last());
        assert(all_floats(a + b) =~= all_floats(a) + all_floats(b));
    }
}

proof fn lemma_cat_blocks_concat<T>(a: Seq<BatchItem<T>>, b: Seq<BatchItem<T>>)
    ensures
        cat_blocks(a + b) == cat_blocks(a) + cat_blocks(b),
    decreases b.len(),
{
    if b.len() == 0 {
        assert(a + b =~= a);
        assert(cat_blocks(a) + cat_blocks(b) =~= cat_blocks(a));
    } else {
        assert((a + b).drop_last() =~= a + b.drop_last());
        lemma_cat_blocks_concat(a, b.drop_last());
        assert(cat_blocks(a + b) =~= cat_blocks(a) + cat_blocks(b));
    }
}

proof fn lemma_cat_blocks_without_cats<T>(batch: Seq<BatchItem<T>>)
    requires
        forall|i: int| 0 <= i < batch.len() ==> (#[trigger] batch[i]).cat_features@.len() == 0,
    ensures
        cat_blocks(batch).len() == rows_of(batch),
        forall|i: int| 0 <= i < cat_blocks(batch).len() ==> (#[trigger] cat_blocks(batch)[i]).len()
            == 0,
    decreases batch.len(),
{
    if batch.len() > 0 {
        let front = batch.drop_last();
        assert forall|i: int| 0 <= i < front.len() implies (
        #[trigger] front[i]).cat_features@.len() == 0 by {
            assert(front[i] == batch[i]);
        }
        lemma_cat_blocks_without_cats(front);
        lemma_rows_of_is_total(front);
        assert(batch.last() == batch[batch.len() - 1]);
    }
}

/// The numeric rows of two runs of requests are the rows of both, one behind the other, and
/// those of a single request are its own.
pub proof fn law_combined_floats<T>(
    a: Seq<BatchItem<T>>,
    b: Seq<BatchItem<T>>,
    item: BatchItem<T>,
)
    ensures
        all_floats(Seq::<BatchItem<T>>::empty()).len() == 0,
        all_floats(seq![item]).len() == item.float_features@.len(),
        forall|i: int|
            0 <= i < item.float_features@.len() ==> (#[trigger] all_floats(seq![item])[i])
                == item.float_features@[i]@,
        all_floats(a + b) == all_floats(a) + all_floats(b),
{
    reveal_with_fuel(all_floats, 2);
    assert(seq![item].drop_last() =~= Seq::<BatchItem<T>>::empty());
    lemma_all_floats_concat(a, b);
}

/// Whether a request of the run has a categorical row.
pub open spec fn some_cats<T>(batch: Seq<BatchItem<T>>) -> bool {
    !(forall|i: int| 0 <= i < batch.len() ==> (#[trigger] batch[i]).cat_features@.len() == 0)
}

/// The categorical rows of two runs of requests are those of both, one behind the other. Where
/// only one of the runs has any, the other stands in with an empty row for each of its rows,
/// and where none has any there are none. Those of a single request are its own.
pub proof fn law_combined_cats<T>(a: Seq<BatchItem<T>>, b: Seq<BatchItem<T>>, item: BatchItem<T>)
    ensures
        all_cats(seq![item]).len() == item.cat_features@.len(),
        forall|i: int|
            0 <= i < item.cat_features@.len() ==> (#[trigger] all_cats(seq![item])[i]).len()
                == item.cat_features@[i]@.len(),
        forall|i: int, j: int|
            0 <= i < item.cat_features@.len() && 0 <= j < item.cat_features@[i]@.len()
                ==> (#[trigger] all_cats(seq![item])[i][j]) == item.cat_features@[i]@[j]@,
        !some_cats(a) ==> all_cats(a).len() == 0,
        some_cats(a) && some_cats(b) ==> all_cats(a + b) == all_cats(a) + all_cats(b),
        some_cats(a) && !some_cats(b) ==> {
            &&& rows_of(b) >= 0
            &&& all_cats(a + b) == all_cats(a) + Seq::new(
                rows_of(b) as nat,
                |k: int| Seq::<Seq<char>>::empty(),
            )
        },
        !some_cats(a) && some_cats(b) ==> {
            &&& rows_of(a) >= 0
            &&& all_cats(a + b) == Seq::new(
                rows_of(a) as nat,
                |k: int| Seq::<Seq<char>>::empty(),
            ) + all_cats(b)
        },
{
    lemma_single(seq![item]);
    lemma_cat_blocks_concat(a, b);
    lemma_rows_of_is_total(a);
    lemma_rows_of_is_total(b);
    if some_cats(a) {
        let i = choose|i: int| 0 <= i < a.len() && (#[trigger] a[i]).cat_features@.len() > 0;
        assert((a + b)[i] == a[i]);
        assert(any_cats(a + b));
    } else {
        lemma_cat_blocks_without_cats(a);
        assert(cat_blocks(a) =~~= Seq::new(
            rows_of(a) as nat,
            |k: int| Seq::<Seq<char>>::empty(),
        ));
    }
    if some_cats(b) {
        let i = choose|i: int| 0 <= i < b.len() && (#[trigger] b[i]).cat_features@.len() > 0;
        assert((a + b)[a.len() + i] == b[i]);
        assert(any_cats(a + b));
    } else {
        lemma_cat_blocks_without_cats(b);
        assert(cat_blocks(b) =~~= Seq::new(
            rows_of(b) as nat,
            |k: int| Seq::<Seq<char>>::empty(),
        ));
    }
}

/// Row counts add up.
pub proof fn law_counts_add_up(counts: Seq<usize>, n: usize)
    ensures
        total(Seq::<usize>::empty()) == 0,
        total(counts.push(n)) == total(counts) + n,
{
    assert(counts.push(n).drop_last() =~= counts);
}

/// The search goes from worker to worker in order, and from the last one to the first.
pub proof fn law_workers_are_tried_in_order(start: int, i: int, workers: int)
    requires
        0 <= start < workers,
        0 <= i < workers,
    ensures
        start + i < workers ==> worker_at(start, i, workers) == start + i,
        start + i >= workers ==> worker_at(start, i, workers) == start + i - workers,
{
    if start + i < workers {
        vstd::arithmetic::div_mod::lemma_small_mod((start + i) as nat, workers as nat);
    } else {
        vstd::arithmetic::div_mod::lemma_fundamental_div_mod_converse(
            start + i,
            workers,
            1,
            start + i - workers,
        );
    }
}

/// What follows an attempt, in numbers: a request that is queued waits for its reply, a closed
/// queue ends the search, and a full one hands the request to the next worker, until all have
/// been tried.
pub proof fn law_placing_in_numbers(p: Placement)
    requires
        p.wf(),
    ensures
        placed(p, SendOutcome::Sent) == (p, Placing::Await),
        placed(p, SendOutcome::Closed) == (p, Placing::ShutDown),
        placed(p, SendOutcome::Full).0.start == p.start,
        placed(p, SendOutcome::Full).0.workers == p.workers,
        placed(p, SendOutcome::Full).0.tried == p.tried + 1,
        p.tried + 1 == p.workers ==> placed(p, SendOutcome::Full).1 == Placing::Overloaded,
        p.tried + 1 < p.workers ==> {
            &&& placed(p, SendOutcome::Full).1 matches Placing::Try(w) && w == if p.start + p.tried
                + 1 < p.workers {
                p.start + p.tried + 1
            } else {
                p.start + p.tried + 1 - p.workers
            }
        },
{
    if p.tried + 1 < p.workers {
        law_workers_are_tried_in_order(p.start as int, p.tried + 1, p.workers as int);
    }
}

/// The first worker that is tried is the count of requests less a multiple of the workers.
pub proof fn law_first_worker_in_numbers(next: usize, workers: usize)
    requires
        workers > 0,
    ensures
        first_worker(next, workers) < workers,
        next < workers ==> first_worker(next, workers) == next,
        next >= workers ==> first_worker(next, workers) == first_worker(
            (next - workers) as usize,
            workers,
        ),
        next < usize::MAX ==> counted(next) == next + 1,
        counted(usize::MAX) == 0,
{
    vstd::arithmetic::div_mod::lemma_mod_bound(next as int, workers as int);
    if next < workers {
        vstd::arithmetic::div_mod::lemma_small_mod(next as nat, workers as nat);
    } else {
        vstd::arithmetic::div_mod::lemma_mod_sub_multiples_vanish(next as int, workers as int);
        vstd::arithmetic::div_mod::lemma_mod_bound(next - workers, workers as int);
    }
}

/// A search that has ended without a worker is an error of its own kind; any other is none.
pub proof fn law_refusals(w: usize)
    ensures
        refusal_of(Placing::Overloaded) == Some(InferError::Overload(OverloadError)),
        refusal_of(Placing::ShutDown) == Some(InferError::ShutDown),
        refusal_of(Placing::Await) is None,
        refusal_of(Placing::Try(w)) is None,
{
}

/// What a worker does to its batch when requests are received: they are taken in behind those
/// that it holds, and the batch goes when its rows have reached the maximum.
pub proof fn law_received_requests_are_taken_in<T>(
    c: &mut Collector<T>,
    policy: &BatchPolicy,
    items: Vec<BatchItem<T>>,
)
    requires
        call_ensures(Collector::<T>::received, (c, policy, items), ()),
        items@.len() > 0,
    ensures
        final(c).batch@ == old(c).batch@ + items@,
        final(c).total_rows == old(c).total_rows + rows_of(items@),
        final(c).step == Step::Dispatch <==> final(c).total_rows >= policy.max_batch_size
            || policy.max_batch_size <= 1,
        final(c).step == Step::Dispatch || final(c).step == Step::TryReceive,
{
    law_receiving_in_numbers(*policy, old(c)@, items@);
}

/// What a worker does to its batch when it looks for a queued request: one is taken in, and
/// without one the batch goes or waits, as the rows and the time since its first request say.
pub proof fn law_queued_requests_are_taken_in<T>(
    c: &mut Collector<T>,
    policy: &BatchPolicy,
    item: Option<BatchItem<T>>,
    now: u128,
)
    requires
        call_ensures(Collector::<T>::tried, (c, policy, item, now), ()),
        old(c).batch@.len() > 0,
    ensures
        item matches Some(i) ==> {
            &&& final(c).batch@ == old(c).batch@.push(i)
            &&& final(c).total_rows == old(c).total_rows + i.row_count
            &&& final(c).step == Step::Dispatch <==> final(c).total_rows >= policy.max_batch_size
                || policy.max_batch_size <= 1
        },
        item is None ==> {
            &&& final(c).batch@ == old(c).batch@
            &&& final(c).total_rows == old(c).total_rows
            &&& final(c).step == Step::Dispatch <==> {
                ||| old(c).total_rows >= policy.max_batch_size
                ||| policy.max_batch_size <= 1
                ||| policy.wait_ns == 0
                ||| now - old(c).batch@[0].arrival_ns >= policy.wait_ns
                ||| exists|i: int|
                    0 <= i < policy.preferred_batch_sizes@.len() && old(c).total_rows
                        >= #[trigger] policy.preferred_batch_sizes@[i]
            }
        },
{
    if let Some(i) = item {
        law_trying_in_numbers(*policy, old(c)@, i, now);
    } else {
        law_trying_in_numbers(*policy, old(c)@, old(c).batch@[0], now);
    }
}

/// What a worker does to its batch when a wait is over: it goes where the time since its first
/// request is up, and nothing is taken in.
pub proof fn law_due_batches_go<T>(c: &mut Collector<T>, policy: &BatchPolicy, now: u128)
    requires
        call_ensures(Collector::<T>::deadline, (c, policy, now), ()),
        old(c).batch@.len() > 0,
    ensures
        final(c).batch@ == old(c).batch@,
        final(c).total_rows == old(c).total_rows,
        now - old(c).batch@[0].arrival_ns >= policy.wait_ns ==> final(c).step == Step::Dispatch,
        now - old(c).batch@[0].arrival_ns < policy.wait_ns ==> final(c).step == old(c).step,
{
    law_trying_in_numbers(*policy, old(c)@, old(c).batch@[0], now);
}

/// What a request is to the batcher: its rows, counted by the longer of its two lists, and what
/// it came with. The search for a worker starts at the next in turn, and the turn moves on.
pub proof fn law_requests_are_counted<R, T>(
    b: &mut DynamicBatcher<R>,
    inputs: InferInputs,
    arrival_ns: u128,
    tx: T,
    r: (BatchItem<T>, Placement),
)
    requires
        call_ensures(DynamicBatcher::<R>::infer::<T>, (b, inputs, arrival_ns, tx), r),
        old(b).workers > 0,
    ensures
        r.0.float_features == inputs.float_features,
        r.0.cat_features == inputs.cat_features,
        r.0.arrival_ns == arrival_ns,
        r.0.tx == tx,
        r.0.row_count >= inputs.float_features@.len(),
        r.0.row_count >= inputs.cat_features@.len(),
        r.0.row_count == inputs.float_features@.len() || r.0.row_count
            == inputs.cat_features@.len(),
        r.1.workers == old(b).workers,
        r.1.tried == 0,
        r.1.start < old(b).workers,
        old(b).next < old(b).workers ==> r.1.start == old(b).next,
        old(b).next < usize::MAX ==> final(b).next == old(b).next + 1,
        final(b).workers == old(b).workers,
        final(b).policy == old(b).policy,
        final(b).capacity == old(b).capacity,
        final(b).registry == old(b).registry,
{
    law_first_worker_in_numbers(old(b).next, old(b).workers);
}

/// How a batcher starts: with the policy that it is given, with one worker at least, and with
/// queues for four full batches, but for 64 requests at least.
pub proof fn law_batcher_starts_as_told<R>(
    registry: R,
    max_batch_size: usize,
    max_wait_ns: u128,
    preferred_batch_sizes: Vec<usize>,
    num_workers: usize,
    b: DynamicBatcher<R>,
)
    requires
        call_ensures(
            DynamicBatcher::<R>::start,
            (registry, max_batch_size, max_wait_ns, preferred_batch_sizes, num_workers),
            b,
        ),
    ensures
        b.registry == registry,
        b.policy.max_batch_size == max_batch_size,
        b.policy.wait_ns == max_wait_ns,
        b.policy.preferred_batch_sizes == preferred_batch_sizes,
        num_workers > 0 ==> b.workers == num_workers,
        num_workers == 0 ==> b.workers == 1,
        max_batch_size >= 16 ==> b.capacity == 4 * max_batch_size,
        max_batch_size < 16 ==> b.capacity == 64,
        b.next == 0,
{
}

/// Each request of a batch is answered, to its own sender, with as many predictions as it has
/// rows, and these are the ones that stand where its rows stand in the batch. Where the model
/// fails, every request is told so.
pub proof fn law_each_request_gets_its_own_predictions<T>(
    batch: Vec<BatchItem<T>>,
    c: CombinedBatch<T>,
    outcome: Result<InferOutput, String>,
    r: Vec<(T, Reply)>,
    i: int,
)
    requires
        call_ensures(combine::<T>, (batch,), c),
        call_ensures(replies::<T>, (c.senders, c.row_counts, outcome), r),
        outcome matches Ok(out) ==> rows_of(batch@) <= out.predictions@.len(),
        0 <= i < batch@.len(),
    ensures
        r@.len() == batch@.len(),
        r@[i].0 == batch@[i].tx,
        match outcome {
            Ok(out) => {
                &&& r@[i].1 matches Ok(p)
                &&& p@.len() == batch@[i].row_count
                &&& forall|k: int|
                    0 <= k < p@.len() ==> (#[trigger] p@[k]) == out.predictions@[rows_of(
                        batch@.take(i),
                    ) + k]
            },
            Err(text) => r@[i].1 matches Err(t) && t@ == text@,
        },
{
    let counts = c.row_counts@;
    lemma_rows_of_is_total(batch@);
    lemma_rows_of_is_total(batch@.take(i));
    lemma_total_prefix(counts, i);
    assert(batch@.take(i).map_values(|b: BatchItem<T>| b.row_count) =~= counts.take(i));
}

/// The model sees the rows of a batch in the order of its requests: the rows of a request stand
/// behind those of all requests before it, item by item.
pub proof fn law_model_sees_the_rows_in_order<T>(
    batch: Vec<BatchItem<T>>,
    c: CombinedBatch<T>,
    i: int,
    k: int,
)
    requires
        call_ensures(combine::<T>, (batch,), c),
        0 <= i < batch@.len(),
        0 <= k < batch@[i].float_features@.len(),
        forall|j: int|
            0 <= j < i ==> (#[trigger] batch@[j]).float_features@.len() == batch@[j].row_count,
    ensures
        rows_of(batch@.take(i)) + k < c.inputs.float_features@.len(),
        c.inputs.float_features@[rows_of(batch@.take(i)) + k]@ == batch@[i].float_features@[k]@,
{
    let all = batch@;
    let before = all.take(i);
    let after = all.skip(i + 1);
    assert(all =~= before + seq![all[i]] + after);
    law_combined_floats(before + seq![all[i]], after, all[i]);
    law_combined_floats(before, seq![all[i]], all[i]);
    assert forall|j: int| 0 <= j < before.len() implies (
    #[trigger] before[j]).float_features@.len() == before[j].row_count by {
        assert(before[j] == all[j]);
    }
    lemma_all_floats_len(before);
    let n = rows_of(before) + k;
    assert(c.inputs.floats() == all_floats(all));
    assert(c.inputs.floats().len() == c.inputs.float_features@.len());
    assert(all_floats(all)[n] == all_floats(seq![all[i]])[k]);
    assert(c.inputs.floats()[n] == c.inputs.float_features@[n]@);
}

proof fn lemma_all_floats_len<T>(batch: Seq<BatchItem<T>>)
    requires
        forall|j: int|
            0 <= j < batch.len() ==> (#[trigger] batch[j]).float_features@.len()
                == batch[j].row_count,
    ensures
        all_floats(batch).len() == rows_of(batch),
    decreases batch.len(),
{
    if batch.len() > 0 {
        let front = batch.drop_last();
        assert forall|j: int| 0 <= j < front.len() implies (
        #[trigger] front[j]).float_features@.len() == front[j].row_count by {
            assert(front[j] == batch[j]);
        }
        lemma_all_floats_len(front);
        assert(batch.last() == batch[batch.len() - 1]);
    }
}

/// A batch is run by the model that is loaded. Without one, every request of it is answered, to
/// its own sender, that the model is not loaded.
pub proof fn law_only_a_loaded_model_runs<M, T>(
    registry: &ModelRegistry<M>,
    batch: Vec<BatchItem<T>>,
    d: Dispatch<M, T>,
)
    requires
        call_ensures(dispatch::<M, T>, (registry, batch), d),
    ensures
        registry.loaded <==> d is Run,
        d matches Dispatch::Run { model, combined } ==> {
            &&& *model == *registry.model
            &&& combined.inputs.floats() == all_floats(batch@)
            &&& combined.inputs.cats() == all_cats(batch@)
            &&& combined.senders@.len() == batch@.len()
            &&& combined.row_counts@.len() == batch@.len()
            &&& forall|i: int|
                0 <= i < batch@.len() ==> (#[trigger] combined.senders@[i]) == batch@[i].tx
            &&& forall|i: int|
                0 <= i < batch@.len() ==> (#[trigger] combined.row_counts@[i])
                    == batch@[i].row_count
        },
        d matches Dispatch::Answer(answers) ==> {
            &&& answers@.len() == batch@.len()
            &&& forall|i: int|
                0 <= i < batch@.len() ==> {
                    &&& (#[trigger] answers@[i]).0 == batch@[i].tx
                    &&& answers@[i].1 matches Err(text)
                    &&& text@ == "model '"@ + registry.name@ + "' is not loaded"@
                }
        },
{
}

/// The answer to a request has its own predictions, in a column of as many rows as the request
/// has; a request without predictions is told why.
pub proof fn law_answers_are_columns(
    row_count: usize,
    reply: Option<Reply>,
    r: Result<InferOutput, InferError>,
)
    requires
        call_ensures(infer_result, (row_count, reply), r),
    ensures
        reply is None ==> r == Err::<InferOutput, InferError>(InferError::Dropped),
        reply matches Some(Err(text)) ==> r == Err::<InferOutput, InferError>(
            InferError::Failed(text),
        ),
        reply matches Some(Ok(p)) ==> {
            &&& r matches Ok(out)
            &&& out.predictions == p
            &&& out.shape@.len() == 2
            &&& row_count <= i64::MAX ==> out.shape@[0] == row_count
            &&& out.shape@[1] == 1
        },
{
}

} // verus!
