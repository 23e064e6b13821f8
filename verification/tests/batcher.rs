//! Batching: when batches are dispatched, and who gets which predictions.
use std::sync::Arc;

use kserve_catboost::bench::{
    dispatch_batch, fake_delay_us, fake_predict, percentile, BenchCollector, BenchItem,
    BenchPolicy, BenchStep,
};
use kserve_catboost::float::{Fp32, Fp64};
use kserve_catboost::inference::batcher::{
    combine, dispatch, hits_preferred, infer_result, replies, BatchItem, BatchPolicy, Collector,
    Dispatch, DynamicBatcher, InferError, OverloadError, Placing, SendOutcome, Step,
};
use kserve_catboost::inference::{column_output, InferInputs, InferOutput};
use kserve_catboost::model::{CatBoostModel, ModelRegistry};

fn fp(v: f32) -> Fp32 {
    Fp32 { bits: v.to_bits() }
}

fn fp64s(v: &[f64]) -> Vec<Fp64> {
    v.iter().map(|x| Fp64 { bits: x.to_bits() }).collect()
}

fn item(tx: u32, rows: usize) -> BatchItem<u32> {
    BatchItem {
        float_features: (0..rows).map(|r| vec![fp((100 * tx + r as u32) as f32)]).collect(),
        cat_features: vec![],
        row_count: rows,
        arrival_ns: 10,
        tx,
    }
}

// The wait is 100 ns, or none.
fn policy(max_batch_size: usize, waits: bool, preferred: &[usize]) -> BatchPolicy {
    BatchPolicy {
        max_batch_size,
        wait_ns: if waits { 100 } else { 0 },
        preferred_batch_sizes: preferred.to_vec(),
    }
}

fn inputs(floats: usize, cats: usize) -> InferInputs {
    InferInputs {
        float_features: vec![vec![]; floats],
        cat_features: vec![vec![]; cats],
    }
}

#[test]
fn preferred_sizes_are_reached_or_passed() {
    assert!(hits_preferred(&[8, 16], 8));
    assert!(hits_preferred(&[8, 16], 9));
    assert!(hits_preferred(&[16, 8], 8));
    assert!(!hits_preferred(&[8, 16], 7));
    assert!(!hits_preferred(&[], 1000));
}

#[test]
fn a_maximum_of_one_is_a_passthrough() {
    let p = policy(1, true, &[]);
    let mut c = Collector::new(&p);
    assert_eq!(c.step, Step::Receive { limit: 1 });
    c.received(&p, vec![item(1, 1)]);
    assert_eq!(c.step, Step::Dispatch);
    assert_eq!(c.total_rows, 1);
}

#[test]
fn a_full_batch_is_dispatched_at_once() {
    let p = policy(4, true, &[]);
    let mut c = Collector::new(&p);
    assert_eq!(c.step, Step::Receive { limit: 4 });
    c.received(&p, vec![item(1, 1), item(2, 3)]);
    assert_eq!(c.step, Step::Dispatch);
}

#[test]
fn the_queue_is_emptied_before_a_wait() {
    let p = policy(8, true, &[]);
    let mut c = Collector::new(&p);
    c.received(&p, vec![item(1, 2)]);
    assert_eq!(c.step, Step::TryReceive);
    c.tried(&p, Some(item(2, 3)), 20);
    assert_eq!(c.step, Step::TryReceive);
    c.tried(&p, None, 20);
    assert_eq!(c.step, Step::Wait { limit: 6, deadline: 110 });
    c.received(&p, vec![item(3, 1)]);
    assert_eq!(c.step, Step::TryReceive);
    c.tried(&p, None, 20);
    assert_eq!(c.step, Step::Wait { limit: 5, deadline: 110 });
    c.deadline(&p, 109);
    assert!(matches!(c.step, Step::Wait { .. }));
    c.deadline(&p, 110);
    assert_eq!(c.step, Step::Dispatch);
    assert_eq!(c.total_rows, 6);
    assert_eq!(c.batch.iter().map(|i| i.tx).collect::<Vec<_>>(), vec![1, 2, 3]);
}

#[test]
fn without_a_wait_an_incomplete_batch_is_dispatched() {
    let p = policy(8, false, &[]);
    let mut c = Collector::new(&p);
    c.received(&p, vec![item(1, 2)]);
    c.tried(&p, None, 20);
    assert_eq!(c.step, Step::Dispatch);
}

#[test]
fn a_preferred_size_is_not_waited_for() {
    let p = policy(8, true, &[3]);
    let mut c = Collector::new(&p);
    c.received(&p, vec![item(1, 2)]);
    c.tried(&p, None, 20);
    assert!(matches!(c.step, Step::Wait { .. }));
    c.received(&p, vec![item(2, 1)]);
    assert_eq!(c.step, Step::TryReceive);
    c.tried(&p, None, 20);
    assert_eq!(c.step, Step::Dispatch);
}

#[test]
fn a_closed_queue_ends_the_worker() {
    let p = policy(8, true, &[]);
    let mut c: Collector<u32> = Collector::new(&p);
    c.received(&p, vec![]);
    assert_eq!(c.step, Step::Stop);
    let mut c = Collector::new(&p);
    c.received(&p, vec![item(1, 1)]);
    c.tried(&p, None, 20);
    c.received(&p, vec![]);
    assert_eq!(c.step, Step::Dispatch);
}

// Whatever is asked for is delivered in full, and the batch is still within the maximum.
#[test]
fn single_rows_stay_within_the_maximum() {
    for max in 0..6 {
        let p = policy(max, true, &[]);
        let mut c = Collector::new(&p);
        let mut rounds = 0;
        loop {
            match c.step {
                Step::Receive { limit } | Step::Wait { limit, .. } => {
                    let few = if rounds == 0 { 1 } else { limit };
                    c.received(&p, (0..few).map(|i| item(i as u32, 1)).collect());
                }
                Step::TryReceive => {
                    let one = if rounds % 2 == 0 { Some(item(0, 1)) } else { None };
                    c.tried(&p, one, 20);
                }
                Step::Dispatch | Step::Stop => break,
            }
            rounds += 1;
        }
        assert_eq!(c.total_rows, max.max(1));
    }
}

#[test]
fn a_passthrough_does_not_look_at_rows() {
    let p = policy(1, true, &[]);
    let mut c = Collector::new(&p);
    c.received(&p, vec![item(1, 0)]);
    assert_eq!(c.step, Step::Dispatch);
    let mut c = Collector::new(&p);
    c.received(&p, vec![item(1, 5)]);
    assert_eq!(c.step, Step::Dispatch);
}

#[test]
fn requests_without_rows_do_not_fill_a_batch() {
    let p = policy(2, true, &[]);
    let mut c = Collector::new(&p);
    c.received(&p, vec![item(1, 0), item(2, 0)]);
    assert_eq!(c.step, Step::TryReceive);
    c.tried(&p, None, 20);
    assert_eq!(c.step, Step::Wait { limit: 1, deadline: 110 });
}

// The first request arrived at 10 and the wait is 100, however long it was queued.
#[test]
fn the_wait_is_counted_from_the_first_arrival() {
    let p = policy(8, true, &[]);
    let mut c = Collector::new(&p);
    let mut later = item(2, 1);
    later.arrival_ns = 90;
    c.received(&p, vec![item(1, 1), later]);
    c.tried(&p, None, 109);
    assert_eq!(c.step, Step::Wait { limit: 6, deadline: 110 });
    let mut c = Collector::new(&p);
    c.received(&p, vec![item(1, 1)]);
    c.tried(&p, None, 110);
    assert_eq!(c.step, Step::Dispatch);
    let mut forever = policy(8, true, &[]);
    forever.wait_ns = u128::MAX;
    let mut c = Collector::new(&forever);
    c.received(&forever, vec![item(1, 1)]);
    c.tried(&forever, None, 110);
    assert_eq!(c.step, Step::Wait { limit: 7, deadline: u128::MAX });
}

// A queue is worked off, and the batches are the requests in order.
#[test]
fn every_request_is_dispatched_once() {
    let rows = [1usize, 2, 1, 5, 1, 1, 0, 3, 1, 1];
    for max in 0..6 {
        let p = policy(max, true, &[4]);
        let mut queue: std::collections::VecDeque<BatchItem<u32>> =
            rows.iter().enumerate().map(|(i, n)| item(i as u32, *n)).collect();
        let mut dispatched = vec![];
        let mut now = 20;
        'run: loop {
            let mut c = Collector::new(&p);
            loop {
                now += 7;
                match c.step {
                    Step::Receive { limit } => {
                        let n = limit.min(2).min(queue.len());
                        c.received(&p, queue.drain(..n).collect());
                    }
                    Step::TryReceive => {
                        let one = if now % 2 == 0 { queue.pop_front() } else { None };
                        c.tried(&p, one, now);
                    }
                    Step::Wait { .. } => c.deadline(&p, now),
                    Step::Dispatch => break,
                    Step::Stop => break 'run,
                }
            }
            assert_eq!(c.total_rows, c.batch.iter().map(|i| i.row_count).sum::<usize>());
            assert!(max > 1 || c.batch.len() == 1);
            dispatched.extend(c.batch.iter().map(|i| i.tx));
        }
        assert!(queue.is_empty());
        assert_eq!(dispatched, (0..rows.len() as u32).collect::<Vec<_>>());
    }
}

#[test]
fn a_maximum_of_zero_still_takes_a_request() {
    let p = policy(0, true, &[]);
    let mut c = Collector::new(&p);
    assert_eq!(c.step, Step::Receive { limit: 1 });
    c.received(&p, vec![item(1, 1)]);
    assert_eq!(c.step, Step::Dispatch);
}

fn bench_item(tx: u32, row_count: usize) -> BenchItem<u32> {
    BenchItem { row_count, tx }
}

#[test]
fn the_benchmark_waits_from_the_first_drain() {
    let p = BenchPolicy { max_batch: 4, wait_ns: 100 };
    let mut c = BenchCollector::new();
    assert_eq!(c.step, BenchStep::Receive);
    c.received(&p, Some(bench_item(1, 1)));
    assert_eq!(c.step, BenchStep::TryReceive);
    c.tried(&p, Some(bench_item(2, 1)), 30);
    assert_eq!(c.step, BenchStep::TryReceive);
    c.tried(&p, None, 50);
    assert_eq!(c.step, BenchStep::Wait { deadline: 150 });
    c.received(&p, Some(bench_item(3, 1)));
    c.tried(&p, None, 90);
    assert_eq!(c.step, BenchStep::Wait { deadline: 150 });
    c.woken(&p);
    assert_eq!(c.step, BenchStep::Dispatch);
    assert_eq!(c.total, 3);
    assert_eq!(c.items.iter().map(|i| i.tx).collect::<Vec<_>>(), vec![1, 2, 3]);
}

#[test]
fn the_benchmark_dispatches_full_batches() {
    let p = BenchPolicy { max_batch: 1, wait_ns: 100 };
    let mut c = BenchCollector::new();
    c.received(&p, Some(bench_item(1, 1)));
    assert_eq!(c.step, BenchStep::Dispatch);
    // A request without rows does not fill a batch.
    let mut c = BenchCollector::new();
    c.received(&p, Some(bench_item(1, 0)));
    assert_eq!(c.step, BenchStep::TryReceive);
    let p = BenchPolicy { max_batch: 4, wait_ns: 0 };
    let mut c = BenchCollector::new();
    c.received(&p, Some(bench_item(1, 1)));
    c.tried(&p, None, 50);
    assert_eq!(c.step, BenchStep::Dispatch);
}

#[test]
fn the_benchmark_ends_with_its_queue() {
    let p = BenchPolicy { max_batch: 4, wait_ns: u128::MAX };
    let mut c: BenchCollector<u32> = BenchCollector::new();
    c.received(&p, None);
    assert_eq!(c.step, BenchStep::Stop);
    let mut c = BenchCollector::new();
    c.received(&p, Some(bench_item(1, 1)));
    c.tried(&p, None, 50);
    assert_eq!(c.step, BenchStep::Wait { deadline: u128::MAX });
    c.received(&p, None);
    assert_eq!(c.step, BenchStep::Dispatch);
}

#[test]
fn batches_are_put_together_in_order() {
    let r = combine(vec![item(1, 2), item(2, 1)]);
    assert_eq!(
        r.inputs.float_features,
        vec![vec![fp(100.0)], vec![fp(101.0)], vec![fp(200.0)]]
    );
    assert!(r.inputs.cat_features.is_empty());
    assert_eq!(r.row_counts, vec![2, 1]);
    assert_eq!(r.senders, vec![1, 2]);
}

#[test]
fn requests_without_categories_are_padded() {
    let mut with = item(2, 1);
    with.cat_features = vec![vec!["x".to_string()]];
    let r = combine(vec![item(1, 2), with, item(3, 1)]);
    let none: Vec<String> = vec![];
    assert_eq!(
        r.inputs.cat_features,
        vec![none.clone(), none.clone(), vec!["x".to_string()], none]
    );
}

#[test]
fn every_request_gets_its_predictions() {
    let out = InferOutput { predictions: fp64s(&[1.0, 2.0, 3.0, 4.0]), shape: vec![4, 1] };
    let r = replies(vec!["a", "b", "c"], vec![2, 0, 1], Ok(out));
    assert_eq!(r.len(), 3);
    assert_eq!(r[0], ("a", Ok(fp64s(&[1.0, 2.0]))));
    assert_eq!(r[1], ("b", Ok(vec![])));
    assert_eq!(r[2], ("c", Ok(fp64s(&[3.0]))));
}

#[test]
fn a_failure_reaches_every_request() {
    let r = replies(vec![1, 2], vec![1, 1], Err("boom".to_string()));
    assert_eq!(r, vec![(1, Err("boom".to_string())), (2, Err("boom".to_string()))]);
}

// A model that adds up a row is run on a batch, and on each request alone.
#[test]
fn batching_does_not_show() {
    let model = |rows: &Vec<Vec<Fp32>>| -> Vec<f64> {
        rows.iter().map(|r| r.iter().map(|x| f32::from_bits(x.bits) as f64).sum()).collect()
    };
    let r = combine(vec![item(1, 2), item(2, 3), item(3, 1)]);
    let predictions = fp64s(&model(&r.inputs.float_features));
    let answers =
        replies(r.senders, r.row_counts, Ok(InferOutput { predictions, shape: vec![6, 1] }));
    for (tx, reply) in answers {
        let alone = combine(vec![item(tx, [0, 2, 3, 1][tx as usize])]);
        assert_eq!(reply.unwrap(), fp64s(&model(&alone.inputs.float_features)));
    }
}

fn registry() -> ModelRegistry<&'static str> {
    ModelRegistry::new(
        CatBoostModel { inner: "first" },
        "path".to_string(),
        "m".to_string(),
        1,
    )
}

#[test]
fn a_batch_runs_on_the_current_model() {
    match dispatch(&registry(), vec![item(1, 1), item(2, 1)]) {
        Dispatch::Run { model, combined } => {
            assert_eq!(model.inner, "first");
            assert_eq!(combined.senders, vec![1, 2]);
        }
        Dispatch::Answer(_) => panic!("the model is loaded"),
    }
}

#[test]
fn a_batch_fails_without_a_model() {
    let mut reg = registry();
    reg.repository_unload();
    match dispatch(&reg, vec![item(1, 1), item(2, 1)]) {
        Dispatch::Run { .. } => panic!("the model is not loaded"),
        Dispatch::Answer(answers) => {
            let text = "model 'm' is not loaded".to_string();
            assert_eq!(answers, vec![(1, Err(text.clone())), (2, Err(text))]);
        }
    }
}

#[test]
fn batchers_are_set_up() {
    let b = DynamicBatcher::start((), 32, 500_000, vec![8], 0);
    assert_eq!(b.workers, 1);
    assert_eq!(b.capacity, 128);
    assert_eq!(b.policy.max_batch_size, 32);
    assert_eq!(b.policy.wait_ns, 500_000);
    assert_eq!(b.policy.preferred_batch_sizes, vec![8]);
    assert_eq!(b.next, 0);
    let b = DynamicBatcher::start((), 1, 0, vec![], 4);
    assert_eq!(b.workers, 4);
    assert_eq!(b.capacity, 64);
    assert_eq!(b.policy.wait_ns, 0);
}

#[test]
fn workers_take_turns() {
    let mut b = DynamicBatcher::start((), 1, 5, vec![], 3);
    let mut first = vec![];
    for _ in 0..5 {
        let (_, p) = b.infer(inputs(1, 0), 3, ());
        first.push(p.worker());
    }
    assert_eq!(first, vec![0, 1, 2, 0, 1]);
    b.next = usize::MAX;
    b.infer(inputs(1, 0), 3, ());
    assert_eq!(b.next, 0);
}

#[test]
fn rows_are_counted_by_the_longer_side() {
    let mut b = DynamicBatcher::start((), 1, 5, vec![], 1);
    assert_eq!(b.infer(inputs(2, 3), 3, ()).0.row_count, 3);
    assert_eq!(b.infer(inputs(1, 1), 77, ()).0.arrival_ns, 77);
    assert_eq!(b.infer(inputs(2, 0), 3, ()).0.row_count, 2);
    assert_eq!(inputs(0, 0).row_count(), 0);
}

#[test]
fn a_busy_worker_hands_the_request_on() {
    let mut b = DynamicBatcher::start((), 1, 5, vec![], 3);
    b.infer(inputs(1, 0), 3, ());
    let (_, mut p) = b.infer(inputs(1, 0), 3, ());
    assert_eq!(p.worker(), 1);
    assert_eq!(p.after(SendOutcome::Full), Placing::Try(2));
    assert_eq!(p.after(SendOutcome::Full), Placing::Try(0));
    assert_eq!(p.after(SendOutcome::Full), Placing::Overloaded);
}

#[test]
fn a_queued_request_waits_for_its_reply() {
    let mut b = DynamicBatcher::start((), 1, 5, vec![], 2);
    let (_, mut p) = b.infer(inputs(1, 0), 3, ());
    assert_eq!(p.after(SendOutcome::Full), Placing::Try(1));
    assert_eq!(p.after(SendOutcome::Sent), Placing::Await);
}

#[test]
fn a_closed_worker_ends_the_search() {
    let mut b = DynamicBatcher::start((), 1, 5, vec![], 2);
    let (_, mut p) = b.infer(inputs(1, 0), 3, ());
    assert_eq!(p.after(SendOutcome::Closed), Placing::ShutDown);
}

#[test]
fn replies_become_results() {
    let out = infer_result(2, Some(Ok(fp64s(&[1.0, 2.0])))).unwrap();
    assert_eq!(out.shape, vec![2, 1]);
    assert_eq!(out.predictions, fp64s(&[1.0, 2.0]));
    assert!(matches!(infer_result(2, None), Err(InferError::Dropped)));
    match infer_result(2, Some(Err("boom".to_string()))) {
        Err(InferError::Failed(text)) => assert_eq!(text, "boom"),
        _ => panic!("expected a failure"),
    }
}

#[test]
fn outputs_are_columns() {
    let out = column_output::<()>(3, Ok(fp64s(&[1.0, 2.0, 3.0]))).unwrap();
    assert_eq!(out.shape, vec![3, 1]);
    assert_eq!(column_output::<u8>(3, Err(7)).unwrap_err(), 7);
}

#[test]
fn overload_has_a_text() {
    assert_eq!(OverloadError.message(), "server overloaded, try again later");
}

#[test]
fn snapshots_outlive_a_reload() {
    let mut reg = registry();
    let snapshot = reg.current_model().unwrap();
    reg.repository_load::<()>(Ok(CatBoostModel { inner: "second" })).unwrap();
    assert_eq!(snapshot.inner, "first");
    assert_eq!(reg.current_model().unwrap().inner, "second");
    assert!(!Arc::ptr_eq(&snapshot, &reg.current_model().unwrap()));
}

#[test]
fn the_stand_in_model_predicts_one_half() {
    assert_eq!(fake_predict(3), fp64s(&[0.5, 0.5, 0.5]));
    assert_eq!(fake_delay_us(7, 0), 0);
    assert_eq!(fake_delay_us(usize::MAX, 0), 0);
    assert_eq!(fake_delay_us(7, 10_000), 10_700);
}

#[test]
fn the_stand_in_model_answers_a_batch() {
    for total in [3, 5] {
        let r = dispatch_batch(vec![bench_item(1, 2), bench_item(2, 1)], total);
        assert_eq!(r, vec![(1, fp64s(&[0.5, 0.5])), (2, fp64s(&[0.5]))]);
    }
}

#[test]
fn percentiles_of_sorted_values() {
    let v: Vec<u32> = (1..=1000).collect();
    assert_eq!(percentile(&v, 50), 500);
    assert_eq!(percentile(&v, 99), 990);
    assert_eq!(percentile(&v, 100), 1000);
    assert_eq!(percentile(&v, 0), 1);
    assert_eq!(percentile(&v, 200), 1000);
    assert_eq!(percentile(&[7], 50), 7);
    assert_eq!(percentile(&[1, 2, 3], 50), 2);
}
