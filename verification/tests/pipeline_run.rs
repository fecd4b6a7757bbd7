use mail_pipeline::frontier::FrontierResult;
use mail_pipeline::pipeline::{reconcile_counts, tally_outcome, Pipeline, WorkOp};
use mail_pipeline::tasks::{feeder_step, worker_step, FeederAction, WorkerAction};

/// Records every identifier it is applied to; fails on the designated one.
struct Recorder {
    applied: Vec<String>,
    fail_on: Option<String>,
}

impl Recorder {
    fn new() -> Self {
        Recorder { applied: Vec::new(), fail_on: None }
    }

    fn failing_on(id: &str) -> Self {
        Recorder { applied: Vec::new(), fail_on: Some(id.to_string()) }
    }
}

impl WorkOp for Recorder {
    fn apply(&mut self, id: &String) -> Result<(), String> {
        self.applied.push(id.clone());
        match &self.fail_on {
            Some(bad) if bad == id => Err(format!("operation refused for {}", id)),
            _ => Ok(()),
        }
    }
}

#[test]
fn scenario_single_worker_three_items() {
    let mut p = Pipeline::new(4, 1);
    p.feed("a".to_string());
    p.feed("b".to_string());
    p.feed("c".to_string());
    p.signal_done();
    let mut op = Recorder::new();
    let report = p.run(&mut op);
    assert_eq!(report.fed, 3);
    assert_eq!(report.processed, 3);
    assert_eq!(report.failed, 0);
    let mut seen = op.applied.clone();
    seen.sort();
    assert_eq!(seen, vec!["a".to_string(), "b".to_string(), "c".to_string()]);
    assert_eq!(op.applied.len(), 3);
}

#[test]
fn scenario_overlapping_discovery_collapses() {
    let mut p = Pipeline::new(4, 3);
    // Five discovery batches insert 250 identifiers in all, 100 unique.
    for batch in 0..5usize {
        for i in 0..50usize {
            let id = (batch * 20 + i) % 100;
            p.feed(format!("id{:03}", id));
        }
    }
    assert_eq!(p.pending_count(), 100);
    p.signal_done();
    let mut op = Recorder::new();
    let report = p.run(&mut op);
    assert_eq!(report.fed, 100);
    assert_eq!(report.processed, 100);
    assert_eq!(report.failed, 0);
    assert_eq!(op.applied.len(), 100);
    let mut seen = op.applied.clone();
    seen.sort();
    seen.dedup();
    assert_eq!(seen.len(), 100);
}

#[test]
fn scenario_failure_injection_reconciles() {
    let mut p = Pipeline::new(4, 2);
    p.feed("good1".to_string());
    p.feed("bad".to_string());
    p.feed("good2".to_string());
    p.signal_done();
    let mut op = Recorder::failing_on("bad");
    let report = p.run(&mut op);
    assert_eq!(report.fed, 3);
    assert_eq!(report.processed, 2);
    assert_eq!(report.failed, 1);
    assert_eq!(reconcile_counts(report.fed, report.processed, report.failed), Some(2));
}

#[test]
fn duplicate_feeds_count_once() {
    let mut p = Pipeline::new(2, 1);
    p.feed("x".to_string());
    p.feed("x".to_string());
    p.feed("y".to_string());
    assert_eq!(p.pending_count(), 2);
    p.signal_done();
    let mut op = Recorder::new();
    let report = p.run(&mut op);
    assert_eq!(report.fed, 2);
    assert_eq!(report.processed, 2);
}

#[test]
fn run_with_nothing_fed() {
    let mut p = Pipeline::new(3, 3);
    p.signal_done();
    let mut op = Recorder::new();
    let report = p.run(&mut op);
    assert_eq!(report.fed, 0);
    assert_eq!(report.processed, 0);
    assert_eq!(report.failed, 0);
    assert!(op.applied.is_empty());
}

#[test]
fn reconcile_counts_accepts_only_matching_totals() {
    assert_eq!(reconcile_counts(5, 5, 0), Some(5));
    assert_eq!(reconcile_counts(5, 3, 2), Some(3));
    assert_eq!(reconcile_counts(5, 3, 1), None);
    assert_eq!(reconcile_counts(0, 0, 0), Some(0));
    assert_eq!(reconcile_counts(2, 3, 0), None);
}

#[test]
fn tally_outcome_counts_only_successes_as_processed() {
    assert_eq!(tally_outcome(&Ok(()), 0, 0), (1, 0));
    assert_eq!(tally_outcome(&Ok(()), 5, 2), (6, 2));
    assert_eq!(tally_outcome(&Err("refused".to_string()), 0, 0), (0, 1));
    assert_eq!(tally_outcome(&Err("refused".to_string()), 3, 1), (3, 2));
}

#[test]
fn feeder_decisions_follow_the_frontier() {
    assert!(matches!(
        feeder_step(FrontierResult::Identifier("m".to_string())),
        FeederAction::Deliver(s) if s == "m"
    ));
    assert!(matches!(feeder_step(FrontierResult::Done), FeederAction::Stop));
    assert!(matches!(feeder_step(FrontierResult::Empty), FeederAction::Idle));
}

#[test]
fn worker_decisions_follow_the_payload() {
    assert!(matches!(
        worker_step(Some("m".to_string())),
        WorkerAction::Apply(s) if s == "m"
    ));
    assert!(matches!(worker_step(None), WorkerAction::Stop));
}
