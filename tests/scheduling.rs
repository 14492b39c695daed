use curl_repeat::sample::Sample;
use curl_repeat::schedule::{Collector, RunPolicy, Topology};

fn ok_sample() -> Sample {
    Sample::new(0, 5_000_000, "200".to_string(), 0, String::new())
}

#[test]
fn pooled_count_run_collects_every_sample() {
    let policy = RunPolicy::new(2, None, 3, 0);
    assert_eq!(policy.topology(), Topology::Pool { workers: 3 });
    assert_eq!(policy.expected_samples(), Some(6));
    let mut collector = Collector::new(policy);
    // workers finish in an arbitrary interleaving: worker 2 first, then 0, then 1
    for _worker in [2, 0, 1] {
        let mut done: usize = 0;
        while policy.worker_continues(done, 0) {
            assert!(collector.should_receive(0));
            collector.accept(ok_sample());
            done += 1;
        }
        assert_eq!(done, 2);
    }
    assert_eq!(collector.received(), 6);
    assert!(!collector.should_receive(0));
    assert_eq!(collector.report().unwrap().status_count, vec![("200".to_string(), 6)]);
}

#[test]
fn one_shot_count_run_collects_one_sample_per_task() {
    let policy = RunPolicy::new(5, None, 0, 0);
    let tasks = match policy.topology() {
        Topology::OneShot { tasks } => tasks,
        other => panic!("unexpected topology {:?}", other),
    };
    assert_eq!(tasks, 5);
    assert_eq!(policy.expected_samples(), Some(5));
    let mut collector = Collector::new(policy);
    for _task in 0..tasks {
        assert!(collector.should_receive(0));
        collector.accept(ok_sample());
    }
    assert_eq!(collector.received(), 5);
    assert!(!collector.should_receive(0));
}

#[test]
fn timed_run_stops_at_the_budget() {
    let policy = RunPolicy::new(1, Some(1), 2, 0);
    assert!(policy.is_time_bounded());
    assert_eq!(policy.topology(), Topology::Pool { workers: 2 });
    assert_eq!(policy.expected_samples(), None);
    // repeat is ignored while the budget lasts
    assert!(policy.worker_continues(10, 999_999_999));
    assert!(!policy.worker_continues(0, 1_000_000_000));
    let mut collector = Collector::new(policy);
    let mut elapsed: u128 = 0;
    while collector.should_receive(elapsed) {
        collector.accept(ok_sample());
        elapsed += 300_000_000;
    }
    assert!(elapsed >= 1_000_000_000);
    assert!(collector.received() <= 4);
}

#[test]
fn timed_one_shot_run_uses_a_spawner() {
    let policy = RunPolicy::new(3, Some(2), 0, 10);
    assert_eq!(policy.topology(), Topology::Spawner);
    assert!(policy.within_budget(1_999_999_999));
    assert!(!policy.within_budget(2_000_000_000));
}

#[test]
fn count_run_has_no_budget() {
    let policy = RunPolicy::new(1, None, 1, 0);
    assert!(policy.within_budget(u128::MAX));
    assert!(!policy.is_time_bounded());
}

#[test]
fn empty_collection_has_no_report() {
    let collector = Collector::new(RunPolicy::new(1, Some(0), 1, 0));
    assert!(!collector.should_receive(0));
    assert!(collector.report().is_err());
}
