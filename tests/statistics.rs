use curl_repeat::sample::Sample;
use curl_repeat::stats::{
    error_count, order_statistic, quartile_indices, statistics, status_histogram, StatsError,
};

fn sample(millis: u32, status: &str, exit_status: i32) -> Sample {
    Sample::new(0, millis * 1_000_000, status.to_string(), exit_status, String::new())
}

#[test]
fn empty_run_has_no_report() {
    let r = statistics(&[]);
    assert!(matches!(r, Err(StatsError::NoSamples)));
}

#[test]
fn single_successful_sample() {
    let s = vec![Sample::new(0, 123_456_789, "200".to_string(), 0, String::new())];
    let m = statistics(&s).unwrap();
    assert_eq!(m.error_count, 0);
    assert_eq!(m.status_count, vec![("200".to_string(), 1)]);
    assert_eq!(m.mean_time, 123);
    assert_eq!(m.max_time, 123);
    assert_eq!(m.min_time, 123);
    assert_eq!(m.variance_time, 0);
    assert_eq!(m.quartile_25, 123);
    assert_eq!(m.quartile_75, 123);
}

#[test]
fn only_the_subsecond_millis_count() {
    let s = vec![Sample::new(2, 500_000_000, "200".to_string(), 0, String::new())];
    assert_eq!(s[0].subsec_millis(), 500);
    let m = statistics(&s).unwrap();
    assert_eq!(m.mean_time, 500);
    assert_eq!(m.max_time, 500);
}

#[test]
fn mean_lies_between_extrema() {
    let s = vec![sample(10, "200", 0), sample(20, "200", 0), sample(35, "200", 0)];
    let m = statistics(&s).unwrap();
    assert_eq!(m.min_time, 10);
    assert_eq!(m.max_time, 35);
    assert_eq!(m.mean_time, 21);
    assert!(m.min_time <= m.mean_time && m.mean_time <= m.max_time);
    // |10-21| + |20-21| + |35-21| = 26, truncated over 3
    assert_eq!(m.variance_time, 8);
}

#[test]
fn equal_latencies_have_no_deviation() {
    let s = vec![sample(7, "200", 0), sample(7, "404", 0), sample(7, "200", 1)];
    let m = statistics(&s).unwrap();
    assert_eq!(m.variance_time, 0);
    assert_eq!(m.mean_time, 7);
}

#[test]
fn spread_latencies_have_deviation() {
    let s = vec![sample(10, "200", 0), sample(20, "200", 0)];
    let m = statistics(&s).unwrap();
    assert_eq!(m.mean_time, 15);
    assert_eq!(m.variance_time, 5);
}

#[test]
fn truncation_can_hide_a_small_spread() {
    let s = vec![sample(0, "200", 0), sample(1, "200", 0)];
    let m = statistics(&s).unwrap();
    assert_eq!(m.mean_time, 0);
    assert_eq!(m.variance_time, 0);
}

#[test]
fn quartile_positions_of_four() {
    assert_eq!(quartile_indices(4), (1, 3));
    assert_eq!(quartile_indices(1), (0, 0));
    assert_eq!(quartile_indices(7), (1, 5));
    assert_eq!(quartile_indices(usize::MAX), (usize::MAX / 4, (usize::MAX / 4) * 3 + 2));
    let s = vec![sample(40, "200", 0), sample(10, "200", 0), sample(30, "200", 0), sample(20, "200", 0)];
    let m = statistics(&s).unwrap();
    assert_eq!(m.quartile_25, 20);
    assert_eq!(m.quartile_75, 40);
}

#[test]
fn order_statistic_with_repeats() {
    let v = vec![5u32, 3, 5, 1, 5, 999];
    assert_eq!(order_statistic(&v, 0), 1);
    assert_eq!(order_statistic(&v, 1), 3);
    assert_eq!(order_statistic(&v, 2), 5);
    assert_eq!(order_statistic(&v, 4), 5);
    assert_eq!(order_statistic(&v, 5), 999);
}

#[test]
fn histogram_counts_add_up() {
    let s = vec![
        sample(1, "200", 0),
        sample(2, "client error", 6),
        sample(3, "200", 0),
        sample(4, "404", 0),
        sample(5, "200", 0),
    ];
    let h = status_histogram(&s);
    assert_eq!(
        h,
        vec![("200".to_string(), 3), ("client error".to_string(), 1), ("404".to_string(), 1)]
    );
    let total: usize = h.iter().map(|e| e.1).sum();
    assert_eq!(total, s.len());
}

#[test]
fn errors_count_exit_status_only() {
    let s = vec![
        sample(1, "200", 0),
        sample(2, "client error", 7),
        sample(3, "200", -1),
        sample(4, "client error", 0),
    ];
    assert_eq!(error_count(&s), 2);
    let m = statistics(&s).unwrap();
    assert_eq!(m.error_count, 2);
}
