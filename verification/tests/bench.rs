use securecrp::runner::{cold_order, BenchRunner, Operation};
use securecrp::stats::{percentile_report, NodeStat, StatsReporter};
use securecrp::urls::{decisions_url, find_conf_id, reviews_url, submissions_url};

fn s(t: &str) -> String {
    String::from(t)
}

#[test]
fn operation_label() {
    assert_eq!(Operation::ReadPaperList.label(), "plist");
}

#[test]
fn cold_order_is_a_permutation() {
    let order = cold_order(17);
    assert_eq!(order.len(), 17);
    let mut sorted = order.clone();
    sorted.sort();
    let expected: Vec<usize> = (0..17).collect();
    assert_eq!(sorted, expected);
}

#[test]
fn warm_phase_replays_cold_sequence() {
    let mut runner = BenchRunner::new();
    runner.begin_cold();
    let order = vec![2usize, 0, 1];
    for &uid in &order {
        runner.record_cold(Operation::ReadPaperList, uid, 100 + uid as u64);
    }
    assert_eq!(runner.replay().len(), 3);
    runner.begin_warm();
    let mut replayed = Vec::new();
    while let Some((op, uid)) = runner.warm_next() {
        assert!(matches!(op, Operation::ReadPaperList));
        replayed.push(uid);
        runner.record_warm(50);
    }
    assert_eq!(replayed, order);
    runner.finish();
    let recorded: Vec<usize> = runner.replay().iter().map(|&(_, uid)| uid).collect();
    assert_eq!(recorded, order);
}

#[test]
fn percentile_report_shape_and_values() {
    let mut runner = BenchRunner::new();
    runner.begin_cold();
    for (uid, micros) in [(0usize, 10u64), (1, 20), (2, 30)] {
        runner.record_cold(Operation::ReadPaperList, uid, micros);
    }
    runner.begin_warm();
    let mut warm_values = [5u64, 5, 5].into_iter();
    while let Some(_) = runner.warm_next() {
        runner.record_warm(warm_values.next().unwrap());
    }
    runner.finish();
    let report = percentile_report(&runner);
    assert_eq!(report.len(), 8);
    // (pct, cold) blocks in order: 50, 95, 99, 100; cold line before warm.
    let pcts: Vec<u64> = report.iter().map(|l| l.pct).collect();
    assert_eq!(pcts, vec![50, 50, 95, 95, 99, 99, 100, 100]);
    let phases: Vec<bool> = report.iter().map(|l| l.cold).collect();
    assert_eq!(phases, vec![true, false, true, false, true, false, true, false]);
    // Cold values: the median of {10,20,30} is 20 and the upper percentiles
    // 30, each reported as the highest equivalent value of its bucket (the
    // histogram's lowest discernible value of 10 gives buckets 8 wide here,
    // so 20 reports as 23 and 30 as 31).
    assert_eq!(report[0].value, 23);
    assert_eq!(report[2].value, 31);
    assert_eq!(report[4].value, 31);
    assert_eq!(report[6].value, 31);
    // Monotonic within each phase.
    assert!(report[0].value <= report[2].value);
    assert!(report[2].value <= report[4].value);
    assert!(report[4].value <= report[6].value);
    assert!(report[1].value <= report[3].value);
    assert!(report[3].value <= report[5].value);
    assert!(report[5].value <= report[7].value);
}

#[test]
fn memory_snapshot_sums_to_total() {
    let nodes = vec![
        NodeStat { desc: s("B"), mem_size: 5 },
        NodeStat { desc: s("reader node"), mem_size: 7 },
        NodeStat { desc: s("aggregation"), mem_size: 3 },
        NodeStat { desc: s("B"), mem_size: 2 },
    ];
    let mut reporter = StatsReporter::new(1, 5, 2);
    reporter.record_snapshot(s("populated"), &nodes);
    reporter.record_snapshot(s("end"), &Vec::new());
    let rows = reporter.rows();
    assert_eq!(rows.len(), 2);
    assert_eq!(rows[0].label, "populated");
    assert_eq!(rows[0].frac_num, 1);
    assert_eq!(rows[0].frac_den, 5);
    assert_eq!(rows[0].nlogged, 2);
    assert_eq!(rows[0].mem.base, 7);
    assert_eq!(rows[0].mem.reader, 7);
    assert_eq!(rows[0].mem.other, 3);
    let total: u64 = nodes.iter().map(|n| n.mem_size).sum();
    assert_eq!(rows[0].mem.base + rows[0].mem.reader + rows[0].mem.other, total);
    assert_eq!(rows[1].mem.base + rows[1].mem.reader + rows[1].mem.other, 0);
}

#[test]
fn endpoint_urls_are_encoded() {
    assert_eq!(
        submissions_url("a b", 10),
        "https://openreview.net/notes?invitation=a%20b%2F-%2FBlind_Submission&limit=10"
    );
    assert_eq!(
        decisions_url("Conf"),
        "https://openreview.net/notes?invitation=Conf%2F-%2FAcceptance_Decision&limit=10000"
    );
    assert_eq!(
        reviews_url("Conf", "x y", 3),
        "https://openreview.net/notes?forum=x%20y&invitation=Conf/-/Paper3/Official_Review"
    );
}

#[test]
fn conf_id_comes_from_query_pairs() {
    let pairs = vec![(s("x"), s("y")), (s("id"), s("ICLR.cc/2018/Conference")), (s("id"), s("other"))];
    assert_eq!(find_conf_id(&pairs).unwrap(), "ICLR.cc/2018/Conference");
    let no_id = vec![(s("x"), s("y"))];
    assert!(find_conf_id(&no_id).is_none());
}

#[test]
fn empty_conference_id_stays_empty_in_urls() {
    assert_eq!(
        decisions_url(""),
        "https://openreview.net/notes?invitation=%2F-%2FAcceptance_Decision&limit=10000"
    );
}

#[test]
fn empty_run_reports_empty_histograms() {
    let mut runner = BenchRunner::new();
    runner.begin_cold();
    runner.begin_warm();
    assert!(runner.warm_next().is_none());
    runner.finish();
    assert_eq!(runner.replay().len(), 0);
    let report = percentile_report(&runner);
    assert_eq!(report.len(), 8);
    for line in &report {
        assert_eq!(line.value, 0);
    }
}

#[test]
fn all_zero_samples_keep_percentiles_monotonic() {
    // Sub-microsecond reads record 0; the report stays monotonic, with the
    // max column the 100th-percentile value (the 0 bucket's highest
    // equivalent, 7 at this configuration).
    let mut runner = BenchRunner::new();
    runner.begin_cold();
    for uid in 0..3usize {
        runner.record_cold(Operation::ReadPaperList, uid, 0);
    }
    runner.begin_warm();
    while let Some(_) = runner.warm_next() {
        runner.record_warm(0);
    }
    runner.finish();
    let report = percentile_report(&runner);
    for line in &report {
        assert_eq!(line.value, 7);
    }
    assert!(report[0].value <= report[2].value);
    assert!(report[4].value <= report[6].value);
}
