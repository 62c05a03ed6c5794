//! Stats reporter: percentile rows for the cold and warm histograms, and
//! memory snapshots that classify the target platform's per-node statistics
//! into base-table, reader and other memory.

use vstd::prelude::*;
use vstd::string::*;
use crate::hist::{LatencyHist, hist_samples, pct_value, hist_value_at_percentile};
use crate::runner::{BenchRunner, Operation};

verus! {

/// Percentile summary of one histogram.
pub struct PercentileSummary {
    pub p50: u64,
    pub p95: u64,
    pub p99: u64,
    pub max: u64,
}

/// The percentile values of a histogram, the max column being the value at
/// the 100th percentile (the last bucket the cumulative scan reaches).
/// Percentile queries are monotonic: `p50 <= p95 <= p99 <= max`.
pub fn summarize(h: &LatencyHist) -> (r: PercentileSummary)
    ensures
        r.p50 == pct_value(hist_samples(*h), 50),
        r.p95 == pct_value(hist_samples(*h), 95),
        r.p99 == pct_value(hist_samples(*h), 99),
        r.max == pct_value(hist_samples(*h), 100),
        r.p50 <= r.p95 && r.p95 <= r.p99 && r.p99 <= r.max,
{
    let p50 = hist_value_at_percentile(h, 50);
    let p95 = hist_value_at_percentile(h, 95);
    let p99 = hist_value_at_percentile(h, 99);
    let max = hist_value_at_percentile(h, 100);
    PercentileSummary { p50, p95, p99, max }
}

/// One line of the percentile report.
pub struct ReportLine {
    pub op: Operation,
    pub cold: bool,
    pub pct: u64,
    pub value: u64,
}

/// The percentile the report's `j`-th percentile block shows.
pub open spec fn pct_at(j: int) -> u64 {
    if j == 0 { 50 } else if j == 1 { 95 } else if j == 2 { 99 } else { 100 }
}

/// The percentile report: for each percentile (50, 95, 99, max), the cold
/// line then the warm line, per operation kind. Within a phase the values are
/// monotonic in the percentile.
pub fn percentile_report(runner: &BenchRunner) -> (r: Vec<ReportLine>)
    ensures
        r@.len() == 8,
        forall|i: int|
            0 <= i < r@.len() ==> {
                let line = #[trigger] r@[i];
                &&& line.op == Operation::ReadPaperList
                &&& line.cold == (i % 2 == 0)
                &&& line.pct == pct_at(i / 2)
                &&& line.value == pct_value(
                    if line.cold { runner.cold_samples() } else { runner.warm_samples() },
                    line.pct,
                )
            },
        forall|i: int, j: int|
            0 <= i < j < r@.len() && i % 2 == j % 2 ==> (#[trigger] r@[i]).value
                <= (#[trigger] r@[j]).value,
{
    let cold = summarize(runner.cold_hist());
    let warm = summarize(runner.warm_hist());
    let mut out: Vec<ReportLine> = Vec::new();
    out.push(ReportLine { op: Operation::ReadPaperList, cold: true, pct: 50, value: cold.p50 });
    out.push(ReportLine { op: Operation::ReadPaperList, cold: false, pct: 50, value: warm.p50 });
    out.push(ReportLine { op: Operation::ReadPaperList, cold: true, pct: 95, value: cold.p95 });
    out.push(ReportLine { op: Operation::ReadPaperList, cold: false, pct: 95, value: warm.p95 });
    out.push(ReportLine { op: Operation::ReadPaperList, cold: true, pct: 99, value: cold.p99 });
    out.push(ReportLine { op: Operation::ReadPaperList, cold: false, pct: 99, value: warm.p99 });
    out.push(ReportLine { op: Operation::ReadPaperList, cold: true, pct: 100, value: cold.max });
    out.push(ReportLine { op: Operation::ReadPaperList, cold: false, pct: 100, value: warm.max });
    out
}

/// One per-node statistic of the target platform: the node's description and
/// the memory it reports.
pub struct NodeStat {
    pub desc: String,
    pub mem_size: u64,
}

#[derive(Clone, Copy, Debug, PartialEq, Eq, Structural)]
pub enum MemClass {
    Base,
    Reader,
    Other,
}

/// The class a node's memory counts toward: base tables ("B"), reader nodes,
/// or everything else (aggregation and intermediate state).
pub open spec fn class_of(desc: Seq<char>) -> MemClass {
    if desc == "B"@ {
        MemClass::Base
    } else if desc == "reader node"@ {
        MemClass::Reader
    } else {
        MemClass::Other
    }
}

pub open spec fn sum_class(s: Seq<NodeStat>, c: MemClass) -> int
    decreases s.len(),
{
    if s.len() == 0 {
        0
    } else {
        sum_class(s.drop_last(), c) + if class_of(s.last().desc@) == c {
            s.last().mem_size as int
        } else {
            0int
        }
    }
}

pub open spec fn total_mem(s: Seq<NodeStat>) -> int
    decreases s.len(),
{
    if s.len() == 0 {
        0
    } else {
        total_mem(s.drop_last()) + s.last().mem_size as int
    }
}

/// Every node counts toward exactly one class: the three class sums always
/// add up to the total memory the platform reports, with no double-counting.
pub proof fn lemma_mem_partition(s: Seq<NodeStat>)
    ensures
        sum_class(s, MemClass::Base) + sum_class(s, MemClass::Reader) + sum_class(
            s,
            MemClass::Other,
        ) == total_mem(s),
    decreases s.len(),
{
    if s.len() > 0 {
        lemma_mem_partition(s.drop_last());
    }
}

proof fn lemma_total_mem_prefix_le(s: Seq<NodeStat>, i: int)
    requires
        0 <= i <= s.len(),
    ensures
        total_mem(s.take(i)) <= total_mem(s),
    decreases s.len() - i,
{
    if i < s.len() {
        lemma_total_mem_prefix_le(s, i + 1);
        assert(s.take(i + 1).drop_last() =~= s.take(i));
    } else {
        assert(s.take(i) =~= s);
    }
}

/// The classified memory totals of one snapshot.
pub struct MemBreakdown {
    pub base: u64,
    pub reader: u64,
    pub other: u64,
}

/// Classify the per-node memory statistics. The three totals cover the
/// platform's whole report: base + reader + other equals the sum over every
/// node.
pub fn classify_memory(nodes: &Vec<NodeStat>) -> (r: MemBreakdown)
    requires
        total_mem(nodes@) <= u64::MAX,
    ensures
        r.base == sum_class(nodes@, MemClass::Base),
        r.reader == sum_class(nodes@, MemClass::Reader),
        r.other == sum_class(nodes@, MemClass::Other),
        r.base + r.reader + r.other == total_mem(nodes@),
{
    let base_label = String::from_str("B");
    let reader_label = String::from_str("reader node");
    let n = nodes.len();
    let mut base: u64 = 0;
    let mut reader: u64 = 0;
    let mut other: u64 = 0;
    let mut i: usize = 0;
    while i < n
        invariant
            i <= n,
            n == nodes@.len(),
            base_label@ == "B"@,
            reader_label@ == "reader node"@,
            total_mem(nodes@) <= u64::MAX,
            base == sum_class(nodes@.take(i as int), MemClass::Base),
            reader == sum_class(nodes@.take(i as int), MemClass::Reader),
            other == sum_class(nodes@.take(i as int), MemClass::Other),
            base + reader + other == total_mem(nodes@.take(i as int)),
        decreases n - i,
    {
        proof {
            let t1 = nodes@.take(i as int + 1);
            assert(t1.drop_last() =~= nodes@.take(i as int));
            assert(t1.last() == nodes@[i as int]);
            lemma_total_mem_prefix_le(nodes@, i as int + 1);
        }
        let m = nodes[i].mem_size;
        if nodes[i].desc.eq(&base_label) {
            base = base + m;
        } else if nodes[i].desc.eq(&reader_label) {
            reader = reader + m;
        } else {
            other = other + m;
        }
        i += 1;
    }
    proof {
        assert(nodes@.take(n as int) =~= nodes@);
    }
    MemBreakdown { base, reader, other }
}

/// One row of the persisted memory-snapshot record.
pub struct SnapshotRow {
    pub frac_num: u64,
    pub frac_den: u64,
    pub nlogged: usize,
    pub label: String,
    pub mem: MemBreakdown,
}

/// The stats reporter owns the snapshot rows: one `record_snapshot` call per
/// measurement point, each classifying the platform's node statistics.
pub struct StatsReporter {
    frac_num: u64,
    frac_den: u64,
    nlogged: usize,
    rows: Vec<SnapshotRow>,
}

impl StatsReporter {
    pub closed spec fn rows_seq(&self) -> Seq<SnapshotRow> {
        self.rows@
    }

    pub closed spec fn frac(&self) -> (u64, u64) {
        (self.frac_num, self.frac_den)
    }

    pub closed spec fn nlogged_spec(&self) -> usize {
        self.nlogged
    }

    pub fn new(frac_num: u64, frac_den: u64, nlogged: usize) -> (r: StatsReporter)
        ensures
            r.rows_seq() == Seq::<SnapshotRow>::empty(),
            r.frac() == (frac_num, frac_den),
            r.nlogged_spec() == nlogged,
    {
        let r = StatsReporter { frac_num, frac_den, nlogged, rows: Vec::new() };
        proof {
            assert(r.rows_seq() =~= Seq::<SnapshotRow>::empty());
        }
        r
    }

    /// Append one snapshot row, classifying the given node statistics.
    pub fn record_snapshot(&mut self, label: String, nodes: &Vec<NodeStat>)
        requires
            total_mem(nodes@) <= u64::MAX,
        ensures
            final(self).frac() == old(self).frac(),
            final(self).nlogged_spec() == old(self).nlogged_spec(),
            final(self).rows_seq().len() == old(self).rows_seq().len() + 1,
            final(self).rows_seq().take(old(self).rows_seq().len() as int) == old(
                self,
            ).rows_seq(),
            ({
                let row = final(self).rows_seq().last();
                &&& row.frac_num == old(self).frac().0
                &&& row.frac_den == old(self).frac().1
                &&& row.nlogged == old(self).nlogged_spec()
                &&& row.label == label
                &&& row.mem.base == sum_class(nodes@, MemClass::Base)
                &&& row.mem.reader == sum_class(nodes@, MemClass::Reader)
                &&& row.mem.other == sum_class(nodes@, MemClass::Other)
                &&& row.mem.base + row.mem.reader + row.mem.other == total_mem(nodes@)
            }),
    {
        let mem = classify_memory(nodes);
        let row = SnapshotRow {
            frac_num: self.frac_num,
            frac_den: self.frac_den,
            nlogged: self.nlogged,
            label,
            mem,
        };
        self.rows.push(row);
        proof {
            assert(self.rows_seq().take(self.rows_seq().len() - 1) =~= old(self).rows_seq());
        }
    }

    /// The recorded rows, for the tabular output.
    pub fn rows(&self) -> (r: &Vec<SnapshotRow>)
        ensures
            r@ == self.rows_seq(),
    {
        &self.rows
    }
}

} // verus!
