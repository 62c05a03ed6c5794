//! Benchmark runner: the cold/warm read-measurement state machine. The cold
//! phase issues one read per logged-in tenant in a random order and records
//! each request; the warm phase replays exactly the recorded sequence, so
//! every cold sample has one warm counterpart in the same relative order.

use vstd::prelude::*;
use vstd::string::*;
use vstd::multiset::Multiset;
use crate::hist::{LatencyHist, hist_samples, latency_hist, hist_record, stored_sample};
use crate::rng::random_order;

verus! {

broadcast use vstd::multiset::lemma_insert_len;

/// The operation kinds the benchmark measures; the one representative read is
/// a tenant's own paper list.
#[derive(Clone, Copy, Debug, PartialEq, Eq, Structural)]
pub enum Operation {
    ReadPaperList,
}

impl Operation {
    /// The operation's short name in reports.
    pub fn label(&self) -> (r: String)
        ensures
            *self == Operation::ReadPaperList ==> r@ == "plist"@,
    {
        match self {
            Operation::ReadPaperList => String::from_str("plist"),
        }
    }
}

#[derive(Clone, Copy, Debug, PartialEq, Eq, Structural)]
pub enum Phase {
    NotStarted,
    Cold,
    Warm,
    Done,
}

/// The measurement protocol: not-started, then cold reads (each recorded for
/// replay), then warm reads replaying the cold sequence, then done.
pub struct BenchRunner {
    phase: Phase,
    cold: LatencyHist,
    warm: LatencyHist,
    replay: Vec<(Operation, usize)>,
    warm_issued: Vec<(Operation, usize)>,
    warm_recorded: usize,
}

impl BenchRunner {
    pub closed spec fn phase(&self) -> Phase {
        self.phase
    }

    /// The (operation, tenant) requests recorded during the cold phase.
    pub closed spec fn replay_seq(&self) -> Seq<(Operation, usize)> {
        self.replay@
    }

    /// The requests the warm phase has issued so far.
    pub closed spec fn warm_issued_seq(&self) -> Seq<(Operation, usize)> {
        self.warm_issued@
    }

    pub closed spec fn cold_samples(&self) -> Multiset<u64> {
        hist_samples(self.cold)
    }

    pub closed spec fn warm_samples(&self) -> Multiset<u64> {
        hist_samples(self.warm)
    }

    pub closed spec fn warm_recorded(&self) -> int {
        self.warm_recorded as int
    }

    /// The runner's invariant: one cold sample per recorded request, one warm
    /// sample per replayed request, the warm requests a prefix of the cold
    /// ones, and at the end an exact replay.
    pub open spec fn wf(&self) -> bool {
        &&& self.cold_samples().len() == self.replay_seq().len()
        &&& self.warm_samples().len() == self.warm_recorded()
        &&& self.warm_recorded() <= self.warm_issued_seq().len()
        &&& self.warm_issued_seq().len() <= self.replay_seq().len()
        &&& self.warm_issued_seq() == self.replay_seq().take(self.warm_issued_seq().len() as int)
        &&& (self.phase() == Phase::NotStarted ==> self.replay_seq().len() == 0)
        &&& (self.phase() == Phase::Cold ==> self.warm_issued_seq().len() == 0
            && self.warm_recorded() == 0)
        &&& (self.phase() == Phase::Done ==> self.warm_issued_seq() == self.replay_seq()
            && self.warm_recorded() == self.replay_seq().len())
    }

    /// A fresh runner with empty cold and warm histograms.
    pub fn new() -> (r: BenchRunner)
        ensures
            r.wf(),
            r.phase() == Phase::NotStarted,
            r.replay_seq().len() == 0,
            r.warm_issued_seq().len() == 0,
            r.cold_samples() == Multiset::<u64>::empty(),
            r.warm_samples() == Multiset::<u64>::empty(),
    {
        let b = BenchRunner {
            phase: Phase::NotStarted,
            cold: latency_hist(),
            warm: latency_hist(),
            replay: Vec::new(),
            warm_issued: Vec::new(),
            warm_recorded: 0,
        };
        proof {
            assert(b.replay_seq().take(0) =~= b.warm_issued_seq());
        }
        b
    }

    /// Enter the cold phase.
    pub fn begin_cold(&mut self)
        requires
            old(self).wf(),
            old(self).phase() == Phase::NotStarted,
        ensures
            final(self).wf(),
            final(self).phase() == Phase::Cold,
            final(self).replay_seq() == old(self).replay_seq(),
            final(self).cold_samples() == old(self).cold_samples(),
            final(self).warm_samples() == old(self).warm_samples(),
    {
        self.phase = Phase::Cold;
    }

    /// Record one cold read: the request joins the replay list and its
    /// latency joins the cold histogram.
    pub fn record_cold(&mut self, op: Operation, tenant: usize, micros: u64)
        requires
            old(self).wf(),
            old(self).phase() == Phase::Cold,
        ensures
            final(self).wf(),
            final(self).phase() == Phase::Cold,
            final(self).replay_seq() == old(self).replay_seq().push((op, tenant)),
            final(self).cold_samples() == old(self).cold_samples().insert(
                stored_sample(micros),
            ),
            final(self).cold_samples().len() == old(self).cold_samples().len() + 1,
            final(self).warm_samples() == old(self).warm_samples(),
            final(self).warm_issued_seq() == old(self).warm_issued_seq(),
    {
        self.replay.push((op, tenant));
        hist_record(&mut self.cold, micros);
        proof {
            assert(self.replay_seq().take(0) =~= self.warm_issued_seq());
        }
    }

    /// Enter the warm phase once every cold read is done.
    pub fn begin_warm(&mut self)
        requires
            old(self).wf(),
            old(self).phase() == Phase::Cold,
        ensures
            final(self).wf(),
            final(self).phase() == Phase::Warm,
            final(self).replay_seq() == old(self).replay_seq(),
            final(self).cold_samples() == old(self).cold_samples(),
            final(self).warm_samples() == old(self).warm_samples(),
            final(self).warm_issued_seq() == old(self).warm_issued_seq(),
    {
        self.phase = Phase::Warm;
    }

    /// The next request of the warm phase: exactly the next entry of the
    /// replay list, or nothing once the replay is complete.
    pub fn warm_next(&mut self) -> (r: Option<(Operation, usize)>)
        requires
            old(self).wf(),
            old(self).phase() == Phase::Warm,
            old(self).warm_recorded() == old(self).warm_issued_seq().len(),
        ensures
            final(self).wf(),
            final(self).phase() == Phase::Warm,
            final(self).replay_seq() == old(self).replay_seq(),
            final(self).cold_samples() == old(self).cold_samples(),
            final(self).warm_samples() == old(self).warm_samples(),
            final(self).warm_recorded() == old(self).warm_recorded(),
            match r {
                Some(req) => {
                    &&& old(self).warm_issued_seq().len() < old(self).replay_seq().len()
                    &&& req == old(self).replay_seq()[old(self).warm_issued_seq().len() as int]
                    &&& final(self).warm_issued_seq() == old(self).warm_issued_seq().push(req)
                },
                None => {
                    &&& old(self).warm_issued_seq() == old(self).replay_seq()
                    &&& final(self).warm_issued_seq() == old(self).warm_issued_seq()
                },
            },
    {
        let pos = self.warm_issued.len();
        if pos < self.replay.len() {
            let req = self.replay[pos];
            self.warm_issued.push(req);
            proof {
                assert(self.warm_issued_seq() =~= self.replay_seq().take(pos as int + 1));
            }
            Some(req)
        } else {
            proof {
                assert(self.warm_issued_seq() =~= self.replay_seq());
            }
            None
        }
    }

    /// Record the latency of the warm read just issued.
    pub fn record_warm(&mut self, micros: u64)
        requires
            old(self).wf(),
            old(self).phase() == Phase::Warm,
            old(self).warm_recorded() < old(self).warm_issued_seq().len(),
        ensures
            final(self).wf(),
            final(self).phase() == Phase::Warm,
            final(self).replay_seq() == old(self).replay_seq(),
            final(self).warm_issued_seq() == old(self).warm_issued_seq(),
            final(self).cold_samples() == old(self).cold_samples(),
            final(self).warm_samples() == old(self).warm_samples().insert(
                stored_sample(micros),
            ),
            final(self).warm_samples().len() == old(self).warm_samples().len() + 1,
            final(self).warm_recorded() == old(self).warm_recorded() + 1,
    {
        hist_record(&mut self.warm, micros);
        let issued = self.warm_issued.len();
        proof {
            assert(self.warm_recorded < issued);
        }
        self.warm_recorded = self.warm_recorded + 1;
    }

    /// Close the protocol once the warm phase has replayed everything.
    pub fn finish(&mut self)
        requires
            old(self).wf(),
            old(self).phase() == Phase::Warm,
            old(self).warm_issued_seq().len() == old(self).replay_seq().len(),
            old(self).warm_recorded() == old(self).warm_issued_seq().len(),
        ensures
            final(self).wf(),
            final(self).phase() == Phase::Done,
            final(self).replay_seq() == old(self).replay_seq(),
            final(self).warm_issued_seq() == old(self).replay_seq(),
            final(self).cold_samples() == old(self).cold_samples(),
            final(self).warm_samples() == old(self).warm_samples(),
            final(self).cold_samples().len() == final(self).warm_samples().len(),
    {
        proof {
            assert(self.warm_issued_seq() =~= self.replay_seq());
        }
        self.phase = Phase::Done;
    }

    /// The recorded replay list, for reporting and inspection.
    pub fn replay(&self) -> (r: &Vec<(Operation, usize)>)
        ensures
            r@ == self.replay_seq(),
    {
        &self.replay
    }

    pub fn cold_hist(&self) -> (r: &LatencyHist)
        ensures
            hist_samples(*r) == self.cold_samples(),
    {
        &self.cold
    }

    pub fn warm_hist(&self) -> (r: &LatencyHist)
        ensures
            hist_samples(*r) == self.warm_samples(),
    {
        &self.warm
    }
}

/// Cold and warm histograms always hold the same number of samples once the
/// protocol is done, and the warm phase issued exactly the cold phase's
/// recorded request sequence, in the same order.
pub proof fn lemma_warm_replays_cold(r: &BenchRunner)
    requires
        r.wf(),
        r.phase() == Phase::Done,
    ensures
        r.warm_issued_seq() == r.replay_seq(),
        r.cold_samples().len() == r.warm_samples().len(),
{
}

/// The order the cold phase visits the logged-in tenants: a random
/// permutation of `0 .. nlogged`.
pub fn cold_order(nlogged: usize) -> (r: Vec<usize>)
    ensures
        r@.len() == nlogged,
        r@.to_multiset() == Seq::new(nlogged as nat, |i: int| i as usize).to_multiset(),
{
    let mut v: Vec<usize> = Vec::new();
    let mut i: usize = 0;
    while i < nlogged
        invariant
            i <= nlogged,
            v@ == Seq::new(i as nat, |j: int| j as usize),
        decreases nlogged - i,
    {
        v.push(i);
        proof {
            assert(v@ =~= Seq::new(i as nat + 1, |j: int| j as usize));
        }
        i += 1;
    }
    random_order(&v)
}

} // verus!
