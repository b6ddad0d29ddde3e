//! The dispatcher: turns input lines into jobs, one per distinct well-formed
//! target, each carrying its own copy of the pattern set.

use vstd::prelude::*;
use crate::pattern::PatternSet;
use crate::target::{normalize_target, normalized};
use crate::worker::{Job, Scan, hits};

verus! {

/// The distinct targets that some line normalises to.
pub open spec fn well_formed_targets(lines: Seq<Seq<char>>) -> Set<Seq<char>> {
    Set::new(|t: Seq<char>| exists|i: int| 0 <= i < lines.len() && normalized(lines[i]) == Some(t))
}

/// The lines that a run prints: one per hit over all the scans.
pub open spec fn total_hits(scans: Seq<Scan>) -> nat
    decreases scans.len(),
{
    if scans.len() == 0 {
        0
    } else {
        total_hits(scans.drop_last()) + hits(scans.last().probes())
    }
}

pub struct Dispatcher {
    patterns: PatternSet,
    sent: Vec<String>,
    offered: Ghost<Seq<Seq<char>>>,
}

impl Dispatcher {
    pub closed spec fn patterns(&self) -> Seq<(Seq<char>, Seq<char>)> {
        self.patterns@
    }

    /// The targets of the jobs made so far, in order.
    pub closed spec fn sent(&self) -> Seq<Seq<char>> {
        self.sent@.map_values(|s: String| s@)
    }

    /// The lines offered so far, in order.
    pub closed spec fn offered(&self) -> Seq<Seq<char>> {
        self.offered@
    }

    pub closed spec fn wf(&self) -> bool {
        &&& self.patterns.wf()
        &&& self.sent().no_duplicates()
        &&& self.sent().to_set() == well_formed_targets(self.offered@)
    }

    pub fn new(patterns: PatternSet) -> (r: Dispatcher)
        requires
            patterns.wf(),
        ensures
            r.wf(),
            r.patterns() == patterns@,
            r.sent() == Seq::<Seq<char>>::empty(),
            r.offered() == Seq::<Seq<char>>::empty(),
    {
        let r = Dispatcher { patterns, sent: Vec::new(), offered: Ghost(Seq::empty()) };
        assert(r.sent().to_set() =~= well_formed_targets(r.offered@));
        r
    }

    /// Offers one input line. A line that is no URL with a host is dropped, as
    /// is one whose target already had its job; otherwise the job for its
    /// target is returned, to be enqueued.
    pub fn offer(&mut self, line: &str) -> (r: Option<Job>)
        requires
            old(self).wf(),
        ensures
            final(self).wf(),
            final(self).patterns() == old(self).patterns(),
            final(self).offered() == old(self).offered().push(line@),
            match normalized(line@) {
                None => r is None && final(self).sent() == old(self).sent(),
                Some(t) => if old(self).sent().contains(t) {
                    r is None && final(self).sent() == old(self).sent()
                } else {
                    &&& r matches Some(j) && j@ == (t, old(self).patterns()) && j.wf()
                    &&& final(self).sent() == old(self).sent().push(t)
                },
            },
    {
        let ghost old_sent = self.sent();
        let ghost lines = self.offered@.push(line@);
        self.offered = Ghost(lines);
        let target = normalize_target(line);
        match target {
            None => {
                assert(well_formed_targets(lines) =~= well_formed_targets(old(self).offered@)) by {
                    assert forall|t: Seq<char>| well_formed_targets(lines).contains(t)
                        implies well_formed_targets(old(self).offered@).contains(t) by {
                        let i = choose|i: int| 0 <= i < lines.len() && normalized(lines[i]) == Some(t);
                        assert(i < lines.len() - 1);
                        assert(lines[i] == old(self).offered@[i]);
                    }
                    assert forall|t: Seq<char>| well_formed_targets(old(self).offered@).contains(t)
                        implies well_formed_targets(lines).contains(t) by {
                        let i = choose|i: int| 0 <= i < old(self).offered@.len() && normalized(old(self).offered@[i]) == Some(t);
                        assert(lines[i] == old(self).offered@[i]);
                    }
                }
                None
            },
            Some(t) => {
                let ghost tv = t@;
                assert(well_formed_targets(lines) =~= well_formed_targets(old(self).offered@).insert(tv)) by {
                    assert(lines[lines.len() - 1] == line@);
                    assert forall|u: Seq<char>| well_formed_targets(lines).contains(u)
                        implies well_formed_targets(old(self).offered@).insert(tv).contains(u) by {
                        let i = choose|i: int| 0 <= i < lines.len() && normalized(lines[i]) == Some(u);
                        if i < lines.len() - 1 {
                            assert(lines[i] == old(self).offered@[i]);
                        }
                    }
                    assert forall|u: Seq<char>| well_formed_targets(old(self).offered@).insert(tv).contains(u)
                        implies well_formed_targets(lines).contains(u) by {
                        if u != tv {
                            let i = choose|i: int| 0 <= i < old(self).offered@.len() && normalized(old(self).offered@[i]) == Some(u);
                            assert(lines[i] == old(self).offered@[i]);
                        }
                    }
                }
                assert(old_sent.to_set() == well_formed_targets(old(self).offered@));
                let mut k: usize = 0;
                while k < self.sent.len()
                    invariant
                        self.sent() == old_sent,
                        old_sent == old(self).sent(),
                        tv == t@,
                        self.offered@ == lines,
                        lines == old(self).offered@.push(line@),
                        normalized(line@) == Some(tv),
                        self.patterns.wf(),
                        self.patterns@ == old(self).patterns@,
                        old_sent.no_duplicates(),
                        well_formed_targets(lines) == old_sent.to_set().insert(tv),
                        k <= old_sent.len(),
                        forall|j: int| 0 <= j < k ==> old_sent[j] != tv,
                    decreases old_sent.len() - k,
                {
                    let same = self.sent[k].eq(&t);
                    assert(old_sent[k as int] == self.sent@[k as int]@);
                    if same {
                        assert(old_sent[k as int] == tv);
                        assert(old_sent.to_set().contains(tv));
                        assert(old_sent.contains(tv));
                        assert(old_sent.to_set().insert(tv) =~= old_sent.to_set());
                        return None;
                    }
                    k = k + 1;
                }
                assert(!old_sent.contains(tv));
                let job = Job::new(t.clone(), self.patterns.duplicate());
                self.sent.push(t);
                assert(self.sent() =~= old_sent.push(tv));
                proof { old_sent.lemma_push_to_set_commute(tv); }
                Some(job)
            },
        }
    }
}

/// At most one line per target: however the scans of the dispatched jobs
/// come out, a run prints no more lines than there are distinct well-formed
/// targets among the lines offered.
pub proof fn lemma_lines_bounded(d: Dispatcher, scans: Seq<Scan>)
    requires
        d.wf(),
        scans.len() == d.sent().len(),
        forall|i: int| 0 <= i < scans.len() ==> (#[trigger] scans[i]).wf() && scans[i].target() == d.sent()[i],
    ensures
        total_hits(scans) <= well_formed_targets(d.offered()).len(),
{
    lemma_total_hits_bounded(scans);
    d.sent().unique_seq_to_set();
}

proof fn lemma_total_hits_bounded(scans: Seq<Scan>)
    requires
        forall|i: int| 0 <= i < scans.len() ==> (#[trigger] scans[i]).wf(),
    ensures
        total_hits(scans) <= scans.len(),
    decreases scans.len(),
{
    if scans.len() > 0 {
        let rest = scans.drop_last();
        assert forall|i: int| 0 <= i < rest.len() implies (#[trigger] rest[i]).wf() by {
            assert(rest[i] == scans[i]);
        }
        lemma_total_hits_bounded(rest);
        crate::worker::lemma_scan_reports_once(scans.last());
    }
}

} // verus!
