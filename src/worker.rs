//! One job's scan: its patterns are tried in order, one fetch each, until the
//! first match, which is reported once.

use vstd::prelude::*;
use crate::pattern::{PatternSet, regex_finds};

verus! {

/// One unit of work: a target and the patterns to test its responses against.
pub struct Job {
    target: String,
    patterns: PatternSet,
}

/// A matched target, with the name of the pattern that matched.
pub struct JobResult {
    pub data: String,
    pub pattern: String,
}

impl View for Job {
    type V = (Seq<char>, Seq<(Seq<char>, Seq<char>)>);

    closed spec fn view(&self) -> (Seq<char>, Seq<(Seq<char>, Seq<char>)>) {
        (self.target@, self.patterns@)
    }
}

impl Job {
    pub closed spec fn wf(&self) -> bool {
        self.patterns.wf()
    }

    pub fn new(target: String, patterns: PatternSet) -> (r: Job)
        requires
            patterns.wf(),
        ensures
            r@ == (target@, patterns@),
            r.wf(),
    {
        Job { target, patterns }
    }

    pub fn target(&self) -> (r: &String)
        ensures
            r@ == self@.0,
    {
        &self.target
    }
}

/// What one pattern's fetch-and-test came to.
#[derive(PartialEq, Eq, Structural, Clone, Copy, Debug)]
pub enum Probe {
    /// The request could not be built or sent, or its body not read.
    Failed,
    /// A body came back and the pattern found no match in it.
    Missed,
    /// A body came back and the pattern matched it.
    Hit,
}

/// The probe for a pattern source, given the body of its fetch (none when
/// the fetch failed).
pub open spec fn probe_of(source: Seq<char>, body: Option<Seq<char>>) -> Probe {
    match body {
        None => Probe::Failed,
        Some(b) => if regex_finds(source, b) {
            Probe::Hit
        } else {
            Probe::Missed
        },
    }
}

/// The number of hits among probes.
pub open spec fn hits(ps: Seq<Probe>) -> nat
    decreases ps.len(),
{
    if ps.len() == 0 {
        0
    } else {
        hits(ps.drop_last()) + if ps.last() == Probe::Hit {
            1nat
        } else {
            0nat
        }
    }
}

/// The index of the pattern reported by a scan with these probes, if any.
pub open spec fn outcome(ps: Seq<Probe>) -> Option<int> {
    if ps.len() > 0 && ps.last() == Probe::Hit {
        Some(ps.len() - 1)
    } else {
        None
    }
}

/// The probes that fixed responses give, one body (or failure) per pattern.
pub open spec fn probes_from(
    patterns: Seq<(Seq<char>, Seq<char>)>,
    responses: Seq<Option<Seq<char>>>,
) -> Seq<Probe> {
    Seq::new(patterns.len(), |i: int| probe_of(patterns[i].1, responses[i]))
}

/// The scan of one job, driven by whoever performs the fetches: ask for the
/// next pattern, fetch, hand the outcome back, until finished.
pub struct Scan {
    job: Job,
    next: usize,
    done: bool,
    probes: Ghost<Seq<Probe>>,
}

impl Scan {
    pub closed spec fn target(&self) -> Seq<char> {
        self.job.target@
    }

    pub closed spec fn patterns(&self) -> Seq<(Seq<char>, Seq<char>)> {
        self.job.patterns@
    }

    /// The probes made so far, one per pattern tried, in order.
    pub closed spec fn probes(&self) -> Seq<Probe> {
        self.probes@
    }

    pub closed spec fn finished(&self) -> bool {
        self.done
    }

    pub closed spec fn wf(&self) -> bool {
        &&& self.job.patterns.wf()
        &&& self.probes@.len() == self.next
        &&& self.next <= self.job.patterns@.len()
        &&& forall|i: int| 0 <= i < self.probes@.len() - 1 ==> self.probes@[i] != Probe::Hit
        &&& self.done == (self.next == self.job.patterns@.len() || (self.next > 0
            && self.probes@.last() == Probe::Hit))
    }

    /// Starts the scan of a job; one without patterns is finished at once.
    pub fn new(job: Job) -> (r: Scan)
        requires
            job.wf(),
        ensures
            r.wf(),
            r.target() == job@.0,
            r.patterns() == job@.1,
            r.probes() == Seq::<Probe>::empty(),
            r.finished() == (job@.1.len() == 0),
    {
        let done = job.patterns.len() == 0;
        Scan { job, next: 0, done, probes: Ghost(Seq::empty()) }
    }

    pub fn is_finished(&self) -> (r: bool)
        ensures
            r == self.finished(),
    {
        self.done
    }

    /// The target to fetch for the next pattern.
    pub fn target_str(&self) -> (r: &str)
        ensures
            r@ == self.target(),
    {
        self.job.target.as_str()
    }

    /// The index of the pattern that the next fetch is for.
    pub fn next_pattern(&self) -> (r: usize)
        requires
            self.wf(),
        ensures
            r == self.probes().len(),
    {
        self.next
    }

    /// Takes the outcome of the current pattern's fetch-and-test. A hit ends
    /// the scan with its one report; a failure or a miss moves on to the next
    /// pattern, and the scan ends when none is left.
    pub fn record(&mut self, p: Probe) -> (r: Option<JobResult>)
        requires
            old(self).wf(),
            !old(self).finished(),
        ensures
            final(self).wf(),
            final(self).target() == old(self).target(),
            final(self).patterns() == old(self).patterns(),
            final(self).probes() == old(self).probes().push(p),
            final(self).finished() == (p == Probe::Hit || old(self).probes().len() + 1
                == old(self).patterns().len()),
            r is Some <==> p == Probe::Hit,
            r matches Some(res) ==> res.data@ == old(self).target() && res.pattern@ == old(
                self,
            ).patterns()[old(self).probes().len() as int].0,
    {
        let i = self.next;
        let n = self.job.patterns.len();
        self.probes = Ghost(self.probes@.push(p));
        self.next = i + 1;
        match p {
            Probe::Hit => {
                self.done = true;
                Some(JobResult { data: self.job.target.clone(), pattern: self.job.patterns.name(i).clone() })
            },
            _ => {
                self.done = self.next == n;
                None
            },
        }
    }

    /// Tests the body fetched for the current pattern (none when the fetch
    /// failed) and records the outcome.
    pub fn advance(&mut self, body: Option<&str>) -> (r: Option<JobResult>)
        requires
            old(self).wf(),
            !old(self).finished(),
        ensures
            final(self).wf(),
            final(self).target() == old(self).target(),
            final(self).patterns() == old(self).patterns(),
            final(self).probes() == old(self).probes().push(
                probe_of(
                    old(self).patterns()[old(self).probes().len() as int].1,
                    match body {
                        Some(b) => Some(b@),
                        None => None,
                    },
                ),
            ),
            final(self).finished() == (final(self).probes().last() == Probe::Hit || old(
                self,
            ).probes().len() + 1 == old(self).patterns().len()),
            r is Some <==> final(self).probes().last() == Probe::Hit,
            r matches Some(res) ==> res.data@ == old(self).target() && res.pattern@ == old(
                self,
            ).patterns()[old(self).probes().len() as int].0,
    {
        let p = match body {
            None => Probe::Failed,
            Some(b) => if self.job.patterns.matches_at(self.next, b) {
                Probe::Hit
            } else {
                Probe::Missed
            },
        };
        self.record(p)
    }
}

proof fn lemma_no_hits(ps: Seq<Probe>)
    requires
        forall|i: int| 0 <= i < ps.len() ==> ps[i] != Probe::Hit,
    ensures
        hits(ps) == 0,
    decreases ps.len(),
{
    if ps.len() > 0 {
        lemma_no_hits(ps.drop_last());
    }
}

/// A scan reports a target at most once: among its probes there is at most
/// one hit, and only a hit is reported.
pub proof fn lemma_scan_reports_once(s: Scan)
    requires
        s.wf(),
    ensures
        hits(s.probes()) <= 1,
{
    let ps = s.probes();
    if ps.len() > 0 {
        assert forall|i: int| 0 <= i < ps.drop_last().len() implies ps.drop_last()[i] != Probe::Hit by {
            assert(ps.drop_last()[i] == ps[i]);
        }
        lemma_no_hits(ps.drop_last());
    }
}

/// First match wins: once a pattern matches, the scan is finished and no
/// later pattern is fetched or tested.
pub proof fn lemma_first_match_wins(s: Scan, k: int)
    requires
        s.wf(),
        0 <= k < s.probes().len(),
        s.probes()[k] == Probe::Hit,
    ensures
        s.finished(),
        s.probes().len() == k + 1,
{
}

/// Against the same fixed responses and the same patterns, two finished
/// scans report the same pattern, or both report nothing.
pub proof fn lemma_scan_deterministic(s1: Scan, s2: Scan, responses: Seq<Option<Seq<char>>>)
    requires
        s1.wf(),
        s2.wf(),
        s1.finished(),
        s2.finished(),
        s1.patterns() == s2.patterns(),
        responses.len() == s1.patterns().len(),
        s1.probes() == probes_from(s1.patterns(), responses).take(s1.probes().len() as int),
        s2.probes() == probes_from(s2.patterns(), responses).take(s2.probes().len() as int),
    ensures
        outcome(s1.probes()) == outcome(s2.probes()),
{
    let full = probes_from(s1.patterns(), responses);
    let (probes1, probes2) = (s1.probes(), s2.probes());
    assert(forall|i: int| 0 <= i < probes1.len() ==> probes1[i] == full[i]);
    assert(forall|i: int| 0 <= i < probes2.len() ==> probes2[i] == full[i]);
    if probes1.len() < probes2.len() {
        assert(probes2[probes1.len() - 1] == probes1.last());
    } else if probes2.len() < probes1.len() {
        assert(probes1[probes2.len() - 1] == probes2.last());
    }
}

} // verus!
