//! The named regular expressions that a probe tests a response body against.

use vstd::prelude::*;

verus! {

/// Whether a regular expression source compiles.
pub uninterp spec fn regex_valid(pattern: Seq<char>) -> bool;

/// Whether a compiled regular expression finds a match anywhere in a text.
pub uninterp spec fn regex_finds(pattern: Seq<char>, text: Seq<char>) -> bool;

#[verifier::external_type_specification]
#[verifier::external_body]
pub struct ExRegexError(regex::Error);

/// Relies on `regex::Regex::new` to compile `pattern` (an error exactly when
/// it is no valid expression) and on `Regex::is_match` to search `text`.
#[verifier::external_body]
fn regex_search(pattern: &str, text: &str) -> (r: Result<bool, regex::Error>)
    ensures
        r is Ok == regex_valid(pattern@),
        r matches Ok(b) ==> b == regex_finds(pattern@, text@),
{
    match regex::Regex::new(pattern) {
        Ok(re) => Ok(re.is_match(text)),
        Err(e) => Err(e),
    }
}

/// A named regular expression.
pub struct Pattern {
    pub name: String,
    pub source: String,
}

/// Why a pattern set was refused; each names the offending entry.
pub enum PatternError {
    DuplicateName(String),
    InvalidPattern(String),
}

/// A set of named regular expressions: names unique, every source valid.
pub struct PatternSet {
    entries: Vec<Pattern>,
}

pub open spec fn entries_view(es: Seq<(String, String)>) -> Seq<(Seq<char>, Seq<char>)> {
    es.map_values(|e: (String, String)| (e.0@, e.1@))
}

/// Entry `i` neither repeats an earlier name nor holds an invalid source.
pub open spec fn entry_ok(es: Seq<(Seq<char>, Seq<char>)>, i: int) -> bool {
    (forall|j: int| 0 <= j < i ==> #[trigger] es[j].0 != es[i].0) && regex_valid(es[i].1)
}

pub open spec fn all_ok(es: Seq<(Seq<char>, Seq<char>)>) -> bool {
    forall|i: int| 0 <= i < es.len() ==> entry_ok(es, i)
}

/// The error that entry `k`, the first one not ok, gives: a repeated name is
/// reported before an invalid source.
pub open spec fn error_at(es: Seq<(Seq<char>, Seq<char>)>, k: int, e: PatternError) -> bool {
    let dup = exists|j: int| 0 <= j < k && #[trigger] es[j].0 == es[k].0;
    match e {
        PatternError::DuplicateName(n) => dup && n@ == es[k].0,
        PatternError::InvalidPattern(n) => !dup && n@ == es[k].0,
    }
}

impl View for PatternSet {
    type V = Seq<(Seq<char>, Seq<char>)>;

    closed spec fn view(&self) -> Seq<(Seq<char>, Seq<char>)> {
        self.entries@.map_values(|p: Pattern| (p.name@, p.source@))
    }
}

impl PatternSet {
    pub open spec fn wf(&self) -> bool {
        all_ok(self@)
    }

    /// Validates the entries once, up front: an invalid expression is a
    /// configuration error, never a failure found in the middle of a run.
    pub fn new(entries: Vec<(String, String)>) -> (r: Result<PatternSet, PatternError>)
        ensures
            r is Ok <==> all_ok(entries_view(entries@)),
            r matches Ok(s) ==> s@ == entries_view(entries@) && s.wf(),
            r matches Err(e) ==> exists|k: int|
                0 <= k < entries@.len() && (forall|i: int| 0 <= i < k ==> entry_ok(entries_view(entries@), i))
                    && !entry_ok(entries_view(entries@), k) && error_at(entries_view(entries@), k, e),
    {
        let ghost es = entries_view(entries@);
        let mut out: Vec<Pattern> = Vec::new();
        let mut i: usize = 0;
        while i < entries.len()
            invariant
                es == entries_view(entries@),
                i <= entries@.len(),
                out@.len() == i,
                forall|k: int| 0 <= k < i ==> (#[trigger] out@[k]).name@ == es[k].0 && out@[k].source@ == es[k].1,
                forall|k: int| 0 <= k < i ==> entry_ok(es, k),
            decreases entries@.len() - i,
        {
            let name = &entries[i].0;
            let source = &entries[i].1;
            assert(es[i as int] == (name@, source@));
            let mut j: usize = 0;
            while j < i
                invariant
                    es == entries_view(entries@),
                    i < entries@.len(),
                    j <= i,
                    out@.len() == i,
                    name@ == es[i as int].0,
                    forall|k: int| 0 <= k < i ==> (#[trigger] out@[k]).name@ == es[k].0 && out@[k].source@ == es[k].1,
                    forall|k: int| 0 <= k < j ==> #[trigger] es[k].0 != es[i as int].0,
                    forall|k: int| 0 <= k < i ==> entry_ok(es, k),
                decreases i - j,
            {
                if out[j].name == *name {
                    let e = PatternError::DuplicateName(name.clone());
                    assert(es[j as int].0 == es[i as int].0);
                    assert(!entry_ok(es, i as int));
                    assert(error_at(es, i as int, e));
                    return Err(e);
                }
                j = j + 1;
            }
            match regex_search(source.as_str(), "") {
                Ok(_) => {},
                Err(_) => {
                    let e = PatternError::InvalidPattern(name.clone());
                    assert(!entry_ok(es, i as int));
                    assert(error_at(es, i as int, e));
                    return Err(e);
                },
            }
            out.push(Pattern { name: name.clone(), source: source.clone() });
            i = i + 1;
        }
        let s = PatternSet { entries: out };
        assert(s@ =~= es);
        Ok(s)
    }

    pub fn len(&self) -> (r: usize)
        ensures
            r == self@.len(),
    {
        self.entries.len()
    }

    /// The name of entry `i`.
    pub fn name(&self, i: usize) -> (r: &String)
        requires
            i < self@.len(),
        ensures
            r@ == self@[i as int].0,
    {
        &self.entries[i].name
    }

    /// Whether entry `i`'s expression finds a match in `body`.
    pub fn matches_at(&self, i: usize, body: &str) -> (r: bool)
        requires
            self.wf(),
            i < self@.len(),
        ensures
            r == regex_finds(self@[i as int].1, body@),
    {
        assert(entry_ok(self@, i as int));
        match regex_search(self.entries[i].source.as_str(), body) {
            Ok(b) => b,
            Err(_) => false,
        }
    }

    /// A copy of the set, for a job to own.
    pub fn duplicate(&self) -> (r: PatternSet)
        ensures
            r@ == self@,
    {
        let mut out: Vec<Pattern> = Vec::new();
        let mut i: usize = 0;
        while i < self.entries.len()
            invariant
                i <= self@.len(),
                out@.len() == i,
                forall|k: int| 0 <= k < i ==> (#[trigger] out@[k]).name@ == self@[k].0 && out@[k].source@ == self@[k].1,
            decreases self@.len() - i,
        {
            let p = &self.entries[i];
            out.push(Pattern { name: p.name.clone(), source: p.source.clone() });
            i = i + 1;
        }
        let r = PatternSet { entries: out };
        assert(r@ =~= self@);
        r
    }
}

} // verus!
