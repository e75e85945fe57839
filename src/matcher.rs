use vstd::prelude::*;

use crate::pattern::{regex_outcome, regex_test};

verus! {

/// The timestamp prefix that opens a log entry: `YYYY-MM-DD hh:mm:ss `.
pub const BOUNDARY_PATTERN: &'static str = "^\\d{4}-\\d{2}-\\d{2} \\d{2}:\\d{2}:\\d{2} ";

/// The class of one log line.
#[derive(Clone, Copy, Debug, PartialEq, Eq, Structural)]
pub enum LineKind {
    /// The line opens a log entry (it carries the timestamp prefix).
    Boundary,
    /// The line belongs to an entry and is worth reporting.
    Detail,
    /// Anything else; the extractor drops it.
    Unrelated,
}

/// A pattern of the rule set that does not compile.
#[derive(Clone, Debug)]
pub struct PatternError {
    pub pattern: String,
}

/// Classifies single lines with a boundary pattern and an ordered list of
/// detail patterns.
#[derive(Clone, Debug)]
pub struct LineMatcher {
    boundary: String,
    details: Vec<String>,
}

/// Whether some pattern of `details` matches `line`, trying them in order;
/// `Err(p)` where the first pattern that decides nothing, `p`, does not compile.
pub open spec fn detail_outcome(details: Seq<Seq<char>>, line: Seq<char>) -> Result<bool, Seq<char>>
    decreases details.len(),
{
    if details.len() == 0 {
        Ok(false)
    } else {
        match regex_outcome(details[0], line) {
            None => Err(details[0]),
            Some(true) => Ok(true),
            Some(false) => detail_outcome(details.drop_first(), line),
        }
    }
}

/// The class of `line` under a boundary pattern and detail patterns: the
/// boundary pattern is tried first, then the detail patterns in order.
pub open spec fn classify_spec(boundary: Seq<char>, details: Seq<Seq<char>>, line: Seq<char>) -> Result<LineKind, Seq<char>> {
    match regex_outcome(boundary, line) {
        None => Err(boundary),
        Some(true) => Ok(LineKind::Boundary),
        Some(false) => match detail_outcome(details, line) {
            Err(p) => Err(p),
            Ok(true) => Ok(LineKind::Detail),
            Ok(false) => Ok(LineKind::Unrelated),
        },
    }
}

/// The view of a classification result: the failing pattern in place of the error.
pub open spec fn kind_result_view(r: Result<LineKind, PatternError>) -> Result<LineKind, Seq<char>> {
    match r {
        Ok(k) => Ok(k),
        Err(e) => Err(e.pattern@),
    }
}

/// Where every pattern of `details` compiles on `line` and one of them
/// matches, the detail patterns match.
pub proof fn lemma_some_detail_matches(details: Seq<Seq<char>>, line: Seq<char>, j: int)
    requires
        0 <= j < details.len(),
        regex_outcome(details[j], line) == Some(true),
        forall|i: int| 0 <= i < details.len() ==> (#[trigger] regex_outcome(details[i], line)) is Some,
    ensures
        detail_outcome(details, line) == Ok::<bool, Seq<char>>(true),
    decreases details.len(),
{
    if j > 0 && regex_outcome(details[0], line) == Some(false) {
        let rest = details.drop_first();
        assert forall|i: int| 0 <= i < rest.len() implies (#[trigger] regex_outcome(rest[i], line)) is Some by {
            assert(rest[i] == details[i + 1]);
        }
        assert(rest[j - 1] == details[j]);
        lemma_some_detail_matches(rest, line, j - 1);
    } else {
        assert(regex_outcome(details[0], line) is Some);
    }
}

impl LineMatcher {
    /// The boundary pattern as a sequence of characters.
    pub closed spec fn boundary_view(&self) -> Seq<char> {
        self.boundary@
    }

    /// The detail patterns, in order, as sequences of characters.
    pub closed spec fn details_view(&self) -> Seq<Seq<char>> {
        self.details@.map_values(|p: String| p@)
    }

    /// A matcher with the timestamp boundary pattern and the given detail patterns.
    pub fn new(details: Vec<String>) -> (m: LineMatcher)
        ensures
            m.boundary_view() == BOUNDARY_PATTERN@,
            m.details_view() == details@.map_values(|p: String| p@),
    {
        LineMatcher { boundary: String::from_str(BOUNDARY_PATTERN), details }
    }

    /// A matcher with a boundary pattern of the caller's choice.
    pub fn with_boundary(boundary: String, details: Vec<String>) -> (m: LineMatcher)
        ensures
            m.boundary_view() == boundary@,
            m.details_view() == details@.map_values(|p: String| p@),
    {
        LineMatcher { boundary, details }
    }

    /// Whether one of the detail patterns matches `line`.
    fn detail_match(&self, line: &str) -> (r: Result<bool, PatternError>)
        ensures
            match r {
                Ok(b) => detail_outcome(self.details_view(), line@) == Ok::<bool, Seq<char>>(b),
                Err(e) => detail_outcome(self.details_view(), line@) == Err::<bool, Seq<char>>(e.pattern@),
            },
    {
        let ghost ds = self.details_view();
        assert(ds.subrange(0, ds.len() as int) =~= ds);
        let mut i: usize = 0;
        while i < self.details.len()
            invariant
                i <= self.details@.len(),
                ds == self.details_view(),
                detail_outcome(ds, line@) == detail_outcome(ds.subrange(i as int, ds.len() as int), line@),
            decreases self.details@.len() - i,
        {
            proof {
                let rest = ds.subrange(i as int, ds.len() as int);
                assert(rest[0] == self.details@[i as int]@);
                assert(rest.drop_first() =~= ds.subrange(i + 1, ds.len() as int));
            }
            match regex_test(self.details[i].as_str(), line) {
                Ok(true) => {
                    return Ok(true);
                },
                Ok(false) => {},
                Err(_) => {
                    return Err(PatternError { pattern: self.details[i].clone() });
                },
            }
            i = i + 1;
        }
        proof {
            assert(ds.subrange(i as int, ds.len() as int).len() == 0);
        }
        Ok(false)
    }

    /// Classifies `line`. A line that matches the boundary pattern is a
    /// boundary whatever the detail patterns say; otherwise it is a detail
    /// where some detail pattern matches, and unrelated where none does.
    pub fn classify(&self, line: &str) -> (r: Result<LineKind, PatternError>)
        ensures
            kind_result_view(r) == classify_spec(self.boundary_view(), self.details_view(), line@),
            regex_outcome(self.boundary_view(), line@) == Some(true) ==> r == Ok::<LineKind, PatternError>(LineKind::Boundary),
    {
        match regex_test(self.boundary.as_str(), line) {
            Ok(true) => Ok(LineKind::Boundary),
            Ok(false) => match self.detail_match(line) {
                Ok(true) => Ok(LineKind::Detail),
                Ok(false) => Ok(LineKind::Unrelated),
                Err(e) => Err(e),
            },
            Err(_) => Err(PatternError { pattern: self.boundary.clone() }),
        }
    }
}

/// A line that matches the boundary pattern is a boundary, whatever the
/// detail patterns are.
pub proof fn lemma_boundary_wins(boundary: Seq<char>, details: Seq<Seq<char>>, line: Seq<char>)
    requires
        regex_outcome(boundary, line) == Some(true),
    ensures
        classify_spec(boundary, details, line) == Ok::<LineKind, Seq<char>>(LineKind::Boundary),
{
}

/// A line that fails the boundary pattern and matches one of the detail
/// patterns is a detail, where every detail pattern compiles.
pub proof fn lemma_detail_rule_decides(boundary: Seq<char>, details: Seq<Seq<char>>, line: Seq<char>, j: int)
    requires
        regex_outcome(boundary, line) == Some(false),
        0 <= j < details.len(),
        regex_outcome(details[j], line) == Some(true),
        forall|i: int| 0 <= i < details.len() ==> (#[trigger] regex_outcome(details[i], line)) is Some,
    ensures
        classify_spec(boundary, details, line) == Ok::<LineKind, Seq<char>>(LineKind::Detail),
{
    lemma_some_detail_matches(details, line, j);
}

} // verus!
