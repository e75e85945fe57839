use vstd::prelude::*;

use crate::matcher::{classify_spec, LineKind, LineMatcher, PatternError};

verus! {

/// What the scan should do after a line was taken in.
#[derive(Clone, Copy, Debug, PartialEq, Eq, Structural)]
pub enum ScanStep {
    /// Hand over the next line (the one before it in the file).
    Continue,
    /// The block is complete: a boundary line was reached.
    Stop,
}

/// The lines of the most recent error block, in the order the backward scan
/// met them: the line nearest the end of the file first, the boundary line
/// (when one was found) last.
#[derive(Clone, Debug)]
pub struct ExtractedBlock {
    pub lines: Vec<String>,
}

impl View for ExtractedBlock {
    type V = Seq<Seq<char>>;

    open spec fn view(&self) -> Seq<Seq<char>> {
        self.lines@.map_values(|l: String| l@)
    }
}

/// The class of `line` under the rules of `m`.
pub open spec fn kind_of(m: LineMatcher, line: Seq<char>) -> Result<LineKind, Seq<char>> {
    classify_spec(m.boundary_view(), m.details_view(), line)
}

/// The block found by scanning `rev` (the lines of a file, last line first):
/// detail lines are kept, unrelated lines dropped, and the first boundary
/// line is kept and ends the scan. `Err(p)` where pattern `p` fails to compile
/// on a line the scan reaches.
pub open spec fn extract_spec(m: LineMatcher, rev: Seq<Seq<char>>) -> Result<Seq<Seq<char>>, Seq<char>>
    decreases rev.len(),
{
    if rev.len() == 0 {
        Ok(Seq::empty())
    } else {
        match kind_of(m, rev[0]) {
            Err(p) => Err(p),
            Ok(LineKind::Boundary) => Ok(seq![rev[0]]),
            Ok(LineKind::Detail) => match extract_spec(m, rev.drop_first()) {
                Ok(rest) => Ok(seq![rev[0]] + rest),
                Err(p) => Err(p),
            },
            Ok(LineKind::Unrelated) => extract_spec(m, rev.drop_first()),
        }
    }
}

/// `acc` put in front of the lines of a scan result.
pub open spec fn prepend(acc: Seq<Seq<char>>, r: Result<Seq<Seq<char>>, Seq<char>>) -> Result<Seq<Seq<char>>, Seq<char>> {
    match r {
        Ok(rest) => Ok(acc + rest),
        Err(p) => Err(p),
    }
}

/// The view of an extraction result.
pub open spec fn block_result_view(r: Result<ExtractedBlock, PatternError>) -> Result<Seq<Seq<char>>, Seq<char>> {
    match r {
        Ok(b) => Ok(b@),
        Err(e) => Err(e.pattern@),
    }
}

/// The view of a sequence of lines.
pub open spec fn lines_view(v: Seq<String>) -> Seq<Seq<char>> {
    v.map_values(|l: String| l@)
}

impl ExtractedBlock {
    /// A block with no lines, where a scan starts.
    pub fn new() -> (b: ExtractedBlock)
        ensures
            b@ == Seq::<Seq<char>>::empty(),
    {
        let b = ExtractedBlock { lines: Vec::new() };
        assert(b@ =~= Seq::<Seq<char>>::empty());
        b
    }

    /// Takes in the next line of the backward scan: a detail line is added
    /// and the scan goes on, a boundary line is added and the scan stops, an
    /// unrelated line is dropped and the scan goes on.
    pub fn feed(&mut self, matcher: &LineMatcher, line: String) -> (r: Result<ScanStep, PatternError>)
        ensures
            match kind_of(*matcher, line@) {
                Err(p) => r matches Err(e) && e.pattern@ == p && final(self)@ == old(self)@,
                Ok(LineKind::Boundary) => r matches Ok(ScanStep::Stop) && final(self)@ == old(self)@.push(line@),
                Ok(LineKind::Detail) => r matches Ok(ScanStep::Continue) && final(self)@ == old(self)@.push(line@),
                Ok(LineKind::Unrelated) => r matches Ok(ScanStep::Continue) && final(self)@ == old(self)@,
            },
    {
        match matcher.classify(line.as_str()) {
            Err(e) => Err(e),
            Ok(LineKind::Unrelated) => Ok(ScanStep::Continue),
            Ok(LineKind::Detail) => {
                self.lines.push(line);
                proof {
                    assert(self@ =~= old(self)@.push(line@));
                }
                Ok(ScanStep::Continue)
            },
            Ok(LineKind::Boundary) => {
                self.lines.push(line);
                proof {
                    assert(self@ =~= old(self)@.push(line@));
                }
                Ok(ScanStep::Stop)
            },
        }
    }
}

/// Scans `rev_lines` (the lines of a file, last line first) for the most
/// recent error block.
pub fn extract_block(matcher: &LineMatcher, rev_lines: &Vec<String>) -> (r: Result<ExtractedBlock, PatternError>)
    ensures
        block_result_view(r) == extract_spec(*matcher, lines_view(rev_lines@)),
        rev_lines@.len() == 0 ==> (r matches Ok(b) && b@.len() == 0),
{
    let ghost revs = lines_view(rev_lines@);
    let mut block = ExtractedBlock::new();
    assert(revs.subrange(0, revs.len() as int) =~= revs);
    assert(Seq::<Seq<char>>::empty() + extract_spec(*matcher, revs)->Ok_0 =~= extract_spec(*matcher, revs)->Ok_0);
    let mut i: usize = 0;
    while i < rev_lines.len()
        invariant
            i <= rev_lines@.len(),
            revs == lines_view(rev_lines@),
            extract_spec(*matcher, revs) == prepend(block@, extract_spec(*matcher, revs.subrange(i as int, revs.len() as int))),
        decreases rev_lines@.len() - i,
    {
        let line = rev_lines[i].clone();
        let ghost acc = block@;
        let ghost rest = revs.subrange(i as int, revs.len() as int);
        proof {
            assert(rest[0] == line@);
            assert(rest.drop_first() =~= revs.subrange(i + 1, revs.len() as int));
        }
        match block.feed(matcher, line) {
            Err(e) => {
                return Err(e);
            },
            Ok(ScanStep::Stop) => {
                assert(acc.push(line@) =~= acc + seq![line@]);
                return Ok(block);
            },
            Ok(ScanStep::Continue) => {
                proof {
                    match extract_spec(*matcher, rest.drop_first()) {
                        Ok(tail) => {
                            assert(acc.push(line@) + tail =~= acc + (seq![line@] + tail));
                        },
                        Err(_) => {},
                    }
                }
            },
        }
        i = i + 1;
    }
    proof {
        assert(block@ + Seq::<Seq<char>>::empty() =~= block@);
    }
    Ok(block)
}

/// Every line of an extracted block but the last is a detail line, and the
/// last is a detail or a boundary line: a block holds at most one boundary
/// line, and only at its end.
pub proof fn lemma_block_shape(m: LineMatcher, rev: Seq<Seq<char>>)
    ensures
        extract_spec(m, rev) matches Ok(b) ==> {
            &&& forall|i: int| 0 <= i < b.len() - 1 ==> #[trigger] kind_of(m, b[i]) == Ok::<LineKind, Seq<char>>(LineKind::Detail)
            &&& b.len() > 0 ==> (kind_of(m, b.last()) == Ok::<LineKind, Seq<char>>(LineKind::Detail)
                || kind_of(m, b.last()) == Ok::<LineKind, Seq<char>>(LineKind::Boundary))
            &&& forall|i: int, j: int| 0 <= i < b.len() && 0 <= j < b.len()
                && #[trigger] kind_of(m, b[i]) == Ok::<LineKind, Seq<char>>(LineKind::Boundary)
                && #[trigger] kind_of(m, b[j]) == Ok::<LineKind, Seq<char>>(LineKind::Boundary) ==> i == j
        },
    decreases rev.len(),
{
    if rev.len() > 0 {
        lemma_block_shape(m, rev.drop_first());
        if kind_of(m, rev[0]) == Ok::<LineKind, Seq<char>>(LineKind::Detail) {
            if let Ok(rest) = extract_spec(m, rev.drop_first()) {
                let b = seq![rev[0]] + rest;
                assert forall|i: int| 0 < i < b.len() implies #[trigger] b[i] == rest[i - 1] by {}
            }
        }
    }
}

/// The scan ends at the first boundary line: whatever lies before it in the
/// file (after it in the scan) does not change the block.
pub proof fn lemma_stops_at_boundary(m: LineMatcher, prefix: Seq<Seq<char>>, suffix: Seq<Seq<char>>)
    requires
        prefix.len() > 0,
        kind_of(m, prefix.last()) == Ok::<LineKind, Seq<char>>(LineKind::Boundary),
    ensures
        extract_spec(m, prefix + suffix) == extract_spec(m, prefix),
    decreases prefix.len(),
{
    let all = prefix + suffix;
    assert(all[0] == prefix[0]);
    if prefix.len() > 1 {
        assert(all.drop_first() =~= prefix.drop_first() + suffix);
        assert(prefix.drop_first().last() == prefix.last());
        lemma_stops_at_boundary(m, prefix.drop_first(), suffix);
    }
}

} // verus!
