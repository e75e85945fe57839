use vstd::prelude::*;
use vstd::string::StringExecFns;

use crate::extract::{extract_block, block_result_view, extract_spec, lines_view, ExtractedBlock};
use crate::matcher::{LineMatcher, PatternError, BOUNDARY_PATTERN};

verus! {

/// The settings of one watched log file.
#[derive(Clone, Debug)]
pub struct ChannelConfig {
    /// A label for the channel; it opens every alert.
    pub name: String,
    /// The log file that is watched.
    pub path: String,
    /// Where alerts are sent.
    pub endpoint: String,
    /// A link shown under the name in every alert, when there is one.
    pub display_url: Option<String>,
}

/// Why a channel cannot be built from its settings.
#[derive(Clone, Copy, Debug, PartialEq, Eq, Structural)]
pub enum ConfigError {
    /// The channel's name is empty.
    EmptyName,
}

/// Why an event yielded no block.
#[derive(Clone, Debug)]
pub enum ExtractionError {
    /// The file could not be opened or read as text.
    Unreadable { reason: String },
    /// A pattern of the rule set does not compile.
    Pattern(PatternError),
}

/// What a channel does about one change event once the file has been scanned.
#[derive(Clone, Debug)]
pub enum EventAction {
    /// Send `text` to `endpoint`, once.
    Deliver { endpoint: String, text: String },
    /// Send nothing; the error is reported and the channel waits for the next event.
    Skip { error: ExtractionError },
}

/// One watched file with its rules and its alert destination.
#[derive(Clone, Debug)]
pub struct Channel {
    config: ChannelConfig,
    matcher: LineMatcher,
}

/// `lines` joined with a newline between each two.
pub open spec fn join_lines(lines: Seq<Seq<char>>) -> Seq<char>
    decreases lines.len(),
{
    if lines.len() == 0 {
        Seq::empty()
    } else if lines.len() == 1 {
        lines[0]
    } else {
        join_lines(lines.drop_last()) + seq!['\n'] + lines.last()
    }
}

/// The first lines of an alert: the name, then the display link if any.
pub open spec fn header_lines(name: Seq<char>, display_url: Option<Seq<char>>) -> Seq<Seq<char>> {
    match display_url {
        Some(u) => seq![name, u],
        None => seq![name],
    }
}

/// The view of an optional string.
pub open spec fn opt_view(o: Option<String>) -> Option<Seq<char>> {
    match o {
        Some(s) => Some(s@),
        None => None,
    }
}

/// The alert text for `block`: the header lines, then the block's lines in
/// the order the scan collected them, newline-joined.
pub open spec fn render_spec(name: Seq<char>, display_url: Option<Seq<char>>, block: Seq<Seq<char>>) -> Seq<char> {
    join_lines(header_lines(name, display_url) + block)
}

/// Joining one more line adds a newline and that line.
proof fn lemma_join_push(lines: Seq<Seq<char>>, x: Seq<char>)
    requires
        lines.len() > 0,
    ensures
        join_lines(lines.push(x)) == join_lines(lines) + seq!['\n'] + x,
{
    assert(lines.push(x).drop_last() =~= lines);
}

/// Appends a newline and `line` to `out`.
fn push_line(out: &mut String, line: &str)
    ensures
        final(out)@ == old(out)@ + seq!['\n'] + line@,
{
    proof {
        reveal_strlit("\n");
    }
    out.append("\n");
    out.append(line);
}

impl Channel {
    pub closed spec fn config_view(&self) -> ChannelConfig {
        self.config
    }

    pub closed spec fn matcher_view(&self) -> LineMatcher {
        self.matcher
    }

    /// A channel with the given settings and detail patterns (and the
    /// timestamp boundary pattern). The name must not be empty.
    pub fn new(config: ChannelConfig, detail_patterns: Vec<String>) -> (r: Result<Channel, ConfigError>)
        ensures
            config.name@.len() == 0 <==> r is Err,
            r matches Ok(c) ==> {
                &&& c.config_view() == config
                &&& c.matcher_view().boundary_view() == BOUNDARY_PATTERN@
                &&& c.matcher_view().details_view() == detail_patterns@.map_values(|p: String| p@)
            },
    {
        if config.name.as_str().is_empty() {
            return Err(ConfigError::EmptyName);
        }
        let matcher = LineMatcher::new(detail_patterns);
        Ok(Channel { config, matcher })
    }

    /// The channel's settings.
    pub fn config(&self) -> (c: &ChannelConfig)
        ensures
            *c == self.config_view(),
    {
        &self.config
    }

    /// The channel's line rules.
    pub fn matcher(&self) -> (m: &LineMatcher)
        ensures
            *m == self.matcher_view(),
    {
        &self.matcher
    }

    /// The watched file.
    pub fn path(&self) -> (p: &str)
        ensures
            p@ == self.config_view().path@,
    {
        self.config.path.as_str()
    }

    /// Scans the file's lines, given last line first, for the most recent
    /// error block under the channel's rules.
    pub fn extract(&self, rev_lines: &Vec<String>) -> (r: Result<ExtractedBlock, PatternError>)
        ensures
            block_result_view(r) == extract_spec(self.matcher_view(), lines_view(rev_lines@)),
    {
        extract_block(&self.matcher, rev_lines)
    }

    /// The alert text for `block`: the channel's name, its display link if it
    /// has one, then the block's lines as collected, one per line.
    pub fn render(&self, block: &ExtractedBlock) -> (s: String)
        ensures
            s@ == render_spec(self.config_view().name@, opt_view(self.config_view().display_url), block@),
    {
        let ghost head = header_lines(self.config.name@, opt_view(self.config.display_url));
        let ghost lines = block@;
        let mut out = self.config.name.clone();
        match &self.config.display_url {
            Some(u) => {
                push_line(&mut out, u.as_str());
                proof {
                    lemma_join_push(seq![self.config.name@], u@);
                    assert(seq![self.config.name@].push(u@) =~= head);
                }
            },
            None => {},
        }
        assert(head + lines.take(0) =~= head);
        let mut i: usize = 0;
        while i < block.lines.len()
            invariant
                i <= block.lines@.len(),
                lines == block@,
                head.len() > 0,
                out@ == join_lines(head + lines.take(i as int)),
            decreases block.lines@.len() - i,
        {
            push_line(&mut out, block.lines[i].as_str());
            proof {
                lemma_join_push(head + lines.take(i as int), lines[i as int]);
                assert((head + lines.take(i as int)).push(lines[i as int]) =~= head + lines.take(i + 1));
            }
            i = i + 1;
        }
        assert(lines.take(i as int) =~= lines);
        out
    }

    /// What to do once the file has been scanned: deliver the rendered block
    /// to the channel's endpoint, or, where the scan failed, send nothing.
    pub fn respond(&self, extraction: Result<ExtractedBlock, ExtractionError>) -> (a: EventAction)
        ensures
            match extraction {
                Ok(b) => a matches EventAction::Deliver { endpoint, text }
                    && endpoint@ == self.config_view().endpoint@
                    && text@ == render_spec(self.config_view().name@, opt_view(self.config_view().display_url), b@),
                Err(e) => a == EventAction::Skip { error: e },
            },
    {
        match extraction {
            Ok(b) => {
                let text = self.render(&b);
                EventAction::Deliver { endpoint: self.config.endpoint.clone(), text }
            },
            Err(e) => EventAction::Skip { error: e },
        }
    }
}

} // verus!
