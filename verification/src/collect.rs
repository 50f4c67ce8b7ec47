//! Reading heredoc bodies from the shell's input stream after a line is
//! parsed: every `<<` of the list in source order (a `<<` inside a
//! subshell's parentheses before one written after its `)`).
//!
//! Each delimiter word is expanded by the caller as the shell expands any
//! word (command substitution, parameters, quotes, splitting into fields);
//! its first field is the delimiter. [`HeredocCollect`] decides from that
//! and from each input line what happens next.

use vstd::prelude::*;
use crate::ast::CommandList;
use crate::command::words;
use crate::expand::LexError;
use crate::heredoc::list_heredocs;
use crate::script::collect_list_heredocs;
use crate::text::{chars_of, clone_strings, push_str, strip_line_endings, string_push};

verus! {

/// Written when input ends inside a heredoc.
pub open spec fn eof_warning(delimiter: Seq<char>) -> Seq<char> {
    "nexus: warning: here-document delimited by end-of-file (wanted `"@ + delimiter + "`)\n"@
}

/// The text written for a failed expansion.
pub open spec fn lex_error_text(e: LexError) -> Seq<char> {
    match e {
        LexError::UnclosedQuote => "nexus: unclosed quote"@,
        LexError::CommandSubstitution => "nexus: command substitution failed"@,
    }
}

impl LexError {
    /// The message written for this error.
    pub fn message(&self) -> (m: &'static str)
        ensures
            m@ == lex_error_text(*self),
    {
        match self {
            LexError::UnclosedQuote => "nexus: unclosed quote",
            LexError::CommandSubstitution => "nexus: command substitution failed",
        }
    }
}

/// The views of a vector of strings.
pub open spec fn views(v: Seq<String>) -> Seq<Seq<char>> {
    v.map_values(|s: String| s@)
}

/// The first field of an expanded word, or the empty word when it
/// expanded to no field.
pub open spec fn first_field(fields: Seq<Seq<char>>) -> Seq<char> {
    if fields.len() > 0 { fields[0] } else { Seq::empty() }
}

/// What a collection waits for, or how it ended.
#[derive(PartialEq, Eq, Structural, Clone, Copy, Debug)]
pub enum CollectPhase {
    /// The delimiter word of the heredoc at hand is being expanded.
    Expand,
    /// Lines of the heredoc at hand are being read.
    Read,
    /// Every heredoc has its body.
    Finished,
    /// A delimiter word failed to expand.
    Failed,
}

/// What the caller does next.
#[derive(Debug)]
pub enum CollectAction {
    /// Expand `raw` as a shell word (with command substitution and
    /// splitting into fields); report [`CollectEvent::Expanded`].
    Expand { raw: String },
    /// Read one input line; report [`CollectEvent::Line`].
    ReadLine,
    /// Collection is over: one body per `<<` in source order, or status 1
    /// after a delimiter failed to expand.
    Done(Result<Vec<String>, u8>),
}

/// What the last action gave.
#[derive(Debug)]
pub enum CollectEvent {
    /// The fields of the expanded delimiter word, or why it failed.
    Expanded(Result<Vec<String>, LexError>),
    /// The next input line (with its line ending), or `None` at end of
    /// input.
    Line(Option<String>),
}

/// The model of a collection: the raw delimiter words, the heredoc at
/// hand, the bodies so far, the delimiter and body of the heredoc at hand,
/// and the phase.
pub struct CollectView {
    pub raws: Seq<Seq<char>>,
    pub index: int,
    pub bodies: Seq<Seq<char>>,
    pub delimiter: Seq<char>,
    pub body: Seq<char>,
    pub phase: CollectPhase,
}

/// The model of an action.
pub enum CollectActionView {
    Expand { raw: Seq<char> },
    ReadLine,
    Done(Result<Seq<Seq<char>>, u8>),
}

/// Collecting the heredoc bodies of a command line.
pub struct HeredocCollect {
    raws: Vec<String>,
    index: usize,
    bodies: Vec<String>,
    delimiter: String,
    body: String,
    phase: CollectPhase,
}

impl View for HeredocCollect {
    type V = CollectView;

    closed spec fn view(&self) -> CollectView {
        CollectView {
            raws: views(self.raws@),
            index: self.index as int,
            bodies: views(self.bodies@),
            delimiter: self.delimiter@,
            body: self.body@,
            phase: self.phase,
        }
    }
}

impl View for CollectAction {
    type V = CollectActionView;

    open spec fn view(&self) -> CollectActionView {
        match self {
            CollectAction::Expand { raw } => CollectActionView::Expand { raw: raw@ },
            CollectAction::ReadLine => CollectActionView::ReadLine,
            CollectAction::Done(Ok(b)) => CollectActionView::Done(Ok(views(b@))),
            CollectAction::Done(Err(c)) => CollectActionView::Done(Err(*c)),
        }
    }
}

/// Going on with heredoc `i`, the bodies so far being `bodies`: past the
/// last heredoc collection is finished; otherwise its delimiter word is
/// expanded.
pub open spec fn enter(v: CollectView, i: int, bodies: Seq<Seq<char>>) -> (CollectView, CollectActionView) {
    if i >= v.raws.len() {
        (CollectView { index: i, bodies, delimiter: Seq::empty(), body: Seq::empty(), phase: CollectPhase::Finished, ..v },
            CollectActionView::Done(Ok(bodies)))
    } else {
        (CollectView { index: i, bodies, delimiter: Seq::empty(), body: Seq::empty(), phase: CollectPhase::Expand, ..v },
            CollectActionView::Expand { raw: v.raws[i] })
    }
}

/// The action a collection waits on (issued again for an event that does
/// not answer it).
pub open spec fn pending_collect_action(v: CollectView) -> CollectActionView {
    match v.phase {
        CollectPhase::Expand => CollectActionView::Expand { raw: v.raws[v.index] },
        CollectPhase::Read => CollectActionView::ReadLine,
        CollectPhase::Finished => CollectActionView::Done(Ok(v.bodies)),
        CollectPhase::Failed => CollectActionView::Done(Err(1)),
    }
}

/// One decision of a collection, with what it writes to the error stream
/// (appended to `err`):
/// - the first field of the expanded delimiter word becomes the
///   delimiter, and lines are read;
/// - a delimiter word that fails to expand ends collection with status 1
///   and the error's message, no line being read for it or later ones;
/// - a line whose text without its line ending is the delimiter ends the
///   body (the line itself is not part of it); any other line is added;
/// - end of input ends the body as it is, with a warning naming the
///   delimiter; the following heredocs go on the same way (each gets an
///   empty body and its own warning while input stays at its end).
pub open spec fn collect_next(v: CollectView, e: CollectEvent, err: Seq<char>) -> (CollectView, CollectActionView, Seq<char>) {
    match (v.phase, e) {
        (CollectPhase::Expand, CollectEvent::Expanded(Ok(fields))) => (
            CollectView { delimiter: first_field(views(fields@)), body: Seq::empty(), phase: CollectPhase::Read, ..v },
            CollectActionView::ReadLine,
            err,
        ),
        (CollectPhase::Expand, CollectEvent::Expanded(Err(x))) => (
            CollectView { phase: CollectPhase::Failed, ..v },
            CollectActionView::Done(Err(1)),
            err + lex_error_text(x) + seq!['\n'],
        ),
        (CollectPhase::Read, CollectEvent::Line(Some(line))) => if strip_line_endings(line@) == v.delimiter {
            let r = enter(v, v.index + 1, v.bodies.push(v.body));
            (r.0, r.1, err)
        } else {
            (CollectView { body: v.body + line@, ..v }, CollectActionView::ReadLine, err)
        },
        (CollectPhase::Read, CollectEvent::Line(None)) => {
            let r = enter(v, v.index + 1, v.bodies.push(v.body));
            (r.0, r.1, err + eof_warning(v.delimiter))
        },
        _ => (v, pending_collect_action(v), err),
    }
}

fn line_is_delimiter(line: &String, wanted: &Vec<char>) -> (b: bool)
    ensures
        b == (strip_line_endings(line@) == wanted@),
{
    let cs = chars_of(line.as_str());
    let mut end: usize = cs.len();
    assert(cs@.take(end as int) =~= cs@);
    while end > 0 && (cs[end - 1] == '\n' || cs[end - 1] == '\r')
        invariant
            end <= cs@.len(),
            strip_line_endings(cs@) == strip_line_endings(cs@.take(end as int)),
        decreases end,
    {
        assert(cs@.take(end as int).drop_last() =~= cs@.take(end - 1));
        end -= 1;
    }
    let ghost kept = cs@.take(end as int);
    assert(strip_line_endings(kept) == kept);
    assert(strip_line_endings(line@) == kept);
    if end != wanted.len() {
        return false;
    }
    let mut i: usize = 0;
    while i < end
        invariant
            end == wanted@.len(),
            end <= cs@.len(),
            kept == cs@.take(end as int),
            strip_line_endings(line@) == kept,
            i <= end,
            forall|k: int| 0 <= k < i ==> cs@[k] == wanted@[k],
        decreases end - i,
    {
        if cs[i] != wanted[i] {
            assert(kept[i as int] != wanted@[i as int]);
            return false;
        }
        i += 1;
    }
    assert(kept =~= wanted@);
    true
}

impl HeredocCollect {
    #[verifier::type_invariant]
    spec fn well_formed(self) -> bool {
        &&& self.bodies@.len() == self.index
        &&& self.index <= self.raws@.len()
        &&& (self.phase is Expand || self.phase is Read) ==> self.index < self.raws@.len()
        &&& self.phase is Finished ==> self.index == self.raws@.len()
    }

    /// The model of this collection.
    pub open spec fn spec_view(&self) -> CollectView {
        self@
    }

    fn resume(raws: Vec<String>, i: usize, bodies: Vec<String>) -> (r: (Self, CollectAction))
        requires
            bodies@.len() == i,
            i <= raws@.len(),
        ensures
            ({
                let v = CollectView { raws: views(raws@), index: 0, bodies: Seq::empty(), delimiter: Seq::empty(),
                    body: Seq::empty(), phase: CollectPhase::Failed };
                let e = enter(v, i as int, views(bodies@));
                r.0@ == e.0 && r.1@ == e.1
            }),
    {
        if i >= raws.len() {
            let out = clone_strings(&bodies);
            (HeredocCollect { raws, index: i, bodies, delimiter: String::new(), body: String::new(), phase: CollectPhase::Finished },
                CollectAction::Done(Ok(out)))
        } else {
            let raw = raws[i].clone();
            (HeredocCollect { raws, index: i, bodies, delimiter: String::new(), body: String::new(), phase: CollectPhase::Expand },
                CollectAction::Expand { raw })
        }
    }

    fn pending(&self) -> (a: CollectAction)
        ensures
            a@ == pending_collect_action(self@),
    {
        proof {
            use_type_invariant(self);
        }
        match self.phase {
            CollectPhase::Expand => CollectAction::Expand { raw: self.raws[self.index].clone() },
            CollectPhase::Read => CollectAction::ReadLine,
            CollectPhase::Finished => CollectAction::Done(Ok(clone_strings(&self.bodies))),
            CollectPhase::Failed => CollectAction::Done(Err(1)),
        }
    }

    /// Decides the next step from what the last action gave, writing any
    /// message to `err`. An event that does not answer the pending action
    /// changes nothing and that action is issued again. A finished
    /// collection hands out one body per `<<`.
    pub fn step(&mut self, event: CollectEvent, err: &mut String) -> (a: CollectAction)
        ensures
            ({
                let r = collect_next(old(self)@, event, old(err)@);
                &&& final(self)@ == r.0
                &&& a@ == r.1
                &&& final(err)@ == r.2
            }),
            a@ matches CollectActionView::Done(Ok(b)) ==> b.len() == old(self)@.raws.len(),
    {
        proof {
            use_type_invariant(&*self);
        }
        let mut cur = HeredocCollect { raws: Vec::new(), index: 0, bodies: Vec::new(), delimiter: String::new(),
            body: String::new(), phase: CollectPhase::Finished };
        std::mem::swap(self, &mut cur);
        proof {
            use_type_invariant(&cur);
        }
        let ghost v = cur@;
        let HeredocCollect { raws, index, mut bodies, delimiter, mut body, phase } = cur;
        let n = raws.len();
        assert(phase == CollectPhase::Read ==> index < n);
        match (phase, event) {
            (CollectPhase::Expand, CollectEvent::Expanded(Ok(fields))) => {
                let d = if fields.len() > 0 { fields[0].clone() } else { String::new() };
                *self = HeredocCollect { raws, index, bodies, delimiter: d, body: String::new(), phase: CollectPhase::Read };
                CollectAction::ReadLine
            },
            (CollectPhase::Expand, CollectEvent::Expanded(Err(x))) => {
                push_str(err, x.message());
                string_push(err, '\n');
                *self = HeredocCollect { raws, index, bodies, delimiter, body, phase: CollectPhase::Failed };
                CollectAction::Done(Err(1))
            },
            (CollectPhase::Read, CollectEvent::Line(Some(line))) => {
                let wanted = chars_of(delimiter.as_str());
                if line_is_delimiter(&line, &wanted) {
                    bodies.push(body);
                    proof {
                        assert(views(bodies@) =~= v.bodies.push(v.body));
                    }
                    let (next, a) = Self::resume(raws, index + 1, bodies);
                    *self = next;
                    a
                } else {
                    push_str(&mut body, line.as_str());
                    *self = HeredocCollect { raws, index, bodies, delimiter, body, phase: CollectPhase::Read };
                    CollectAction::ReadLine
                }
            },
            (CollectPhase::Read, CollectEvent::Line(None)) => {
                push_str(err, "nexus: warning: here-document delimited by end-of-file (wanted `");
                push_str(err, delimiter.as_str());
                push_str(err, "`)\n");
                proof {
                    assert(err@ =~= old(err)@ + eof_warning(v.delimiter));
                }
                bodies.push(body);
                proof {
                    assert(views(bodies@) =~= v.bodies.push(v.body));
                }
                let (next, a) = Self::resume(raws, index + 1, bodies);
                *self = next;
                a
            },
            (ph, _) => {
                *self = HeredocCollect { raws, index, bodies, delimiter, body, phase: ph };
                self.pending()
            },
        }
    }
}

/// Starts collecting the heredoc bodies of `list`: one per `<<` in source
/// order, the first delimiter word being expanded first (with no `<<`,
/// collection is finished at once with no bodies).
pub fn collect_heredoc_bodies(list: &CommandList) -> (r: (HeredocCollect, CollectAction))
    ensures
        ({
            let v = CollectView { raws: list_heredocs(*list), index: 0, bodies: Seq::empty(), delimiter: Seq::empty(),
                body: Seq::empty(), phase: CollectPhase::Failed };
            let e = enter(v, 0, Seq::empty());
            r.0@ == e.0 && r.1@ == e.1
        }),
{
    let mut raws: Vec<String> = Vec::new();
    collect_list_heredocs(list, &mut raws);
    assert(views(raws@) =~= list_heredocs(*list));
    let bodies: Vec<String> = Vec::new();
    assert(views(bodies@) =~= Seq::<Seq<char>>::empty());
    HeredocCollect::resume(raws, 0, bodies)
}

} // verus!
