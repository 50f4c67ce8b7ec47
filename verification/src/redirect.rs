//! Opening the redirections of a command (`<`, `>`, `>>`, `<<`): which
//! target each one feeds, left to right, a later one on the same stream
//! overriding an earlier one.
//!
//! Heredoc bodies come from the pre-collected [`HeredocState`]. Expanding a
//! target word and opening a file are done by the caller;
//! [`RedirectRun`] decides what happens next from what those returned.

use vstd::prelude::*;
use crate::ast::{Redirect, RedirectKind};
use crate::heredoc::{missing_body_message, HeredocState};
use crate::expand::LexError;
use crate::collect::{first_field, lex_error_text, views};
use crate::text::{push_str, string_push};

verus! {

/// Where a command's standard input comes from.
#[derive(Debug)]
pub enum StdinTarget {
    /// A heredoc body, fed as bytes.
    Heredoc(String),
    /// The file opened for the redirection at this index.
    File(usize),
}

/// The streams a command's redirections set.
#[derive(Debug)]
pub struct RedirectTargets {
    pub stdin: Option<StdinTarget>,
    /// The index of the redirection whose file becomes standard output.
    pub stdout: Option<usize>,
}

/// What the caller does next.
#[derive(Debug)]
pub enum RedirectAction {
    /// Expand the target word `raw` of redirection `index`; report the
    /// path, or the status of a failure (after writing its message).
    Resolve { index: usize, raw: String },
    /// Open `path` for redirection `index`: `<` reads, `>` creates or
    /// truncates, `>>` creates or appends. Report whether it opened (on a
    /// failure, after writing `path: error`).
    Open { index: usize, kind: RedirectKind, path: String },
    /// All redirections are applied, or one failed with this status.
    Done(Result<RedirectTargets, u8>),
}

/// What the last step returned.
#[derive(Debug)]
pub enum RedirectEvent {
    Resolved(Result<String, u8>),
    Opened,
    OpenFailed,
}

/// The model of a standard-input target.
pub enum StdinView {
    Heredoc(Seq<char>),
    File(int),
}

/// What the run waits for.
#[derive(PartialEq, Eq, Structural, Clone, Copy, Debug)]
pub enum RedirectPhase {
    Resolve,
    Open,
    Done,
}

/// The model of a redirection run.
#[verifier::ext_equal]
pub struct RedirectView {
    pub kinds: Seq<RedirectKind>,
    pub raws: Seq<Seq<char>>,
    pub index: int,
    pub phase: RedirectPhase,
    pub path: Seq<char>,
    pub stdin: Option<StdinView>,
    pub stdout: Option<int>,
    pub failed: Option<u8>,
}

/// The model of an action.
#[verifier::ext_equal]
pub enum RedirectActionView {
    Resolve { index: int, raw: Seq<char> },
    Open { index: int, kind: RedirectKind, path: Seq<char> },
    Finished { stdin: Option<StdinView>, stdout: Option<int> },
    Failed(u8),
}

/// A command's redirections being applied.
pub struct RedirectRun {
    kinds: Vec<RedirectKind>,
    raws: Vec<String>,
    index: usize,
    phase: RedirectPhase,
    path: String,
    stdin: Option<StdinTarget>,
    stdout: Option<usize>,
    failed: Option<u8>,
}

pub open spec fn stdin_view(t: Option<StdinTarget>) -> Option<StdinView> {
    match t {
        Some(StdinTarget::Heredoc(b)) => Some(StdinView::Heredoc(b@)),
        Some(StdinTarget::File(i)) => Some(StdinView::File(i as int)),
        None => None,
    }
}

impl View for RedirectRun {
    type V = RedirectView;

    closed spec fn view(&self) -> RedirectView {
        RedirectView {
            kinds: self.kinds@,
            raws: self.raws@.map_values(|s: String| s@),
            index: self.index as int,
            phase: self.phase,
            path: self.path@,
            stdin: stdin_view(self.stdin),
            stdout: match self.stdout { Some(i) => Some(i as int), None => None },
            failed: self.failed,
        }
    }
}

impl View for RedirectAction {
    type V = RedirectActionView;

    open spec fn view(&self) -> RedirectActionView {
        match self {
            RedirectAction::Resolve { index, raw } => RedirectActionView::Resolve { index: *index as int, raw: raw@ },
            RedirectAction::Open { index, kind, path } => RedirectActionView::Open { index: *index as int, kind: *kind, path: path@ },
            RedirectAction::Done(Ok(t)) => RedirectActionView::Finished {
                stdin: stdin_view(t.stdin),
                stdout: match t.stdout { Some(i) => Some(i as int), None => None },
            },
            RedirectAction::Done(Err(c)) => RedirectActionView::Failed(*c),
        }
    }
}

/// The model of the heredoc cursor: bodies and next index.
pub type HeredocView = (Seq<Seq<char>>, nat);

/// Applying redirections from index `i` on: each heredoc takes the next
/// body (failing with status 1 when none is left) and becomes standard
/// input; the first file redirection stops the walk to be resolved. The
/// result is the run's model, the heredoc cursor, what is written to the
/// error stream, and the action.
pub open spec fn advance(v: RedirectView, i: int, hs: HeredocView, err: Seq<char>) -> (RedirectView, HeredocView, Seq<char>, RedirectActionView)
    decreases v.kinds.len() - i,
{
    let at = |phase: RedirectPhase, stdin: Option<StdinView>, failed: Option<u8>| RedirectView {
        kinds: v.kinds, raws: v.raws, index: i, phase, path: v.path, stdin, stdout: v.stdout, failed };
    if i < 0 || i >= v.kinds.len() {
        (at(RedirectPhase::Done, None, None), hs, err, RedirectActionView::Finished { stdin: v.stdin, stdout: v.stdout })
    } else if v.kinds[i] == RedirectKind::Heredoc {
        if hs.1 < hs.0.len() {
            let next = RedirectView { kinds: v.kinds, raws: v.raws, index: i, phase: RedirectPhase::Resolve, path: v.path,
                stdin: Some(StdinView::Heredoc(hs.0[hs.1 as int])), stdout: v.stdout, failed: v.failed };
            advance(next, i + 1, (hs.0.update(hs.1 as int, Seq::empty()), hs.1 + 1), err)
        } else {
            (at(RedirectPhase::Done, v.stdin, Some(1)), hs, err + missing_body_message(), RedirectActionView::Failed(1))
        }
    } else {
        (at(RedirectPhase::Resolve, v.stdin, None), hs, err, RedirectActionView::Resolve { index: i, raw: v.raws[i] })
    }
}

/// The action a run waits on (a finished run's standard-input target has
/// been handed out already).
pub open spec fn pending_redirect_action(v: RedirectView) -> RedirectActionView {
    match v.phase {
        RedirectPhase::Resolve => RedirectActionView::Resolve { index: v.index, raw: v.raws[v.index] },
        RedirectPhase::Open => RedirectActionView::Open { index: v.index, kind: v.kinds[v.index], path: v.path },
        RedirectPhase::Done => match v.failed {
            Some(c) => RedirectActionView::Failed(c),
            None => RedirectActionView::Finished { stdin: v.stdin, stdout: v.stdout },
        },
    }
}

/// One decision: after a target word was expanded, open it; after a file
/// opened, a `<` becomes standard input and `>` / `>>` standard output,
/// then the walk goes on; any failure ends the run with its status.
pub open spec fn redirect_next(v: RedirectView, hs: HeredocView, err: Seq<char>, e: RedirectEvent) -> (RedirectView, HeredocView, Seq<char>, RedirectActionView) {
    let fail = |c: u8| RedirectView { kinds: v.kinds, raws: v.raws, index: v.index, phase: RedirectPhase::Done, path: v.path,
        stdin: v.stdin, stdout: v.stdout, failed: Some(c) };
    match (v.phase, e) {
        (RedirectPhase::Resolve, RedirectEvent::Resolved(Ok(p))) => (
            RedirectView { kinds: v.kinds, raws: v.raws, index: v.index, phase: RedirectPhase::Open, path: p@,
                stdin: v.stdin, stdout: v.stdout, failed: v.failed },
            hs, err, RedirectActionView::Open { index: v.index, kind: v.kinds[v.index], path: p@ }),
        (RedirectPhase::Resolve, RedirectEvent::Resolved(Err(c))) => (fail(c), hs, err, RedirectActionView::Failed(c)),
        (RedirectPhase::Open, RedirectEvent::Opened) => {
            let assigned = if v.kinds[v.index] == RedirectKind::Read {
                RedirectView { kinds: v.kinds, raws: v.raws, index: v.index, phase: v.phase, path: v.path,
                    stdin: Some(StdinView::File(v.index)), stdout: v.stdout, failed: v.failed }
            } else {
                RedirectView { kinds: v.kinds, raws: v.raws, index: v.index, phase: v.phase, path: v.path,
                    stdin: v.stdin, stdout: Some(v.index), failed: v.failed }
            };
            advance(assigned, v.index + 1, hs, err)
        },
        (RedirectPhase::Open, RedirectEvent::OpenFailed) => (fail(1), hs, err, RedirectActionView::Failed(1)),
        _ => (v, hs, err, pending_redirect_action(v)),
    }
}

impl RedirectRun {
    #[verifier::type_invariant]
    spec fn well_formed(self) -> bool {
        &&& self.kinds@.len() == self.raws@.len()
        &&& self.index <= self.kinds@.len()
        &&& self.phase != RedirectPhase::Done ==> self.index < self.kinds@.len()
        &&& self.phase == RedirectPhase::Done && self.failed is None ==> self.stdin is None
    }

    /// The model of this run.
    pub open spec fn spec_view(&self) -> RedirectView {
        self@
    }

    fn targets(&mut self) -> (t: RedirectTargets)
        ensures
            stdin_view(t.stdin) == old(self)@.stdin,
            match t.stdout {
                Some(i) => old(self)@.stdout == Some(i as int),
                None => old(self)@.stdout is None,
            },
            final(self).stdin is None,
            final(self)@ == (RedirectView { kinds: old(self)@.kinds, raws: old(self)@.raws, index: old(self)@.index,
                phase: old(self)@.phase, path: old(self)@.path, stdin: None, stdout: old(self)@.stdout, failed: old(self)@.failed }),
    {
        proof {
            use_type_invariant(&*self);
        }
        let mut stdin: Option<StdinTarget> = None;
        std::mem::swap(&mut stdin, &mut self.stdin);
        RedirectTargets { stdin, stdout: self.stdout }
    }

    fn advance(&mut self, start: usize, heredocs: &mut HeredocState, err: &mut String) -> (a: RedirectAction)
        requires
            start <= old(self)@.kinds.len(),
        ensures
            ({
                let r = advance(old(self)@, start as int, (old(heredocs).spec_bodies(), old(heredocs).spec_index()), old(err)@);
                &&& final(self)@ == r.0
                &&& (final(heredocs).spec_bodies(), final(heredocs).spec_index()) == r.1
                &&& final(err)@ == r.2
                &&& a@ == r.3
            }),
    {
        proof {
            use_type_invariant(&*self);
        }
        let ghost goal = advance(self@, start as int, (heredocs.spec_bodies(), heredocs.spec_index()), err@);
        let mut i = start;
        loop
            invariant
                i <= self.kinds@.len(),
                advance(self@, i as int, (heredocs.spec_bodies(), heredocs.spec_index()), err@) == goal,
                goal == advance(old(self)@, start as int, (old(heredocs).spec_bodies(), old(heredocs).spec_index()), old(err)@),
            decreases self.kinds@.len() - i,
        {
            proof {
                use_type_invariant(&*self);
            }
            if i >= self.kinds.len() {
                let t = self.targets();
                proof {
                    use_type_invariant(&*self);
                }
                self.phase = RedirectPhase::Done;
                self.failed = None;
                self.index = i;
                return RedirectAction::Done(Ok(t));
            }
            if self.kinds[i] == RedirectKind::Heredoc {
                match heredocs.take_next(err) {
                    Ok(body) => {
                        self.index = i;
                        self.phase = RedirectPhase::Resolve;
                        self.stdin = Some(StdinTarget::Heredoc(body));
                        i = i + 1;
                    },
                    Err(code) => {
                        self.failed = Some(code);
                        self.phase = RedirectPhase::Done;
                        self.index = i;
                        return RedirectAction::Done(Err(code));
                    },
                }
            } else {
                self.index = i;
                self.phase = RedirectPhase::Resolve;
                self.failed = None;
                let raw = self.raws[i].clone();
                return RedirectAction::Resolve { index: i, raw };
            }
        }
    }

    fn pending(&self) -> (a: RedirectAction)
        ensures
            a@ == pending_redirect_action(self@),
    {
        proof {
            use_type_invariant(self);
        }
        match self.phase {
            RedirectPhase::Resolve => RedirectAction::Resolve { index: self.index, raw: self.raws[self.index].clone() },
            RedirectPhase::Open => RedirectAction::Open { index: self.index, kind: self.kinds[self.index], path: self.path.clone() },
            RedirectPhase::Done => match self.failed {
                Some(c) => RedirectAction::Done(Err(c)),
                None => RedirectAction::Done(Ok(RedirectTargets { stdin: None, stdout: self.stdout })),
            },
        }
    }

    /// Decides the next step from what the last one returned. An event that
    /// does not answer the pending action changes nothing and that action
    /// is issued again.
    pub fn step(&mut self, heredocs: &mut HeredocState, err: &mut String, event: RedirectEvent) -> (a: RedirectAction)
        ensures
            ({
                let r = redirect_next(old(self)@, (old(heredocs).spec_bodies(), old(heredocs).spec_index()), old(err)@, event);
                &&& final(self)@ == r.0
                &&& (final(heredocs).spec_bodies(), final(heredocs).spec_index()) == r.1
                &&& final(err)@ == r.2
                &&& a@ == r.3
            }),
    {
        proof {
            use_type_invariant(&*self);
        }
        match (self.phase, event) {
            (RedirectPhase::Resolve, RedirectEvent::Resolved(Ok(path))) => {
                self.path = path;
                self.phase = RedirectPhase::Open;
                RedirectAction::Open { index: self.index, kind: self.kinds[self.index], path: self.path.clone() }
            },
            (RedirectPhase::Resolve, RedirectEvent::Resolved(Err(c))) => {
                self.failed = Some(c);
                self.phase = RedirectPhase::Done;
                RedirectAction::Done(Err(c))
            },
            (RedirectPhase::Open, RedirectEvent::Opened) => {
                proof {
                    use_type_invariant(&*self);
                }
                let n = self.kinds.len();
                let i = self.index;
                let next = i + 1;
                if self.kinds[i] == RedirectKind::Read {
                    self.stdin = Some(StdinTarget::File(i));
                } else {
                    self.stdout = Some(i);
                }
                self.advance(next, heredocs, err)
            },
            (RedirectPhase::Open, RedirectEvent::OpenFailed) => {
                self.failed = Some(1);
                self.phase = RedirectPhase::Done;
                RedirectAction::Done(Err(1))
            },
            (_, _) => self.pending(),
        }
    }
}

/// Starts applying `redirects` left to right: heredocs take their bodies
/// from `heredocs` at once; the first file redirection is handed to the
/// caller to resolve.
pub fn open_redirect_files(redirects: &Vec<Redirect>, heredocs: &mut HeredocState, err: &mut String) -> (r: (RedirectRun, RedirectAction))
    ensures
        ({
            let v = RedirectView {
                kinds: redirects@.map_values(|x: Redirect| x.kind),
                raws: redirects@.map_values(|x: Redirect| x.path@),
                index: 0,
                phase: if redirects@.len() == 0 { RedirectPhase::Done } else { RedirectPhase::Resolve },
                path: Seq::empty(),
                stdin: None,
                stdout: None,
                failed: None,
            };
            let a = advance(v, 0, (old(heredocs).spec_bodies(), old(heredocs).spec_index()), old(err)@);
            &&& r.0@ == a.0
            &&& (final(heredocs).spec_bodies(), final(heredocs).spec_index()) == a.1
            &&& final(err)@ == a.2
            &&& r.1@ == a.3
        }),
{
    let mut kinds: Vec<RedirectKind> = Vec::new();
    let mut raws: Vec<String> = Vec::new();
    let mut i: usize = 0;
    while i < redirects.len()
        invariant
            i <= redirects@.len(),
            kinds@ == redirects@.take(i as int).map_values(|x: Redirect| x.kind),
            raws@.map_values(|s: String| s@) == redirects@.take(i as int).map_values(|x: Redirect| x.path@),
        decreases redirects.len() - i,
    {
        let ghost before = raws@.map_values(|s: String| s@);
        kinds.push(redirects[i].kind);
        raws.push(redirects[i].path.clone());
        proof {
            assert(raws@.map_values(|s: String| s@) =~= before.push(redirects@[i as int].path@));
            assert(redirects@.take(i + 1) =~= redirects@.take(i as int).push(redirects@[i as int]));
            assert(kinds@ =~= redirects@.take(i + 1).map_values(|x: Redirect| x.kind));
            assert(raws@.map_values(|s: String| s@) =~= redirects@.take(i + 1).map_values(|x: Redirect| x.path@));
        }
        i += 1;
    }
    assert(redirects@.take(redirects@.len() as int) =~= redirects@);
    let phase = if redirects.len() == 0 { RedirectPhase::Done } else { RedirectPhase::Resolve };
    let mut run = RedirectRun { kinds, raws, index: 0, phase, path: String::new(), stdin: None, stdout: None, failed: None };
    let a = run.advance(0, heredocs, err);
    (run, a)
}

/// The text written when a redirection target matches several paths.
pub open spec fn ambiguous_text(word: Seq<char>) -> Seq<char> {
    word + ": Ambiguous redirect.\n"@
}

/// The target word of a file redirection from what expanding its raw
/// word gave (the shell's full word expansion: command substitution,
/// parameters, quotes, splitting into fields): its first field, or the
/// empty word when there is none. When expansion failed, writes the
/// error's message and a newline and returns `Err(1)`. The word still has
/// to go through globbing ([`glob_redirect_target`]).
pub fn resolve_redirect_path(expanded: Result<Vec<String>, LexError>, err: &mut String) -> (r: Result<String, u8>)
    ensures
        match expanded {
            Ok(fields) => r is Ok && r->Ok_0@ == first_field(views(fields@)) && final(err)@ == old(err)@,
            Err(e) => r == Err::<String, u8>(1) && final(err)@ == old(err)@ + lex_error_text(e) + seq!['\n'],
        },
{
    match expanded {
        Ok(fields) => {
            if fields.len() > 0 {
                Ok(fields[0].clone())
            } else {
                Ok(String::new())
            }
        },
        Err(e) => {
            push_str(err, e.message());
            string_push(err, '\n');
            Err(1)
        },
    }
}

/// Finishes a redirection target from what globbing the expanded `word`
/// gave: the single path it names, or `None` where the pattern matched
/// several paths, in which case `word: Ambiguous redirect.` is written and
/// the status is 1.
pub fn glob_redirect_target(word: String, globbed: Option<String>, err: &mut String) -> (r: Result<String, u8>)
    ensures
        match globbed {
            Some(p) => r == Ok::<String, u8>(p) && final(err)@ == old(err)@,
            None => r == Err::<String, u8>(1) && final(err)@ == old(err)@ + ambiguous_text(word@),
        },
{
    match globbed {
        Some(p) => Ok(p),
        None => {
            push_str(err, word.as_str());
            push_str(err, ": Ambiguous redirect.\n");
            proof {
                reveal_strlit(": Ambiguous redirect.\n");
            }
            Err(1)
        },
    }
}

} // verus!
