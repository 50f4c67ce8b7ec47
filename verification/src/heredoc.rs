//! Heredoc (`<<`) bodies: reading them from the shell's input after a
//! line is parsed, and handing them out, left to right, as the commands
//! that own them run.

use vstd::prelude::*;
use crate::ast::{CommandList, Pipeline, PipelineCommand, Redirect, RedirectKind};
use crate::env::ShellEnvironment;
use crate::expand::{expand_word, expand_word_for_exec, LexError};
use crate::text::{chars_of, push_str, strip_line_endings};

verus! {

/// The raw delimiter words of the heredoc redirections among `rs`, in order.
pub open spec fn heredoc_words(rs: Seq<Redirect>) -> Seq<Seq<char>>
    decreases rs.len(),
{
    if rs.len() == 0 {
        Seq::empty()
    } else if rs.last().kind == RedirectKind::Heredoc {
        heredoc_words(rs.drop_last()).push(rs.last().path@)
    } else {
        heredoc_words(rs.drop_last())
    }
}

/// Heredoc delimiters of a stage in source order: for a subshell, those
/// inside its parentheses, then those written after the `)`.
pub open spec fn command_heredocs(c: PipelineCommand) -> Seq<Seq<char>>
    decreases c,
{
    match c {
        PipelineCommand::Simple(s) => heredoc_words(s.redirects@),
        PipelineCommand::Subshell { list, redirects } => list_heredocs(list) + heredoc_words(redirects@),
    }
}

/// Heredoc delimiters of a sequence of stages.
pub open spec fn commands_heredocs(cs: Seq<PipelineCommand>) -> Seq<Seq<char>>
    decreases cs,
{
    if cs.len() == 0 {
        Seq::empty()
    } else {
        commands_heredocs(cs.drop_last()) + command_heredocs(cs.last())
    }
}

/// Heredoc delimiters of a pipeline.
pub open spec fn pipeline_heredocs(p: Pipeline) -> Seq<Seq<char>>
    decreases p,
{
    commands_heredocs(p.commands@)
}

/// Heredoc delimiters of a sequence of pipelines.
pub open spec fn pipelines_heredocs(ps: Seq<Pipeline>) -> Seq<Seq<char>>
    decreases ps,
{
    if ps.len() == 0 {
        Seq::empty()
    } else {
        pipelines_heredocs(ps.drop_last()) + pipeline_heredocs(ps.last())
    }
}

/// Heredoc delimiters of a list, left to right and depth first.
pub open spec fn list_heredocs(l: CommandList) -> Seq<Seq<char>>
    decreases l,
{
    pipelines_heredocs(l.pipelines@)
}

/// Written when a heredoc has no collected body.
pub open spec fn missing_body_message() -> Seq<char> {
    "nexus: missing heredoc body\n"@
}

/// What one `take_next` does to bodies `b` at cursor `i`: the body (or
/// status 1), the bodies after, the cursor after, and the text written.
pub open spec fn take_outcome(b: Seq<Seq<char>>, i: nat) -> (Result<Seq<char>, u8>, Seq<Seq<char>>, nat, Seq<char>) {
    if i < b.len() {
        (Ok(b[i as int]), b.update(i as int, Seq::empty()), i + 1, Seq::empty())
    } else {
        (Err(1), b, i, missing_body_message())
    }
}

/// The bodies from the cursor on, once a group is entered whose list has
/// `inner` heredocs and whose own redirections have `own`: the group's own
/// bodies (collected after the list's) are moved in front of them, so
/// that opening the group's redirections, which happens before its list
/// runs, takes them.
pub open spec fn hoist_front<T>(r: Seq<T>, inner: int, own: int) -> Seq<T> {
    let a = if inner <= r.len() { inner } else { r.len() as int };
    let e = if a + own <= r.len() { a + own } else { r.len() as int };
    r.subrange(a, e) + r.take(a) + r.skip(e)
}

/// Cursor over pre-collected heredoc bodies (one per `<<`, left to right).
///
/// Each body is moved out when it is taken, so the payload is not copied.
pub struct HeredocState {
    bodies: Vec<String>,
    index: usize,
}

impl View for HeredocState {
    type V = (Seq<Seq<char>>, nat);

    closed spec fn view(&self) -> (Seq<Seq<char>>, nat) {
        (self.bodies@.map_values(|s: String| s@), self.index as nat)
    }
}

impl HeredocState {
    #[verifier::type_invariant]
    spec fn index_in_range(self) -> bool {
        self.index <= self.bodies@.len()
    }

    /// Bodies not yet handed out start at this index.
    pub closed spec fn spec_index(self) -> nat {
        self.index as nat
    }

    /// The bodies (those already taken are empty).
    pub closed spec fn spec_bodies(self) -> Seq<Seq<char>> {
        self.bodies@.map_values(|s: String| s@)
    }

    /// A cursor at the first of `bodies`.
    pub fn new(bodies: Vec<String>) -> (st: Self)
        ensures
            st.spec_bodies() == bodies@.map_values(|s: String| s@),
            st.spec_index() == 0,
    {
        HeredocState { bodies, index: 0 }
    }

    /// The index of the next body to hand out; never past the end.
    pub fn index(&self) -> (i: usize)
        ensures
            i == self.spec_index(),
            i <= self.spec_bodies().len(),
    {
        proof {
            use_type_invariant(self);
        }
        self.index
    }

    /// Hands out the next body; when none is left, writes
    /// `nexus: missing heredoc body` to `err` and returns `Err(1)`.
    pub fn take_next(&mut self, err: &mut String) -> (r: Result<String, u8>)
        ensures
            old(self).spec_index() < old(self).spec_bodies().len() ==> {
                &&& r is Ok
                &&& r->Ok_0@ == old(self).spec_bodies()[old(self).spec_index() as int]
                &&& final(self).spec_index() == old(self).spec_index() + 1
                &&& final(self).spec_bodies() == old(self).spec_bodies().update(old(self).spec_index() as int, Seq::empty())
                &&& final(err)@ == old(err)@
            },
            old(self).spec_index() >= old(self).spec_bodies().len() ==> {
                &&& r == Err::<String, u8>(1)
                &&& final(self).spec_index() == old(self).spec_index()
                &&& final(self).spec_bodies() == old(self).spec_bodies()
                &&& final(err)@ == old(err)@ + missing_body_message()
            },
            ({
                let o = take_outcome(old(self).spec_bodies(), old(self).spec_index());
                &&& match r {
                    Ok(body) => o.0 == Ok::<Seq<char>, u8>(body@),
                    Err(c) => o.0 == Err::<Seq<char>, u8>(c),
                }
                &&& final(self).spec_bodies() == o.1
                &&& final(self).spec_index() == o.2
                &&& final(err)@ == old(err)@ + o.3
            }),
    {
        proof {
            use_type_invariant(&*self);
        }
        if self.index >= self.bodies.len() {
            push_str(err, "nexus: missing heredoc body\n");
            return Err(1);
        }
        let mut current = HeredocState { bodies: Vec::new(), index: 0 };
        std::mem::swap(self, &mut current);
        let HeredocState { mut bodies, index: i } = current;
        let mut body = String::new();
        bodies.set_and_swap(i, &mut body);
        *self = HeredocState { bodies, index: i + 1 };
        proof {
            assert(self.spec_bodies() =~= old(self).spec_bodies().update(i as int, Seq::empty()));
        }
        Ok(body)
    }

    /// Entering a `( list ) redirects` group: moves the bodies of the
    /// group's own heredocs in front of those of its list (they were
    /// collected after them, in source order), so that each `<<` receives
    /// the body collected for it although the group's redirections are
    /// opened first.
    pub fn enter_group(&mut self, list: &CommandList, redirects: &Vec<Redirect>)
        ensures
            final(self).spec_index() == old(self).spec_index(),
            final(self).spec_bodies().take(old(self).spec_index() as int) == old(self).spec_bodies().take(old(self).spec_index() as int),
            final(self).spec_bodies().skip(old(self).spec_index() as int) == hoist_front(
                old(self).spec_bodies().skip(old(self).spec_index() as int),
                list_heredocs(*list).len() as int,
                heredoc_words(redirects@).len() as int,
            ),
    {
        proof {
            use_type_invariant(&*self);
        }
        let i = self.index;
        let ghost b = self.spec_bodies();
        self.discard_list(list);
        let a = self.index;
        self.discard_redirects(redirects);
        let e = self.index;
        proof {
            use_type_invariant(&*self);
        }
        let mut current = HeredocState { bodies: Vec::new(), index: 0 };
        std::mem::swap(self, &mut current);
        let bodies = current.bodies;
        let mut out: Vec<String> = Vec::new();
        push_range(&mut out, &bodies, 0, i);
        push_range(&mut out, &bodies, a, e);
        push_range(&mut out, &bodies, i, a);
        push_range(&mut out, &bodies, e, bodies.len());
        proof {
            let r = b.skip(i as int);
            let inner = list_heredocs(*list).len() as int;
            let own = heredoc_words(redirects@).len() as int;
            assert(a - i == if inner <= r.len() { inner } else { r.len() as int });
            assert(e - i == if (a - i) + own <= r.len() { (a - i) + own } else { r.len() as int });
            let ov = out@.map_values(|s: String| s@);
            assert(ov =~= b.take(i as int) + b.subrange(a as int, e as int) + b.subrange(i as int, a as int) + b.skip(e as int));
            assert(ov.take(i as int) =~= b.take(i as int));
            assert(ov.skip(i as int) =~= hoist_front(r, inner, own));
        }
        *self = HeredocState { bodies: out, index: i };
    }

    /// Advances past the bodies of a pipeline that is not run (same order
    /// as collection), stopping at the end.
    pub fn discard_pipeline(&mut self, pipeline: &Pipeline)
        ensures
            final(self).spec_bodies() == old(self).spec_bodies(),
            final(self).spec_index() == min_nat(old(self).spec_bodies().len(),
                old(self).spec_index() + pipeline_heredocs(*pipeline).len()),
        decreases pipeline,
    {
        proof {
            use_type_invariant(&*self);
        }
        let n = pipeline.commands.len();
        let mut i: usize = 0;
        while i < n
            invariant
                n == pipeline.commands@.len(),
                i <= n,
                self.spec_bodies() == old(self).spec_bodies(),
                old(self).spec_index() <= old(self).spec_bodies().len(),
                self.spec_index() == min_nat(old(self).spec_bodies().len(),
                    old(self).spec_index() + commands_heredocs(pipeline.commands@.take(i as int)).len()),
            decreases n - i,
        {
            self.discard_command(&pipeline.commands[i]);
            proof {
                let t = pipeline.commands@.take(i + 1);
                assert(t.drop_last() =~= pipeline.commands@.take(i as int));
            }
            i += 1;
        }
        assert(pipeline.commands@.take(n as int) =~= pipeline.commands@);
    }

    fn discard_command(&mut self, command: &PipelineCommand)
        ensures
            final(self).spec_bodies() == old(self).spec_bodies(),
            final(self).spec_index() == min_nat(old(self).spec_bodies().len(),
                old(self).spec_index() + command_heredocs(*command).len()),
        decreases command,
    {
        proof {
            use_type_invariant(&*self);
        }
        match command {
            PipelineCommand::Simple(simple) => self.discard_redirects(&simple.redirects),
            PipelineCommand::Subshell { list, redirects } => {
                self.discard_redirects(redirects);
                self.discard_list(list);
            },
        }
    }

    fn discard_list(&mut self, list: &CommandList)
        ensures
            final(self).spec_bodies() == old(self).spec_bodies(),
            final(self).spec_index() == min_nat(old(self).spec_bodies().len(),
                old(self).spec_index() + list_heredocs(*list).len()),
        decreases list,
    {
        proof {
            use_type_invariant(&*self);
        }
        let n = list.pipelines.len();
        let mut i: usize = 0;
        while i < n
            invariant
                n == list.pipelines@.len(),
                i <= n,
                self.spec_bodies() == old(self).spec_bodies(),
                old(self).spec_index() <= old(self).spec_bodies().len(),
                self.spec_index() == min_nat(old(self).spec_bodies().len(),
                    old(self).spec_index() + pipelines_heredocs(list.pipelines@.take(i as int)).len()),
            decreases n - i,
        {
            self.discard_pipeline(&list.pipelines[i]);
            proof {
                let t = list.pipelines@.take(i + 1);
                assert(t.drop_last() =~= list.pipelines@.take(i as int));
            }
            i += 1;
        }
        assert(list.pipelines@.take(n as int) =~= list.pipelines@);
    }

    fn discard_redirects(&mut self, redirects: &Vec<Redirect>)
        ensures
            final(self).spec_bodies() == old(self).spec_bodies(),
            final(self).spec_index() == min_nat(old(self).spec_bodies().len(),
                old(self).spec_index() + heredoc_words(redirects@).len()),
    {
        proof {
            use_type_invariant(&*self);
        }
        let n = redirects.len();
        let mut i: usize = 0;
        while i < n
            invariant
                n == redirects@.len(),
                i <= n,
                self.index <= self.bodies@.len(),
                self.spec_bodies() == old(self).spec_bodies(),
                old(self).spec_index() <= old(self).spec_bodies().len(),
                self.spec_index() == min_nat(old(self).spec_bodies().len(),
                    old(self).spec_index() + heredoc_words(redirects@.take(i as int)).len()),
            decreases n - i,
        {
            if redirects[i].kind == RedirectKind::Heredoc && self.index < self.bodies.len() {
                self.index += 1;
            }
            proof {
                let t = redirects@.take(i + 1);
                assert(t.drop_last() =~= redirects@.take(i as int));
            }
            i += 1;
        }
        assert(redirects@.take(n as int) =~= redirects@);
    }
}

/// Appends copies of `src[from..to]` to `out`.
fn push_range(out: &mut Vec<String>, src: &Vec<String>, from: usize, to: usize)
    requires
        from <= to <= src@.len(),
    ensures
        final(out)@.map_values(|s: String| s@) == old(out)@.map_values(|s: String| s@)
            + src@.map_values(|s: String| s@).subrange(from as int, to as int),
{
    let ghost start = out@.map_values(|s: String| s@);
    let ghost sv = src@.map_values(|s: String| s@);
    let mut k = from;
    while k < to
        invariant
            from <= k <= to <= src@.len(),
            sv == src@.map_values(|s: String| s@),
            out@.map_values(|s: String| s@) == start + sv.subrange(from as int, k as int),
        decreases to - k,
    {
        let ghost before = out@.map_values(|s: String| s@);
        out.push(src[k].clone());
        proof {
            assert(out@.map_values(|s: String| s@) =~= before.push(sv[k as int]));
            assert(sv.subrange(from as int, k + 1) =~= sv.subrange(from as int, k as int).push(sv[k as int]));
        }
        k += 1;
    }
}

/// The smaller of two naturals.
pub open spec fn min_nat(a: nat, b: nat) -> nat {
    if a <= b { a } else { b }
}

} // verus!
