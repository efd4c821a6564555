//! A model of what the graphics context holds on behalf of its user, and of a
//! machine played against a context: enough to say which objects exist once a
//! machine is finished, and whether it ever named one that did not.
use crate::protocol::{ReplyView, RequestView, StepView};
use vstd::prelude::*;

verus! {

/// The objects that the user of a context has created and not deleted, and the
/// program that the context runs.
pub struct Ledger {
    /// The handles of the shader objects.
    pub shaders: Set<u32>,
    /// The handles of the program objects, each with the shaders attached to it.
    pub programs: Map<u32, Set<u32>>,
    /// The program that draw calls run; zero while there is none.
    pub current: u32,
    /// The current program has been deleted by its user. A context does not
    /// free a program while it is current: the object lingers until another
    /// program, or none, is made current.
    pub lingering: bool,
}

impl Ledger {
    /// A context with these objects may hand out `handle` for a new shader:
    /// it is not the null handle, and no shader has it.
    pub open spec fn fresh_shader(self, handle: u32) -> bool {
        handle != 0 && !self.shaders.contains(handle)
    }

    /// A context with these objects may hand out `handle` for a new program:
    /// it is not the null handle, no program has it, and it is not that of the
    /// current program, which may linger.
    pub open spec fn fresh_program(self, handle: u32) -> bool {
        handle != 0 && !self.programs.dom().contains(handle) && handle != self.current
    }

    /// The context holds a program object with this handle: one that its user
    /// has not deleted, or the current one that lingers.
    pub open spec fn holds_program(self, handle: u32) -> bool {
        self.programs.dom().contains(handle) || (self.lingering && handle == self.current)
    }

    /// The current program, where there is one, is an object that the context
    /// holds.
    pub open spec fn current_is_held(self) -> bool {
        self.current == 0 || self.holds_program(self.current)
    }

    /// A context that holds these objects, and that does not fail to allocate,
    /// may give `reply` to `request`: the reply is of the kind that the request
    /// calls for, and the handle of a new object is a fresh one. The loader may
    /// give the source or fail.
    pub open spec fn may_answer(self, request: RequestView, reply: ReplyView) -> bool {
        match request {
            RequestView::LoadSource { .. } => reply is Source || reply is LoadFailed,
            RequestView::CreateShader { .. } => {
                reply matches ReplyView::Handle(handle) && self.fresh_shader(handle)
            },
            RequestView::CreateProgram => {
                reply matches ReplyView::Handle(handle) && self.fresh_program(handle)
            },
            RequestView::GetCompileStatus { .. }
            | RequestView::GetShaderLogLength { .. }
            | RequestView::GetLinkStatus { .. }
            | RequestView::GetProgramLogLength { .. } => reply is Value,
            RequestView::GetShaderLog { .. } | RequestView::GetProgramLog { .. } => reply is Log,
            RequestView::ShaderSource { .. }
            | RequestView::CompileShader { .. }
            | RequestView::DeleteShader { .. }
            | RequestView::AttachShader { .. }
            | RequestView::LinkProgram { .. }
            | RequestView::DetachShader { .. }
            | RequestView::DeleteProgram { .. }
            | RequestView::UseProgram { .. } => reply is Done,
        }
    }

    /// The request names only what exists: every handle in it is that of an
    /// object of its kind, a shader to attach is not yet attached, and a shader
    /// to detach is. Deleting and using accept the null handle, which names
    /// nothing.
    pub open spec fn admits(self, request: RequestView) -> bool {
        match request {
            RequestView::LoadSource { .. }
            | RequestView::CreateShader { .. }
            | RequestView::CreateProgram => true,
            RequestView::ShaderSource { shader, .. }
            | RequestView::CompileShader { shader }
            | RequestView::GetCompileStatus { shader }
            | RequestView::GetShaderLogLength { shader }
            | RequestView::GetShaderLog { shader, .. } => self.shaders.contains(shader),
            RequestView::DeleteShader { shader } => shader == 0 || self.shaders.contains(shader),
            RequestView::AttachShader { program, shader } => {
                &&& self.programs.dom().contains(program)
                &&& self.shaders.contains(shader)
                &&& !self.programs[program].contains(shader)
            },
            RequestView::DetachShader { program, shader } => {
                &&& self.programs.dom().contains(program)
                &&& self.programs[program].contains(shader)
            },
            RequestView::LinkProgram { program }
            | RequestView::GetLinkStatus { program }
            | RequestView::GetProgramLogLength { program }
            | RequestView::GetProgramLog { program, .. } => self.programs.dom().contains(program),
            RequestView::DeleteProgram { program } | RequestView::UseProgram { program } => {
                program == 0 || self.programs.dom().contains(program)
            },
        }
    }

    /// The objects that exist once `request` has been performed and answered
    /// with `reply`. A request that is not admitted changes nothing. A program
    /// that is deleted while it is current lingers; making a program current
    /// frees the one that lingered.
    pub open spec fn apply(self, request: RequestView, reply: ReplyView) -> Ledger {
        if !self.admits(request) {
            self
        } else {
            match (request, reply) {
                (RequestView::CreateShader { .. }, ReplyView::Handle(handle)) if handle != 0 => {
                    Ledger { shaders: self.shaders.insert(handle), ..self }
                },
                (RequestView::DeleteShader { shader }, _) => Ledger {
                    shaders: self.shaders.remove(shader),
                    ..self
                },
                (RequestView::CreateProgram, ReplyView::Handle(handle)) if handle != 0 => {
                    Ledger { programs: self.programs.insert(handle, Set::empty()), ..self }
                },
                (RequestView::AttachShader { program, shader }, _) => Ledger {
                    programs: self.programs.insert(program, self.programs[program].insert(shader)),
                    ..self
                },
                (RequestView::DetachShader { program, shader }, _) => Ledger {
                    programs: self.programs.insert(program, self.programs[program].remove(shader)),
                    ..self
                },
                (RequestView::DeleteProgram { program }, _) => Ledger {
                    programs: self.programs.remove(program),
                    lingering: self.lingering || (program == self.current
                        && self.programs.dom().contains(program)),
                    ..self
                },
                (RequestView::UseProgram { program }, _) => Ledger {
                    current: program,
                    lingering: false,
                    ..self
                },
                _ => self,
            }
        }
    }
}

/// What playing a machine against a context has come to.
pub struct Run<M, T, E> {
    /// The requests that were performed, in their order.
    pub asked: Seq<RequestView>,
    /// The objects that exist now.
    pub ledger: Ledger,
    /// Every request was admitted by the ledger of its moment.
    pub clean: bool,
    /// Every reply was one that a context with the ledger of its moment may
    /// give.
    pub honest: bool,
    /// Where the machine stands.
    pub end: StepView<M, T, E>,
}

/// Plays a machine that stands at `from`, against a context that holds
/// `ledger`, with the replies `replies[at..]`: each request is performed, the
/// next reply answers it, and the machine is resumed with that reply, until the
/// machine no longer asks or the replies have run out.
pub open spec fn play_from<M, T, E>(
    resume: spec_fn(M, ReplyView) -> StepView<M, T, E>,
    from: StepView<M, T, E>,
    replies: Seq<ReplyView>,
    at: nat,
    ledger: Ledger,
) -> Run<M, T, E>
    decreases replies.len() - at,
{
    match from {
        StepView::Ask(machine, request) => {
            if at < replies.len() {
                let reply = replies[at as int];
                let rest = play_from(
                    resume,
                    resume(machine, reply),
                    replies,
                    at + 1,
                    ledger.apply(request, reply),
                );
                Run {
                    asked: seq![request] + rest.asked,
                    ledger: rest.ledger,
                    clean: ledger.admits(request) && rest.clean,
                    honest: ledger.may_answer(request, reply) && rest.honest,
                    end: rest.end,
                }
            } else {
                Run { asked: Seq::empty(), ledger, clean: true, honest: true, end: from }
            }
        },
        _ => Run { asked: Seq::empty(), ledger, clean: true, honest: true, end: from },
    }
}

/// Plays a machine from its first step against all of `replies`.
pub open spec fn play<M, T, E>(
    resume: spec_fn(M, ReplyView) -> StepView<M, T, E>,
    first: StepView<M, T, E>,
    replies: Seq<ReplyView>,
    ledger: Ledger,
) -> Run<M, T, E> {
    play_from(resume, first, replies, 0, ledger)
}

/// Replies that were answered before the play began do not matter to it: a
/// play that starts behind them goes as the play of the rest does.
pub proof fn lemma_play_skips<M, T, E>(
    resume: spec_fn(M, ReplyView) -> StepView<M, T, E>,
    from: StepView<M, T, E>,
    skipped: Seq<ReplyView>,
    replies: Seq<ReplyView>,
    at: nat,
    ledger: Ledger,
)
    requires
        at <= replies.len(),
    ensures
        play_from(resume, from, skipped + replies, skipped.len() + at, ledger) == play_from(
            resume,
            from,
            replies,
            at,
            ledger,
        ),
    decreases replies.len() - at,
{
    match from {
        StepView::Ask(machine, request) => {
            if at < replies.len() {
                let reply = replies[at as int];
                assert((skipped + replies)[(skipped.len() + at) as int] == reply);
                lemma_play_skips(
                    resume,
                    resume(machine, reply),
                    skipped,
                    replies,
                    at + 1,
                    ledger.apply(request, reply),
                );
            }
        },
        _ => {},
    }
}

/// Playing against one run of replies and then, from where that ended, against
/// another is playing against the two in a row: the requests of the two plays
/// follow each other, the second play starts from the objects that the first
/// left, and the whole is clean where both are.
pub proof fn lemma_play_in_turn<M, T, E>(
    resume: spec_fn(M, ReplyView) -> StepView<M, T, E>,
    from: StepView<M, T, E>,
    head: Seq<ReplyView>,
    tail: Seq<ReplyView>,
    at: nat,
    ledger: Ledger,
)
    requires
        at <= head.len(),
    ensures
        ({
            let first = play_from(resume, from, head, at, ledger);
            let second = play(resume, first.end, tail, first.ledger);
            let whole = play_from(resume, from, head + tail, at, ledger);
            &&& whole.asked == first.asked + second.asked
            &&& whole.ledger == second.ledger
            &&& whole.clean == (first.clean && second.clean)
            &&& whole.honest == (first.honest && second.honest)
            &&& whole.end == second.end
        }),
    decreases head.len() - at,
{
    match from {
        StepView::Ask(machine, request) => {
            if at < head.len() {
                let reply = head[at as int];
                assert((head + tail)[at as int] == reply);
                let next = resume(machine, reply);
                let after = ledger.apply(request, reply);
                lemma_play_in_turn(resume, next, head, tail, at + 1, after);
                let first = play_from(resume, next, head, at + 1, after);
                let second = play(resume, first.end, tail, first.ledger);
                assert(seq![request] + (first.asked + second.asked) =~= (seq![request]
                    + first.asked) + second.asked);
            } else {
                lemma_play_skips(resume, from, head, tail, 0, ledger);
                let second = play(resume, from, tail, ledger);
                assert(Seq::<RequestView>::empty() + second.asked =~= second.asked);
            }
        },
        _ => {
            assert(Seq::<RequestView>::empty() + Seq::<RequestView>::empty() =~= Seq::<
                RequestView,
            >::empty());
        },
    }
}

/// Every step that a machine can take keeps `kept`: from any place where it
/// holds, a request that is answered as a context may answer it is one that the
/// context admits, and leads to a place where `kept` holds again.
pub open spec fn stepwise<M, T, E>(
    resume: spec_fn(M, ReplyView) -> StepView<M, T, E>,
    kept: spec_fn(StepView<M, T, E>, Ledger) -> bool,
) -> bool {
    forall|machine: M, request: RequestView, reply: ReplyView, now: Ledger|
        #![trigger kept(StepView::Ask(machine, request), now), now.may_answer(request, reply)]
        kept(StepView::Ask(machine, request), now) && now.may_answer(request, reply)
            ==> now.admits(request) && kept(resume(machine, reply), now.apply(request, reply))
}

/// What every step keeps, a whole play keeps: if `kept` holds where the play
/// begins and every reply is one that the context may give, then `kept` holds
/// where the play ends, and no request on the way named an object that did not
/// exist.
pub proof fn lemma_play_keeps<M, T, E>(
    resume: spec_fn(M, ReplyView) -> StepView<M, T, E>,
    kept: spec_fn(StepView<M, T, E>, Ledger) -> bool,
    from: StepView<M, T, E>,
    replies: Seq<ReplyView>,
    at: nat,
    ledger: Ledger,
)
    requires
        stepwise(resume, kept),
        kept(from, ledger),
    ensures
        ({
            let run = play_from(resume, from, replies, at, ledger);
            run.honest ==> run.clean && kept(run.end, run.ledger)
        }),
    decreases replies.len() - at,
{
    match from {
        StepView::Ask(machine, request) => {
            if at < replies.len() {
                let reply = replies[at as int];
                if ledger.may_answer(request, reply) {
                    lemma_play_keeps(
                        resume,
                        kept,
                        resume(machine, reply),
                        replies,
                        at + 1,
                        ledger.apply(request, reply),
                    );
                }
            }
        },
        _ => {},
    }
}

/// The current program is never a freed one: whatever is asked of a context
/// and whatever it answers, if the current program was an object that the
/// context held, it is one afterwards.
pub proof fn lemma_current_stays_held(ledger: Ledger, request: RequestView, reply: ReplyView)
    requires
        ledger.current_is_held(),
    ensures
        ledger.apply(request, reply).current_is_held(),
{
}

/// The current program is never a freed one at the end of a play either,
/// whatever the machine and whatever the replies.
pub proof fn lemma_play_keeps_current_held<M, T, E>(
    resume: spec_fn(M, ReplyView) -> StepView<M, T, E>,
    from: StepView<M, T, E>,
    replies: Seq<ReplyView>,
    at: nat,
    ledger: Ledger,
)
    requires
        ledger.current_is_held(),
    ensures
        play_from(resume, from, replies, at, ledger).ledger.current_is_held(),
    decreases replies.len() - at,
{
    match from {
        StepView::Ask(machine, request) => {
            if at < replies.len() {
                let reply = replies[at as int];
                lemma_current_stays_held(ledger, request, reply);
                lemma_play_keeps_current_held(
                    resume,
                    resume(machine, reply),
                    replies,
                    at + 1,
                    ledger.apply(request, reply),
                );
            }
        },
        _ => {},
    }
}

} // verus!
