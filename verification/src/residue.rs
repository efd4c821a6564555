//! Nothing is left behind. Whatever a loader and a context answer, and however
//! far a machine has come, the context holds what it held when the machine
//! began and, beside that, only what the machine is still working on or has
//! handed out; every request names objects that exist, and no reply is
//! refused. All that is asked of the context is that it answers each request
//! in kind and gives a fresh handle to each new object.
//!
//! Each machine has a relation that says what the context must hold at each
//! place where the machine can stand. Every step keeps the relation, so every
//! play does.
use crate::compile_runs::{compilation_run, shader_load_run};
use crate::error::ErrorView;
use crate::ledger::{lemma_play_keeps, Ledger};
use crate::link_runs::{linkage_run, units_before, units_from};
use crate::load_runs::program_load_run;
use crate::program::{
    Linkage, LinkageView, Program, ProgramLoad, ProgramLoadView, ProgramView,
};
use crate::protocol::{ReplyView, RequestView, ShaderKind, StepView};
use crate::shader::{
    Compilation, CompilationView, Shader, ShaderLoad, ShaderLoadView, ShaderView,
};
use vstd::prelude::*;

verus! {

/// The two ledgers hold the same.
pub open spec fn same(one: Ledger, other: Ledger) -> bool {
    &&& one.shaders =~= other.shaders
    &&& one.programs =~~= other.programs
    &&& one.current == other.current
    &&& one.lingering == other.lingering
}

/// `now` holds what `base` holds and one shader more, whose handle is `shader`.
pub open spec fn one_shader_more(base: Ledger, shader: u32, now: Ledger) -> bool {
    &&& base.fresh_shader(shader)
    &&& same(now, Ledger { shaders: base.shaders.insert(shader), ..base })
}

/// What the context holds while a compilation that began on `base` stands at
/// `step`: what `base` holds, and from the moment the shader object is created
/// until it is deleted or handed out, that object.
pub open spec fn compilation_holds(
    step: StepView<CompilationView, ShaderView, ErrorView>,
    base: Ledger,
    now: Ledger,
) -> bool {
    match step {
        StepView::Ask(state, request) => match (state, request) {
            (CompilationView::AwaitHandle { .. }, RequestView::CreateShader { .. }) => same(
                now,
                base,
            ),
            (
                CompilationView::AwaitSource { shader, .. },
                RequestView::ShaderSource { shader: named, .. },
            )
            | (
                CompilationView::AwaitCompile { shader, .. },
                RequestView::CompileShader { shader: named },
            )
            | (
                CompilationView::AwaitStatus { shader, .. },
                RequestView::GetCompileStatus { shader: named },
            )
            | (
                CompilationView::AwaitLogLength { shader, .. },
                RequestView::GetShaderLogLength { shader: named },
            )
            | (
                CompilationView::AwaitLog { shader, .. },
                RequestView::GetShaderLog { shader: named, .. },
            ) => named == shader && one_shader_more(base, shader, now),
            (CompilationView::AwaitRelease { .. }, RequestView::DeleteShader { shader }) => {
                one_shader_more(base, shader, now)
            },
            _ => false,
        },
        StepView::Done(Ok(shader)) => one_shader_more(base, shader.id, now),
        StepView::Done(Err(_)) => same(now, base),
        StepView::Refused(_) => false,
    }
}

proof fn lemma_compilation_step(
    state: CompilationView,
    request: RequestView,
    reply: ReplyView,
    base: Ledger,
    now: Ledger,
)
    requires
        compilation_holds(StepView::Ask(state, request), base, now),
        now.may_answer(request, reply),
    ensures
        now.admits(request),
        compilation_holds(
            Compilation::spec_resume(state, reply),
            base,
            now.apply(request, reply),
        ),
{
}

/// Whatever a context that answers in kind and gives fresh handles answers, and
/// however many of its answers arrive, a compilation leaves no shader behind
/// but the one it returns: where it has ended with an error the context holds
/// what it held before, where it has ended with a shader that shader is the one
/// object more. No request on the way named an object that did not exist, and
/// no reply was refused.
pub proof fn lemma_compilation_leaves_nothing(
    source: Seq<u8>,
    kind: ShaderKind,
    replies: Seq<ReplyView>,
    ledger: Ledger,
)
    ensures
        ({
            let run = compilation_run(Shader::spec_from_source(source, kind), replies, ledger);
            run.honest ==> {
                &&& run.clean
                &&& !(run.end is Refused)
                &&& run.end matches StepView::Done(Err(_)) ==> run.ledger == ledger
                &&& run.end matches StepView::Done(Ok(shader)) ==> {
                    &&& ledger.fresh_shader(shader.id)
                    &&& run.ledger == (Ledger {
                        shaders: ledger.shaders.insert(shader.id),
                        ..ledger
                    })
                }
            }
        }),
{
    let resume = |state: CompilationView, reply: ReplyView| Compilation::spec_resume(state, reply);
    let kept = |step: StepView<CompilationView, ShaderView, ErrorView>, now: Ledger|
        compilation_holds(step, ledger, now);
    assert forall|state: CompilationView, request: RequestView, reply: ReplyView, now: Ledger|
        #![trigger kept(StepView::Ask(state, request), now), now.may_answer(request, reply)]
        kept(StepView::Ask(state, request), now) && now.may_answer(
            request,
            reply,
        ) implies now.admits(request) && kept(
        resume(state, reply),
        now.apply(request, reply),
    ) by {
        lemma_compilation_step(state, request, reply, ledger, now);
    }
    lemma_play_keeps(resume, kept, Shader::spec_from_source(source, kind), replies, 0, ledger);
}

/// What the context holds while the load of a shader that began on `base`
/// stands at `step`: what `base` holds while the loader is asked, and then what
/// the compilation makes of it.
pub open spec fn shader_load_holds(
    step: StepView<ShaderLoadView, ShaderView, ErrorView>,
    base: Ledger,
    now: Ledger,
) -> bool {
    match step {
        StepView::Ask(state, request) => match (state, request) {
            (ShaderLoadView::AwaitBytes { .. }, RequestView::LoadSource { .. }) => same(now, base),
            (ShaderLoadView::Compiling { inner, .. }, _) => compilation_holds(
                StepView::Ask(inner, request),
                base,
                now,
            ),
            _ => false,
        },
        StepView::Done(Ok(shader)) => one_shader_more(base, shader.id, now),
        StepView::Done(Err(_)) => same(now, base),
        StepView::Refused(_) => false,
    }
}

proof fn lemma_shader_load_step(
    state: ShaderLoadView,
    request: RequestView,
    reply: ReplyView,
    base: Ledger,
    now: Ledger,
)
    requires
        shader_load_holds(StepView::Ask(state, request), base, now),
        now.may_answer(request, reply),
    ensures
        now.admits(request),
        shader_load_holds(ShaderLoad::spec_resume(state, reply), base, now.apply(request, reply)),
{
    match state {
        ShaderLoadView::Compiling { inner, .. } => {
            lemma_compilation_step(inner, request, reply, base, now);
        },
        _ => {},
    }
}

/// Whatever a loader and a context that answer in kind and give fresh handles
/// answer, and however many of their answers arrive, the load of a shader
/// leaves no shader behind but the one it returns. No request on the way named
/// an object that did not exist, and no reply was refused.
pub proof fn lemma_shader_load_leaves_nothing(
    name: Seq<char>,
    replies: Seq<ReplyView>,
    ledger: Ledger,
)
    ensures
        ({
            let run = shader_load_run(Shader::spec_from_res(name), replies, ledger);
            run.honest ==> {
                &&& run.clean
                &&& !(run.end is Refused)
                &&& run.end matches StepView::Done(Err(_)) ==> run.ledger == ledger
                &&& run.end matches StepView::Done(Ok(shader)) ==> {
                    &&& ledger.fresh_shader(shader.id)
                    &&& run.ledger == (Ledger {
                        shaders: ledger.shaders.insert(shader.id),
                        ..ledger
                    })
                }
            }
        }),
{
    let resume = |state: ShaderLoadView, reply: ReplyView| ShaderLoad::spec_resume(state, reply);
    let kept = |step: StepView<ShaderLoadView, ShaderView, ErrorView>, now: Ledger|
        shader_load_holds(step, ledger, now);
    assert forall|state: ShaderLoadView, request: RequestView, reply: ReplyView, now: Ledger|
        #![trigger kept(StepView::Ask(state, request), now), now.may_answer(request, reply)]
        kept(StepView::Ask(state, request), now) && now.may_answer(
            request,
            reply,
        ) implies now.admits(request) && kept(
        resume(state, reply),
        now.apply(request, reply),
    ) by {
        lemma_shader_load_step(state, request, reply, ledger, now);
    }
    lemma_play_keeps(resume, kept, Shader::spec_from_res(name), replies, 0, ledger);
}

/// The shaders in `units` are compiled shaders of a context that holds `base`,
/// each of them once.
pub open spec fn linkable(units: Seq<u32>, base: Ledger) -> bool {
    &&& units.no_duplicates()
    &&& forall|j: int| 0 <= j < units.len() ==> base.shaders.contains(units[j])
}

/// `now` holds what `base` holds and one program more, whose handle is
/// `program` and to which `attached` are attached.
pub open spec fn one_program_more(
    base: Ledger,
    program: u32,
    attached: Set<u32>,
    now: Ledger,
) -> bool {
    &&& base.fresh_program(program)
    &&& same(now, Ledger { programs: base.programs.insert(program, attached), ..base })
}

/// `now` holds what `base` holds and one program more, whose handle is
/// `program`, whatever is attached to it.
pub open spec fn one_program_to_delete(base: Ledger, program: u32, now: Ledger) -> bool {
    &&& base.fresh_program(program)
    &&& now.programs.dom().contains(program)
    &&& same(Ledger { programs: now.programs.remove(program), ..now }, base)
}

/// What the context holds while a link of `units` that began on `base` stands
/// at `step`: what `base` holds, and from the moment the program object is
/// created until it is deleted or handed out, that object, with the units that
/// have been attached and not yet detached.
pub open spec fn linkage_holds(
    step: StepView<LinkageView, ProgramView, Seq<char>>,
    units: Seq<u32>,
    base: Ledger,
    now: Ledger,
) -> bool {
    match step {
        StepView::Ask(state, request) => match (state, request) {
            (LinkageView::AwaitHandle { units: held }, RequestView::CreateProgram) => {
                held == units && same(now, base)
            },
            (
                LinkageView::Attaching { program, units: held, next },
                RequestView::AttachShader { program: named, shader },
            ) => {
                &&& held == units
                &&& named == program
                &&& 1 <= next <= units.len()
                &&& shader == units[next - 1]
                &&& one_program_more(base, program, units_before(units, (next - 1) as nat), now)
            },
            (
                LinkageView::AwaitLink { program, units: held },
                RequestView::LinkProgram { program: named },
            )
            | (
                LinkageView::AwaitStatus { program, units: held },
                RequestView::GetLinkStatus { program: named },
            ) => {
                &&& held == units
                &&& named == program
                &&& one_program_more(base, program, units_before(units, units.len()), now)
            },
            (
                LinkageView::Detaching { program, units: held, next },
                RequestView::DetachShader { program: named, shader },
            ) => {
                &&& held == units
                &&& named == program
                &&& 1 <= next <= units.len()
                &&& shader == units[next - 1]
                &&& one_program_more(base, program, units_from(units, (next - 1) as nat), now)
            },
            (
                LinkageView::AwaitLogLength { program },
                RequestView::GetProgramLogLength { program: named },
            )
            | (
                LinkageView::AwaitLog { program },
                RequestView::GetProgramLog { program: named, .. },
            ) => named == program && one_program_to_delete(base, program, now),
            (LinkageView::AwaitRelease { .. }, RequestView::DeleteProgram { program }) => {
                one_program_to_delete(base, program, now)
            },
            _ => false,
        },
        StepView::Done(Ok(program)) => one_program_more(base, program.id, Set::empty(), now),
        StepView::Done(Err(_)) => same(now, base),
        StepView::Refused(_) => false,
    }
}

proof fn lemma_linkage_step(
    state: LinkageView,
    request: RequestView,
    reply: ReplyView,
    units: Seq<u32>,
    base: Ledger,
    now: Ledger,
)
    requires
        linkable(units, base),
        linkage_holds(StepView::Ask(state, request), units, base, now),
        now.may_answer(request, reply),
    ensures
        now.admits(request),
        linkage_holds(Linkage::spec_resume(state, reply), units, base, now.apply(request, reply)),
{
    let count = units.len();
    assert(units_before(units, 0) =~= Set::empty());
    assert(units_from(units, count) =~= Set::empty());
    assert(units_from(units, 0) =~= units_before(units, count));
    match (state, request) {
        (LinkageView::Attaching { next, .. }, RequestView::AttachShader { shader, .. }) => {
            let before = units_before(units, (next - 1) as nat);
            assert(!before.contains(shader));
            assert(before.insert(shader) =~= units_before(units, next));
        },
        (LinkageView::Detaching { next, .. }, RequestView::DetachShader { shader, .. }) => {
            let after = units_from(units, (next - 1) as nat);
            assert(after.contains(shader));
            assert(after.remove(shader) =~= units_from(units, next));
        },
        _ => {},
    }
}

/// Whatever a context that answers in kind and gives fresh handles answers, and
/// however many of its answers arrive, a link of compiled shaders leaves no
/// program behind but the one it returns, leaves nothing attached to that one,
/// and leaves the shaders as they were. No request on the way named an object
/// that did not exist, and no reply was refused.
pub proof fn lemma_linkage_leaves_nothing(
    units: Seq<u32>,
    replies: Seq<ReplyView>,
    ledger: Ledger,
)
    requires
        linkable(units, ledger),
    ensures
        ({
            let run = linkage_run(Program::spec_from_shaders(units), replies, ledger);
            run.honest ==> {
                &&& run.clean
                &&& !(run.end is Refused)
                &&& run.end matches StepView::Done(Err(_)) ==> run.ledger == ledger
                &&& run.end matches StepView::Done(Ok(program)) ==> {
                    &&& ledger.fresh_program(program.id)
                    &&& run.ledger == (Ledger {
                        programs: ledger.programs.insert(program.id, Set::empty()),
                        ..ledger
                    })
                }
            }
        }),
{
    let resume = |state: LinkageView, reply: ReplyView| Linkage::spec_resume(state, reply);
    let kept = |step: StepView<LinkageView, ProgramView, Seq<char>>, now: Ledger|
        linkage_holds(step, units, ledger, now);
    assert forall|state: LinkageView, request: RequestView, reply: ReplyView, now: Ledger|
        #![trigger kept(StepView::Ask(state, request), now), now.may_answer(request, reply)]
        kept(StepView::Ask(state, request), now) && now.may_answer(
            request,
            reply,
        ) implies now.admits(request) && kept(
        resume(state, reply),
        now.apply(request, reply),
    ) by {
        lemma_linkage_step(state, request, reply, units, ledger, now);
    }
    lemma_play_keeps(resume, kept, Program::spec_from_shaders(units), replies, 0, ledger);
}

/// What `base` holds, and the shader `shader` beside it.
pub open spec fn plus_shader(base: Ledger, shader: u32) -> Ledger {
    Ledger { shaders: base.shaders.insert(shader), ..base }
}

/// What the context is to hold when a load that began on `base` has ended with
/// `outcome`: what `base` holds and, where there is a program, that program
/// with nothing attached to it.
pub open spec fn settled(base: Ledger, outcome: Result<ProgramView, ErrorView>) -> Ledger {
    match outcome {
        Ok(program) => Ledger {
            programs: base.programs.insert(program.id, Set::empty()),
            ..base
        },
        Err(_) => base,
    }
}

/// The program of `outcome`, where there is one, is new to `base`.
pub open spec fn new_to(base: Ledger, outcome: Result<ProgramView, ErrorView>) -> bool {
    outcome matches Ok(program) ==> base.fresh_program(program.id)
}

/// What the context holds while the load of a program that began on `base`
/// stands at `step`: what `base` holds, the shaders that the load has built and
/// not yet deleted, and what the machine that it is running has made so far.
pub open spec fn program_load_holds(
    step: StepView<ProgramLoadView, ProgramView, ErrorView>,
    base: Ledger,
    now: Ledger,
) -> bool {
    match step {
        StepView::Ask(state, request) => match state {
            ProgramLoadView::Vertex { inner, .. } => shader_load_holds(
                StepView::Ask(inner, request),
                base,
                now,
            ),
            ProgramLoadView::Fragment { vertex, inner, .. } => {
                &&& base.fresh_shader(vertex.id)
                &&& shader_load_holds(
                    StepView::Ask(inner, request),
                    plus_shader(base, vertex.id),
                    now,
                )
            },
            ProgramLoadView::Linking { vertex, fragment, link, .. } => {
                &&& base.fresh_shader(vertex.id)
                &&& base.fresh_shader(fragment.id)
                &&& vertex.id != fragment.id
                &&& linkage_holds(
                    StepView::Ask(link, request),
                    seq![vertex.id, fragment.id],
                    plus_shader(plus_shader(base, vertex.id), fragment.id),
                    now,
                )
            },
            ProgramLoadView::ReleasingVertex { fragment, outcome } => {
                &&& request matches RequestView::DeleteShader { shader }
                &&& base.fresh_shader(shader)
                &&& base.fresh_shader(fragment.id)
                &&& shader != fragment.id
                &&& new_to(base, outcome)
                &&& same(now, plus_shader(plus_shader(settled(base, outcome), shader), fragment.id))
            },
            ProgramLoadView::Finishing { outcome } => {
                &&& request matches RequestView::DeleteShader { shader }
                &&& base.fresh_shader(shader)
                &&& new_to(base, outcome)
                &&& same(now, plus_shader(settled(base, outcome), shader))
            },
        },
        StepView::Done(outcome) => new_to(base, outcome) && same(now, settled(base, outcome)),
        StepView::Refused(_) => false,
    }
}

proof fn lemma_program_load_step(
    state: ProgramLoadView,
    request: RequestView,
    reply: ReplyView,
    base: Ledger,
    now: Ledger,
)
    requires
        program_load_holds(StepView::Ask(state, request), base, now),
        now.may_answer(request, reply),
    ensures
        now.admits(request),
        program_load_holds(
            ProgramLoad::spec_resume(state, reply),
            base,
            now.apply(request, reply),
        ),
{
    match state {
        ProgramLoadView::Vertex { inner, .. } => {
            lemma_shader_load_step(inner, request, reply, base, now);
        },
        ProgramLoadView::Fragment { vertex, inner, .. } => {
            lemma_shader_load_step(inner, request, reply, plus_shader(base, vertex.id), now);
        },
        ProgramLoadView::Linking { vertex, fragment, link, .. } => {
            let units = seq![vertex.id, fragment.id];
            let built = plus_shader(plus_shader(base, vertex.id), fragment.id);
            assert(linkable(units, built));
            lemma_linkage_step(link, request, reply, units, built, now);
        },
        _ => {},
    }
}

/// Whatever a loader and a context that answer in kind and give fresh handles
/// answer, and however many of their answers arrive, the load of a program
/// leaves nothing behind but the program it returns: where it has ended with an
/// error, of whatever kind, the context holds what it held before; where it has
/// ended with a program, that program is the one object more, and nothing is
/// attached to it. Every shader that the load built on the way has been
/// deleted, no request named an object that did not exist, and no reply was
/// refused.
pub proof fn lemma_program_load_leaves_nothing(
    name: Seq<char>,
    replies: Seq<ReplyView>,
    ledger: Ledger,
)
    ensures
        ({
            let run = program_load_run(Program::spec_from_res(name), replies, ledger);
            run.honest ==> {
                &&& run.clean
                &&& !(run.end is Refused)
                &&& run.end matches StepView::Done(Err(_)) ==> run.ledger == ledger
                &&& run.end matches StepView::Done(Ok(program)) ==> {
                    &&& ledger.fresh_program(program.id)
                    &&& run.ledger == (Ledger {
                        programs: ledger.programs.insert(program.id, Set::empty()),
                        ..ledger
                    })
                }
            }
        }),
{
    let resume = |state: ProgramLoadView, reply: ReplyView|
        ProgramLoad::spec_resume(state, reply);
    let kept = |step: StepView<ProgramLoadView, ProgramView, ErrorView>, now: Ledger|
        program_load_holds(step, ledger, now);
    assert forall|state: ProgramLoadView, request: RequestView, reply: ReplyView, now: Ledger|
        #![trigger kept(StepView::Ask(state, request), now), now.may_answer(request, reply)]
        kept(StepView::Ask(state, request), now) && now.may_answer(
            request,
            reply,
        ) implies now.admits(request) && kept(
        resume(state, reply),
        now.apply(request, reply),
    ) by {
        lemma_program_load_step(state, request, reply, ledger, now);
    }
    lemma_play_keeps(resume, kept, Program::spec_from_res(name), replies, 0, ledger);
}

} // verus!
