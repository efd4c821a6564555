//! Whole loads of a program by name, played against a loader and a context:
//! what is asked, in which order, and what exists afterwards, on the path that
//! ends with a program and on the paths that do not.
//!
//! A load is long, so it is played in parts. Each part has its replies, its
//! requests and the place where it leaves the load; the theorems at the end put
//! the parts in a row.
use crate::error::ErrorView;
use crate::ledger::{lemma_play_in_turn, play, play_from, Ledger, Run};
use crate::program::{
    stage_name, LinkageView, Program, ProgramLoad, ProgramLoadView, ProgramView,
};
use crate::protocol::{ReplyView, RequestView, ShaderKind, StepView};
use crate::shader::{log_capacity, CompilationView, ShaderLoadView, ShaderView};
use crate::text::utf8_lossy;
use vstd::prelude::*;

verus! {

/// A load that stands at `from`, played against a loader and a context that
/// holds `ledger`, which answer with `replies`.
pub open spec fn program_load_run(
    from: StepView<ProgramLoadView, ProgramView, ErrorView>,
    replies: Seq<ReplyView>,
    ledger: Ledger,
) -> Run<ProgramLoadView, ProgramView, ErrorView> {
    play(
        |state: ProgramLoadView, reply: ReplyView| ProgramLoad::spec_resume(state, reply),
        from,
        replies,
        ledger,
    )
}

/// What is answered while one stage is loaded and compiled: the source, the
/// handle, nothing to the source and to the compilation, and the status.
pub open spec fn stage_replies(source: Seq<u8>, handle: u32, status: i32) -> Seq<ReplyView> {
    seq![
        ReplyView::Source(source),
        ReplyView::Handle(handle),
        ReplyView::Done,
        ReplyView::Done,
        ReplyView::Value(status),
    ]
}

/// The requests that load and compile the stage `kind` of the program called
/// `name`.
pub open spec fn stage_requests(
    name: Seq<char>,
    kind: ShaderKind,
    source: Seq<u8>,
    handle: u32,
) -> Seq<RequestView> {
    seq![
        RequestView::LoadSource { name: stage_name(name, kind) },
        RequestView::CreateShader { kind },
        RequestView::ShaderSource { shader: handle, source },
        RequestView::CompileShader { shader: handle },
        RequestView::GetCompileStatus { shader: handle },
    ]
}

/// What is answered while a log is read and the object it speaks of deleted:
/// the length of the log, the log, and nothing to the deletion.
pub open spec fn diagnosis_replies(reported: i32, log: Seq<u8>) -> Seq<ReplyView> {
    seq![ReplyView::Value(reported), ReplyView::Log(log), ReplyView::Done]
}

/// The requests that read the log of a rejected shader and delete the shader.
pub open spec fn shader_diagnosis(shader: u32, reported: i32) -> Seq<RequestView> {
    seq![
        RequestView::GetShaderLogLength { shader },
        RequestView::GetShaderLog { shader, len: log_capacity(reported) },
        RequestView::DeleteShader { shader },
    ]
}

/// The requests that read the log of a program that failed to link and delete
/// the program.
pub open spec fn program_diagnosis(program: u32, reported: i32) -> Seq<RequestView> {
    seq![
        RequestView::GetProgramLogLength { program },
        RequestView::GetProgramLog { program, len: log_capacity(reported) },
        RequestView::DeleteProgram { program },
    ]
}

/// What is answered while two stages are attached and linked: the handle,
/// nothing to the attachments and to the link, and the status.
pub open spec fn link_replies(handle: u32, status: i32) -> Seq<ReplyView> {
    seq![
        ReplyView::Handle(handle),
        ReplyView::Done,
        ReplyView::Done,
        ReplyView::Done,
        ReplyView::Value(status),
    ]
}

/// The requests that attach and link two stages.
pub open spec fn link_requests(vertex: u32, fragment: u32, handle: u32) -> Seq<RequestView> {
    seq![
        RequestView::CreateProgram,
        RequestView::AttachShader { program: handle, shader: vertex },
        RequestView::AttachShader { program: handle, shader: fragment },
        RequestView::LinkProgram { program: handle },
        RequestView::GetLinkStatus { program: handle },
    ]
}

/// The requests that detach two stages from a linked program.
pub open spec fn detach_requests(vertex: u32, fragment: u32, handle: u32) -> Seq<RequestView> {
    seq![
        RequestView::DetachShader { program: handle, shader: vertex },
        RequestView::DetachShader { program: handle, shader: fragment },
    ]
}

/// The requests that delete the two stages.
pub open spec fn release_requests(vertex: u32, fragment: u32) -> Seq<RequestView> {
    seq![
        RequestView::DeleteShader { shader: vertex },
        RequestView::DeleteShader { shader: fragment },
    ]
}

/// Nothing, answered twice.
pub open spec fn done_twice() -> Seq<ReplyView> {
    seq![ReplyView::Done, ReplyView::Done]
}

/// The vertex shader of a load.
pub open spec fn vertex_of(handle: u32) -> ShaderView {
    ShaderView { id: handle, kind: ShaderKind::Vertex }
}

/// The fragment shader of a load.
pub open spec fn fragment_of(handle: u32) -> ShaderView {
    ShaderView { id: handle, kind: ShaderKind::Fragment }
}

/// Where a load stands once its vertex stage is there.
pub open spec fn vertex_built(name: Seq<char>, vertex: u32) -> StepView<
    ProgramLoadView,
    ProgramView,
    ErrorView,
> {
    StepView::Ask(
        ProgramLoadView::Fragment {
            name,
            vertex: vertex_of(vertex),
            inner: ProgramLoad::spec_stage(name, ShaderKind::Fragment).0,
        },
        ProgramLoad::spec_stage(name, ShaderKind::Fragment).1,
    )
}

/// Where a load stands once both of its stages are there.
pub open spec fn stages_built(name: Seq<char>, vertex: u32, fragment: u32) -> StepView<
    ProgramLoadView,
    ProgramView,
    ErrorView,
> {
    StepView::Ask(
        ProgramLoadView::Linking {
            name,
            vertex: vertex_of(vertex),
            fragment: fragment_of(fragment),
            link: LinkageView::AwaitHandle { units: seq![vertex, fragment] },
        },
        RequestView::CreateProgram,
    )
}

/// Where a load stands once the context has rejected its vertex stage.
pub open spec fn vertex_rejected(name: Seq<char>, vertex: u32) -> StepView<
    ProgramLoadView,
    ProgramView,
    ErrorView,
> {
    StepView::Ask(
        ProgramLoadView::Vertex {
            name,
            inner: ShaderLoadView::Compiling {
                name: stage_name(name, ShaderKind::Vertex),
                inner: CompilationView::AwaitLogLength { kind: ShaderKind::Vertex, shader: vertex },
            },
        },
        RequestView::GetShaderLogLength { shader: vertex },
    )
}

/// Where a load stands once the context has rejected its fragment stage.
pub open spec fn fragment_rejected(name: Seq<char>, vertex: u32, fragment: u32) -> StepView<
    ProgramLoadView,
    ProgramView,
    ErrorView,
> {
    StepView::Ask(
        ProgramLoadView::Fragment {
            name,
            vertex: vertex_of(vertex),
            inner: ShaderLoadView::Compiling {
                name: stage_name(name, ShaderKind::Fragment),
                inner: CompilationView::AwaitLogLength {
                    kind: ShaderKind::Fragment,
                    shader: fragment,
                },
            },
        },
        RequestView::GetShaderLogLength { shader: fragment },
    )
}

/// Where a load stands once the context has reported that its link succeeded.
pub open spec fn link_succeeded(
    name: Seq<char>,
    vertex: u32,
    fragment: u32,
    handle: u32,
) -> StepView<ProgramLoadView, ProgramView, ErrorView> {
    StepView::Ask(
        ProgramLoadView::Linking {
            name,
            vertex: vertex_of(vertex),
            fragment: fragment_of(fragment),
            link: LinkageView::Detaching {
                program: handle,
                units: seq![vertex, fragment],
                next: 1,
            },
        },
        RequestView::DetachShader { program: handle, shader: vertex },
    )
}

/// Where a load stands once the context has reported that its link failed.
pub open spec fn link_failed(name: Seq<char>, vertex: u32, fragment: u32, handle: u32) -> StepView<
    ProgramLoadView,
    ProgramView,
    ErrorView,
> {
    StepView::Ask(
        ProgramLoadView::Linking {
            name,
            vertex: vertex_of(vertex),
            fragment: fragment_of(fragment),
            link: LinkageView::AwaitLogLength { program: handle },
        },
        RequestView::GetProgramLogLength { program: handle },
    )
}

/// Where a load stands once its link is over with `outcome`.
pub open spec fn link_over(
    vertex: u32,
    fragment: u32,
    outcome: Result<ProgramView, ErrorView>,
) -> StepView<ProgramLoadView, ProgramView, ErrorView> {
    StepView::Ask(
        ProgramLoadView::ReleasingVertex { fragment: fragment_of(fragment), outcome },
        RequestView::DeleteShader { shader: vertex },
    )
}

/// A load that has ended with `outcome`.
pub open spec fn over(outcome: Result<ProgramView, ErrorView>) -> StepView<
    ProgramLoadView,
    ProgramView,
    ErrorView,
> {
    StepView::Done(outcome)
}

/// The compile error of the stage `kind` of the program called `name` that
/// carries `log`: it names the source of that stage.
pub open spec fn rejected(name: Seq<char>, kind: ShaderKind, log: Seq<u8>) -> Result<
    ProgramView,
    ErrorView,
> {
    Err(ErrorView::CompileError { name: stage_name(name, kind), message: utf8_lossy(log) })
}

/// The link error of the program called `name` that carries `log`.
pub open spec fn unlinked(name: Seq<char>, log: Seq<u8>) -> Result<ProgramView, ErrorView> {
    Err(ErrorView::LinkError { name, message: utf8_lossy(log) })
}

/// The two shaders of a load, attached to nothing yet.
pub open spec fn pair(vertex: u32, fragment: u32) -> Set<u32> {
    Set::<u32>::empty().insert(vertex).insert(fragment)
}

/// A load that is played against `head` and then, from where that left it,
/// against `tail`, is a load played against the two in a row.
proof fn lemma_load_in_turn(
    from: StepView<ProgramLoadView, ProgramView, ErrorView>,
    head: Seq<ReplyView>,
    tail: Seq<ReplyView>,
    ledger: Ledger,
)
    ensures
        ({
            let first = program_load_run(from, head, ledger);
            let second = program_load_run(first.end, tail, first.ledger);
            let whole = program_load_run(from, head + tail, ledger);
            &&& whole.asked == first.asked + second.asked
            &&& whole.ledger == second.ledger
            &&& whole.clean == (first.clean && second.clean)
            &&& whole.honest == (first.honest && second.honest)
            &&& whole.end == second.end
        }),
{
    lemma_play_in_turn(
        |state: ProgramLoadView, reply: ReplyView| ProgramLoad::spec_resume(state, reply),
        from,
        head,
        tail,
        0,
        ledger,
    );
}

/// Where a load stands once the source of its vertex stage has been handed to
/// a new shader object.
pub open spec fn vertex_compiling(name: Seq<char>, source: Seq<u8>, vertex: u32) -> StepView<
    ProgramLoadView,
    ProgramView,
    ErrorView,
> {
    StepView::Ask(
        ProgramLoadView::Vertex {
            name,
            inner: ShaderLoadView::Compiling {
                name: stage_name(name, ShaderKind::Vertex),
                inner: CompilationView::AwaitSource { kind: ShaderKind::Vertex, shader: vertex },
            },
        },
        RequestView::ShaderSource { shader: vertex, source },
    )
}

/// Where a load stands once the source of its fragment stage has been handed
/// to a new shader object.
pub open spec fn fragment_compiling(
    name: Seq<char>,
    source: Seq<u8>,
    vertex: u32,
    fragment: u32,
) -> StepView<ProgramLoadView, ProgramView, ErrorView> {
    StepView::Ask(
        ProgramLoadView::Fragment {
            name,
            vertex: vertex_of(vertex),
            inner: ShaderLoadView::Compiling {
                name: stage_name(name, ShaderKind::Fragment),
                inner: CompilationView::AwaitSource {
                    kind: ShaderKind::Fragment,
                    shader: fragment,
                },
            },
        },
        RequestView::ShaderSource { shader: fragment, source },
    )
}

proof fn lemma_vertex_stage_begins(name: Seq<char>, source: Seq<u8>, vertex: u32, ledger: Ledger)
    requires
        ledger.fresh_shader(vertex),
    ensures
        ({
            let run = program_load_run(
                Program::spec_from_res(name),
                seq![ReplyView::Source(source), ReplyView::Handle(vertex)],
                ledger,
            );
            &&& run.end == vertex_compiling(name, source, vertex)
            &&& run.asked == seq![
                RequestView::LoadSource { name: stage_name(name, ShaderKind::Vertex) },
                RequestView::CreateShader { kind: ShaderKind::Vertex },
            ]
            &&& run.ledger == (Ledger { shaders: ledger.shaders.insert(vertex), ..ledger })
            &&& run.clean
            &&& run.honest
        }),
{
    reveal_with_fuel(play_from, 4);
}

proof fn lemma_vertex_stage_ends(
    name: Seq<char>,
    source: Seq<u8>,
    vertex: u32,
    status: i32,
    ledger: Ledger,
)
    requires
        ledger.shaders.contains(vertex),
    ensures
        ({
            let run = program_load_run(
                vertex_compiling(name, source, vertex),
                seq![ReplyView::Done, ReplyView::Done, ReplyView::Value(status)],
                ledger,
            );
            &&& run.end == if status != 0 {
                vertex_built(name, vertex)
            } else {
                vertex_rejected(name, vertex)
            }
            &&& run.asked == seq![
                RequestView::ShaderSource { shader: vertex, source },
                RequestView::CompileShader { shader: vertex },
                RequestView::GetCompileStatus { shader: vertex },
            ]
            &&& run.ledger == ledger
            &&& run.clean
            &&& run.honest
        }),
{
    reveal_with_fuel(play_from, 5);
}

proof fn lemma_fragment_stage_begins(
    name: Seq<char>,
    source: Seq<u8>,
    vertex: u32,
    fragment: u32,
    ledger: Ledger,
)
    requires
        ledger.fresh_shader(fragment),
    ensures
        ({
            let run = program_load_run(
                vertex_built(name, vertex),
                seq![ReplyView::Source(source), ReplyView::Handle(fragment)],
                ledger,
            );
            &&& run.end == fragment_compiling(name, source, vertex, fragment)
            &&& run.asked == seq![
                RequestView::LoadSource { name: stage_name(name, ShaderKind::Fragment) },
                RequestView::CreateShader { kind: ShaderKind::Fragment },
            ]
            &&& run.ledger == (Ledger { shaders: ledger.shaders.insert(fragment), ..ledger })
            &&& run.clean
            &&& run.honest
        }),
{
    reveal_with_fuel(play_from, 4);
}

proof fn lemma_fragment_stage_ends(
    name: Seq<char>,
    source: Seq<u8>,
    vertex: u32,
    fragment: u32,
    status: i32,
    ledger: Ledger,
)
    requires
        ledger.shaders.contains(fragment),
    ensures
        ({
            let run = program_load_run(
                fragment_compiling(name, source, vertex, fragment),
                seq![ReplyView::Done, ReplyView::Done, ReplyView::Value(status)],
                ledger,
            );
            &&& run.end == if status != 0 {
                stages_built(name, vertex, fragment)
            } else {
                fragment_rejected(name, vertex, fragment)
            }
            &&& run.asked == seq![
                RequestView::ShaderSource { shader: fragment, source },
                RequestView::CompileShader { shader: fragment },
                RequestView::GetCompileStatus { shader: fragment },
            ]
            &&& run.ledger == ledger
            &&& run.clean
            &&& run.honest
        }),
{
    reveal_with_fuel(play_from, 5);
}

proof fn lemma_vertex_stage(
    name: Seq<char>,
    source: Seq<u8>,
    vertex: u32,
    status: i32,
    ledger: Ledger,
)
    requires
        ledger.fresh_shader(vertex),
    ensures
        ({
            let run = program_load_run(
                Program::spec_from_res(name),
                stage_replies(source, vertex, status),
                ledger,
            );
            &&& run.end == if status != 0 {
                vertex_built(name, vertex)
            } else {
                vertex_rejected(name, vertex)
            }
            &&& run.asked == stage_requests(name, ShaderKind::Vertex, source, vertex)
            &&& run.ledger == (Ledger { shaders: ledger.shaders.insert(vertex), ..ledger })
            &&& run.clean
            &&& run.honest
        }),
{
    let from = Program::spec_from_res(name);
    let head = seq![ReplyView::Source(source), ReplyView::Handle(vertex)];
    let tail = seq![ReplyView::Done, ReplyView::Done, ReplyView::Value(status)];
    let between = Ledger { shaders: ledger.shaders.insert(vertex), ..ledger };
    lemma_vertex_stage_begins(name, source, vertex, ledger);
    lemma_vertex_stage_ends(name, source, vertex, status, between);
    lemma_load_in_turn(from, head, tail, ledger);
    assert(head + tail =~= stage_replies(source, vertex, status));
    let first = program_load_run(from, head, ledger);
    let second = program_load_run(first.end, tail, first.ledger);
    assert(first.asked + second.asked =~= stage_requests(
        name,
        ShaderKind::Vertex,
        source,
        vertex,
    ));
}

proof fn lemma_vertex_diagnosis(
    name: Seq<char>,
    vertex: u32,
    reported: i32,
    log: Seq<u8>,
    ledger: Ledger,
)
    requires
        ledger.shaders.contains(vertex),
    ensures
        ({
            let run = program_load_run(
                vertex_rejected(name, vertex),
                diagnosis_replies(reported, log),
                ledger,
            );
            &&& run.end == over(rejected(name, ShaderKind::Vertex, log))
            &&& run.asked == shader_diagnosis(vertex, reported)
            &&& run.ledger == (Ledger { shaders: ledger.shaders.remove(vertex), ..ledger })
            &&& run.clean
            &&& run.honest
        }),
{
    reveal_with_fuel(play_from, 5);
}

proof fn lemma_fragment_stage(
    name: Seq<char>,
    source: Seq<u8>,
    vertex: u32,
    fragment: u32,
    status: i32,
    ledger: Ledger,
)
    requires
        ledger.fresh_shader(fragment),
    ensures
        ({
            let run = program_load_run(
                vertex_built(name, vertex),
                stage_replies(source, fragment, status),
                ledger,
            );
            &&& run.end == if status != 0 {
                stages_built(name, vertex, fragment)
            } else {
                fragment_rejected(name, vertex, fragment)
            }
            &&& run.asked == stage_requests(name, ShaderKind::Fragment, source, fragment)
            &&& run.ledger == (Ledger { shaders: ledger.shaders.insert(fragment), ..ledger })
            &&& run.clean
            &&& run.honest
        }),
{
    let from = vertex_built(name, vertex);
    let head = seq![ReplyView::Source(source), ReplyView::Handle(fragment)];
    let tail = seq![ReplyView::Done, ReplyView::Done, ReplyView::Value(status)];
    let between = Ledger { shaders: ledger.shaders.insert(fragment), ..ledger };
    lemma_fragment_stage_begins(name, source, vertex, fragment, ledger);
    lemma_fragment_stage_ends(name, source, vertex, fragment, status, between);
    lemma_load_in_turn(from, head, tail, ledger);
    assert(head + tail =~= stage_replies(source, fragment, status));
    let first = program_load_run(from, head, ledger);
    let second = program_load_run(first.end, tail, first.ledger);
    assert(first.asked + second.asked =~= stage_requests(
        name,
        ShaderKind::Fragment,
        source,
        fragment,
    ));
}

proof fn lemma_fragment_diagnosis(
    name: Seq<char>,
    vertex: u32,
    fragment: u32,
    reported: i32,
    log: Seq<u8>,
    ledger: Ledger,
)
    requires
        ledger.shaders.contains(fragment),
    ensures
        ({
            let run = program_load_run(
                fragment_rejected(name, vertex, fragment),
                diagnosis_replies(reported, log),
                ledger,
            );
            &&& run.end == StepView::<ProgramLoadView, ProgramView, ErrorView>::Ask(
                ProgramLoadView::Finishing { outcome: rejected(name, ShaderKind::Fragment, log) },
                RequestView::DeleteShader { shader: vertex },
            )
            &&& run.asked == shader_diagnosis(fragment, reported)
            &&& run.ledger == (Ledger { shaders: ledger.shaders.remove(fragment), ..ledger })
            &&& run.clean
            &&& run.honest
        }),
{
    reveal_with_fuel(play_from, 5);
}

proof fn lemma_last_release(
    shader: u32,
    outcome: Result<ProgramView, ErrorView>,
    ledger: Ledger,
)
    requires
        ledger.shaders.contains(shader),
    ensures
        ({
            let run = program_load_run(
                StepView::Ask(
                    ProgramLoadView::Finishing { outcome },
                    RequestView::DeleteShader { shader },
                ),
                seq![ReplyView::Done],
                ledger,
            );
            &&& run.end == over(outcome)
            &&& run.asked == seq![RequestView::DeleteShader { shader }]
            &&& run.ledger == (Ledger { shaders: ledger.shaders.remove(shader), ..ledger })
            &&& run.clean
            &&& run.honest
        }),
{
    reveal_with_fuel(play_from, 3);
}

proof fn lemma_link(
    name: Seq<char>,
    vertex: u32,
    fragment: u32,
    handle: u32,
    status: i32,
    ledger: Ledger,
)
    requires
        ledger.shaders.contains(vertex),
        ledger.shaders.contains(fragment),
        vertex != fragment,
        ledger.fresh_program(handle),
    ensures
        ({
            let run = program_load_run(
                stages_built(name, vertex, fragment),
                link_replies(handle, status),
                ledger,
            );
            &&& run.end == if status != 0 {
                link_succeeded(name, vertex, fragment, handle)
            } else {
                link_failed(name, vertex, fragment, handle)
            }
            &&& run.asked == link_requests(vertex, fragment, handle)
            &&& run.ledger == (Ledger {
                programs: ledger.programs.insert(handle, pair(vertex, fragment)),
                ..ledger
            })
            &&& run.clean
            &&& run.honest
        }),
{
    reveal_with_fuel(play_from, 7);
    let none = Set::<u32>::empty();
    assert(ledger.programs.insert(handle, none).insert(handle, none.insert(vertex)).insert(
        handle,
        none.insert(vertex).insert(fragment),
    ) =~= ledger.programs.insert(handle, pair(vertex, fragment)));
}

proof fn lemma_detachment(
    name: Seq<char>,
    vertex: u32,
    fragment: u32,
    handle: u32,
    ledger: Ledger,
)
    requires
        vertex != fragment,
        ledger.programs.dom().contains(handle),
        ledger.programs[handle] == pair(vertex, fragment),
    ensures
        ({
            let run = program_load_run(
                link_succeeded(name, vertex, fragment, handle),
                done_twice(),
                ledger,
            );
            &&& run.end == link_over(vertex, fragment, Ok(ProgramView { id: handle }))
            &&& run.asked == detach_requests(vertex, fragment, handle)
            &&& run.ledger == (Ledger {
                programs: ledger.programs.insert(handle, Set::empty()),
                ..ledger
            })
            &&& run.clean
            &&& run.honest
        }),
{
    reveal_with_fuel(play_from, 4);
    let both = pair(vertex, fragment);
    assert(both.remove(vertex).remove(fragment) =~= Set::<u32>::empty());
    assert(ledger.programs.insert(handle, both.remove(vertex)).insert(
        handle,
        both.remove(vertex).remove(fragment),
    ) =~= ledger.programs.insert(handle, Set::empty()));
}

proof fn lemma_link_diagnosis(
    name: Seq<char>,
    vertex: u32,
    fragment: u32,
    handle: u32,
    reported: i32,
    log: Seq<u8>,
    ledger: Ledger,
)
    requires
        ledger.programs.dom().contains(handle),
        handle != ledger.current,
    ensures
        ({
            let run = program_load_run(
                link_failed(name, vertex, fragment, handle),
                diagnosis_replies(reported, log),
                ledger,
            );
            &&& run.end == link_over(vertex, fragment, unlinked(name, log))
            &&& run.asked == program_diagnosis(handle, reported)
            &&& run.ledger == (Ledger { programs: ledger.programs.remove(handle), ..ledger })
            &&& run.clean
            &&& run.honest
        }),
{
    reveal_with_fuel(play_from, 5);
}

proof fn lemma_release(
    vertex: u32,
    fragment: u32,
    outcome: Result<ProgramView, ErrorView>,
    ledger: Ledger,
)
    requires
        ledger.shaders.contains(vertex),
        ledger.shaders.contains(fragment),
        vertex != fragment,
    ensures
        ({
            let run = program_load_run(link_over(vertex, fragment, outcome), done_twice(), ledger);
            &&& run.end == over(outcome)
            &&& run.asked == release_requests(vertex, fragment)
            &&& run.ledger == (Ledger {
                shaders: ledger.shaders.remove(vertex).remove(fragment),
                ..ledger
            })
            &&& run.clean
            &&& run.honest
        }),
{
    reveal_with_fuel(play_from, 4);
}

/// A program whose two sources load, compile and link is built with these
/// requests and no others, in this order: the vertex stage is loaded and
/// compiled, then the fragment stage, the two are attached, linked and
/// detached, and both shaders are deleted. Afterwards the program is the one
/// thing that exists and did not before, nothing is attached to it, and no
/// request named an object that did not exist.
pub proof fn lemma_loaded_program_keeps_no_shader(
    name: Seq<char>,
    vertex_source: Seq<u8>,
    fragment_source: Seq<u8>,
    vertex: u32,
    fragment: u32,
    handle: u32,
    vertex_status: i32,
    fragment_status: i32,
    link_status: i32,
    ledger: Ledger,
)
    requires
        ledger.fresh_shader(vertex),
        ledger.fresh_shader(fragment),
        vertex != fragment,
        ledger.fresh_program(handle),
        vertex_status != 0,
        fragment_status != 0,
        link_status != 0,
    ensures
        ({
            let run = program_load_run(
                Program::spec_from_res(name),
                stage_replies(vertex_source, vertex, vertex_status) + stage_replies(
                    fragment_source,
                    fragment,
                    fragment_status,
                ) + link_replies(handle, link_status) + done_twice() + done_twice(),
                ledger,
            );
            &&& run.end == over(Ok(ProgramView { id: handle }))
            &&& run.asked == stage_requests(name, ShaderKind::Vertex, vertex_source, vertex)
                + stage_requests(name, ShaderKind::Fragment, fragment_source, fragment)
                + link_requests(vertex, fragment, handle) + detach_requests(
                vertex,
                fragment,
                handle,
            ) + release_requests(vertex, fragment)
            &&& run.ledger == (Ledger {
                programs: ledger.programs.insert(handle, Set::empty()),
                ..ledger
            })
            &&& run.clean
            &&& run.honest
        }),
{
    let from = Program::spec_from_res(name);
    let first = stage_replies(vertex_source, vertex, vertex_status);
    let second = first + stage_replies(fragment_source, fragment, fragment_status);
    let third = second + link_replies(handle, link_status);
    let fourth = third + done_twice();
    let one = Ledger { shaders: ledger.shaders.insert(vertex), ..ledger };
    let two = Ledger { shaders: one.shaders.insert(fragment), ..ledger };
    let three = Ledger { programs: ledger.programs.insert(handle, pair(vertex, fragment)), ..two };
    let four = Ledger { programs: ledger.programs.insert(handle, Set::empty()), ..two };
    lemma_vertex_stage(name, vertex_source, vertex, vertex_status, ledger);
    lemma_fragment_stage(name, fragment_source, vertex, fragment, fragment_status, one);
    lemma_load_in_turn(
        from,
        first,
        stage_replies(fragment_source, fragment, fragment_status),
        ledger,
    );
    lemma_link(name, vertex, fragment, handle, link_status, two);
    lemma_load_in_turn(from, second, link_replies(handle, link_status), ledger);
    lemma_detachment(name, vertex, fragment, handle, three);
    assert(three.programs.insert(handle, Set::empty()) =~= four.programs);
    lemma_load_in_turn(from, third, done_twice(), ledger);
    lemma_release(vertex, fragment, Ok(ProgramView { id: handle }), four);
    lemma_load_in_turn(from, fourth, done_twice(), ledger);
    assert(four.shaders.remove(vertex).remove(fragment) =~= ledger.shaders);
}

/// A program whose fragment source the context rejects is not built: the load
/// ends with the compile error that names the source of the fragment stage and
/// carries the context's log. No program
/// object is asked for, the rejected shader and the vertex shader are both
/// deleted, in that order, and the context holds what it held before.
pub proof fn lemma_rejected_fragment_leaves_nothing(
    name: Seq<char>,
    vertex_source: Seq<u8>,
    fragment_source: Seq<u8>,
    vertex: u32,
    fragment: u32,
    vertex_status: i32,
    reported: i32,
    log: Seq<u8>,
    ledger: Ledger,
)
    requires
        ledger.fresh_shader(vertex),
        ledger.fresh_shader(fragment),
        vertex != fragment,
        vertex_status != 0,
    ensures
        ({
            let run = program_load_run(
                Program::spec_from_res(name),
                stage_replies(vertex_source, vertex, vertex_status) + stage_replies(
                    fragment_source,
                    fragment,
                    0,
                ) + diagnosis_replies(reported, log) + seq![ReplyView::Done],
                ledger,
            );
            &&& run.end == over(rejected(name, ShaderKind::Fragment, log))
            &&& run.asked == stage_requests(name, ShaderKind::Vertex, vertex_source, vertex)
                + stage_requests(name, ShaderKind::Fragment, fragment_source, fragment)
                + shader_diagnosis(fragment, reported) + seq![
                RequestView::DeleteShader { shader: vertex },
            ]
            &&& run.ledger == ledger
            &&& run.clean
            &&& run.honest
        }),
{
    let from = Program::spec_from_res(name);
    let first = stage_replies(vertex_source, vertex, vertex_status);
    let second = first + stage_replies(fragment_source, fragment, 0);
    let third = second + diagnosis_replies(reported, log);
    let one = Ledger { shaders: ledger.shaders.insert(vertex), ..ledger };
    let two = Ledger { shaders: one.shaders.insert(fragment), ..ledger };
    lemma_vertex_stage(name, vertex_source, vertex, vertex_status, ledger);
    lemma_fragment_stage(name, fragment_source, vertex, fragment, 0, one);
    lemma_load_in_turn(from, first, stage_replies(fragment_source, fragment, 0), ledger);
    lemma_fragment_diagnosis(name, vertex, fragment, reported, log, two);
    lemma_load_in_turn(from, second, diagnosis_replies(reported, log), ledger);
    assert(two.shaders.remove(fragment) =~= one.shaders);
    lemma_last_release(vertex, rejected(name, ShaderKind::Fragment, log), one);
    lemma_load_in_turn(from, third, seq![ReplyView::Done], ledger);
    assert(one.shaders.remove(vertex) =~= ledger.shaders);
}

/// A program whose stages compile and whose link the context reports as failed
/// is not built: the load ends with the link error that carries the name of
/// the program and the context's log. The program object and both shaders are
/// deleted, and the context holds what it held before.
pub proof fn lemma_failed_link_leaves_nothing(
    name: Seq<char>,
    vertex_source: Seq<u8>,
    fragment_source: Seq<u8>,
    vertex: u32,
    fragment: u32,
    handle: u32,
    vertex_status: i32,
    fragment_status: i32,
    reported: i32,
    log: Seq<u8>,
    ledger: Ledger,
)
    requires
        ledger.fresh_shader(vertex),
        ledger.fresh_shader(fragment),
        vertex != fragment,
        ledger.fresh_program(handle),
        vertex_status != 0,
        fragment_status != 0,
    ensures
        ({
            let run = program_load_run(
                Program::spec_from_res(name),
                stage_replies(vertex_source, vertex, vertex_status) + stage_replies(
                    fragment_source,
                    fragment,
                    fragment_status,
                ) + link_replies(handle, 0) + diagnosis_replies(reported, log) + done_twice(),
                ledger,
            );
            &&& run.end == over(unlinked(name, log))
            &&& run.asked == stage_requests(name, ShaderKind::Vertex, vertex_source, vertex)
                + stage_requests(name, ShaderKind::Fragment, fragment_source, fragment)
                + link_requests(vertex, fragment, handle) + program_diagnosis(handle, reported)
                + release_requests(vertex, fragment)
            &&& run.ledger == ledger
            &&& run.clean
            &&& run.honest
        }),
{
    let from = Program::spec_from_res(name);
    let first = stage_replies(vertex_source, vertex, vertex_status);
    let second = first + stage_replies(fragment_source, fragment, fragment_status);
    let third = second + link_replies(handle, 0);
    let fourth = third + diagnosis_replies(reported, log);
    let one = Ledger { shaders: ledger.shaders.insert(vertex), ..ledger };
    let two = Ledger { shaders: one.shaders.insert(fragment), ..ledger };
    let three = Ledger { programs: ledger.programs.insert(handle, pair(vertex, fragment)), ..two };
    lemma_vertex_stage(name, vertex_source, vertex, vertex_status, ledger);
    lemma_fragment_stage(name, fragment_source, vertex, fragment, fragment_status, one);
    lemma_load_in_turn(
        from,
        first,
        stage_replies(fragment_source, fragment, fragment_status),
        ledger,
    );
    lemma_link(name, vertex, fragment, handle, 0, two);
    lemma_load_in_turn(from, second, link_replies(handle, 0), ledger);
    lemma_link_diagnosis(name, vertex, fragment, handle, reported, log, three);
    lemma_load_in_turn(from, third, diagnosis_replies(reported, log), ledger);
    assert(three.programs.remove(handle) =~= ledger.programs);
    lemma_release(vertex, fragment, unlinked(name, log), two);
    lemma_load_in_turn(from, fourth, done_twice(), ledger);
    assert(two.shaders.remove(vertex).remove(fragment) =~= ledger.shaders);
}

/// A program whose vertex source the context rejects is not built: the load
/// ends with the compile error that names the source of the vertex stage and
/// carries the context's log. The fragment stage is never asked for, nor a
/// program object; the rejected shader is deleted, and the context holds what
/// it held before.
pub proof fn lemma_rejected_vertex_leaves_nothing(
    name: Seq<char>,
    source: Seq<u8>,
    vertex: u32,
    reported: i32,
    log: Seq<u8>,
    ledger: Ledger,
)
    requires
        ledger.fresh_shader(vertex),
    ensures
        ({
            let run = program_load_run(
                Program::spec_from_res(name),
                stage_replies(source, vertex, 0) + diagnosis_replies(reported, log),
                ledger,
            );
            &&& run.end == over(rejected(name, ShaderKind::Vertex, log))
            &&& run.asked == stage_requests(name, ShaderKind::Vertex, source, vertex)
                + shader_diagnosis(vertex, reported)
            &&& run.ledger == ledger
            &&& run.clean
            &&& run.honest
        }),
{
    let one = Ledger { shaders: ledger.shaders.insert(vertex), ..ledger };
    lemma_vertex_stage(name, source, vertex, 0, ledger);
    lemma_vertex_diagnosis(name, vertex, reported, log, one);
    lemma_load_in_turn(
        Program::spec_from_res(name),
        stage_replies(source, vertex, 0),
        diagnosis_replies(reported, log),
        ledger,
    );
    assert(one.shaders.remove(vertex) =~= ledger.shaders);
}

} // verus!
