//! Whole compilations and loads of a shader, played against a loader and a
//! context: what is asked, in which order, and what exists afterwards.
use crate::error::ErrorView;
use crate::ledger::{play, play_from, Ledger, Run};
use crate::protocol::{ReplyView, RequestView, ShaderKind, StepView};
use crate::shader::{
    log_capacity, Compilation, CompilationView, Shader, ShaderLoad, ShaderLoadView, ShaderView,
};
use crate::text::utf8_lossy;
use vstd::prelude::*;

verus! {

/// A compilation that begins at `first`, played against a context that holds
/// `ledger` and answers with `replies`.
pub open spec fn compilation_run(
    first: StepView<CompilationView, ShaderView, ErrorView>,
    replies: Seq<ReplyView>,
    ledger: Ledger,
) -> Run<CompilationView, ShaderView, ErrorView> {
    play(
        |state: CompilationView, reply: ReplyView| Compilation::spec_resume(state, reply),
        first,
        replies,
        ledger,
    )
}

/// A load that begins at `first`, played against a loader and a context that
/// holds `ledger`, which answer with `replies`.
pub open spec fn shader_load_run(
    first: StepView<ShaderLoadView, ShaderView, ErrorView>,
    replies: Seq<ReplyView>,
    ledger: Ledger,
) -> Run<ShaderLoadView, ShaderView, ErrorView> {
    play(
        |state: ShaderLoadView, reply: ReplyView| ShaderLoad::spec_resume(state, reply),
        first,
        replies,
        ledger,
    )
}

/// A source that the context accepts becomes a shader with the handle that
/// the context gave, after four requests in this order: create, hand over the
/// source, compile, read the status. The shader object is the one thing that
/// exists afterwards and did not before, and no request named an object that
/// did not exist.
pub proof fn lemma_accepted_source_yields_shader(
    source: Seq<u8>,
    kind: ShaderKind,
    handle: u32,
    status: i32,
    ledger: Ledger,
)
    requires
        ledger.fresh_shader(handle),
        status != 0,
    ensures
        ({
            let run = compilation_run(
                Shader::spec_from_source(source, kind),
                seq![
                    ReplyView::Handle(handle),
                    ReplyView::Done,
                    ReplyView::Done,
                    ReplyView::Value(status),
                ],
                ledger,
            );
            &&& run.end == StepView::<CompilationView, ShaderView, ErrorView>::Done(
                Ok(ShaderView { id: handle, kind }),
            )
            &&& run.asked == seq![
                RequestView::CreateShader { kind },
                RequestView::ShaderSource { shader: handle, source },
                RequestView::CompileShader { shader: handle },
                RequestView::GetCompileStatus { shader: handle },
            ]
            &&& run.ledger == (Ledger { shaders: ledger.shaders.insert(handle), ..ledger })
            &&& run.clean
            &&& run.honest
        }),
{
    reveal_with_fuel(play_from, 6);
}

/// A source that the context rejects ends the compilation with a compile
/// error that names the stage and whose message is the context's log, read at
/// the length that the context reported. The shader object that was created for it is deleted
/// before the error is returned: the context holds what it held before, and no
/// request named an object that did not exist.
pub proof fn lemma_rejected_source_is_released(
    source: Seq<u8>,
    kind: ShaderKind,
    handle: u32,
    reported: i32,
    log: Seq<u8>,
    ledger: Ledger,
)
    requires
        ledger.fresh_shader(handle),
    ensures
        ({
            let run = compilation_run(
                Shader::spec_from_source(source, kind),
                seq![
                    ReplyView::Handle(handle),
                    ReplyView::Done,
                    ReplyView::Done,
                    ReplyView::Value(0),
                    ReplyView::Value(reported),
                    ReplyView::Log(log),
                    ReplyView::Done,
                ],
                ledger,
            );
            &&& run.end == StepView::<CompilationView, ShaderView, ErrorView>::Done(
                Err(ErrorView::CompileError { name: kind.spec_label(), message: utf8_lossy(log) }),
            )
            &&& run.asked == seq![
                RequestView::CreateShader { kind },
                RequestView::ShaderSource { shader: handle, source },
                RequestView::CompileShader { shader: handle },
                RequestView::GetCompileStatus { shader: handle },
                RequestView::GetShaderLogLength { shader: handle },
                RequestView::GetShaderLog { shader: handle, len: log_capacity(reported) },
                RequestView::DeleteShader { shader: handle },
            ]
            &&& run.ledger == ledger
            &&& run.clean
            &&& run.honest
        }),
{
    reveal_with_fuel(play_from, 9);
    assert(ledger.shaders.insert(handle).remove(handle) =~= ledger.shaders);
}

/// A name that ends in no known suffix is refused at once: whatever the loader
/// and the context would have answered, nothing is asked of either, and the
/// load has ended with the error that names the source.
pub proof fn lemma_unknown_suffix_asks_nothing(
    name: Seq<char>,
    replies: Seq<ReplyView>,
    ledger: Ledger,
)
    requires
        !ShaderKind::Vertex.spec_suffix().is_suffix_of(name),
        !ShaderKind::Fragment.spec_suffix().is_suffix_of(name),
    ensures
        ({
            let run = shader_load_run(Shader::spec_from_res(name), replies, ledger);
            &&& run.end == StepView::<ShaderLoadView, ShaderView, ErrorView>::Done(
                Err(
                    ErrorView::UnknownShaderType {
                        name,
                        message: "failed to recognize shader extension"@,
                    },
                ),
            )
            &&& run.asked == Seq::<RequestView>::empty()
            &&& run.ledger == ledger
            &&& run.clean
            &&& run.honest
        }),
{
}

/// A source that the loader cannot produce ends the load with the loader's
/// cause under the name of the source. The loader was the only one asked: no
/// request went to the context.
pub proof fn lemma_load_failure_spares_the_context(
    name: Seq<char>,
    cause: Seq<char>,
    ledger: Ledger,
)
    requires
        ShaderKind::spec_of_name(name) is Some,
    ensures
        ({
            let run = shader_load_run(
                Shader::spec_from_res(name),
                seq![ReplyView::LoadFailed(cause)],
                ledger,
            );
            &&& run.end == StepView::<ShaderLoadView, ShaderView, ErrorView>::Done(
                Err(ErrorView::ResourceLoadError { name, inner: cause }),
            )
            &&& run.asked == seq![RequestView::LoadSource { name }]
            &&& run.ledger == ledger
            &&& run.clean
            &&& run.honest
        }),
{
    reveal_with_fuel(play_from, 3);
}

/// A source whose name tells a stage, which the loader produces and the
/// context accepts, becomes a shader of that stage: the loader is asked for the
/// name as it was given, and its bytes are what the context compiles.
pub proof fn lemma_named_source_is_compiled(
    name: Seq<char>,
    kind: ShaderKind,
    source: Seq<u8>,
    handle: u32,
    status: i32,
    ledger: Ledger,
)
    requires
        ShaderKind::spec_of_name(name) == Some(kind),
        ledger.fresh_shader(handle),
        status != 0,
    ensures
        ({
            let run = shader_load_run(
                Shader::spec_from_res(name),
                seq![
                    ReplyView::Source(source),
                    ReplyView::Handle(handle),
                    ReplyView::Done,
                    ReplyView::Done,
                    ReplyView::Value(status),
                ],
                ledger,
            );
            &&& run.end == StepView::<ShaderLoadView, ShaderView, ErrorView>::Done(
                Ok(ShaderView { id: handle, kind }),
            )
            &&& run.asked == seq![
                RequestView::LoadSource { name },
                RequestView::CreateShader { kind },
                RequestView::ShaderSource { shader: handle, source },
                RequestView::CompileShader { shader: handle },
                RequestView::GetCompileStatus { shader: handle },
            ]
            &&& run.ledger == (Ledger { shaders: ledger.shaders.insert(handle), ..ledger })
            &&& run.clean
            &&& run.honest
        }),
{
    reveal_with_fuel(play_from, 7);
}

/// What a context answers to a compilation that it rejects: the handle, nothing
/// to the source and to the compilation, the status zero, the length of the
/// log, the log, and nothing to the deletion.
pub open spec fn rejected_replies(handle: u32, reported: i32, log: Seq<u8>) -> Seq<ReplyView> {
    seq![
        ReplyView::Handle(handle),
        ReplyView::Done,
        ReplyView::Done,
        ReplyView::Value(0),
        ReplyView::Value(reported),
        ReplyView::Log(log),
        ReplyView::Done,
    ]
}

/// The error of a rejected compilation tells the stage: whatever the sources
/// and whatever the context answers, a rejected vertex stage and a rejected
/// fragment stage never end with the same error.
pub proof fn lemma_compile_error_tells_the_stage(
    vertex_source: Seq<u8>,
    fragment_source: Seq<u8>,
    vertex: u32,
    fragment: u32,
    vertex_reported: i32,
    fragment_reported: i32,
    vertex_log: Seq<u8>,
    fragment_log: Seq<u8>,
    ledger: Ledger,
)
    ensures
        ({
            let one = compilation_run(
                Shader::spec_from_source(vertex_source, ShaderKind::Vertex),
                rejected_replies(vertex, vertex_reported, vertex_log),
                ledger,
            );
            let other = compilation_run(
                Shader::spec_from_source(fragment_source, ShaderKind::Fragment),
                rejected_replies(fragment, fragment_reported, fragment_log),
                ledger,
            );
            &&& one.end matches StepView::Done(Err(ErrorView::CompileError { name, .. }))
                && name == ShaderKind::Vertex.spec_label()
            &&& other.end matches StepView::Done(Err(ErrorView::CompileError { name, .. }))
                && name == ShaderKind::Fragment.spec_label()
            &&& one.end != other.end
        }),
{
    reveal_with_fuel(play_from, 9);
    reveal_strlit("vertex");
    reveal_strlit("fragment");
    assert(ShaderKind::Vertex.spec_label().len() != ShaderKind::Fragment.spec_label().len());
}

/// A source that is loaded by name and that the context rejects ends the load
/// with the compile error that names that source and carries the context's
/// log. The shader object that was created for it is deleted before the error
/// is returned: the context holds what it held before.
pub proof fn lemma_rejected_named_source_is_named(
    name: Seq<char>,
    source: Seq<u8>,
    handle: u32,
    reported: i32,
    log: Seq<u8>,
    ledger: Ledger,
)
    requires
        ShaderKind::spec_of_name(name) is Some,
        ledger.fresh_shader(handle),
    ensures
        ({
            let run = shader_load_run(
                Shader::spec_from_res(name),
                seq![ReplyView::Source(source)] + rejected_replies(handle, reported, log),
                ledger,
            );
            &&& run.end == StepView::<ShaderLoadView, ShaderView, ErrorView>::Done(
                Err(ErrorView::CompileError { name, message: utf8_lossy(log) }),
            )
            &&& run.ledger == ledger
            &&& run.clean
            &&& run.honest
        }),
{
    reveal_with_fuel(play_from, 10);
    assert(ledger.shaders.insert(handle).remove(handle) =~= ledger.shaders);
}

} // verus!
