//! One compiled stage: the object that owns its handle, and the two machines
//! that build it, from source bytes and from the name of a source.
use crate::error::{Error, ErrorView};
use crate::protocol::{Reply, ReplyView, Request, RequestView, ShaderKind, Step, StepView};
use crate::text::{decode_lossy, utf8_lossy};
use vstd::prelude::*;
use vstd::string::*;

verus! {

/// A shader object of the context that compiled successfully. The value is the
/// only owner of its handle: it cannot be copied, and giving it up with
/// [`Shader::release`] consumes it.
#[derive(Debug)]
#[must_use]
pub struct Shader {
    id: u32,
    kind: ShaderKind,
}

/// The mathematical content of a [`Shader`].
pub struct ShaderView {
    pub id: u32,
    pub kind: ShaderKind,
}

impl View for Shader {
    type V = ShaderView;

    closed spec fn view(&self) -> ShaderView {
        ShaderView { id: self.id, kind: self.kind }
    }
}

/// A compilation in flight. Each state is named after the reply it waits for.
#[derive(Debug)]
pub enum Compilation {
    /// Asked for a shader object.
    AwaitHandle { kind: ShaderKind, source: Vec<u8> },
    /// Handed the source to the object.
    AwaitSource { kind: ShaderKind, shader: u32 },
    /// Asked for the compilation.
    AwaitCompile { kind: ShaderKind, shader: u32 },
    /// Asked whether the source was accepted.
    AwaitStatus { kind: ShaderKind, shader: u32 },
    /// The source was rejected; asked how long the log is.
    AwaitLogLength { kind: ShaderKind, shader: u32 },
    /// Asked for the log.
    AwaitLog { kind: ShaderKind, shader: u32 },
    /// Asked for the rejected object to be deleted.
    AwaitRelease { kind: ShaderKind, message: String },
}

/// The mathematical content of a [`Compilation`].
pub enum CompilationView {
    AwaitHandle { kind: ShaderKind, source: Seq<u8> },
    AwaitSource { kind: ShaderKind, shader: u32 },
    AwaitCompile { kind: ShaderKind, shader: u32 },
    AwaitStatus { kind: ShaderKind, shader: u32 },
    AwaitLogLength { kind: ShaderKind, shader: u32 },
    AwaitLog { kind: ShaderKind, shader: u32 },
    AwaitRelease { kind: ShaderKind, message: Seq<char> },
}

impl View for Compilation {
    type V = CompilationView;

    open spec fn view(&self) -> CompilationView {
        match *self {
            Compilation::AwaitHandle { kind, source } => CompilationView::AwaitHandle {
                kind,
                source: source@,
            },
            Compilation::AwaitSource { kind, shader } => CompilationView::AwaitSource {
                kind,
                shader,
            },
            Compilation::AwaitCompile { kind, shader } => CompilationView::AwaitCompile {
                kind,
                shader,
            },
            Compilation::AwaitStatus { kind, shader } => CompilationView::AwaitStatus {
                kind,
                shader,
            },
            Compilation::AwaitLogLength { kind, shader } => CompilationView::AwaitLogLength {
                kind,
                shader,
            },
            Compilation::AwaitLog { kind, shader } => CompilationView::AwaitLog { kind, shader },
            Compilation::AwaitRelease { kind, message } => CompilationView::AwaitRelease {
                kind,
                message: message@,
            },
        }
    }
}

/// The length of the buffer to read a log into, given the length that the
/// context reported: that length, and nothing where it is not positive.
pub open spec fn log_capacity(reported: i32) -> i32 {
    if reported > 0 {
        reported
    } else {
        0
    }
}

/// A buffer to read a log into, given the length that the context reported:
/// as many spaces as [`log_capacity`] says, for the context to write over.
pub fn log_buffer(reported: i32) -> (buffer: Vec<u8>)
    ensures
        buffer@ == Seq::new(log_capacity(reported) as nat, |i: int| 0x20u8),
{
    let capacity: usize = if reported > 0 {
        reported as usize
    } else {
        0
    };
    let mut buffer: Vec<u8> = Vec::new();
    while buffer.len() < capacity
        invariant
            buffer@.len() <= capacity,
            capacity == log_capacity(reported),
            forall|i: int| 0 <= i < buffer@.len() ==> buffer@[i] == 0x20u8,
        decreases capacity - buffer@.len(),
    {
        buffer.push(0x20u8);
    }
    assert(buffer@ =~= Seq::new(log_capacity(reported) as nat, |i: int| 0x20u8));
    buffer
}

impl Compilation {
    /// The transition of a compilation: create, hand over the source, compile,
    /// read the status. An accepted source ends there with the shader. A rejected
    /// one has its log read at the length reported, its object deleted, and ends
    /// with the compile error that names the stage and carries the log.
    pub open spec fn spec_resume(state: CompilationView, reply: ReplyView) -> StepView<
        CompilationView,
        ShaderView,
        ErrorView,
    > {
        match (state, reply) {
            (CompilationView::AwaitHandle { kind, source }, ReplyView::Handle(shader)) => {
                StepView::Ask(
                    CompilationView::AwaitSource { kind, shader },
                    RequestView::ShaderSource { shader, source },
                )
            },
            (CompilationView::AwaitSource { kind, shader }, ReplyView::Done) => StepView::Ask(
                CompilationView::AwaitCompile { kind, shader },
                RequestView::CompileShader { shader },
            ),
            (CompilationView::AwaitCompile { kind, shader }, ReplyView::Done) => StepView::Ask(
                CompilationView::AwaitStatus { kind, shader },
                RequestView::GetCompileStatus { shader },
            ),
            (CompilationView::AwaitStatus { kind, shader }, ReplyView::Value(status)) => {
                if status != 0 {
                    StepView::Done(Ok(ShaderView { id: shader, kind }))
                } else {
                    StepView::Ask(
                        CompilationView::AwaitLogLength { kind, shader },
                        RequestView::GetShaderLogLength { shader },
                    )
                }
            },
            (CompilationView::AwaitLogLength { kind, shader }, ReplyView::Value(reported)) => {
                StepView::Ask(
                    CompilationView::AwaitLog { kind, shader },
                    RequestView::GetShaderLog { shader, len: log_capacity(reported) },
                )
            },
            (CompilationView::AwaitLog { kind, shader }, ReplyView::Log(bytes)) => StepView::Ask(
                CompilationView::AwaitRelease { kind, message: utf8_lossy(bytes) },
                RequestView::DeleteShader { shader },
            ),
            (CompilationView::AwaitRelease { kind, message }, ReplyView::Done) => StepView::Done(
                Err(ErrorView::CompileError { name: kind.spec_label(), message }),
            ),
            _ => StepView::Refused(state),
        }
    }

    /// Takes the reply to the request that this compilation last asked, and
    /// answers with the next request, with the shader, or with the error.
    pub fn resume(self, reply: Reply) -> (step: Step<Compilation, Shader, Error>)
        ensures
            step@ == Compilation::spec_resume(self@, reply@),
    {
        match self {
            Compilation::AwaitHandle { kind, source } => match reply {
                Reply::Handle(shader) => Step::Ask(
                    Compilation::AwaitSource { kind, shader },
                    Request::ShaderSource { shader, source },
                ),
                _ => Step::Refused(Compilation::AwaitHandle { kind, source }),
            },
            Compilation::AwaitSource { kind, shader } => match reply {
                Reply::Done => Step::Ask(
                    Compilation::AwaitCompile { kind, shader },
                    Request::CompileShader { shader },
                ),
                _ => Step::Refused(Compilation::AwaitSource { kind, shader }),
            },
            Compilation::AwaitCompile { kind, shader } => match reply {
                Reply::Done => Step::Ask(
                    Compilation::AwaitStatus { kind, shader },
                    Request::GetCompileStatus { shader },
                ),
                _ => Step::Refused(Compilation::AwaitCompile { kind, shader }),
            },
            Compilation::AwaitStatus { kind, shader } => match reply {
                Reply::Value(status) => {
                    if status != 0 {
                        Step::Done(Ok(Shader { id: shader, kind }))
                    } else {
                        Step::Ask(
                            Compilation::AwaitLogLength { kind, shader },
                            Request::GetShaderLogLength { shader },
                        )
                    }
                },
                _ => Step::Refused(Compilation::AwaitStatus { kind, shader }),
            },
            Compilation::AwaitLogLength { kind, shader } => match reply {
                Reply::Value(reported) => {
                    let len: i32 = if reported > 0 {
                        reported
                    } else {
                        0
                    };
                    Step::Ask(
                        Compilation::AwaitLog { kind, shader },
                        Request::GetShaderLog { shader, len },
                    )
                },
                _ => Step::Refused(Compilation::AwaitLogLength { kind, shader }),
            },
            Compilation::AwaitLog { kind, shader } => match reply {
                Reply::Log(bytes) => {
                    let message = decode_lossy(bytes.as_slice());
                    Step::Ask(
                        Compilation::AwaitRelease { kind, message },
                        Request::DeleteShader { shader },
                    )
                },
                _ => Step::Refused(Compilation::AwaitLog { kind, shader }),
            },
            Compilation::AwaitRelease { kind, message } => match reply {
                Reply::Done => Step::Done(
                    Err(
                        Error::CompileError { name: String::from_str(kind.label()), message },
                    ),
                ),
                _ => Step::Refused(Compilation::AwaitRelease { kind, message }),
            },
        }
    }
}

/// A shader being built from the name of its source: first the bytes are
/// loaded, then they are compiled.
#[derive(Debug)]
pub enum ShaderLoad {
    /// Asked the loader for the source.
    AwaitBytes { name: String, kind: ShaderKind },
    /// The source called `name` is there and is being compiled.
    Compiling { name: String, inner: Compilation },
}

/// The mathematical content of a [`ShaderLoad`].
pub enum ShaderLoadView {
    AwaitBytes { name: Seq<char>, kind: ShaderKind },
    Compiling { name: Seq<char>, inner: CompilationView },
}

impl View for ShaderLoad {
    type V = ShaderLoadView;

    open spec fn view(&self) -> ShaderLoadView {
        match *self {
            ShaderLoad::AwaitBytes { name, kind } => ShaderLoadView::AwaitBytes {
                name: name@,
                kind,
            },
            ShaderLoad::Compiling { name, inner } => ShaderLoadView::Compiling {
                name: name@,
                inner: inner@,
            },
        }
    }
}

impl ShaderLoad {
    /// A step of the compilation of the source called `name`, seen as a step of
    /// the load that runs it. The load goes on and ends as the compilation does,
    /// but for the compile error, which the load gives under the name of the
    /// source in place of the name of the stage.
    pub open spec fn spec_compiling(
        name: Seq<char>,
        step: StepView<CompilationView, ShaderView, ErrorView>,
    ) -> StepView<ShaderLoadView, ShaderView, ErrorView> {
        match step {
            StepView::Ask(inner, request) => StepView::Ask(
                ShaderLoadView::Compiling { name, inner },
                request,
            ),
            StepView::Done(Ok(shader)) => StepView::Done(Ok(shader)),
            StepView::Done(Err(ErrorView::CompileError { message, .. })) => StepView::Done(
                Err(ErrorView::CompileError { name, message }),
            ),
            StepView::Done(Err(other)) => StepView::Done(Err(other)),
            StepView::Refused(inner) => StepView::Refused(
                ShaderLoadView::Compiling { name, inner },
            ),
        }
    }

    /// The transition of a load. The bytes that the loader gives are compiled as
    /// the stage that the name told; its failure ends the load with the cause,
    /// before the context has been asked anything. Once compiling, the load does
    /// what the compilation does, and a rejected source ends it with the compile
    /// error that names the source.
    pub open spec fn spec_resume(state: ShaderLoadView, reply: ReplyView) -> StepView<
        ShaderLoadView,
        ShaderView,
        ErrorView,
    > {
        match (state, reply) {
            (ShaderLoadView::AwaitBytes { name, kind }, ReplyView::Source(bytes)) => {
                ShaderLoad::spec_compiling(name, Shader::spec_from_source(bytes, kind))
            },
            (ShaderLoadView::AwaitBytes { name, kind }, ReplyView::LoadFailed(cause)) => {
                StepView::Done(Err(ErrorView::ResourceLoadError { name, inner: cause }))
            },
            (ShaderLoadView::AwaitBytes { .. }, _) => StepView::Refused(state),
            (ShaderLoadView::Compiling { name, inner }, _) => ShaderLoad::spec_compiling(
                name,
                Compilation::spec_resume(inner, reply),
            ),
        }
    }

    fn compiling(name: String, step: Step<Compilation, Shader, Error>) -> (lifted: Step<
        ShaderLoad,
        Shader,
        Error,
    >)
        ensures
            lifted@ == ShaderLoad::spec_compiling(name@, step@),
    {
        match step {
            Step::Ask(inner, request) => Step::Ask(ShaderLoad::Compiling { name, inner }, request),
            Step::Done(Ok(shader)) => Step::Done(Ok(shader)),
            Step::Done(Err(Error::CompileError { message, .. })) => Step::Done(
                Err(Error::CompileError { name, message }),
            ),
            Step::Done(Err(other)) => Step::Done(Err(other)),
            Step::Refused(inner) => Step::Refused(ShaderLoad::Compiling { name, inner }),
        }
    }

    /// Takes the reply to the request that this load last asked, and answers
    /// with the next request, with the shader, or with the error.
    pub fn resume(self, reply: Reply) -> (step: Step<ShaderLoad, Shader, Error>)
        ensures
            step@ == ShaderLoad::spec_resume(self@, reply@),
    {
        match self {
            ShaderLoad::AwaitBytes { name, kind } => match reply {
                Reply::Source(bytes) => ShaderLoad::compiling(
                    name,
                    Shader::from_source(bytes, kind),
                ),
                Reply::LoadFailed(cause) => Step::Done(
                    Err(Error::ResourceLoadError { name, inner: cause }),
                ),
                _ => Step::Refused(ShaderLoad::AwaitBytes { name, kind }),
            },
            ShaderLoad::Compiling { name, inner } => ShaderLoad::compiling(
                name,
                inner.resume(reply),
            ),
        }
    }
}

impl Shader {
    /// How a compilation of `source` as a stage of `kind` begins: by asking the
    /// context for a shader object of that stage.
    pub open spec fn spec_from_source(source: Seq<u8>, kind: ShaderKind) -> StepView<
        CompilationView,
        ShaderView,
        ErrorView,
    > {
        StepView::Ask(
            CompilationView::AwaitHandle { kind, source },
            RequestView::CreateShader { kind },
        )
    }

    /// How the load of the source called `name` begins. A name that tells no
    /// stage ends it at once, with nothing asked of the loader or the context;
    /// any other name is asked of the loader.
    pub open spec fn spec_from_res(name: Seq<char>) -> StepView<
        ShaderLoadView,
        ShaderView,
        ErrorView,
    > {
        match ShaderKind::spec_of_name(name) {
            Some(kind) => StepView::Ask(
                ShaderLoadView::AwaitBytes { name, kind },
                RequestView::LoadSource { name },
            ),
            None => StepView::Done(
                Err(
                    ErrorView::UnknownShaderType {
                        name,
                        message: "failed to recognize shader extension"@,
                    },
                ),
            ),
        }
    }

    /// The handle of the shader object.
    pub fn id(&self) -> (id: u32)
        ensures
            id == self@.id,
    {
        self.id
    }

    /// The stage that the shader was compiled as.
    pub fn kind(&self) -> (kind: ShaderKind)
        ensures
            kind == self@.kind,
    {
        self.kind
    }

    /// Begins compiling `source` as a stage of `kind`.
    pub fn from_source(source: Vec<u8>, kind: ShaderKind) -> (first: Step<
        Compilation,
        Shader,
        Error,
    >)
        ensures
            first@ == Shader::spec_from_source(source@, kind),
    {
        Step::Ask(Compilation::AwaitHandle { kind, source }, Request::CreateShader { kind })
    }

    /// Begins building a shader from the source called `name`, whose suffix
    /// tells the stage.
    pub fn from_res(name: &str) -> (first: Step<ShaderLoad, Shader, Error>)
        ensures
            first@ == Shader::spec_from_res(name@),
    {
        match ShaderKind::of_name(name) {
            Some(kind) => Step::Ask(
                ShaderLoad::AwaitBytes { name: name.to_owned(), kind },
                Request::LoadSource { name: name.to_owned() },
            ),
            None => Step::Done(
                Err(
                    Error::UnknownShaderType {
                        name: name.to_owned(),
                        message: String::from_str("failed to recognize shader extension"),
                    },
                ),
            ),
        }
    }

    /// Gives the shader up: the request that deletes its object. The value is
    /// consumed, so the object is deleted once.
    pub fn release(self) -> (request: Request)
        ensures
            request@ == (RequestView::DeleteShader { shader: self@.id }),
    {
        Request::DeleteShader { shader: self.id }
    }
}

} // verus!
