//! The vocabulary shared by the machines and the code that drives them: what a
//! machine may ask of the graphics context or of the source loader, and what it
//! may be told in return.
use crate::text::ends_with;
use vstd::prelude::*;

verus! {

/// A stage of the pipeline that is compiled on its own.
#[derive(Clone, Copy, Debug, PartialEq, Eq, Structural)]
pub enum ShaderKind {
    Vertex,
    Fragment,
}

/// Reads the constant `gl::VERTEX_SHADER`. The contract states the value that
/// the bindings of the `gl` crate give it, which is the one that the registry
/// of the interface assigns to the vertex stage.
#[verifier::external_body]
fn vertex_shader_code() -> (code: u32)
    ensures
        code == 0x8B31,
{
    gl::VERTEX_SHADER
}

/// Reads the constant `gl::FRAGMENT_SHADER`. The contract states the value
/// that the bindings of the `gl` crate give it, which is the one that the
/// registry of the interface assigns to the fragment stage.
#[verifier::external_body]
fn fragment_shader_code() -> (code: u32)
    ensures
        code == 0x8B30,
{
    gl::FRAGMENT_SHADER
}

impl ShaderKind {
    /// The number by which the context knows the stage.
    pub open spec fn spec_code(self) -> u32 {
        match self {
            ShaderKind::Vertex => 0x8B31,
            ShaderKind::Fragment => 0x8B30,
        }
    }

    /// The number by which the context knows the stage: what is handed to it
    /// when a shader object of this stage is created.
    pub fn code(self) -> (code: u32)
        ensures
            code == self.spec_code(),
    {
        match self {
            ShaderKind::Vertex => vertex_shader_code(),
            ShaderKind::Fragment => fragment_shader_code(),
        }
    }

    /// The word for the stage, by which an error names it.
    pub open spec fn spec_label(self) -> Seq<char> {
        match self {
            ShaderKind::Vertex => "vertex"@,
            ShaderKind::Fragment => "fragment"@,
        }
    }

    /// The word for the stage, by which an error names it.
    pub fn label(self) -> (label: &'static str)
        ensures
            label@ == self.spec_label(),
    {
        match self {
            ShaderKind::Vertex => "vertex",
            ShaderKind::Fragment => "fragment",
        }
    }

    /// The suffix that the name of a source of this stage ends in.
    pub open spec fn spec_suffix(self) -> Seq<char> {
        match self {
            ShaderKind::Vertex => ".vert"@,
            ShaderKind::Fragment => ".frag"@,
        }
    }

    /// The stage that `name` tells by its suffix: the first one, vertex before
    /// fragment, whose suffix `name` ends in.
    pub open spec fn spec_of_name(name: Seq<char>) -> Option<ShaderKind> {
        if ShaderKind::Vertex.spec_suffix().is_suffix_of(name) {
            Some(ShaderKind::Vertex)
        } else if ShaderKind::Fragment.spec_suffix().is_suffix_of(name) {
            Some(ShaderKind::Fragment)
        } else {
            None
        }
    }

    /// The suffix that the name of a source of this stage ends in.
    pub fn suffix(self) -> (suffix: &'static str)
        ensures
            suffix@ == self.spec_suffix(),
    {
        match self {
            ShaderKind::Vertex => ".vert",
            ShaderKind::Fragment => ".frag",
        }
    }

    /// Tells the stage of a source from its name, and tells nothing where the
    /// name ends in no known suffix: there is no stage by default.
    pub fn of_name(name: &str) -> (kind: Option<ShaderKind>)
        ensures
            kind == ShaderKind::spec_of_name(name@),
    {
        if ends_with(name, ShaderKind::Vertex.suffix()) {
            Some(ShaderKind::Vertex)
        } else if ends_with(name, ShaderKind::Fragment.suffix()) {
            Some(ShaderKind::Fragment)
        } else {
            None
        }
    }
}

/// Why the loader could not produce the bytes of a source. The machines never
/// look inside; they hand the value on as they received it.
#[derive(Debug, PartialEq, Eq)]
pub struct LoadError {
    pub reason: String,
}

impl View for LoadError {
    type V = Seq<char>;

    open spec fn view(&self) -> Seq<char> {
        self.reason@
    }
}

/// One operation for the caller to perform: the first on the source loader, the
/// others on the graphics context.
#[derive(Clone, Debug, PartialEq, Eq)]
#[must_use]
pub enum Request {
    /// Load the bytes of the source called `name`.
    LoadSource { name: String },
    /// Allocate a shader object of the stage `kind`.
    CreateShader { kind: ShaderKind },
    /// Replace the source of `shader` by `source`, all of it and nothing more.
    ShaderSource { shader: u32, source: Vec<u8> },
    CompileShader { shader: u32 },
    /// Read the compile status of `shader`; zero means rejected.
    GetCompileStatus { shader: u32 },
    /// Read the length of the diagnostic log of `shader`.
    GetShaderLogLength { shader: u32 },
    /// Read the diagnostic log of `shader` into a buffer of `len` bytes.
    GetShaderLog { shader: u32, len: i32 },
    DeleteShader { shader: u32 },
    /// Allocate a program object.
    CreateProgram,
    AttachShader { program: u32, shader: u32 },
    LinkProgram { program: u32 },
    /// Read the link status of `program`; zero means rejected.
    GetLinkStatus { program: u32 },
    /// Read the length of the diagnostic log of `program`.
    GetProgramLogLength { program: u32 },
    /// Read the diagnostic log of `program` into a buffer of `len` bytes.
    GetProgramLog { program: u32, len: i32 },
    DetachShader { program: u32, shader: u32 },
    DeleteProgram { program: u32 },
    /// Make `program` the one that draw calls run.
    UseProgram { program: u32 },
}

/// The mathematical content of a [`Request`].
pub enum RequestView {
    LoadSource { name: Seq<char> },
    CreateShader { kind: ShaderKind },
    ShaderSource { shader: u32, source: Seq<u8> },
    CompileShader { shader: u32 },
    GetCompileStatus { shader: u32 },
    GetShaderLogLength { shader: u32 },
    GetShaderLog { shader: u32, len: i32 },
    DeleteShader { shader: u32 },
    CreateProgram,
    AttachShader { program: u32, shader: u32 },
    LinkProgram { program: u32 },
    GetLinkStatus { program: u32 },
    GetProgramLogLength { program: u32 },
    GetProgramLog { program: u32, len: i32 },
    DetachShader { program: u32, shader: u32 },
    DeleteProgram { program: u32 },
    UseProgram { program: u32 },
}

impl View for Request {
    type V = RequestView;

    open spec fn view(&self) -> RequestView {
        match *self {
            Request::LoadSource { name } => RequestView::LoadSource { name: name@ },
            Request::CreateShader { kind } => RequestView::CreateShader { kind },
            Request::ShaderSource { shader, source } => RequestView::ShaderSource {
                shader,
                source: source@,
            },
            Request::CompileShader { shader } => RequestView::CompileShader { shader },
            Request::GetCompileStatus { shader } => RequestView::GetCompileStatus { shader },
            Request::GetShaderLogLength { shader } => RequestView::GetShaderLogLength { shader },
            Request::GetShaderLog { shader, len } => RequestView::GetShaderLog { shader, len },
            Request::DeleteShader { shader } => RequestView::DeleteShader { shader },
            Request::CreateProgram => RequestView::CreateProgram,
            Request::AttachShader { program, shader } => RequestView::AttachShader {
                program,
                shader,
            },
            Request::LinkProgram { program } => RequestView::LinkProgram { program },
            Request::GetLinkStatus { program } => RequestView::GetLinkStatus { program },
            Request::GetProgramLogLength { program } => RequestView::GetProgramLogLength {
                program,
            },
            Request::GetProgramLog { program, len } => RequestView::GetProgramLog { program, len },
            Request::DetachShader { program, shader } => RequestView::DetachShader {
                program,
                shader,
            },
            Request::DeleteProgram { program } => RequestView::DeleteProgram { program },
            Request::UseProgram { program } => RequestView::UseProgram { program },
        }
    }
}

/// What came back from performing a [`Request`].
#[derive(Debug, PartialEq, Eq)]
pub enum Reply {
    /// The operation returns nothing and has been performed.
    Done,
    /// The handle of the object that was allocated; zero if none was.
    Handle(u32),
    /// The integer that was read.
    Value(i32),
    /// The buffer that the log was read into.
    Log(Vec<u8>),
    /// The bytes of the source that was loaded.
    Source(Vec<u8>),
    /// The loader failed.
    LoadFailed(LoadError),
}

/// The mathematical content of a [`Reply`].
pub enum ReplyView {
    Done,
    Handle(u32),
    Value(i32),
    Log(Seq<u8>),
    Source(Seq<u8>),
    LoadFailed(Seq<char>),
}

impl View for Reply {
    type V = ReplyView;

    open spec fn view(&self) -> ReplyView {
        match *self {
            Reply::Done => ReplyView::Done,
            Reply::Handle(handle) => ReplyView::Handle(handle),
            Reply::Value(value) => ReplyView::Value(value),
            Reply::Log(bytes) => ReplyView::Log(bytes@),
            Reply::Source(bytes) => ReplyView::Source(bytes@),
            Reply::LoadFailed(cause) => ReplyView::LoadFailed(cause@),
        }
    }
}

/// Where a machine stands after it was given a reply.
#[derive(Debug)]
#[must_use]
pub enum Step<M, T, E> {
    /// The machine goes on: perform the request and resume the machine with the
    /// reply.
    Ask(M, Request),
    /// The machine is finished, and this is what it built or why it could not.
    Done(Result<T, E>),
    /// The reply does not answer the request that the machine is waiting on.
    /// The machine is handed back as it was.
    Refused(M),
}

/// The mathematical content of a [`Step`].
pub enum StepView<M, T, E> {
    Ask(M, RequestView),
    Done(Result<T, E>),
    Refused(M),
}

impl<M: View, T: View, E: View> View for Step<M, T, E> {
    type V = StepView<M::V, T::V, E::V>;

    open spec fn view(&self) -> StepView<M::V, T::V, E::V> {
        match *self {
            Step::Ask(machine, request) => StepView::Ask(machine@, request@),
            Step::Done(Ok(built)) => StepView::Done(Ok(built@)),
            Step::Done(Err(error)) => StepView::Done(Err(error@)),
            Step::Refused(machine) => StepView::Refused(machine@),
        }
    }
}

} // verus!
