//! A linked program: the object that owns its handle, and the two machines that
//! build it, from compiled shaders and from the name that its sources share.
use crate::error::{Error, ErrorView};
use crate::ledger::Ledger;
use crate::protocol::{Reply, ReplyView, Request, RequestView, ShaderKind, Step, StepView};
use crate::shader::{log_capacity, Shader, ShaderLoad, ShaderLoadView, ShaderView};
use crate::text::{decode_lossy, utf8_lossy};
use vstd::pervasive::unreached;
use vstd::prelude::*;
use vstd::string::*;

verus! {

/// A program object of the context that linked successfully. The value is the
/// only owner of its handle: it cannot be copied, and giving it up with
/// [`Program::release`] consumes it.
#[derive(Debug)]
#[must_use]
pub struct Program {
    id: u32,
}

/// The mathematical content of a [`Program`].
pub struct ProgramView {
    pub id: u32,
}

impl View for Program {
    type V = ProgramView;

    closed spec fn view(&self) -> ProgramView {
        ProgramView { id: self.id }
    }
}

/// The handles of `shaders`, in their order.
pub open spec fn handles(shaders: Seq<Shader>) -> Seq<u32> {
    Seq::new(shaders.len(), |i: int| shaders[i]@.id)
}

/// A link in flight. Each state is named after the reply it waits for; `next`
/// counts the units that have been asked to be attached, or detached, so far.
#[derive(Debug)]
pub enum Linkage {
    /// Asked for a program object.
    AwaitHandle { units: Vec<u32> },
    /// Asked for a unit to be attached.
    Attaching { program: u32, units: Vec<u32>, next: usize },
    /// Every unit is attached; asked for the link.
    AwaitLink { program: u32, units: Vec<u32> },
    /// Asked whether the link succeeded.
    AwaitStatus { program: u32, units: Vec<u32> },
    /// The link succeeded; asked for a unit to be detached.
    Detaching { program: u32, units: Vec<u32>, next: usize },
    /// The link failed; asked how long the log is.
    AwaitLogLength { program: u32 },
    /// Asked for the log.
    AwaitLog { program: u32 },
    /// Asked for the failed object to be deleted.
    AwaitRelease { message: String },
}

/// The mathematical content of a [`Linkage`].
pub enum LinkageView {
    AwaitHandle { units: Seq<u32> },
    Attaching { program: u32, units: Seq<u32>, next: nat },
    AwaitLink { program: u32, units: Seq<u32> },
    AwaitStatus { program: u32, units: Seq<u32> },
    Detaching { program: u32, units: Seq<u32>, next: nat },
    AwaitLogLength { program: u32 },
    AwaitLog { program: u32 },
    AwaitRelease { message: Seq<char> },
}

impl View for Linkage {
    type V = LinkageView;

    open spec fn view(&self) -> LinkageView {
        match *self {
            Linkage::AwaitHandle { units } => LinkageView::AwaitHandle { units: units@ },
            Linkage::Attaching { program, units, next } => LinkageView::Attaching {
                program,
                units: units@,
                next: next as nat,
            },
            Linkage::AwaitLink { program, units } => LinkageView::AwaitLink {
                program,
                units: units@,
            },
            Linkage::AwaitStatus { program, units } => LinkageView::AwaitStatus {
                program,
                units: units@,
            },
            Linkage::Detaching { program, units, next } => LinkageView::Detaching {
                program,
                units: units@,
                next: next as nat,
            },
            Linkage::AwaitLogLength { program } => LinkageView::AwaitLogLength { program },
            Linkage::AwaitLog { program } => LinkageView::AwaitLog { program },
            Linkage::AwaitRelease { message } => LinkageView::AwaitRelease { message: message@ },
        }
    }
}

impl Linkage {
    /// With `next` units attached: attach the one after them, or, where there is
    /// none, link.
    pub open spec fn spec_attach_from(program: u32, units: Seq<u32>, next: nat) -> StepView<
        LinkageView,
        ProgramView,
        Seq<char>,
    > {
        if next < units.len() {
            StepView::Ask(
                LinkageView::Attaching { program, units, next: next + 1 },
                RequestView::AttachShader { program, shader: units[next as int] },
            )
        } else {
            StepView::Ask(
                LinkageView::AwaitLink { program, units },
                RequestView::LinkProgram { program },
            )
        }
    }

    /// With `next` units detached: detach the one after them, or, where there is
    /// none, finish with the program.
    pub open spec fn spec_detach_from(program: u32, units: Seq<u32>, next: nat) -> StepView<
        LinkageView,
        ProgramView,
        Seq<char>,
    > {
        if next < units.len() {
            StepView::Ask(
                LinkageView::Detaching { program, units, next: next + 1 },
                RequestView::DetachShader { program, shader: units[next as int] },
            )
        } else {
            StepView::Done(Ok(ProgramView { id: program }))
        }
    }

    /// The transition of a link: create, attach every unit in order, link, read
    /// the status. A successful link has every unit detached, in the same order,
    /// and ends with the program. A failed one has its log read at the length
    /// reported, its object deleted, and ends with the log as the message.
    pub open spec fn spec_resume(state: LinkageView, reply: ReplyView) -> StepView<
        LinkageView,
        ProgramView,
        Seq<char>,
    > {
        match (state, reply) {
            (LinkageView::AwaitHandle { units }, ReplyView::Handle(program)) => {
                Linkage::spec_attach_from(program, units, 0)
            },
            (LinkageView::Attaching { program, units, next }, ReplyView::Done) => {
                Linkage::spec_attach_from(program, units, next)
            },
            (LinkageView::AwaitLink { program, units }, ReplyView::Done) => StepView::Ask(
                LinkageView::AwaitStatus { program, units },
                RequestView::GetLinkStatus { program },
            ),
            (LinkageView::AwaitStatus { program, units }, ReplyView::Value(status)) => {
                if status != 0 {
                    Linkage::spec_detach_from(program, units, 0)
                } else {
                    StepView::Ask(
                        LinkageView::AwaitLogLength { program },
                        RequestView::GetProgramLogLength { program },
                    )
                }
            },
            (LinkageView::Detaching { program, units, next }, ReplyView::Done) => {
                Linkage::spec_detach_from(program, units, next)
            },
            (LinkageView::AwaitLogLength { program }, ReplyView::Value(reported)) => {
                StepView::Ask(
                    LinkageView::AwaitLog { program },
                    RequestView::GetProgramLog { program, len: log_capacity(reported) },
                )
            },
            (LinkageView::AwaitLog { program }, ReplyView::Log(bytes)) => StepView::Ask(
                LinkageView::AwaitRelease { message: utf8_lossy(bytes) },
                RequestView::DeleteProgram { program },
            ),
            (LinkageView::AwaitRelease { message }, ReplyView::Done) => StepView::Done(
                Err(message),
            ),
            _ => StepView::Refused(state),
        }
    }

    fn begin(units: Vec<u32>) -> (first: Step<Linkage, Program, String>)
        ensures
            first@ == Program::spec_from_shaders(units@),
    {
        Step::Ask(Linkage::AwaitHandle { units }, Request::CreateProgram)
    }

    fn attach_from(program: u32, units: Vec<u32>, next: usize) -> (step: Step<
        Linkage,
        Program,
        String,
    >)
        ensures
            step@ == Linkage::spec_attach_from(program, units@, next as nat),
    {
        if next < units.len() {
            let shader: u32 = units[next];
            Step::Ask(
                Linkage::Attaching { program, units, next: next + 1 },
                Request::AttachShader { program, shader },
            )
        } else {
            Step::Ask(Linkage::AwaitLink { program, units }, Request::LinkProgram { program })
        }
    }

    fn detach_from(program: u32, units: Vec<u32>, next: usize) -> (step: Step<
        Linkage,
        Program,
        String,
    >)
        ensures
            step@ == Linkage::spec_detach_from(program, units@, next as nat),
    {
        if next < units.len() {
            let shader: u32 = units[next];
            Step::Ask(
                Linkage::Detaching { program, units, next: next + 1 },
                Request::DetachShader { program, shader },
            )
        } else {
            Step::Done(Ok(Program { id: program }))
        }
    }

    /// Takes the reply to the request that this link last asked, and answers
    /// with the next request, with the program, or with the linker's message.
    pub fn resume(self, reply: Reply) -> (step: Step<Linkage, Program, String>)
        ensures
            step@ == Linkage::spec_resume(self@, reply@),
    {
        match self {
            Linkage::AwaitHandle { units } => match reply {
                Reply::Handle(program) => Linkage::attach_from(program, units, 0),
                _ => Step::Refused(Linkage::AwaitHandle { units }),
            },
            Linkage::Attaching { program, units, next } => match reply {
                Reply::Done => Linkage::attach_from(program, units, next),
                _ => Step::Refused(Linkage::Attaching { program, units, next }),
            },
            Linkage::AwaitLink { program, units } => match reply {
                Reply::Done => Step::Ask(
                    Linkage::AwaitStatus { program, units },
                    Request::GetLinkStatus { program },
                ),
                _ => Step::Refused(Linkage::AwaitLink { program, units }),
            },
            Linkage::AwaitStatus { program, units } => match reply {
                Reply::Value(status) => {
                    if status != 0 {
                        Linkage::detach_from(program, units, 0)
                    } else {
                        Step::Ask(
                            Linkage::AwaitLogLength { program },
                            Request::GetProgramLogLength { program },
                        )
                    }
                },
                _ => Step::Refused(Linkage::AwaitStatus { program, units }),
            },
            Linkage::Detaching { program, units, next } => match reply {
                Reply::Done => Linkage::detach_from(program, units, next),
                _ => Step::Refused(Linkage::Detaching { program, units, next }),
            },
            Linkage::AwaitLogLength { program } => match reply {
                Reply::Value(reported) => {
                    let len: i32 = if reported > 0 {
                        reported
                    } else {
                        0
                    };
                    Step::Ask(
                        Linkage::AwaitLog { program },
                        Request::GetProgramLog { program, len },
                    )
                },
                _ => Step::Refused(Linkage::AwaitLogLength { program }),
            },
            Linkage::AwaitLog { program } => match reply {
                Reply::Log(bytes) => {
                    let message = decode_lossy(bytes.as_slice());
                    Step::Ask(
                        Linkage::AwaitRelease { message },
                        Request::DeleteProgram { program },
                    )
                },
                _ => Step::Refused(Linkage::AwaitLog { program }),
            },
            Linkage::AwaitRelease { message } => match reply {
                Reply::Done => Step::Done(Err(message)),
                _ => Step::Refused(Linkage::AwaitRelease { message }),
            },
        }
    }
}

/// The name of the source of the stage `kind` of the program called `name`.
pub open spec fn stage_name(name: Seq<char>, kind: ShaderKind) -> Seq<char> {
    name + kind.spec_suffix()
}

/// The name of a stage's source tells that stage: whatever the program is
/// called, the suffix that was appended is the one that is found again.
pub proof fn lemma_stage_name_tells_stage(name: Seq<char>, kind: ShaderKind)
    ensures
        ShaderKind::spec_of_name(stage_name(name, kind)) == Some(kind),
{
    reveal_strlit(".vert");
    reveal_strlit(".frag");
    let full = stage_name(name, kind);
    let suffix = kind.spec_suffix();
    assert(suffix.len() == 5);
    assert(full.subrange(full.len() - 5, full.len() as int) =~= suffix);
    assert(full[full.len() - 1] == suffix[4]);
}

/// A program being built from the name that its sources share: the vertex
/// stage is loaded and compiled, then the fragment stage, then the two are
/// linked, and at the end the two shaders are given up again, whatever came of
/// the link.
#[derive(Debug)]
pub enum ProgramLoad {
    /// The vertex stage is being built.
    Vertex { name: String, inner: ShaderLoad },
    /// The vertex stage is there; the fragment stage is being built.
    Fragment { name: String, vertex: Shader, inner: ShaderLoad },
    /// Both stages are there and are being linked.
    Linking { name: String, vertex: Shader, fragment: Shader, link: Linkage },
    /// The outcome is known; asked for the vertex shader to be deleted.
    ReleasingVertex { fragment: Shader, outcome: Result<Program, Error> },
    /// Asked for the last shader to be deleted.
    Finishing { outcome: Result<Program, Error> },
}

/// The mathematical content of a [`ProgramLoad`].
pub enum ProgramLoadView {
    Vertex { name: Seq<char>, inner: ShaderLoadView },
    Fragment { name: Seq<char>, vertex: ShaderView, inner: ShaderLoadView },
    Linking { name: Seq<char>, vertex: ShaderView, fragment: ShaderView, link: LinkageView },
    ReleasingVertex { fragment: ShaderView, outcome: Result<ProgramView, ErrorView> },
    Finishing { outcome: Result<ProgramView, ErrorView> },
}

/// The mathematical content of the outcome of a load.
pub open spec fn outcome_view(outcome: Result<Program, Error>) -> Result<
    ProgramView,
    ErrorView,
> {
    match outcome {
        Ok(program) => Ok(program@),
        Err(error) => Err(error@),
    }
}

impl View for ProgramLoad {
    type V = ProgramLoadView;

    open spec fn view(&self) -> ProgramLoadView {
        match *self {
            ProgramLoad::Vertex { name, inner } => ProgramLoadView::Vertex {
                name: name@,
                inner: inner@,
            },
            ProgramLoad::Fragment { name, vertex, inner } => ProgramLoadView::Fragment {
                name: name@,
                vertex: vertex@,
                inner: inner@,
            },
            ProgramLoad::Linking { name, vertex, fragment, link } => ProgramLoadView::Linking {
                name: name@,
                vertex: vertex@,
                fragment: fragment@,
                link: link@,
            },
            ProgramLoad::ReleasingVertex { fragment, outcome } => {
                ProgramLoadView::ReleasingVertex {
                    fragment: fragment@,
                    outcome: outcome_view(outcome),
                }
            },
            ProgramLoad::Finishing { outcome } => ProgramLoadView::Finishing {
                outcome: outcome_view(outcome),
            },
        }
    }
}

impl ProgramLoad {
    /// The load of one stage's source, and the request that begins it.
    pub open spec fn spec_stage(name: Seq<char>, kind: ShaderKind) -> (
        ShaderLoadView,
        RequestView,
    ) {
        (
            ShaderLoadView::AwaitBytes { name: stage_name(name, kind), kind },
            RequestView::LoadSource { name: stage_name(name, kind) },
        )
    }

    /// The outcome of the load, given that of the link: the program, or the
    /// linker's message under the name of the program.
    pub open spec fn spec_linked(name: Seq<char>, linked: Result<ProgramView, Seq<char>>) -> Result<
        ProgramView,
        ErrorView,
    > {
        match linked {
            Ok(program) => Ok(program),
            Err(message) => Err(ErrorView::LinkError { name, message }),
        }
    }

    /// The transition of a load. While a stage is being built or the link is
    /// running, the load does what that machine does. A vertex stage that fails
    /// ends the load with its error. A fragment stage that fails has the vertex
    /// shader deleted before the load ends with its error; no program object
    /// has been asked for then. When the link is over, with a program or not,
    /// the vertex shader and then the fragment shader are deleted, and the load
    /// ends with what the link gave.
    pub open spec fn spec_resume(state: ProgramLoadView, reply: ReplyView) -> StepView<
        ProgramLoadView,
        ProgramView,
        ErrorView,
    > {
        match state {
            ProgramLoadView::Vertex { name, inner } => match ShaderLoad::spec_resume(
                inner,
                reply,
            ) {
                StepView::Ask(next, request) => StepView::Ask(
                    ProgramLoadView::Vertex { name, inner: next },
                    request,
                ),
                StepView::Done(Ok(vertex)) => StepView::Ask(
                    ProgramLoadView::Fragment {
                        name,
                        vertex,
                        inner: ProgramLoad::spec_stage(name, ShaderKind::Fragment).0,
                    },
                    ProgramLoad::spec_stage(name, ShaderKind::Fragment).1,
                ),
                StepView::Done(Err(error)) => StepView::Done(Err(error)),
                StepView::Refused(same) => StepView::Refused(
                    ProgramLoadView::Vertex { name, inner: same },
                ),
            },
            ProgramLoadView::Fragment { name, vertex, inner } => match ShaderLoad::spec_resume(
                inner,
                reply,
            ) {
                StepView::Ask(next, request) => StepView::Ask(
                    ProgramLoadView::Fragment { name, vertex, inner: next },
                    request,
                ),
                StepView::Done(Ok(fragment)) => StepView::Ask(
                    ProgramLoadView::Linking {
                        name,
                        vertex,
                        fragment,
                        link: LinkageView::AwaitHandle { units: seq![vertex.id, fragment.id] },
                    },
                    RequestView::CreateProgram,
                ),
                StepView::Done(Err(error)) => StepView::Ask(
                    ProgramLoadView::Finishing { outcome: Err(error) },
                    RequestView::DeleteShader { shader: vertex.id },
                ),
                StepView::Refused(same) => StepView::Refused(
                    ProgramLoadView::Fragment { name, vertex, inner: same },
                ),
            },
            ProgramLoadView::Linking { name, vertex, fragment, link } => {
                match Linkage::spec_resume(link, reply) {
                    StepView::Ask(next, request) => StepView::Ask(
                        ProgramLoadView::Linking { name, vertex, fragment, link: next },
                        request,
                    ),
                    StepView::Done(linked) => StepView::Ask(
                        ProgramLoadView::ReleasingVertex {
                            fragment,
                            outcome: ProgramLoad::spec_linked(name, linked),
                        },
                        RequestView::DeleteShader { shader: vertex.id },
                    ),
                    StepView::Refused(same) => StepView::Refused(
                        ProgramLoadView::Linking { name, vertex, fragment, link: same },
                    ),
                }
            },
            ProgramLoadView::ReleasingVertex { fragment, outcome } => match reply {
                ReplyView::Done => StepView::Ask(
                    ProgramLoadView::Finishing { outcome },
                    RequestView::DeleteShader { shader: fragment.id },
                ),
                _ => StepView::Refused(state),
            },
            ProgramLoadView::Finishing { outcome } => match reply {
                ReplyView::Done => StepView::Done(outcome),
                _ => StepView::Refused(state),
            },
        }
    }

    fn stage(name: &str, kind: ShaderKind) -> (begun: (ShaderLoad, Request))
        ensures
            (begun.0@, begun.1@) == ProgramLoad::spec_stage(name@, kind),
    {
        let path = String::from_str(name).concat(kind.suffix());
        proof {
            lemma_stage_name_tells_stage(name@, kind);
        }
        match Shader::from_res(path.as_str()) {
            Step::Ask(load, request) => (load, request),
            _ => unreached(),
        }
    }

    /// Takes the reply to the request that this load last asked, and answers
    /// with the next request, with the program, or with the error.
    pub fn resume(self, reply: Reply) -> (step: Step<ProgramLoad, Program, Error>)
        ensures
            step@ == ProgramLoad::spec_resume(self@, reply@),
    {
        match self {
            ProgramLoad::Vertex { name, inner } => match inner.resume(reply) {
                Step::Ask(next, request) => Step::Ask(
                    ProgramLoad::Vertex { name, inner: next },
                    request,
                ),
                Step::Done(Ok(vertex)) => {
                    let (load, request) = ProgramLoad::stage(name.as_str(), ShaderKind::Fragment);
                    Step::Ask(ProgramLoad::Fragment { name, vertex, inner: load }, request)
                },
                Step::Done(Err(error)) => Step::Done(Err(error)),
                Step::Refused(same) => Step::Refused(ProgramLoad::Vertex { name, inner: same }),
            },
            ProgramLoad::Fragment { name, vertex, inner } => match inner.resume(reply) {
                Step::Ask(next, request) => Step::Ask(
                    ProgramLoad::Fragment { name, vertex, inner: next },
                    request,
                ),
                Step::Done(Ok(fragment)) => {
                    let mut units: Vec<u32> = Vec::new();
                    units.push(vertex.id());
                    units.push(fragment.id());
                    assert(units@ =~= seq![vertex@.id, fragment@.id]);
                    match Linkage::begin(units) {
                        Step::Ask(link, request) => Step::Ask(
                            ProgramLoad::Linking { name, vertex, fragment, link },
                            request,
                        ),
                        _ => unreached(),
                    }
                },
                Step::Done(Err(error)) => Step::Ask(
                    ProgramLoad::Finishing { outcome: Err(error) },
                    vertex.release(),
                ),
                Step::Refused(same) => Step::Refused(
                    ProgramLoad::Fragment { name, vertex, inner: same },
                ),
            },
            ProgramLoad::Linking { name, vertex, fragment, link } => match link.resume(reply) {
                Step::Ask(next, request) => Step::Ask(
                    ProgramLoad::Linking { name, vertex, fragment, link: next },
                    request,
                ),
                Step::Done(linked) => {
                    let outcome = match linked {
                        Ok(program) => Ok(program),
                        Err(message) => Err(Error::LinkError { name, message }),
                    };
                    Step::Ask(
                        ProgramLoad::ReleasingVertex { fragment, outcome },
                        vertex.release(),
                    )
                },
                Step::Refused(same) => Step::Refused(
                    ProgramLoad::Linking { name, vertex, fragment, link: same },
                ),
            },
            ProgramLoad::ReleasingVertex { fragment, outcome } => match reply {
                Reply::Done => Step::Ask(ProgramLoad::Finishing { outcome }, fragment.release()),
                _ => Step::Refused(ProgramLoad::ReleasingVertex { fragment, outcome }),
            },
            ProgramLoad::Finishing { outcome } => match reply {
                Reply::Done => Step::Done(outcome),
                _ => Step::Refused(ProgramLoad::Finishing { outcome }),
            },
        }
    }
}

impl Program {
    /// How a link of the shaders with the handles `units` begins: by asking the
    /// context for a program object.
    pub open spec fn spec_from_shaders(units: Seq<u32>) -> StepView<
        LinkageView,
        ProgramView,
        Seq<char>,
    > {
        StepView::Ask(LinkageView::AwaitHandle { units }, RequestView::CreateProgram)
    }

    /// How the load of the program called `name` begins: by asking the loader
    /// for the source of the vertex stage.
    pub open spec fn spec_from_res(name: Seq<char>) -> StepView<
        ProgramLoadView,
        ProgramView,
        ErrorView,
    > {
        StepView::Ask(
            ProgramLoadView::Vertex {
                name,
                inner: ProgramLoad::spec_stage(name, ShaderKind::Vertex).0,
            },
            ProgramLoad::spec_stage(name, ShaderKind::Vertex).1,
        )
    }

    /// The handle of the program object.
    pub fn id(&self) -> (id: u32)
        ensures
            id == self@.id,
    {
        self.id
    }

    /// The request that makes this program the one that draw calls run.
    pub fn use_it(&self) -> (request: Request)
        ensures
            request@ == (RequestView::UseProgram { program: self@.id }),
    {
        Request::UseProgram { program: self.id }
    }

    /// Begins building the program called `name` from the sources of its two
    /// stages, which are called `name` with the suffix of the stage.
    pub fn from_res(name: &str) -> (first: Step<ProgramLoad, Program, Error>)
        ensures
            first@ == Program::spec_from_res(name@),
    {
        let (load, request) = ProgramLoad::stage(name, ShaderKind::Vertex);
        Step::Ask(ProgramLoad::Vertex { name: name.to_owned(), inner: load }, request)
    }

    /// Begins linking `shaders`, in their order, into a new program. The
    /// shaders stay with the caller, who may give them up once the link is over.
    pub fn from_shaders(shaders: &[Shader]) -> (first: Step<Linkage, Program, String>)
        ensures
            first@ == Program::spec_from_shaders(handles(shaders@)),
    {
        let mut units: Vec<u32> = Vec::new();
        let mut i: usize = 0;
        while i < shaders.len()
            invariant
                i <= shaders.len(),
                units@.len() == i,
                forall|j: int| 0 <= j < i ==> units@[j] == shaders@[j]@.id,
            decreases shaders.len() - i,
        {
            units.push(shaders[i].id());
            i = i + 1;
        }
        assert(units@ =~= handles(shaders@));
        Linkage::begin(units)
    }

    /// Gives the program up: the request that deletes its object. The value is
    /// consumed, so the object is deleted once.
    pub fn release(self) -> (request: Request)
        ensures
            request@ == (RequestView::DeleteProgram { program: self@.id }),
    {
        Request::DeleteProgram { program: self.id }
    }
}

/// Making a program current twice in a row leaves the context as making it
/// current once does.
pub proof fn lemma_use_it_is_idempotent(program: ProgramView, ledger: Ledger)
    ensures
        ({
            let activate = RequestView::UseProgram { program: program.id };
            let once = ledger.apply(activate, ReplyView::Done);
            once.apply(activate, ReplyView::Done) == once
        }),
{
}

/// Giving up a shader deletes that one shader object and touches nothing else.
pub proof fn lemma_release_frees_one_shader(shader: ShaderView, ledger: Ledger)
    requires
        ledger.shaders.contains(shader.id),
    ensures
        ({
            let release = RequestView::DeleteShader { shader: shader.id };
            &&& ledger.admits(release)
            &&& ledger.apply(release, ReplyView::Done) == (Ledger {
                shaders: ledger.shaders.remove(shader.id),
                ..ledger
            })
        }),
{
}

/// Giving up a program takes that one program object from its user and
/// touches nothing else. Where the program is the current one, the context
/// keeps the object until another is made current.
pub proof fn lemma_release_frees_one_program(program: ProgramView, ledger: Ledger)
    requires
        ledger.programs.dom().contains(program.id),
    ensures
        ({
            let release = RequestView::DeleteProgram { program: program.id };
            &&& ledger.admits(release)
            &&& ledger.apply(release, ReplyView::Done) == (Ledger {
                programs: ledger.programs.remove(program.id),
                lingering: ledger.lingering || program.id == ledger.current,
                ..ledger
            })
        }),
{
}

/// A shader and a program may be given up in either order: whichever goes
/// first, the other still names an object that exists when its turn comes, and
/// the context ends up holding the same.
pub proof fn lemma_release_order_is_free(shader: ShaderView, program: ProgramView, ledger: Ledger)
    requires
        ledger.shaders.contains(shader.id),
        ledger.programs.dom().contains(program.id),
    ensures
        ({
            let unit = RequestView::DeleteShader { shader: shader.id };
            let whole = RequestView::DeleteProgram { program: program.id };
            &&& ledger.apply(unit, ReplyView::Done).admits(whole)
            &&& ledger.apply(whole, ReplyView::Done).admits(unit)
            &&& ledger.apply(unit, ReplyView::Done).apply(whole, ReplyView::Done) == ledger.apply(
                whole,
                ReplyView::Done,
            ).apply(unit, ReplyView::Done)
        }),
{
}

/// Once an object has been given up its handle names nothing: a second
/// deletion would name an object that does not exist. This is why giving up
/// consumes the owner.
pub proof fn lemma_released_handle_names_nothing(
    shader: ShaderView,
    program: ProgramView,
    ledger: Ledger,
)
    requires
        shader.id != 0,
        program.id != 0,
    ensures
        ({
            let unit = RequestView::DeleteShader { shader: shader.id };
            let whole = RequestView::DeleteProgram { program: program.id };
            &&& !ledger.apply(unit, ReplyView::Done).admits(unit)
            &&& !ledger.apply(whole, ReplyView::Done).admits(whole)
        }),
{
}

/// What a context holds once three requests have been performed in a row, and
/// whether each of them named only what existed at its moment.
pub open spec fn after_three(
    ledger: Ledger,
    first: RequestView,
    second: RequestView,
    third: RequestView,
) -> (Ledger, bool) {
    let one = ledger.apply(first, ReplyView::Done);
    let two = one.apply(second, ReplyView::Done);
    (
        two.apply(third, ReplyView::Done),
        ledger.admits(first) && one.admits(second) && two.admits(third),
    )
}

/// A program and the two shaders it was linked from may be given up in any
/// order. Whichever the order, no deletion names an object that has been
/// deleted before, the context ends up holding the same, and the current
/// program, this one or another, is never a freed object.
pub proof fn lemma_owners_drop_in_any_order(
    vertex: ShaderView,
    fragment: ShaderView,
    program: ProgramView,
    ledger: Ledger,
)
    requires
        ledger.shaders.contains(vertex.id),
        ledger.shaders.contains(fragment.id),
        vertex.id != fragment.id,
        ledger.programs.dom().contains(program.id),
        ledger.current_is_held(),
    ensures
        ({
            let v = RequestView::DeleteShader { shader: vertex.id };
            let f = RequestView::DeleteShader { shader: fragment.id };
            let p = RequestView::DeleteProgram { program: program.id };
            let end = Ledger {
                shaders: ledger.shaders.remove(vertex.id).remove(fragment.id),
                programs: ledger.programs.remove(program.id),
                lingering: ledger.lingering || program.id == ledger.current,
                ..ledger
            };
            &&& end.current_is_held()
            &&& after_three(ledger, v, f, p) == (end, true)
            &&& after_three(ledger, v, p, f) == (end, true)
            &&& after_three(ledger, f, v, p) == (end, true)
            &&& after_three(ledger, f, p, v) == (end, true)
            &&& after_three(ledger, p, v, f) == (end, true)
            &&& after_three(ledger, p, f, v) == (end, true)
        }),
{
    assert(ledger.shaders.remove(vertex.id).remove(fragment.id) =~= ledger.shaders.remove(
        fragment.id,
    ).remove(vertex.id));
}

/// A program that is given up while it is the current one is not freed under
/// the draw calls: the context holds the object for as long as it is current,
/// though its user can no longer name it, and frees it when another program is
/// made current.
pub proof fn lemma_current_program_outlives_its_owner(
    program: ProgramView,
    next: ProgramView,
    ledger: Ledger,
)
    requires
        ledger.programs.dom().contains(program.id),
        ledger.programs.dom().contains(next.id),
        program.id != 0,
        program.id != next.id,
        ledger.current == program.id,
    ensures
        ({
            let released = ledger.apply(
                RequestView::DeleteProgram { program: program.id },
                ReplyView::Done,
            );
            let replaced = released.apply(
                RequestView::UseProgram { program: next.id },
                ReplyView::Done,
            );
            &&& released.current == program.id
            &&& released.holds_program(program.id)
            &&& released.current_is_held()
            &&& !released.admits(RequestView::UseProgram { program: program.id })
            &&& replaced.current == next.id
            &&& replaced.current_is_held()
            &&& !replaced.holds_program(program.id)
        }),
{
}

} // verus!
