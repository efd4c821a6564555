use gl_render::error::Error;
use gl_render::program::{Linkage, Program, ProgramLoad};
use gl_render::protocol::{LoadError, Reply, Request, ShaderKind, Step};
use gl_render::shader::{log_buffer, Compilation, Shader, ShaderLoad};

const VERTEX_SOURCE: &[u8] = b"#version 330 core\nvoid main() { gl_Position = vec4(0.0); }\n";
const FRAGMENT_SOURCE: &[u8] = b"#version 330 core\nout vec4 color;\nvoid main() { color = vec4(1.0); }\n";
const BROKEN_SOURCE: &[u8] = b"#version 330 core\nvoid main() { syntax error }\n";
const UNRESOLVED_SOURCE: &[u8] = b"#version 330 core\nvoid missing();\nvoid main() { missing(); }\n";
const COMPILE_LOG: &str = "0:2(15): error: syntax error";
const LINK_LOG: &str = "error: unresolved reference to function `missing'";

/// A context and a loader that live in memory. A source is rejected where it
/// holds the words "syntax error"; a link fails where an attached shader calls
/// what it does not define.
struct Context {
    files: Vec<(String, Vec<u8>)>,
    next_handle: u32,
    shaders: Vec<u32>,
    sources: Vec<(u32, Vec<u8>)>,
    programs: Vec<(u32, Vec<u32>)>,
    current: u32,
    lingering: bool,
    performed: Vec<Request>,
    faults: usize,
}

fn holds(haystack: &[u8], needle: &[u8]) -> bool {
    haystack.windows(needle.len()).any(|window| window == needle)
}

/// What a context leaves in the buffer that it was given for a log: the text
/// as far as there is room, a terminator, and the rest untouched.
fn written_log(text: &str, len: i32) -> Vec<u8> {
    let mut buffer = log_buffer(len);
    if !buffer.is_empty() {
        let room = buffer.len() - 1;
        let written = text.len().min(room);
        buffer[..written].copy_from_slice(&text.as_bytes()[..written]);
        buffer[written] = 0;
    }
    buffer
}

impl Context {
    fn new() -> Context {
        Context {
            files: Vec::new(),
            next_handle: 1,
            shaders: Vec::new(),
            sources: Vec::new(),
            programs: Vec::new(),
            current: 0,
            lingering: false,
            performed: Vec::new(),
            faults: 0,
        }
    }

    fn with_file(mut self, name: &str, bytes: &[u8]) -> Context {
        self.files.push((name.to_string(), bytes.to_vec()));
        self
    }

    fn source_of(&self, shader: u32) -> Vec<u8> {
        for (owner, bytes) in &self.sources {
            if *owner == shader {
                return bytes.clone();
            }
        }
        Vec::new()
    }

    fn attached_to(&self, program: u32) -> Option<Vec<u32>> {
        for (owner, units) in &self.programs {
            if *owner == program {
                return Some(units.clone());
            }
        }
        None
    }

    fn links(&self, program: u32) -> bool {
        match self.attached_to(program) {
            Some(units) => !units.iter().any(|unit| holds(&self.source_of(*unit), b"missing();")),
            None => false,
        }
    }

    fn perform(&mut self, request: &Request) -> Reply {
        self.performed.push(request.clone());
        match request {
            Request::LoadSource { name } => {
                for (file, bytes) in &self.files {
                    if file == name {
                        return Reply::Source(bytes.clone());
                    }
                }
                Reply::LoadFailed(LoadError { reason: format!("no such file: {}", name) })
            }
            Request::CreateShader { .. } => {
                let handle = self.next_handle;
                self.next_handle += 1;
                self.shaders.push(handle);
                Reply::Handle(handle)
            }
            Request::ShaderSource { shader, source } => {
                if self.shaders.contains(shader) {
                    self.sources.push((*shader, source.clone()));
                } else {
                    self.faults += 1;
                }
                Reply::Done
            }
            Request::CompileShader { shader } => {
                if !self.shaders.contains(shader) {
                    self.faults += 1;
                }
                Reply::Done
            }
            Request::GetCompileStatus { shader } => {
                if !self.shaders.contains(shader) {
                    self.faults += 1;
                }
                if holds(&self.source_of(*shader), b"syntax error") {
                    Reply::Value(0)
                } else {
                    Reply::Value(1)
                }
            }
            Request::GetShaderLogLength { shader } => {
                if !self.shaders.contains(shader) {
                    self.faults += 1;
                }
                Reply::Value(COMPILE_LOG.len() as i32 + 1)
            }
            Request::GetShaderLog { shader, len } => {
                if !self.shaders.contains(shader) {
                    self.faults += 1;
                }
                Reply::Log(written_log(COMPILE_LOG, *len))
            }
            Request::DeleteShader { shader } => {
                if self.shaders.contains(shader) {
                    self.shaders.retain(|live| live != shader);
                } else if *shader != 0 {
                    self.faults += 1;
                }
                Reply::Done
            }
            Request::CreateProgram => {
                let handle = self.next_handle;
                self.next_handle += 1;
                self.programs.push((handle, Vec::new()));
                Reply::Handle(handle)
            }
            Request::AttachShader { program, shader } => {
                let known = self.shaders.contains(shader);
                let mut done = false;
                for (owner, units) in self.programs.iter_mut() {
                    if owner == program && known && !units.contains(shader) {
                        units.push(*shader);
                        done = true;
                    }
                }
                if !done {
                    self.faults += 1;
                }
                Reply::Done
            }
            Request::LinkProgram { program } => {
                if self.attached_to(*program).is_none() {
                    self.faults += 1;
                }
                Reply::Done
            }
            Request::GetLinkStatus { program } => {
                if self.attached_to(*program).is_none() {
                    self.faults += 1;
                }
                if self.links(*program) {
                    Reply::Value(1)
                } else {
                    Reply::Value(0)
                }
            }
            Request::GetProgramLogLength { program } => {
                if self.attached_to(*program).is_none() {
                    self.faults += 1;
                }
                Reply::Value(LINK_LOG.len() as i32 + 1)
            }
            Request::GetProgramLog { program, len } => {
                if self.attached_to(*program).is_none() {
                    self.faults += 1;
                }
                Reply::Log(written_log(LINK_LOG, *len))
            }
            Request::DetachShader { program, shader } => {
                let mut done = false;
                for (owner, units) in self.programs.iter_mut() {
                    if owner == program && units.contains(shader) {
                        units.retain(|unit| unit != shader);
                        done = true;
                    }
                }
                if !done {
                    self.faults += 1;
                }
                Reply::Done
            }
            Request::DeleteProgram { program } => {
                if self.attached_to(*program).is_some() {
                    self.programs.retain(|(owner, _)| owner != program);
                    if *program == self.current {
                        self.lingering = true;
                    }
                } else if *program != 0 {
                    self.faults += 1;
                }
                Reply::Done
            }
            Request::UseProgram { program } => {
                if *program == 0 || self.attached_to(*program).is_some() {
                    self.current = *program;
                    self.lingering = false;
                } else {
                    self.faults += 1;
                }
                Reply::Done
            }
        }
    }

    fn holds_program(&self, program: u32) -> bool {
        self.attached_to(program).is_some() || (self.lingering && program == self.current)
    }

    fn live_programs(&self) -> Vec<u32> {
        self.programs.iter().map(|(owner, _)| *owner).collect()
    }
}

fn drive<M, T, E>(
    first: Step<M, T, E>,
    resume: fn(M, Reply) -> Step<M, T, E>,
    context: &mut Context,
) -> Result<T, E> {
    let mut step = first;
    loop {
        match step {
            Step::Ask(machine, request) => {
                let reply = context.perform(&request);
                step = resume(machine, reply);
            }
            Step::Done(outcome) => return outcome,
            Step::Refused(_) => panic!("the context answered out of turn"),
        }
    }
}

fn triangle_files() -> Context {
    Context::new()
        .with_file("shaders/triangle.vert", VERTEX_SOURCE)
        .with_file("shaders/triangle.frag", FRAGMENT_SOURCE)
}

fn compile_error_message() -> String {
    format!("{}\0", COMPILE_LOG)
}

fn link_error_message() -> String {
    format!("{}\0", LINK_LOG)
}

#[test]
fn accepted_source_becomes_a_shader() {
    let mut context = Context::new();
    let shader = drive(
        Shader::from_source(VERTEX_SOURCE.to_vec(), ShaderKind::Vertex),
        Compilation::resume,
        &mut context,
    )
    .unwrap();
    assert_eq!(shader.id(), 1);
    assert_eq!(shader.kind(), ShaderKind::Vertex);
    assert_eq!(context.shaders, vec![1]);
    assert_eq!(context.faults, 0);
    assert_eq!(
        context.performed,
        vec![
            Request::CreateShader { kind: ShaderKind::Vertex },
            Request::ShaderSource { shader: 1, source: VERTEX_SOURCE.to_vec() },
            Request::CompileShader { shader: 1 },
            Request::GetCompileStatus { shader: 1 },
        ]
    );
}

#[test]
fn fragment_source_is_created_as_a_fragment_stage() {
    let mut context = Context::new();
    let shader = drive(
        Shader::from_source(FRAGMENT_SOURCE.to_vec(), ShaderKind::Fragment),
        Compilation::resume,
        &mut context,
    )
    .unwrap();
    assert_eq!(shader.kind(), ShaderKind::Fragment);
    assert_eq!(context.performed[0], Request::CreateShader { kind: ShaderKind::Fragment });
}

#[test]
fn rejected_source_reports_the_log_and_leaks_nothing() {
    let mut context = Context::new();
    let before = context.shaders.len();
    let error = drive(
        Shader::from_source(BROKEN_SOURCE.to_vec(), ShaderKind::Fragment),
        Compilation::resume,
        &mut context,
    )
    .unwrap_err();
    assert_eq!(
        error,
        Error::CompileError { name: "fragment".to_string(), message: compile_error_message() }
    );
    match &error {
        Error::CompileError { message, .. } => assert!(!message.is_empty()),
        other => panic!("unexpected error {:?}", other),
    }
    assert_eq!(context.shaders.len(), before);
    assert_eq!(context.faults, 0);
    assert_eq!(
        context.performed,
        vec![
            Request::CreateShader { kind: ShaderKind::Fragment },
            Request::ShaderSource { shader: 1, source: BROKEN_SOURCE.to_vec() },
            Request::CompileShader { shader: 1 },
            Request::GetCompileStatus { shader: 1 },
            Request::GetShaderLogLength { shader: 1 },
            Request::GetShaderLog { shader: 1, len: COMPILE_LOG.len() as i32 + 1 },
            Request::DeleteShader { shader: 1 },
        ]
    );
}

fn await_log_length() -> Compilation {
    Compilation::AwaitLogLength { kind: ShaderKind::Vertex, shader: 9 }
}

#[test]
fn log_is_read_at_the_reported_length() {
    match await_log_length().resume(Reply::Value(4096)) {
        Step::Ask(_, request) => assert_eq!(request, Request::GetShaderLog { shader: 9, len: 4096 }),
        other => panic!("unexpected step {:?}", other),
    }
    match await_log_length().resume(Reply::Value(i32::MAX)) {
        Step::Ask(_, request) => {
            assert_eq!(request, Request::GetShaderLog { shader: 9, len: i32::MAX })
        }
        other => panic!("unexpected step {:?}", other),
    }
}

#[test]
fn log_of_no_length_is_read_into_an_empty_buffer() {
    match await_log_length().resume(Reply::Value(0)) {
        Step::Ask(_, request) => assert_eq!(request, Request::GetShaderLog { shader: 9, len: 0 }),
        other => panic!("unexpected step {:?}", other),
    }
    match await_log_length().resume(Reply::Value(-7)) {
        Step::Ask(_, request) => assert_eq!(request, Request::GetShaderLog { shader: 9, len: 0 }),
        other => panic!("unexpected step {:?}", other),
    }
    match (Linkage::AwaitLogLength { program: 3 }).resume(Reply::Value(i32::MIN)) {
        Step::Ask(_, request) => assert_eq!(request, Request::GetProgramLog { program: 3, len: 0 }),
        other => panic!("unexpected step {:?}", other),
    }
}

#[test]
fn log_that_is_not_utf8_is_decoded_with_replacements() {
    let machine = Compilation::AwaitLog { kind: ShaderKind::Vertex, shader: 5 };
    let machine = match machine.resume(Reply::Log(vec![b'a', b'b', 0xff, b'c'])) {
        Step::Ask(machine, request) => {
            assert_eq!(request, Request::DeleteShader { shader: 5 });
            machine
        }
        other => panic!("unexpected step {:?}", other),
    };
    match machine.resume(Reply::Done) {
        Step::Done(Err(error)) => assert_eq!(
            error,
            Error::CompileError { name: "vertex".to_string(), message: "ab\u{fffd}c".to_string() }
        ),
        other => panic!("unexpected step {:?}", other),
    }
}

#[test]
fn empty_log_gives_an_empty_message() {
    let machine = match (Linkage::AwaitLog { program: 2 }).resume(Reply::Log(Vec::new())) {
        Step::Ask(machine, request) => {
            assert_eq!(request, Request::DeleteProgram { program: 2 });
            machine
        }
        other => panic!("unexpected step {:?}", other),
    };
    match machine.resume(Reply::Done) {
        Step::Done(Err(message)) => assert_eq!(message, String::new()),
        other => panic!("unexpected step {:?}", other),
    }
}

#[test]
fn reply_out_of_turn_is_refused_and_the_machine_kept() {
    let machine = match Shader::from_source(vec![1, 2, 3], ShaderKind::Vertex) {
        Step::Ask(machine, _) => machine,
        other => panic!("unexpected step {:?}", other),
    };
    let machine = match machine.resume(Reply::Done) {
        Step::Refused(machine) => machine,
        other => panic!("unexpected step {:?}", other),
    };
    match machine.resume(Reply::Handle(4)) {
        Step::Ask(_, request) => {
            assert_eq!(request, Request::ShaderSource { shader: 4, source: vec![1, 2, 3] })
        }
        other => panic!("unexpected step {:?}", other),
    }
}

#[test]
fn load_refuses_a_reply_meant_for_the_context() {
    let machine = match Shader::from_res("a.vert") {
        Step::Ask(machine, _) => machine,
        other => panic!("unexpected step {:?}", other),
    };
    match machine.resume(Reply::Handle(1)) {
        Step::Refused(ShaderLoad::AwaitBytes { name, kind }) => {
            assert_eq!(name, "a.vert");
            assert_eq!(kind, ShaderKind::Vertex);
        }
        other => panic!("unexpected step {:?}", other),
    }
}

#[test]
fn name_without_a_known_suffix_never_reaches_the_context() {
    match Shader::from_res("shaders/triangle.glsl") {
        Step::Done(Err(error)) => assert_eq!(
            error,
            Error::UnknownShaderType {
                name: "shaders/triangle.glsl".to_string(),
                message: "failed to recognize shader extension".to_string(),
            }
        ),
        other => panic!("unexpected step {:?}", other),
    }
    match Shader::from_res("shaders/triangle") {
        Step::Done(Err(Error::UnknownShaderType { name, .. })) => {
            assert_eq!(name, "shaders/triangle")
        }
        other => panic!("unexpected step {:?}", other),
    }
}

#[test]
fn shader_is_loaded_by_name_and_compiled() {
    let mut context = triangle_files();
    let shader =
        drive(Shader::from_res("shaders/triangle.frag"), ShaderLoad::resume, &mut context).unwrap();
    assert_eq!(shader.kind(), ShaderKind::Fragment);
    assert_eq!(context.shaders, vec![shader.id()]);
    assert_eq!(
        context.performed,
        vec![
            Request::LoadSource { name: "shaders/triangle.frag".to_string() },
            Request::CreateShader { kind: ShaderKind::Fragment },
            Request::ShaderSource { shader: 1, source: FRAGMENT_SOURCE.to_vec() },
            Request::CompileShader { shader: 1 },
            Request::GetCompileStatus { shader: 1 },
        ]
    );
}

#[test]
fn missing_source_is_a_load_error_and_spares_the_context() {
    let mut context = Context::new();
    let error =
        drive(Shader::from_res("shaders/absent.vert"), ShaderLoad::resume, &mut context).unwrap_err();
    assert_eq!(
        error,
        Error::ResourceLoadError {
            name: "shaders/absent.vert".to_string(),
            inner: LoadError { reason: "no such file: shaders/absent.vert".to_string() },
        }
    );
    assert_eq!(
        context.performed,
        vec![Request::LoadSource { name: "shaders/absent.vert".to_string() }]
    );
}

fn compiled_pair(context: &mut Context, fragment_source: &[u8]) -> Vec<Shader> {
    let vertex = drive(
        Shader::from_source(VERTEX_SOURCE.to_vec(), ShaderKind::Vertex),
        Compilation::resume,
        context,
    )
    .unwrap();
    let fragment = drive(
        Shader::from_source(fragment_source.to_vec(), ShaderKind::Fragment),
        Compilation::resume,
        context,
    )
    .unwrap();
    vec![vertex, fragment]
}

#[test]
fn compiled_pair_links_and_the_program_can_be_used() {
    let mut context = Context::new();
    let shaders = compiled_pair(&mut context, FRAGMENT_SOURCE);
    context.performed.clear();
    let program = drive(Program::from_shaders(&shaders), Linkage::resume, &mut context).unwrap();
    assert_eq!(program.id(), 3);
    assert_eq!(
        context.performed,
        vec![
            Request::CreateProgram,
            Request::AttachShader { program: 3, shader: 1 },
            Request::AttachShader { program: 3, shader: 2 },
            Request::LinkProgram { program: 3 },
            Request::GetLinkStatus { program: 3 },
            Request::DetachShader { program: 3, shader: 1 },
            Request::DetachShader { program: 3, shader: 2 },
        ]
    );
    assert_eq!(context.attached_to(3), Some(Vec::new()));
    assert_eq!(context.shaders, vec![1, 2]);
    let activate = program.use_it();
    assert_eq!(activate, Request::UseProgram { program: 3 });
    assert_eq!(context.perform(&activate), Reply::Done);
    assert_eq!(context.current, 3);
    assert_eq!(context.faults, 0);
}

#[test]
fn failed_link_reports_the_log_and_deletes_the_program() {
    let mut context = Context::new();
    let shaders = compiled_pair(&mut context, UNRESOLVED_SOURCE);
    context.performed.clear();
    let message =
        drive(Program::from_shaders(&shaders), Linkage::resume, &mut context).unwrap_err();
    assert_eq!(message, link_error_message());
    assert_eq!(
        context.performed,
        vec![
            Request::CreateProgram,
            Request::AttachShader { program: 3, shader: 1 },
            Request::AttachShader { program: 3, shader: 2 },
            Request::LinkProgram { program: 3 },
            Request::GetLinkStatus { program: 3 },
            Request::GetProgramLogLength { program: 3 },
            Request::GetProgramLog { program: 3, len: LINK_LOG.len() as i32 + 1 },
            Request::DeleteProgram { program: 3 },
        ]
    );
    assert_eq!(context.live_programs(), Vec::<u32>::new());
    assert_eq!(context.shaders, vec![1, 2]);
    assert_eq!(context.faults, 0);
}

#[test]
fn link_of_no_shaders_attaches_and_detaches_nothing() {
    let mut context = Context::new();
    let program = drive(Program::from_shaders(&[]), Linkage::resume, &mut context).unwrap();
    assert_eq!(program.id(), 1);
    assert_eq!(
        context.performed,
        vec![
            Request::CreateProgram,
            Request::LinkProgram { program: 1 },
            Request::GetLinkStatus { program: 1 },
        ]
    );
}

#[test]
fn link_of_three_shaders_keeps_their_order() {
    let mut context = Context::new();
    let mut shaders = compiled_pair(&mut context, FRAGMENT_SOURCE);
    let extra = drive(
        Shader::from_source(b"void helper() {}".to_vec(), ShaderKind::Fragment),
        Compilation::resume,
        &mut context,
    )
    .unwrap();
    shaders.insert(0, extra);
    context.performed.clear();
    let program = drive(Program::from_shaders(&shaders), Linkage::resume, &mut context).unwrap();
    assert_eq!(program.id(), 4);
    assert_eq!(
        context.performed,
        vec![
            Request::CreateProgram,
            Request::AttachShader { program: 4, shader: 3 },
            Request::AttachShader { program: 4, shader: 1 },
            Request::AttachShader { program: 4, shader: 2 },
            Request::LinkProgram { program: 4 },
            Request::GetLinkStatus { program: 4 },
            Request::DetachShader { program: 4, shader: 3 },
            Request::DetachShader { program: 4, shader: 1 },
            Request::DetachShader { program: 4, shader: 2 },
        ]
    );
    assert_eq!(context.faults, 0);
}

#[test]
fn triangle_program_loads_by_name_and_draws() {
    let mut context = triangle_files();
    let program =
        drive(Program::from_res("shaders/triangle"), ProgramLoad::resume, &mut context).unwrap();
    assert_eq!(program.id(), 3);
    assert_eq!(
        context.performed,
        vec![
            Request::LoadSource { name: "shaders/triangle.vert".to_string() },
            Request::CreateShader { kind: ShaderKind::Vertex },
            Request::ShaderSource { shader: 1, source: VERTEX_SOURCE.to_vec() },
            Request::CompileShader { shader: 1 },
            Request::GetCompileStatus { shader: 1 },
            Request::LoadSource { name: "shaders/triangle.frag".to_string() },
            Request::CreateShader { kind: ShaderKind::Fragment },
            Request::ShaderSource { shader: 2, source: FRAGMENT_SOURCE.to_vec() },
            Request::CompileShader { shader: 2 },
            Request::GetCompileStatus { shader: 2 },
            Request::CreateProgram,
            Request::AttachShader { program: 3, shader: 1 },
            Request::AttachShader { program: 3, shader: 2 },
            Request::LinkProgram { program: 3 },
            Request::GetLinkStatus { program: 3 },
            Request::DetachShader { program: 3, shader: 1 },
            Request::DetachShader { program: 3, shader: 2 },
            Request::DeleteShader { shader: 1 },
            Request::DeleteShader { shader: 2 },
        ]
    );
    assert_eq!(context.shaders, Vec::<u32>::new());
    assert_eq!(context.live_programs(), vec![3]);
    context.perform(&program.use_it());
    assert_eq!(context.current, 3);
    assert_eq!(context.faults, 0);
}

#[test]
fn broken_fragment_source_fails_the_load_before_any_program_exists() {
    let mut context = Context::new()
        .with_file("shaders/triangle.vert", VERTEX_SOURCE)
        .with_file("shaders/triangle.frag", BROKEN_SOURCE);
    let error =
        drive(Program::from_res("shaders/triangle"), ProgramLoad::resume, &mut context).unwrap_err();
    assert_eq!(
        error,
        Error::CompileError { name: "shaders/triangle.frag".to_string(), message: compile_error_message() }
    );
    assert!(!context.performed.contains(&Request::CreateProgram));
    assert_eq!(context.live_programs(), Vec::<u32>::new());
    assert_eq!(context.shaders, Vec::<u32>::new());
    assert_eq!(context.faults, 0);
    assert_eq!(
        context.performed[context.performed.len() - 2..].to_vec(),
        vec![Request::DeleteShader { shader: 2 }, Request::DeleteShader { shader: 1 }]
    );
}

#[test]
fn broken_vertex_source_fails_the_load_at_once() {
    let mut context = Context::new()
        .with_file("shaders/triangle.vert", BROKEN_SOURCE)
        .with_file("shaders/triangle.frag", FRAGMENT_SOURCE);
    let error =
        drive(Program::from_res("shaders/triangle"), ProgramLoad::resume, &mut context).unwrap_err();
    assert_eq!(
        error,
        Error::CompileError { name: "shaders/triangle.vert".to_string(), message: compile_error_message() }
    );
    assert!(!context
        .performed
        .contains(&Request::LoadSource { name: "shaders/triangle.frag".to_string() }));
    assert_eq!(context.shaders, Vec::<u32>::new());
    assert_eq!(context.faults, 0);
}

#[test]
fn missing_fragment_source_releases_the_vertex_shader() {
    let mut context = Context::new().with_file("shaders/triangle.vert", VERTEX_SOURCE);
    let error =
        drive(Program::from_res("shaders/triangle"), ProgramLoad::resume, &mut context).unwrap_err();
    assert_eq!(
        error,
        Error::ResourceLoadError {
            name: "shaders/triangle.frag".to_string(),
            inner: LoadError { reason: "no such file: shaders/triangle.frag".to_string() },
        }
    );
    assert_eq!(context.performed.last(), Some(&Request::DeleteShader { shader: 1 }));
    assert_eq!(context.shaders, Vec::<u32>::new());
    assert_eq!(context.faults, 0);
}

#[test]
fn failed_link_is_reported_under_the_name_of_the_program() {
    let mut context = Context::new()
        .with_file("shaders/triangle.vert", VERTEX_SOURCE)
        .with_file("shaders/triangle.frag", UNRESOLVED_SOURCE);
    let error =
        drive(Program::from_res("shaders/triangle"), ProgramLoad::resume, &mut context).unwrap_err();
    assert_eq!(
        error,
        Error::LinkError { name: "shaders/triangle".to_string(), message: link_error_message() }
    );
    assert_eq!(context.live_programs(), Vec::<u32>::new());
    assert_eq!(context.shaders, Vec::<u32>::new());
    assert_eq!(context.faults, 0);
    assert_eq!(
        context.performed[context.performed.len() - 3..].to_vec(),
        vec![
            Request::DeleteProgram { program: 3 },
            Request::DeleteShader { shader: 1 },
            Request::DeleteShader { shader: 2 },
        ]
    );
}

#[test]
fn using_a_program_twice_is_using_it_once() {
    let mut context = triangle_files();
    let program =
        drive(Program::from_res("shaders/triangle"), ProgramLoad::resume, &mut context).unwrap();
    context.perform(&program.use_it());
    let once = (context.current, context.shaders.clone(), context.programs.clone());
    context.perform(&program.use_it());
    let twice = (context.current, context.shaders.clone(), context.programs.clone());
    assert_eq!(once, twice);
    assert_eq!(program.use_it(), program.use_it());
    assert_eq!(context.faults, 0);
}

#[test]
fn last_program_used_is_the_current_one() {
    let mut context = triangle_files();
    let first =
        drive(Program::from_res("shaders/triangle"), ProgramLoad::resume, &mut context).unwrap();
    let second =
        drive(Program::from_res("shaders/triangle"), ProgramLoad::resume, &mut context).unwrap();
    context.perform(&first.use_it());
    context.perform(&second.use_it());
    assert_eq!(context.current, second.id());
    assert_ne!(first.id(), second.id());
}

#[test]
fn release_deletes_one_object_in_either_order() {
    let mut context = Context::new();
    let mut shaders = compiled_pair(&mut context, FRAGMENT_SOURCE);
    let program = drive(Program::from_shaders(&shaders), Linkage::resume, &mut context).unwrap();
    let fragment = shaders.pop().unwrap();
    let vertex = shaders.pop().unwrap();

    let request = vertex.release();
    assert_eq!(request, Request::DeleteShader { shader: 1 });
    context.perform(&request);
    assert_eq!(context.shaders, vec![2]);
    assert_eq!(context.live_programs(), vec![3]);

    let request = program.release();
    assert_eq!(request, Request::DeleteProgram { program: 3 });
    context.perform(&request);
    assert_eq!(context.shaders, vec![2]);
    assert_eq!(context.live_programs(), Vec::<u32>::new());

    context.perform(&fragment.release());
    assert_eq!(context.shaders, Vec::<u32>::new());
    assert_eq!(context.faults, 0);
}

#[test]
fn program_released_before_its_shaders_leaves_them_alive() {
    let mut context = Context::new();
    let mut shaders = compiled_pair(&mut context, FRAGMENT_SOURCE);
    let program = drive(Program::from_shaders(&shaders), Linkage::resume, &mut context).unwrap();
    context.perform(&program.release());
    assert_eq!(context.shaders, vec![1, 2]);
    while let Some(shader) = shaders.pop() {
        context.perform(&shader.release());
    }
    assert_eq!(context.shaders, Vec::<u32>::new());
    assert_eq!(context.faults, 0);
}

#[test]
fn compile_error_tells_the_stage() {
    let mut context = Context::new();
    let vertex = drive(
        Shader::from_source(BROKEN_SOURCE.to_vec(), ShaderKind::Vertex),
        Compilation::resume,
        &mut context,
    )
    .unwrap_err();
    let fragment = drive(
        Shader::from_source(BROKEN_SOURCE.to_vec(), ShaderKind::Fragment),
        Compilation::resume,
        &mut context,
    )
    .unwrap_err();
    assert_eq!(
        vertex,
        Error::CompileError { name: "vertex".to_string(), message: compile_error_message() }
    );
    assert_eq!(
        fragment,
        Error::CompileError { name: "fragment".to_string(), message: compile_error_message() }
    );
    assert_ne!(vertex, fragment);
    assert_eq!(context.shaders, Vec::<u32>::new());
}

#[test]
fn compile_error_of_a_named_source_names_the_source() {
    let mut context = Context::new().with_file("shaders/broken.vert", BROKEN_SOURCE);
    let error =
        drive(Shader::from_res("shaders/broken.vert"), ShaderLoad::resume, &mut context).unwrap_err();
    assert_eq!(
        error,
        Error::CompileError {
            name: "shaders/broken.vert".to_string(),
            message: compile_error_message(),
        }
    );
    assert_eq!(
        error.describe(),
        format!("Failed to compile shader shaders/broken.vert: {}", compile_error_message())
    );
    assert_eq!(context.shaders, Vec::<u32>::new());
    assert_eq!(context.faults, 0);
    assert_eq!(context.performed.last(), Some(&Request::DeleteShader { shader: 1 }));
}

#[test]
fn load_that_is_compiling_keeps_the_name_of_its_source() {
    let machine = match Shader::from_res("a.frag") {
        Step::Ask(machine, _) => machine,
        other => panic!("unexpected step {:?}", other),
    };
    match machine.resume(Reply::Source(vec![7])) {
        Step::Ask(ShaderLoad::Compiling { name, inner }, request) => {
            assert_eq!(name, "a.frag");
            assert_eq!(request, Request::CreateShader { kind: ShaderKind::Fragment });
            match inner {
                Compilation::AwaitHandle { kind, source } => {
                    assert_eq!(kind, ShaderKind::Fragment);
                    assert_eq!(source, vec![7]);
                }
                other => panic!("unexpected state {:?}", other),
            }
        }
        other => panic!("unexpected step {:?}", other),
    }
}

#[test]
fn log_buffer_is_as_long_as_the_log_and_holds_spaces() {
    assert_eq!(log_buffer(5), vec![b' '; 5]);
    assert_eq!(log_buffer(1), vec![b' ']);
    assert_eq!(log_buffer(4096).len(), 4096);
    assert!(log_buffer(4096).iter().all(|byte| *byte == b' '));
}

#[test]
fn log_buffer_is_empty_where_no_length_was_reported() {
    assert_eq!(log_buffer(0), Vec::<u8>::new());
    assert_eq!(log_buffer(-1), Vec::<u8>::new());
    assert_eq!(log_buffer(i32::MIN), Vec::<u8>::new());
}

#[test]
fn program_given_up_while_current_lingers_until_another_is_used() {
    let mut context = triangle_files();
    let first =
        drive(Program::from_res("shaders/triangle"), ProgramLoad::resume, &mut context).unwrap();
    let second =
        drive(Program::from_res("shaders/triangle"), ProgramLoad::resume, &mut context).unwrap();
    let first_id = first.id();
    context.perform(&first.use_it());
    context.perform(&first.release());
    assert_eq!(context.current, first_id);
    assert!(context.holds_program(first_id));
    assert_eq!(context.live_programs(), vec![second.id()]);
    context.perform(&second.use_it());
    assert_eq!(context.current, second.id());
    assert!(!context.holds_program(first_id));
    assert!(context.holds_program(second.id()));
    assert_eq!(context.faults, 0);
}

#[test]
fn second_deletion_of_a_handle_is_a_fault() {
    let mut context = Context::new();
    let mut shaders = compiled_pair(&mut context, FRAGMENT_SOURCE);
    let shader = shaders.pop().unwrap();
    let request = shader.release();
    context.perform(&request);
    assert_eq!(context.faults, 0);
    context.perform(&request);
    assert_eq!(context.faults, 1);
}

#[test]
fn owners_given_up_in_every_order_leave_the_same() {
    let orders: [[usize; 3]; 6] =
        [[0, 1, 2], [0, 2, 1], [1, 0, 2], [1, 2, 0], [2, 0, 1], [2, 1, 0]];
    for order in orders {
        let mut context = Context::new();
        let mut shaders = compiled_pair(&mut context, FRAGMENT_SOURCE);
        let program =
            drive(Program::from_shaders(&shaders), Linkage::resume, &mut context).unwrap();
        context.perform(&program.use_it());
        let fragment = shaders.pop().unwrap();
        let vertex = shaders.pop().unwrap();
        let requests = [vertex.release(), fragment.release(), program.release()];
        for index in order {
            context.perform(&requests[index]);
        }
        assert_eq!(context.shaders, Vec::<u32>::new());
        assert_eq!(context.live_programs(), Vec::<u32>::new());
        assert_eq!(context.current, 3);
        assert!(context.holds_program(3));
        assert_eq!(context.faults, 0);
    }
}
