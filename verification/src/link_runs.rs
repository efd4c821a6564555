//! Whole links, played against a context: what is asked, in which order, and
//! what exists afterwards, for any number of shaders.
use crate::ledger::{play_from, Ledger, Run};
use crate::program::{Linkage, LinkageView, Program, ProgramView};
use crate::protocol::{ReplyView, RequestView, StepView};
use crate::shader::log_capacity;
use crate::text::utf8_lossy;
use vstd::prelude::*;

verus! {

/// A link that stands at `from`, played against a context that holds `ledger`
/// and answers with `replies[at..]`.
pub open spec fn linkage_run_from(
    from: StepView<LinkageView, ProgramView, Seq<char>>,
    replies: Seq<ReplyView>,
    at: nat,
    ledger: Ledger,
) -> Run<LinkageView, ProgramView, Seq<char>> {
    play_from(
        |state: LinkageView, reply: ReplyView| Linkage::spec_resume(state, reply),
        from,
        replies,
        at,
        ledger,
    )
}

/// A link that begins at `first`, played against a context that holds `ledger`
/// and answers with `replies`.
pub open spec fn linkage_run(
    first: StepView<LinkageView, ProgramView, Seq<char>>,
    replies: Seq<ReplyView>,
    ledger: Ledger,
) -> Run<LinkageView, ProgramView, Seq<char>> {
    linkage_run_from(first, replies, 0, ledger)
}

/// The first `count` of `units`, as a set.
pub open spec fn units_before(units: Seq<u32>, count: nat) -> Set<u32> {
    Set::new(|shader: u32| exists|j: int| 0 <= j < count && j < units.len() && units[j] == shader)
}

/// All of `units` but the first `count`, as a set.
pub open spec fn units_from(units: Seq<u32>, count: nat) -> Set<u32> {
    Set::new(|shader: u32| exists|j: int| count <= j < units.len() && units[j] == shader)
}

/// The requests that attach `units[from..]` to `program`, in their order.
pub open spec fn attach_requests(program: u32, units: Seq<u32>, from: nat) -> Seq<RequestView> {
    Seq::new(
        (units.len() - from) as nat,
        |i: int| RequestView::AttachShader { program, shader: units[from + i] },
    )
}

/// The requests that detach `units[from..]` from `program`, in their order.
pub open spec fn detach_requests(program: u32, units: Seq<u32>, from: nat) -> Seq<RequestView> {
    Seq::new(
        (units.len() - from) as nat,
        |i: int| RequestView::DetachShader { program, shader: units[from + i] },
    )
}

/// What a context answers to a link of `count` units that succeeds: the handle,
/// nothing to each attachment and to the link, the status, and nothing to each
/// detachment.
pub open spec fn linked_replies(handle: u32, count: nat, status: i32) -> Seq<ReplyView> {
    seq![ReplyView::Handle(handle)] + Seq::new(count + 1, |i: int| ReplyView::Done)
        + seq![ReplyView::Value(status)] + Seq::new(count, |i: int| ReplyView::Done)
}

/// What a context answers to a link of `count` units that fails: the handle,
/// nothing to each attachment and to the link, the status zero, the length of
/// the log, the log, and nothing to the deletion.
pub open spec fn failed_replies(handle: u32, count: nat, reported: i32, log: Seq<u8>) -> Seq<
    ReplyView,
> {
    seq![ReplyView::Handle(handle)] + Seq::new(count + 1, |i: int| ReplyView::Done)
        + seq![
        ReplyView::Value(0),
        ReplyView::Value(reported),
        ReplyView::Log(log),
        ReplyView::Done,
    ]
}

proof fn lemma_linkage_step(
    machine: LinkageView,
    request: RequestView,
    replies: Seq<ReplyView>,
    at: nat,
    ledger: Ledger,
)
    requires
        at < replies.len(),
    ensures
        ({
            let run = linkage_run_from(StepView::Ask(machine, request), replies, at, ledger);
            let rest = linkage_run_from(
                Linkage::spec_resume(machine, replies[at as int]),
                replies,
                at + 1,
                ledger.apply(request, replies[at as int]),
            );
            &&& run.asked == seq![request] + rest.asked
            &&& run.ledger == rest.ledger
            &&& run.clean == (ledger.admits(request) && rest.clean)
            &&& run.honest == (ledger.may_answer(request, replies[at as int]) && rest.honest)
            &&& run.end == rest.end
        }),
{
}

proof fn lemma_attach_phase(
    program: u32,
    units: Seq<u32>,
    next: nat,
    replies: Seq<ReplyView>,
    at: nat,
    ledger: Ledger,
)
    requires
        next <= units.len(),
        at + (units.len() - next) <= replies.len(),
        forall|i: int| at <= i < at + (units.len() - next) ==> replies[i] == ReplyView::Done,
        units.no_duplicates(),
        forall|j: int| 0 <= j < units.len() ==> ledger.shaders.contains(units[j]),
        ledger.programs.dom().contains(program),
        ledger.programs[program] == units_before(units, next),
    ensures
        ({
            let run = linkage_run_from(
                Linkage::spec_attach_from(program, units, next),
                replies,
                at,
                ledger,
            );
            let rest = linkage_run_from(
                StepView::Ask(
                    LinkageView::AwaitLink { program, units },
                    RequestView::LinkProgram { program },
                ),
                replies,
                (at + (units.len() - next)) as nat,
                Ledger {
                    programs: ledger.programs.insert(program, units_before(units, units.len())),
                    ..ledger
                },
            );
            &&& run.asked == attach_requests(program, units, next) + rest.asked
            &&& run.ledger == rest.ledger
            &&& run.clean == rest.clean
            &&& run.honest == rest.honest
            &&& run.end == rest.end
        }),
    decreases units.len() - next,
{
    if next == units.len() {
        assert(ledger.programs.insert(program, units_before(units, units.len()))
            =~= ledger.programs);
        assert(attach_requests(program, units, next) =~= Seq::empty());
        let rest = linkage_run_from(
            Linkage::spec_attach_from(program, units, next),
            replies,
            at,
            ledger,
        );
        assert(attach_requests(program, units, next) + rest.asked =~= rest.asked);
    } else {
        let shader = units[next as int];
        let request = RequestView::AttachShader { program, shader };
        let machine = LinkageView::Attaching { program, units, next: next + 1 };
        assert(!units_before(units, next).contains(shader));
        assert(ledger.admits(request));
        let attached = ledger.apply(request, ReplyView::Done);
        assert(units_before(units, next).insert(shader) =~= units_before(units, next + 1));
        lemma_linkage_step(machine, request, replies, at, ledger);
        lemma_attach_phase(program, units, next + 1, replies, at + 1, attached);
        assert(attached.programs.insert(program, units_before(units, units.len()))
            =~= ledger.programs.insert(program, units_before(units, units.len())));
        let rest = linkage_run_from(
            StepView::Ask(
                LinkageView::AwaitLink { program, units },
                RequestView::LinkProgram { program },
            ),
            replies,
            (at + (units.len() - next)) as nat,
            Ledger {
                programs: ledger.programs.insert(program, units_before(units, units.len())),
                ..ledger
            },
        );
        assert(seq![request] + (attach_requests(program, units, next + 1) + rest.asked)
            =~= attach_requests(program, units, next) + rest.asked);
    }
}

proof fn lemma_detach_phase(
    program: u32,
    units: Seq<u32>,
    next: nat,
    replies: Seq<ReplyView>,
    at: nat,
    ledger: Ledger,
)
    requires
        next <= units.len(),
        replies.len() == at + (units.len() - next),
        forall|i: int| at <= i < replies.len() ==> replies[i] == ReplyView::Done,
        units.no_duplicates(),
        ledger.programs.dom().contains(program),
        ledger.programs[program] == units_from(units, next),
    ensures
        ({
            let run = linkage_run_from(
                Linkage::spec_detach_from(program, units, next),
                replies,
                at,
                ledger,
            );
            &&& run.end == StepView::<LinkageView, ProgramView, Seq<char>>::Done(
                Ok(ProgramView { id: program }),
            )
            &&& run.asked == detach_requests(program, units, next)
            &&& run.ledger == (Ledger {
                programs: ledger.programs.insert(program, Set::empty()),
                ..ledger
            })
            &&& run.clean
            &&& run.honest
        }),
    decreases units.len() - next,
{
    if next == units.len() {
        assert(units_from(units, next) =~= Set::empty());
        assert(ledger.programs.insert(program, Set::empty()) =~= ledger.programs);
        assert(detach_requests(program, units, next) =~= Seq::empty());
    } else {
        let shader = units[next as int];
        let request = RequestView::DetachShader { program, shader };
        let machine = LinkageView::Detaching { program, units, next: next + 1 };
        assert(units_from(units, next).contains(shader));
        assert(ledger.admits(request));
        let detached = ledger.apply(request, ReplyView::Done);
        assert(units_from(units, next).remove(shader) =~= units_from(units, next + 1));
        lemma_linkage_step(machine, request, replies, at, ledger);
        lemma_detach_phase(program, units, next + 1, replies, at + 1, detached);
        assert(detached.programs.insert(program, Set::empty()) =~= ledger.programs.insert(
            program,
            Set::empty(),
        ));
        assert(seq![request] + detach_requests(program, units, next + 1) =~= detach_requests(
            program,
            units,
            next,
        ));
    }
}

/// Compiled shaders whose link the context reports as successful become a
/// program with the handle that the context gave. The requests go out in this
/// order and no other: create, attach every unit, link, read the status, detach
/// every unit. Afterwards the program exists with nothing attached to it, the
/// shaders exist as before, no request named an object that did not exist, and
/// the context admits the request that makes the program current.
pub proof fn lemma_linked_units_are_usable(
    units: Seq<u32>,
    handle: u32,
    status: i32,
    ledger: Ledger,
)
    requires
        units.no_duplicates(),
        forall|j: int| 0 <= j < units.len() ==> ledger.shaders.contains(units[j]),
        ledger.fresh_program(handle),
        status != 0,
    ensures
        ({
            let run = linkage_run(
                Program::spec_from_shaders(units),
                linked_replies(handle, units.len(), status),
                ledger,
            );
            let activate = RequestView::UseProgram { program: handle };
            &&& run.end == StepView::<LinkageView, ProgramView, Seq<char>>::Done(
                Ok(ProgramView { id: handle }),
            )
            &&& run.asked == seq![RequestView::CreateProgram] + attach_requests(handle, units, 0)
                + seq![
                RequestView::LinkProgram { program: handle },
                RequestView::GetLinkStatus { program: handle },
            ] + detach_requests(handle, units, 0)
            &&& run.ledger == (Ledger {
                programs: ledger.programs.insert(handle, Set::empty()),
                ..ledger
            })
            &&& run.clean
            &&& run.honest
            &&& run.ledger.admits(activate)
            &&& run.ledger.apply(activate, ReplyView::Done).current == handle
        }),
{
    let count = units.len();
    let replies = linked_replies(handle, count, status);
    let all = units_before(units, count);
    let created = Ledger { programs: ledger.programs.insert(handle, Set::empty()), ..ledger };
    let attached = Ledger { programs: created.programs.insert(handle, all), ..created };
    let create = RequestView::CreateProgram;
    let link = RequestView::LinkProgram { program: handle };
    let status_request = RequestView::GetLinkStatus { program: handle };
    assert(replies.len() == 2 * count + 3);
    assert(replies[0] == ReplyView::Handle(handle));
    assert(forall|i: int| 1 <= i < count + 2 ==> replies[i] == ReplyView::Done);
    assert(replies[(count + 2) as int] == ReplyView::Value(status));
    assert(forall|i: int| count + 3 <= i < replies.len() ==> replies[i] == ReplyView::Done);
    lemma_linkage_step(LinkageView::AwaitHandle { units }, create, replies, 0, ledger);
    assert(units_before(units, 0) =~= Set::empty());
    lemma_attach_phase(handle, units, 0, replies, 1, created);
    lemma_linkage_step(
        LinkageView::AwaitLink { program: handle, units },
        link,
        replies,
        count + 1,
        attached,
    );
    lemma_linkage_step(
        LinkageView::AwaitStatus { program: handle, units },
        status_request,
        replies,
        count + 2,
        attached,
    );
    assert(units_from(units, 0) =~= all);
    lemma_detach_phase(handle, units, 0, replies, count + 3, attached);
    assert(attached.programs.insert(handle, Set::empty()) =~= created.programs);
    let run = linkage_run(Program::spec_from_shaders(units), replies, ledger);
    assert(run.asked =~= seq![create] + attach_requests(handle, units, 0) + seq![
        link,
        status_request,
    ] + detach_requests(handle, units, 0));
}

/// Compiled shaders whose link the context reports as failed end the link with
/// the context's log as the message, read at the length that the context
/// reported. The program object that was created for the link is deleted
/// before the message is returned: the context holds what it held before, and
/// no request named an object that did not exist.
pub proof fn lemma_failed_units_are_released(
    units: Seq<u32>,
    handle: u32,
    reported: i32,
    log: Seq<u8>,
    ledger: Ledger,
)
    requires
        units.no_duplicates(),
        forall|j: int| 0 <= j < units.len() ==> ledger.shaders.contains(units[j]),
        ledger.fresh_program(handle),
    ensures
        ({
            let run = linkage_run(
                Program::spec_from_shaders(units),
                failed_replies(handle, units.len(), reported, log),
                ledger,
            );
            &&& run.end == StepView::<LinkageView, ProgramView, Seq<char>>::Done(
                Err(utf8_lossy(log)),
            )
            &&& run.asked == seq![RequestView::CreateProgram] + attach_requests(handle, units, 0)
                + seq![
                RequestView::LinkProgram { program: handle },
                RequestView::GetLinkStatus { program: handle },
                RequestView::GetProgramLogLength { program: handle },
                RequestView::GetProgramLog { program: handle, len: log_capacity(reported) },
                RequestView::DeleteProgram { program: handle },
            ]
            &&& run.ledger == ledger
            &&& run.clean
            &&& run.honest
        }),
{
    let count = units.len();
    let replies = failed_replies(handle, count, reported, log);
    let all = units_before(units, count);
    let created = Ledger { programs: ledger.programs.insert(handle, Set::empty()), ..ledger };
    let attached = Ledger { programs: created.programs.insert(handle, all), ..created };
    let create = RequestView::CreateProgram;
    let link = RequestView::LinkProgram { program: handle };
    let status_request = RequestView::GetLinkStatus { program: handle };
    let length_request = RequestView::GetProgramLogLength { program: handle };
    let log_request = RequestView::GetProgramLog { program: handle, len: log_capacity(reported) };
    let delete = RequestView::DeleteProgram { program: handle };
    assert(replies.len() == count + 6);
    assert(replies[0] == ReplyView::Handle(handle));
    assert(forall|i: int| 1 <= i < count + 2 ==> replies[i] == ReplyView::Done);
    assert(replies[(count + 2) as int] == ReplyView::Value(0));
    assert(replies[(count + 3) as int] == ReplyView::Value(reported));
    assert(replies[(count + 4) as int] == ReplyView::Log(log));
    assert(replies[(count + 5) as int] == ReplyView::Done);
    lemma_linkage_step(LinkageView::AwaitHandle { units }, create, replies, 0, ledger);
    assert(units_before(units, 0) =~= Set::empty());
    lemma_attach_phase(handle, units, 0, replies, 1, created);
    lemma_linkage_step(
        LinkageView::AwaitLink { program: handle, units },
        link,
        replies,
        count + 1,
        attached,
    );
    lemma_linkage_step(
        LinkageView::AwaitStatus { program: handle, units },
        status_request,
        replies,
        count + 2,
        attached,
    );
    lemma_linkage_step(
        LinkageView::AwaitLogLength { program: handle },
        length_request,
        replies,
        count + 3,
        attached,
    );
    lemma_linkage_step(
        LinkageView::AwaitLog { program: handle },
        log_request,
        replies,
        count + 4,
        attached,
    );
    lemma_linkage_step(
        LinkageView::AwaitRelease { message: utf8_lossy(log) },
        delete,
        replies,
        count + 5,
        attached,
    );
    assert(attached.programs.remove(handle) =~= ledger.programs);
    let run = linkage_run(Program::spec_from_shaders(units), replies, ledger);
    assert(run.asked =~= seq![create] + attach_requests(handle, units, 0) + seq![
        link,
        status_request,
        length_request,
        log_request,
        delete,
    ]);
}

} // verus!
