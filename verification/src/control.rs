//! What is done to a single process. The system has been asked for a handle of
//! the process; what follows depends on whether it gave one.

use vstd::prelude::*;

use crate::text::{append_decimal, decimal};

verus! {

/// One thing to do, in its turn.
#[derive(Debug)]
pub enum ProcessStep {
    /// Put the process in the high priority class.
    SetHighPriority,
    /// Let the process run on the threads of the mask only.
    SetAffinity { mask: usize },
    /// Give the handle back.
    CloseHandle,
    /// Report to the user.
    Say { line: String },
    /// Report a failure to the user.
    Complain { line: String },
}

/// What a step stands for.
pub enum Step {
    SetHighPriority,
    SetAffinity { mask: usize },
    CloseHandle,
    Say { line: Seq<char> },
    Complain { line: Seq<char> },
}

impl View for ProcessStep {
    type V = Step;

    open spec fn view(&self) -> Step {
        match *self {
            ProcessStep::SetHighPriority => Step::SetHighPriority,
            ProcessStep::SetAffinity { mask } => Step::SetAffinity { mask },
            ProcessStep::CloseHandle => Step::CloseHandle,
            ProcessStep::Say { line } => Step::Say { line: line@ },
            ProcessStep::Complain { line } => Step::Complain { line: line@ },
        }
    }
}

/// What some steps stand for.
pub open spec fn views(steps: Seq<ProcessStep>) -> Seq<Step> {
    Seq::new(steps.len(), |i: int| steps[i]@)
}

/// The steps that raise the priority of a process.
pub open spec fn boost_steps(pid: nat, opened: bool) -> Seq<Step> {
    if opened {
        seq![
            Step::SetHighPriority,
            Step::CloseHandle,
            Step::Say { line: "Process set high priority class to "@ + decimal(pid) },
        ]
    } else {
        seq![
            Step::Complain {
                line: "Failed to open PID: "@ + decimal(pid) + ". Trying running as Admin."@,
            },
        ]
    }
}

/// The steps that restrict a process to the threads of a mask.
pub open spec fn affinity_steps(pid: nat, mask: usize, opened: bool) -> Seq<Step> {
    if opened {
        seq![
            Step::SetAffinity { mask },
            Step::CloseHandle,
            Step::Say {
                line: "Set affinity mask "@ + decimal(mask as nat) + " for PID: "@ + decimal(pid),
            },
        ]
    } else {
        Seq::empty()
    }
}

/// Raises the priority of a process: what to do, in order, once the system has
/// answered the request for its handle.
pub fn boost_process(pid: u32, opened: bool) -> (steps: Vec<ProcessStep>)
    ensures
        views(steps@) == boost_steps(pid as nat, opened),
{
    let mut steps: Vec<ProcessStep> = Vec::new();
    if opened {
        let mut line: String = "Process set high priority class to ".to_owned();
        append_decimal(&mut line, pid as u64);
        steps.push(ProcessStep::SetHighPriority);
        steps.push(ProcessStep::CloseHandle);
        steps.push(ProcessStep::Say { line });
    } else {
        let mut line: String = "Failed to open PID: ".to_owned();
        append_decimal(&mut line, pid as u64);
        line.append(". Trying running as Admin.");
        steps.push(ProcessStep::Complain { line });
    }
    assert(views(steps@) =~= boost_steps(pid as nat, opened));
    steps
}

/// Restricts a process to the threads of a mask: what to do, in order, once the
/// system has answered the request for its handle.
pub fn set_process_affinity(pid: u32, mask: usize, opened: bool) -> (steps: Vec<ProcessStep>)
    ensures
        views(steps@) == affinity_steps(pid as nat, mask, opened),
{
    let mut steps: Vec<ProcessStep> = Vec::new();
    if opened {
        let mut line: String = "Set affinity mask ".to_owned();
        append_decimal(&mut line, mask as u64);
        line.append(" for PID: ");
        append_decimal(&mut line, pid as u64);
        steps.push(ProcessStep::SetAffinity { mask });
        steps.push(ProcessStep::CloseHandle);
        steps.push(ProcessStep::Say { line });
    }
    assert(views(steps@) =~= affinity_steps(pid as nat, mask, opened));
    steps
}

/// The number by which the system knows a process: `sysinfo::Pid::as_u32` of
/// the `sysinfo::Pid` made from `pid`, which keeps the low 32 bits.
#[verifier::external_body]
pub(crate) fn pid_as_u32(pid: usize) -> (id: u32)
    ensures
        id == pid as int % 0x1_0000_0000,
{
    sysinfo::Pid::from(pid).as_u32()
}

/// The number to ask the system for the handle of a process by.
pub fn system_pid(pid: usize) -> (id: u32)
    ensures
        id == pid as int % 0x1_0000_0000,
{
    pid_as_u32(pid)
}

/// Whether a step needs the handle of the process.
pub open spec fn uses_handle(step: Step) -> bool {
    step is SetHighPriority || step is SetAffinity || step is CloseHandle
}

/// Whether the steps treat the handle as they should: one that was given is
/// closed once and not used after that, and one that was not given is not used.
pub open spec fn handles_well(steps: Seq<Step>, opened: bool) -> bool {
    if opened {
        exists|closed: int|
            0 <= closed < steps.len() && #[trigger] steps[closed] is CloseHandle && (forall|k: int|
                0 <= k < closed ==> #[trigger] steps[k] !is CloseHandle) && (forall|k: int|
                closed < k < steps.len() ==> !uses_handle(#[trigger] steps[k]))
    } else {
        forall|k: int| 0 <= k < steps.len() ==> !uses_handle(#[trigger] steps[k])
    }
}

/// No handle leaks: one that was opened is closed, exactly once and last of all
/// that is done with it.
pub proof fn law_handles_are_closed(pid: nat, mask: usize, opened: bool)
    ensures
        handles_well(boost_steps(pid, opened), opened),
        handles_well(affinity_steps(pid, mask, opened), opened),
{
    if opened {
        assert(boost_steps(pid, opened)[1] is CloseHandle);
        assert(affinity_steps(pid, mask, opened)[1] is CloseHandle);
    }
}

/// A step stands for just what it says.
pub proof fn law_step_view(steps: Seq<ProcessStep>, i: int)
    requires
        0 <= i < steps.len(),
    ensures
        views(steps).len() == steps.len(),
        steps[i] is SetHighPriority <==> views(steps)[i] is SetHighPriority,
        steps[i] is CloseHandle <==> views(steps)[i] is CloseHandle,
        steps[i] is SetAffinity <==> views(steps)[i] is SetAffinity,
        steps[i] is Say <==> views(steps)[i] is Say,
        steps[i] is Complain <==> views(steps)[i] is Complain,
        steps[i] matches ProcessStep::SetAffinity { mask } ==> views(steps)[i]
            == (Step::SetAffinity { mask }),
        steps[i] matches ProcessStep::Say { line } ==> views(steps)[i] == (Step::Say {
            line: line@,
        }),
        steps[i] matches ProcessStep::Complain { line } ==> views(steps)[i] == (Step::Complain {
            line: line@,
        }),
{
}

/// A process whose handle was opened is held to just the mask that was asked for:
/// the affinity is set once, to that mask, before the handle is closed, and the
/// priority is left alone. The report that follows holds the mask and the number
/// of the process. Without a handle nothing is done or said.
pub proof fn law_affinity_is_the_mask(pid: nat, mask: usize, opened: bool)
    ensures
        opened ==> {
            let steps = affinity_steps(pid, mask, opened);
            &&& steps.len() == 3
            &&& steps[0] is SetAffinity
            &&& steps[0]->mask == mask
            &&& steps[1] is CloseHandle
            &&& steps[2] is Say
            &&& steps[2]->Say_line == "Set affinity mask "@ + decimal(mask as nat) + " for PID: "@
                + decimal(pid)
        },
        !opened ==> affinity_steps(pid, mask, opened).len() == 0,
{
}

/// A process whose handle was opened is put in the high priority class once,
/// before the handle is closed, and its affinity is left alone. Without a handle
/// there is only a complaint. Either way the number of the process is given.
pub proof fn law_boost_raises_priority(pid: nat, opened: bool)
    ensures
        opened ==> {
            let steps = boost_steps(pid, opened);
            &&& steps.len() == 3
            &&& steps[0] is SetHighPriority
            &&& steps[1] is CloseHandle
            &&& steps[2] is Say
            &&& steps[2]->Say_line == "Process set high priority class to "@ + decimal(pid)
        },
        !opened ==> {
            let steps = boost_steps(pid, opened);
            &&& steps.len() == 1
            &&& steps[0] is Complain
            &&& steps[0]->Complain_line == "Failed to open PID: "@ + decimal(pid)
                + ". Trying running as Admin."@
        },
{
}

} // verus!
