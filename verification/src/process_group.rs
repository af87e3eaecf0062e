//! Ending the process group of a command: a polite signal, a pause, and a signal
//! that cannot be refused.

use vstd::prelude::*;

verus! {

/// How long a process group is given to end by itself, in milliseconds.
pub const TERMINATION_GRACE_MILLIS: u64 = 100;

/// The target that addresses the process group of a process: its number negated,
/// after its 32 bits have been read with a sign.
pub open spec fn group_target(pid: u32) -> int {
    if pid <= i32::MAX {
        -(pid as int)
    } else {
        0x1_0000_0000 - pid
    }
}

/// The target that addresses the process group of a process.
pub fn process_group_target(pid: u32) -> (target: i32)
    requires
        pid != 0x8000_0000,
    ensures
        target == group_target(pid),
{
    if pid <= i32::MAX as u32 {
        -(pid as i32)
    } else {
        (0x1_0000_0000i64 - pid as i64) as i32
    }
}

/// What is to be done next to end a process group.
#[derive(Clone, Copy, Debug, PartialEq, Eq, Structural)]
pub enum TerminationStep {
    /// Ask the group to end.
    SendTerm { target: i32 },
    /// Give it time.
    Pause { target: i32, millis: u64 },
    /// Make it end.
    SendKill { target: i32 },
    /// Nothing.
    Finished,
}

impl TerminationStep {
    /// Where to start. Without a process number there is nothing to do.
    pub fn first(pid: Option<u32>) -> (step: TerminationStep)
        requires
            pid != Some(0x8000_0000u32),
        ensures
            match pid {
                Some(pid) => step is SendTerm && step->SendTerm_target == group_target(pid),
                None => step is Finished,
            },
    {
        match pid {
            Some(pid) => TerminationStep::SendTerm { target: process_group_target(pid) },
            None => TerminationStep::Finished,
        }
    }

    /// What follows. A group that the first signal does not reach is left alone.
    pub fn next(self, delivered: bool) -> (step: TerminationStep)
        ensures
            step == termination_step(self, delivered),
    {
        match self {
            TerminationStep::SendTerm { target } => if delivered {
                TerminationStep::Pause { target, millis: TERMINATION_GRACE_MILLIS }
            } else {
                TerminationStep::Finished
            },
            TerminationStep::Pause { target, .. } => TerminationStep::SendKill { target },
            TerminationStep::SendKill { .. } => TerminationStep::Finished,
            TerminationStep::Finished => TerminationStep::Finished,
        }
    }
}

/// The step that follows another, by whether the signal of the first was delivered.
pub open spec fn termination_step(step: TerminationStep, delivered: bool) -> TerminationStep {
    match step {
        TerminationStep::SendTerm { target } => if delivered {
            TerminationStep::Pause { target, millis: TERMINATION_GRACE_MILLIS }
        } else {
            TerminationStep::Finished
        },
        TerminationStep::Pause { target, .. } => TerminationStep::SendKill { target },
        TerminationStep::SendKill { .. } => TerminationStep::Finished,
        TerminationStep::Finished => TerminationStep::Finished,
    }
}

/// A group that the first signal reaches gets the second one, after the pause and
/// under the same target; one that it does not reach gets nothing more.
pub proof fn law_termination_course(target: i32, first: bool, second: bool, third: bool)
    ensures
        ({
            let a = termination_step(TerminationStep::SendTerm { target }, first);
            let b = termination_step(a, second);
            let c = termination_step(b, third);
            if first {
                &&& a == TerminationStep::Pause { target, millis: TERMINATION_GRACE_MILLIS }
                &&& b == TerminationStep::SendKill { target }
                &&& c is Finished
            } else {
                a is Finished && b is Finished && c is Finished
            }
        }),
{
}

/// A process number that the system gives out addresses its own group and no other:
/// the target is negative, and two numbers have two targets.
pub proof fn law_group_targets_distinct(a: u32, b: u32)
    requires
        0 < a <= i32::MAX,
        0 < b <= i32::MAX,
    ensures
        group_target(a) < 0,
        group_target(a) == group_target(b) ==> a == b,
{
}

/// The process group of a process is addressed by the process number with a minus sign;
/// a number of more than 31 bits is first read with a sign.
pub proof fn law_group_target_is_the_number_negated(pid: u32)
    ensures
        pid <= i32::MAX ==> group_target(pid) == 0 - pid,
        pid > i32::MAX ==> group_target(pid) + pid == 0x1_0000_0000,
        TERMINATION_GRACE_MILLIS == 100,
{
}

} // verus!
