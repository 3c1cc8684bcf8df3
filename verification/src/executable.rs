//! Tasks which are executed periodically, a fixed number of times or once, and the decisions of
//! the loops which execute them.
use vstd::prelude::*;

verus! {

#[derive(Debug, PartialEq, Eq, Copy, Clone, Structural)]
pub enum OpResult {
    /// The operation succeeded.
    Success,
    TerminationRequested,
}

#[derive(Debug, Copy, Clone, PartialEq, Eq, Structural)]
pub enum ExecutionType {
    Infinite,
    Cycles(u32),
    OneShot,
}

/// A task which can be executed periodically.
pub trait Executable {
    type Error;

    fn task_name(&self) -> &'static str;

    fn periodic_op(&mut self, op_code: i32) -> Result<OpResult, Self::Error>;
}

/// A task which knows how it wants to be executed.
pub trait ExecutableWithType: Executable {
    fn exec_type(&self) -> ExecutionType;
}

/// Whether a task of the execution type is done after `cycle_count` successful executions.
pub open spec fn spec_task_done(exec_type: ExecutionType, cycle_count: nat) -> bool {
    match exec_type {
        ExecutionType::OneShot => true,
        ExecutionType::Infinite => false,
        ExecutionType::Cycles(cycles) => cycle_count == cycles,
    }
}

/// Bookkeeping after one successful execution of a task: the new cycle count and whether the
/// task is done. A one-shot task is done after its execution, a task with a fixed number of
/// cycles counts the execution and is done when the count reaches the number of cycles, and an
/// infinite task is never done.
pub fn after_successful_op(exec_type: ExecutionType, cycle_count: u32) -> (r: (u32, bool))
    requires
        exec_type is Cycles ==> cycle_count < u32::MAX,
    ensures
        r.0 == if exec_type is Cycles { cycle_count + 1 } else { cycle_count as int },
        r.1 == spec_task_done(exec_type, r.0 as nat),
{
    match exec_type {
        ExecutionType::OneShot => (cycle_count, true),
        ExecutionType::Infinite => (cycle_count, false),
        ExecutionType::Cycles(cycles) => {
            let count = cycle_count + 1;
            (count, count == cycles)
        },
    }
}

/// The items whose removal flag is not set, in order.
pub open spec fn unflagged<T>(items: Seq<T>, removal_flags: Seq<bool>) -> Seq<T>
    decreases items.len(),
{
    if items.len() == 0 {
        Seq::empty()
    } else {
        let prev = unflagged(items.drop_last(), removal_flags);
        if removal_flags[items.len() - 1] {
            prev
        } else {
            prev.push(items.last())
        }
    }
}

/// Keeps the items whose removal flag is not set, in order.
pub fn retain_unflagged<T>(items: Vec<T>, removal_flags: &Vec<bool>) -> (r: Vec<T>)
    requires
        items@.len() == removal_flags@.len(),
    ensures
        r@ == unflagged(items@, removal_flags@),
{
    let ghost orig = items@;
    let mut kept: Vec<T> = Vec::new();
    let mut rest = items;
    let mut i: usize = 0;
    while i < removal_flags.len()
        invariant
            i <= removal_flags@.len(),
            removal_flags@.len() == orig.len(),
            rest@ == orig.skip(i as int),
            kept@ == unflagged(orig.take(i as int), removal_flags@),
        decreases removal_flags@.len() - i,
    {
        let item = rest.remove(0);
        proof {
            assert(item == orig[i as int]);
            assert(orig.take(i + 1).drop_last() =~= orig.take(i as int));
            assert(orig.skip(i as int).remove(0) =~= orig.skip(i + 1));
        }
        if !removal_flags[i] {
            kept.push(item);
        }
        i += 1;
    }
    proof {
        assert(orig.take(i as int) =~= orig);
    }
    kept
}

/// What a task thread learned of its termination signal in a cycle.
#[derive(Debug, Copy, Clone, PartialEq, Eq, Structural)]
pub enum TerminationSignal {
    /// The thread has no termination signal, or none arrived yet.
    Continue,
    /// Termination was requested, or the sending side of the signal went away.
    Terminate,
}

/// Flags every task for removal where termination was signalled; otherwise the flags stay.
pub fn flag_on_termination(signal: TerminationSignal, removal_flags: &mut Vec<bool>)
    ensures
        final(removal_flags)@.len() == old(removal_flags)@.len(),
        signal == TerminationSignal::Terminate ==> forall|k: int| 0 <= k < final(removal_flags)@.len() ==> #[trigger] final(removal_flags)@[k],
        signal == TerminationSignal::Continue ==> *final(removal_flags) == *old(removal_flags),
{
    if signal == TerminationSignal::Terminate {
        let mut i: usize = 0;
        while i < removal_flags.len()
            invariant
                i <= removal_flags@.len(),
                removal_flags@.len() == old(removal_flags)@.len(),
                forall|k: int| 0 <= k < i ==> #[trigger] removal_flags@[k],
            decreases removal_flags@.len() - i,
        {
            removal_flags.set(i, true);
            i += 1;
        }
    }
}

/// Whether a thread which executes tasks ends: when no task is left, it ends with success.
pub fn thread_outcome(remaining_tasks: usize) -> (r: Option<OpResult>)
    ensures
        r == (if remaining_tasks == 0 { Some(OpResult::Success) } else { None::<OpResult> }),
{
    if remaining_tasks == 0 {
        Some(OpResult::Success)
    } else {
        None
    }
}

} // verus!
