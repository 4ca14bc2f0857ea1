//! A model of a small pre-emptive, time-sliced, round-robin task scheduler
//! for Arm Cortex-M processors.
//!
//! The scheduler multiplexes several never-returning tasks, each with a
//! private full-descending stack, onto one processor. Everything the kernel
//! decides is here: how a task's first stack frame is laid out, which task
//! runs after a tick or a voluntary yield, what the context-switch handler
//! saves and restores, and when a delay is over. Touching the hardware (the
//! system timer, the pend-supervisor bit, `wfi`) is left to the caller, who is
//! told what to do by the [`Request`] each operation returns.
//!
//! Addresses and register contents are plain 32-bit words, so the whole kernel
//! can also be run and observed on a host.
//!
//! - [`arch`]: the processor variants, and the constants that depend on them.
//! - [`stack`] and [`stack_pusher`]: task stacks and the cursor that pushes
//!   onto them.
//! - [`cpu`]: the registers.
//! - [`frame`]: what exception entry and the context switch keep on a stack.
//! - [`task`] and [`scheduler`]: the task records and the scheduler itself.
//! - [`laws`]: what holds of all of it together.
//! - Here: [`delay`], [`now`] and [`task_id`], the functions that task code
//!   calls.

pub mod arch;
pub mod stack;
pub mod stack_pusher;
pub mod cpu;
pub mod frame;
pub mod task;
pub mod scheduler;
pub mod laws;

pub use arch::Arch;
pub use cpu::{Cpu, CpuState};
pub use stack::{MemoryState, Stack, StackMemory};
pub use stack_pusher::StackPusher;
pub use task::{Task, TaskState};
pub use scheduler::{Request, Scheduler, SchedulerState, Selection, TaskId, TaskSelection, NO_TASK};

use vstd::prelude::*;

verus! {

/// The number of ticks from `start` to `now`, modulo 2^32.
pub open spec fn ticks_since(start: u32, now: u32) -> int {
    if now >= start {
        now - start
    } else {
        now - start + 0x1_0000_0000
    }
}

/// What a [`Delay`] holds.
pub struct DelayState {
    /// The tick count when the delay began.
    pub start: u32,
    /// The number of ticks to wait for, at least.
    pub ticks: u32,
}

impl DelayState {
    /// Is the delay over when the tick count is `now`? It is once the ticks
    /// since its start, counted modulo 2^32, are at least the ticks asked for.
    pub open spec fn is_over(self, now: u32) -> bool {
        ticks_since(self.start, now) >= self.ticks
    }
}

/// A delay that a task is waiting out.
#[derive(Clone, Copy, Debug)]
pub struct Delay {
    start: u32,
    ticks: u32,
}

impl View for Delay {
    type V = DelayState;

    closed spec fn view(&self) -> DelayState {
        DelayState { start: self.start, ticks: self.ticks }
    }
}

impl Delay {
    /// A delay of at least `ticks` ticks that began when the tick count was
    /// `start`.
    pub fn new(start: u32, ticks: u32) -> (delay: Delay)
        ensures
            delay@ == (DelayState { start, ticks }),
    {
        Delay { start, ticks }
    }

    /// Is the delay over when the tick count is `now`?
    pub fn is_over(&self, now: u32) -> (over: bool)
        ensures
            over == self@.is_over(now),
    {
        let delta = now.wrapping_sub(self.start);
        delta >= self.ticks
    }

    /// The step the delayed task takes each time it runs again: if the delay
    /// is over it returns `None` and changes nothing, and the task goes on;
    /// otherwise the task yields once more, and the request of that yield is
    /// returned for the caller to perform.
    pub fn resume(&self, scheduler: &mut Scheduler) -> (request: Option<Request>)
        requires
            old(scheduler)@.wf(),
            old(scheduler)@.current_task != NO_TASK,
        ensures
            final(scheduler)@.wf(),
            self@.is_over(old(scheduler)@.ticks) ==> request.is_none() && final(scheduler)@ == old(
                scheduler,
            )@,
            !self@.is_over(old(scheduler)@.ticks) ==> request == Some(
                old(scheduler)@.yield_request(),
            ) && final(scheduler)@ == old(scheduler)@.yielded(),
    {
        if self.is_over(scheduler.now()) {
            None
        } else {
            Some(scheduler.yield_until_tick())
        }
    }
}

/// Begins to delay the running task for at least `ticks` timer ticks: notes
/// the tick count and yields, so that even `delay(0)` gives the processor away
/// once.
///
/// The caller performs the returned request, and calls [`Delay::resume`] each
/// time the task runs again, until that returns `None`.
pub fn delay(scheduler: &mut Scheduler, ticks: u32) -> (begun: (Delay, Request))
    requires
        old(scheduler)@.wf(),
        old(scheduler)@.current_task != NO_TASK,
    ensures
        final(scheduler)@ == old(scheduler)@.yielded(),
        final(scheduler)@.wf(),
        begun.0@ == (DelayState { start: old(scheduler)@.ticks, ticks }),
        begun.1 == old(scheduler)@.yield_request(),
        begun.1 != Request::Nothing,
{
    let begun = Delay::new(scheduler.now(), ticks);
    // Yield first, so that even a delay of zero ticks switches tasks once.
    let request = scheduler.yield_until_tick();
    (begun, request)
}

/// The current time in ticks; zero while there is no scheduler.
pub fn now(scheduler: Option<&Scheduler>) -> (ticks: u32)
    ensures
        ticks == (match scheduler {
            Some(scheduler) => scheduler@.ticks,
            None => 0,
        }),
{
    if let Some(scheduler) = scheduler {
        scheduler.now()
    } else {
        0
    }
}

/// The identifier of the running task; the invalid one while there is no
/// scheduler, or while no task has run.
pub fn task_id(scheduler: Option<&Scheduler>) -> (id: TaskId)
    ensures
        id@ == (match scheduler {
            Some(scheduler) => scheduler@.current_task,
            None => NO_TASK,
        }),
{
    if let Some(scheduler) = scheduler {
        scheduler.current_task_id()
    } else {
        TaskId::invalid()
    }
}

} // verus!
