//! What holds of the kernel as a whole, proved over the states of the
//! scheduler and the processor.

use vstd::prelude::*;
use vstd::arithmetic::div_mod::{lemma_mod_self_0, lemma_small_mod};
use crate::arch::{lemma_exc_return_bits, uses_fp, INITIAL_XPSR};
use crate::cpu::CpuState;
use crate::frame::{
    law_callee_saved_round_trip, law_fp_round_trip, law_initial_frame_launches_task,
};
use crate::scheduler::{
    lemma_first_runnable_is_unique, lemma_flags_keep_wf, lemma_parked_current_is_not_selected,
    lemma_selection_in_range, lemma_selection_reads_tasks_only, lemma_switched_is_wf, Request,
    SchedulerState, Selection, NO_TASK,
};
use crate::task::{lemma_primed_is_suspended, lemma_suspended_is_suspended, TaskState};
use crate::{ticks_since, DelayState};

verus! {

/// Every task is launched cleanly. After the start, for every task of the
/// list: when the context switch resumes the task and exception return pops
/// what is left of its initial frame, the task runs at its entry address with
/// only the Thumb bit set in xPSR, with R0 to R12 and LR zero, with an empty
/// stack (aligned to eight bytes if the size of the stack is a multiple of
/// eight) and without a floating-point context, whatever the registers held
/// before.
pub proof fn law_start_launches_every_task(state: SchedulerState, i: int, cpu: CpuState)
    requires
        state.wf(),
        !state.started,
        0 <= i < state.tasks.len(),
        cpu.wf(),
    ensures
        ({
            let task = state.started_up().tasks[i];
            let launched = task.returned_to(task.resumed(cpu));
            &&& task.is_suspended()
            &&& task.can_return(task.resumed(cpu))
            &&& launched.pc == state.tasks[i].entry_fn
            &&& launched.xpsr == INITIAL_XPSR
            &&& launched.lr == 0
            &&& launched.r == Seq::new(13, |j: int| 0u32)
            &&& launched.psp == state.tasks[i].memory.top()
            &&& state.tasks[i].memory.size() % 8 == 0 ==> launched.psp % 8 == 0
            &&& !launched.fpca
        }),
{
    let fresh = state.tasks[i];
    lemma_exc_return_bits();
    lemma_primed_is_suspended(fresh);
    law_initial_frame_launches_task(fresh.arch, fresh.entry_fn, cpu, fresh.primed().stack);
}

/// The first context switch puts an end to "no task": after any context
/// switch the current task is the one that was next, which is a task of the
/// list; while no task had run, and so right after the start, it is the first
/// of the list.
pub proof fn law_switch_makes_next_task_current(state: SchedulerState, cpu: CpuState)
    requires
        state.wf(),
    ensures
        state.switched(cpu).current_task == state.next_task,
        state.switched(cpu).current_task != NO_TASK,
        state.switched(cpu).current_task < state.tasks.len(),
        state.current_task == NO_TASK ==> state.switched(cpu).current_task == 0,
        !state.started ==> state.started_up().switched(cpu).current_task == 0,
{
}

/// Round robin: with no task yielding, each tick moves on to the task after
/// the current one, wrapping from the last to the first. With more than one
/// task the tick asks for a context switch, after which the current task is
/// the successor; a single task just keeps running.
pub proof fn law_round_robin(state: SchedulerState, cpu: CpuState)
    requires
        state.wf(),
        state.current_task != NO_TASK,
    ensures
        ({
            let successor = (state.current_task + 1) % (state.tasks.len() as int);
            &&& state.tasks.len() > 1 ==> state.tick_request() == Request::ContextSwitch
                && state.ticked().next_task == successor && state.ticked().switched(
                cpu,
            ).current_task == successor
            &&& state.tasks.len() == 1 ==> state.tick_request() == Request::Nothing
                && state.ticked().current_task == successor
        }),
{
    // Once every task is unparked, the first runnable task is the very next.
    let woken = state.unparked();
    let len = state.tasks.len() as int;
    assert(woken.first_runnable(1));
    lemma_first_runnable_is_unique(woken, 1);
    lemma_selection_reads_tasks_only(woken, SchedulerState { ticks: state.ticked().ticks, ..woken });
    if state.current_task + 1 < len {
        lemma_small_mod((state.current_task + 1) as nat, len as nat);
    } else {
        lemma_mod_self_0(len);
    }
}

/// The state after `count` ticks in a row.
pub open spec fn after_ticks(state: SchedulerState, count: nat) -> SchedulerState
    decreases count,
{
    if count == 0 {
        state
    } else {
        after_ticks(state, (count - 1) as nat).ticked()
    }
}

/// The clock counts ticks: each tick advances the tick count by exactly one
/// modulo 2^32, so after `count` ticks it has advanced by `count` modulo 2^32;
/// and nothing but a tick changes it.
pub proof fn law_clock_counts_ticks(state: SchedulerState, count: nat, cpu: CpuState)
    ensures
        state.ticked().ticks == (state.ticks + 1) % 0x1_0000_0000,
        after_ticks(state, count).ticks == (state.ticks + count) % 0x1_0000_0000,
        state.yielded().ticks == state.ticks,
        state.started_up().ticks == state.ticks,
        state.switched(cpu).ticks == state.ticks,
        state.interrupted(cpu).ticks == state.ticks,
    decreases count,
{
    if count > 0 {
        law_clock_counts_ticks(state, (count - 1) as nat, cpu);
    }
}

/// A delay of zero ticks is over as soon as the task runs again, whatever the
/// time: the task yields exactly once.
pub proof fn law_zero_delay_is_one_yield(start: u32, now: u32)
    ensures
        (DelayState { start, ticks: 0 }).is_over(now),
{
}

/// A delay lasts as long as asked, also across the wrap of the tick counter:
/// when `passed` ticks have gone by since it began, the ticks counted since
/// its start are `passed`, so the delay is over if and only if `passed` is at
/// least the number of ticks asked for.
pub proof fn law_delay_lasts_its_ticks(start: u32, ticks: u32, passed: nat)
    requires
        passed < 0x1_0000_0000,
    ensures
        ({
            let now = ((start + passed) % 0x1_0000_0000) as u32;
            &&& ticks_since(start, now) == passed
            &&& (DelayState { start, ticks }).is_over(now) <==> passed >= ticks
        }),
{
}

/// A parked task does not run before the next tick: the selection never falls
/// on a parked task, and a task that has yielded is parked.
pub proof fn law_parked_task_is_not_selected(state: SchedulerState)
    requires
        state.wf(),
        state.current_task != NO_TASK,
    ensures
        state.selection() matches Selection::NewTask(next) ==> !state.tasks[next as int].parked,
        state.selection() == Selection::CurrentTask ==> !state.tasks[state.current_task as int].parked,
        state.yielded().tasks[state.current_task as int].parked,
        state.yielded().selection() != Selection::CurrentTask,
        state.yielded().selection() matches Selection::NewTask(next) ==> next != state.current_task,
        state.yield_request() != Request::Nothing,
{
    let parked = state.parked_current();
    lemma_selection_in_range(state);
    lemma_parked_current_is_not_selected(state);
    lemma_flags_keep_wf(state, parked);
    lemma_selection_in_range(parked);
    lemma_selection_reads_tasks_only(parked, state.yielded());
}

/// How many places after the current task the task at `position` comes in the
/// round robin, the current task itself coming last.
pub open spec fn places_after_current(state: SchedulerState, position: int) -> int {
    if position > state.current_task {
        position - state.current_task
    } else {
        position - state.current_task + state.tasks.len()
    }
}

/// No runnable task is passed over: if a task is not parked, the selection
/// falls on it or on a task that comes before it in the round robin, so every
/// switch brings its turn nearer; in particular some task is selected.
pub proof fn law_no_task_is_passed_over(state: SchedulerState, position: int)
    requires
        state.wf(),
        state.current_task != NO_TASK,
        0 <= position < state.tasks.len(),
        !state.tasks[position].parked,
    ensures
        state.selection() != Selection::NoTasks,
        state.selection() == Selection::CurrentTask ==> position == state.current_task,
        state.selection() matches Selection::NewTask(next) ==> 1 <= places_after_current(
            state,
            next as int,
        ) <= places_after_current(state, position),
{
    let turn = places_after_current(state, position);
    let first = lemma_some_task_is_first(state, turn);
    lemma_first_runnable_is_unique(state, first);
}

/// The selection in words: once a task has run, no task is selected if and
/// only if every task is parked; the current task is selected if and only if
/// it is the only one that is not parked; otherwise another task is selected.
pub proof fn law_selection_in_words(state: SchedulerState)
    requires
        state.wf(),
        state.current_task != NO_TASK,
    ensures
        state.selection() == Selection::NoTasks <==> forall|i: int|
            0 <= i < state.tasks.len() ==> (#[trigger] state.tasks[i]).parked,
        state.selection() == Selection::CurrentTask <==> !state.tasks[state.current_task as int].parked
            && forall|i: int|
            0 <= i < state.tasks.len() && i != state.current_task ==> (#[trigger] state.tasks[i]).parked,
{
    lemma_selection_in_range(state);
    assert forall|i: int| 0 <= i < state.tasks.len() && !(#[trigger] state.tasks[i]).parked implies {
        &&& state.selection() != Selection::NoTasks
        &&& state.selection() == Selection::CurrentTask ==> i == state.current_task
    } by {
        law_no_task_is_passed_over(state, i);
    }
    if exists|k: int| state.first_runnable(k) {
        let k = choose|k: int| state.first_runnable(k);
        assert(!state.tasks[state.slot(k)].parked);
        assert(k == state.tasks.len() ==> state.slot(k) == state.current_task);
    }
}

/// A yield switches tasks if anyone else can run: the request is a context
/// switch if and only if some other task is not parked, and sleep otherwise.
pub proof fn law_yield_switches_if_another_task_can_run(state: SchedulerState)
    requires
        state.wf(),
        state.current_task != NO_TASK,
    ensures
        state.yield_request() == Request::ContextSwitch <==> exists|i: int|
            0 <= i < state.tasks.len() && i != state.current_task && !(#[trigger] state.tasks[i]).parked,
        state.yield_request() == Request::Sleep <==> forall|i: int|
            0 <= i < state.tasks.len() && i != state.current_task ==> (#[trigger] state.tasks[i]).parked,
{
    let parked = state.parked_current();
    lemma_flags_keep_wf(state, parked);
    law_selection_in_words(parked);
    lemma_parked_current_is_not_selected(state);
    if state.yield_request() == Request::Sleep {
        assert forall|i: int| 0 <= i < state.tasks.len() && i != state.current_task implies (
        #[trigger] state.tasks[i]).parked by {
            assert(parked.tasks[i].parked);
        }
    } else {
        let i = choose|i: int| 0 <= i < parked.tasks.len() && !(#[trigger] parked.tasks[i]).parked;
        assert(!state.tasks[i].parked);
    }
}

/// If the task `k` places after the current one is not parked, some task at
/// most `k` places after it is the first that is not.
proof fn lemma_some_task_is_first(state: SchedulerState, k: int) -> (first: int)
    requires
        1 <= k <= state.tasks.len(),
        !state.tasks[state.slot(k)].parked,
    ensures
        1 <= first <= k,
        state.first_runnable(first),
    decreases k,
{
    if exists|j: int| 1 <= j < k && !state.tasks[#[trigger] state.slot(j)].parked {
        let j = choose|j: int| 1 <= j < k && !state.tasks[#[trigger] state.slot(j)].parked;
        lemma_some_task_is_first(state, j)
    } else {
        k
    }
}

/// A tick wakes every task.
pub proof fn law_tick_unparks_every_task(state: SchedulerState, i: int)
    requires
        0 <= i < state.tasks.len(),
    ensures
        !state.ticked().tasks[i].parked,
{
}

/// A suspended task is left alone: no operation of the scheduler changes the
/// stack, the stored stack pointer or the entry address of a task other than
/// the running one; ticks and yields change those of no task at all.
pub proof fn law_suspended_tasks_are_left_alone(state: SchedulerState, cpu: CpuState, i: int)
    requires
        state.wf(),
        0 <= i < state.tasks.len(),
    ensures
        i != state.current_task ==> state.switched(cpu).tasks[i] == state.tasks[i],
        state.current_task != NO_TASK && i != state.current_task ==> state.interrupted(
            cpu,
        ).tasks[i] == state.tasks[i],
        state.ticked().tasks[i] == (TaskState { parked: false, ..state.tasks[i] }),
        state.current_task != NO_TASK ==> state.yielded().tasks[i] == (TaskState {
            parked: state.yielded().tasks[i].parked,
            ..state.tasks[i]
        }),
{
}

/// The round trip through the context switch. A task that is switched out
/// with the registers `cpu`, and later, its stack and stored stack pointer
/// being as the switch left them, switched in again, finds R4 to R11 as they
/// were, whatever the processor held in between, and the process stack pointer
/// at the hardware frame it was interrupted with. On a floating-point build it
/// also finds its exception-return value and, if it had the floating-point
/// unit active, S16 to S31.
pub proof fn law_switch_round_trip(
    out: SchedulerState,
    cpu: CpuState,
    back: SchedulerState,
    other: CpuState,
)
    requires
        out.wf(),
        cpu.wf(),
        out.can_switch(cpu),
        out.current_task != NO_TASK,
        back.wf(),
        other.wf(),
        back.tasks.len() == out.tasks.len(),
        back.current_task != out.current_task,
        back.next_task == out.current_task,
        back.tasks[out.current_task as int].stack == out.switched(cpu).tasks[out.current_task as int].stack,
        back.tasks[out.current_task as int].memory == out.switched(
            cpu,
        ).tasks[out.current_task as int].memory,
        back.tasks[out.current_task as int].arch == out.arch(),
    ensures
        ({
            let resumed = back.switched_cpu(other);
            &&& resumed.r.subrange(4, 12) == cpu.r.subrange(4, 12)
            &&& resumed.psp == cpu.psp
            &&& out.arch().has_fpu() ==> resumed.lr == cpu.lr
            &&& out.arch().has_fpu() && uses_fp(cpu.lr) ==> resumed.s.subrange(16, 32)
                == cpu.s.subrange(16, 32)
            &&& back.switched(other).current_task == out.current_task
        }),
{
    let task = out.tasks[out.current_task as int];
    let again = back.tasks[out.current_task as int];
    lemma_suspended_is_suspended(task, cpu);
    law_callee_saved_round_trip(task.arch, cpu, other, again.stack);
    if task.arch.has_fpu() {
        law_fp_round_trip(cpu, other, again.stack);
    }
}

/// Stack safety: in every well-formed state the stored stack pointer of every
/// task is a word boundary of the task's own stack, between its base and its
/// top. Every operation of the scheduler keeps the state well formed.
pub proof fn law_stack_pointers_stay_in_their_stacks(state: SchedulerState, i: int)
    requires
        state.wf(),
        0 <= i < state.tasks.len(),
    ensures
        state.tasks[i].memory.base <= state.tasks[i].stack <= state.tasks[i].memory.top(),
        (state.tasks[i].stack - state.tasks[i].memory.base) % 4 == 0,
        state.tasks[i].stack % 4 == 0,
        state.current_task == NO_TASK || state.current_task < state.tasks.len(),
        state.next_task < state.tasks.len(),
{
    let task = state.tasks[i];
    assert(task.wf());
    assert(task.memory.base % 4 == 0);
}

/// One event in the life of the kernel.
pub enum Event {
    /// The scheduler is started.
    Start,
    /// The system tick fires.
    Tick,
    /// The running task yields until the next tick.
    Yield,
    /// The hardware stacks an exception frame while the registers are these.
    ExceptionEntry(CpuState),
    /// The context switch runs while the registers are these.
    ContextSwitch(CpuState),
}

/// May the event happen in this state? These are the preconditions of the
/// operations of the [`Scheduler`](crate::Scheduler).
pub open spec fn permits(state: SchedulerState, event: Event) -> bool {
    match event {
        Event::Start => !state.started,
        Event::Tick => true,
        Event::Yield => state.current_task != NO_TASK,
        Event::ExceptionEntry(cpu) => state.current_task != NO_TASK
            && state.tasks[state.current_task as int].can_interrupt(cpu),
        Event::ContextSwitch(cpu) => cpu.wf() && state.can_switch(cpu),
    }
}

/// The state after the event.
pub open spec fn after(state: SchedulerState, event: Event) -> SchedulerState {
    match event {
        Event::Start => state.started_up(),
        Event::Tick => state.ticked(),
        Event::Yield => state.yielded(),
        Event::ExceptionEntry(cpu) => state.interrupted(cpu),
        Event::ContextSwitch(cpu) => state.switched(cpu),
    }
}

/// The state after the events, in order.
pub open spec fn after_all(state: SchedulerState, events: Seq<Event>) -> SchedulerState
    decreases events.len(),
{
    if events.len() == 0 {
        state
    } else {
        after(after_all(state, events.drop_last()), events.last())
    }
}

/// May the events happen one after the other, from this state on?
pub open spec fn permits_all(state: SchedulerState, events: Seq<Event>) -> bool
    decreases events.len(),
{
    events.len() > 0 ==> permits_all(state, events.drop_last()) && permits(
        after_all(state, events.drop_last()),
        events.last(),
    )
}

/// Is the task at `position` off the processor whenever one of the events
/// happens?
pub open spec fn waits_through(state: SchedulerState, events: Seq<Event>, position: int) -> bool
    decreases events.len(),
{
    events.len() > 0 ==> waits_through(state, events.drop_last(), position) && after_all(
        state,
        events.drop_last(),
    ).current_task != position
}

/// Every event keeps the state well formed.
pub proof fn law_every_event_keeps_wf(state: SchedulerState, event: Event)
    requires
        state.wf(),
        permits(state, event),
    ensures
        after(state, event).wf(),
        after(state, event).tasks.len() == state.tasks.len(),
        event != Event::Start ==> after(state, event).started == state.started,
{
    match event {
        Event::Start => {
            let started = state.started_up();
            assert forall|i: int| 0 <= i < started.tasks.len() implies (#[trigger] started.tasks[i]).wf()
                && started.tasks[i].is_suspended() && started.tasks[i].arch == started.arch() by {
                lemma_primed_is_suspended(state.tasks[i]);
                lemma_primed_is_suspended(state.tasks[0]);
            }
        },
        Event::Tick => {
            let woken = SchedulerState {
                ticks: if state.ticks == u32::MAX {
                    0
                } else {
                    (state.ticks + 1) as u32
                },
                ..state.unparked()
            };
            lemma_flags_keep_wf(state, woken);
            lemma_selection_in_range(woken);
            lemma_flags_keep_wf(woken, woken.with_selection());
        },
        Event::Yield => {
            let parked = state.parked_current();
            lemma_flags_keep_wf(state, parked);
            lemma_selection_in_range(parked);
            lemma_flags_keep_wf(parked, parked.with_selection());
        },
        Event::ExceptionEntry(cpu) => {
            let entered = state.interrupted(cpu);
            assert forall|i: int| 0 <= i < entered.tasks.len() implies (#[trigger] entered.tasks[i]).wf()
                && entered.tasks[i].arch == entered.arch() by {}
            assert forall|i: int|
                0 <= i < entered.tasks.len() && i != entered.current_task implies (
            #[trigger] entered.tasks[i]).is_suspended() by {}
        },
        Event::ContextSwitch(cpu) => {
            lemma_switched_is_wf(state, cpu);
        },
    }
}

/// Well-formedness is an invariant: whatever happens, in whatever order, the
/// state stays well formed, and so every stored stack pointer stays inside its
/// own stack.
pub proof fn law_wf_is_invariant(state: SchedulerState, events: Seq<Event>)
    requires
        state.wf(),
        permits_all(state, events),
    ensures
        after_all(state, events).wf(),
        after_all(state, events).tasks.len() == state.tasks.len(),
        state.started ==> after_all(state, events).started,
    decreases events.len(),
{
    if events.len() > 0 {
        law_wf_is_invariant(state, events.drop_last());
        let before = after_all(state, events.drop_last());
        law_every_event_keeps_wf(before, events.last());
    }
}

/// Nothing touches a waiting task: through any events during which the task
/// is off the processor, once the scheduler has started, its stack and its
/// stored stack pointer stay as they are.
pub proof fn law_waiting_task_is_untouched(
    state: SchedulerState,
    events: Seq<Event>,
    position: int,
)
    requires
        state.wf(),
        state.started,
        permits_all(state, events),
        0 <= position < state.tasks.len(),
        waits_through(state, events, position),
    ensures
        after_all(state, events).tasks[position] == (TaskState {
            parked: after_all(state, events).tasks[position].parked,
            ..state.tasks[position]
        }),
    decreases events.len(),
{
    if events.len() > 0 {
        law_waiting_task_is_untouched(state, events.drop_last(), position);
        law_wf_is_invariant(state, events.drop_last());
        let before = after_all(state, events.drop_last());
        law_suspended_tasks_are_left_alone(
            before,
            match events.last() {
                Event::ExceptionEntry(cpu) => cpu,
                Event::ContextSwitch(cpu) => cpu,
                _ => arbitrary(),
            },
            position,
        );
    }
}

/// The round trip through any interleaving. A task is switched out with the
/// registers `cpu`; any events follow during which it is off the processor;
/// then the context switch resumes it. It finds R4 to R11 as they were and the
/// process stack pointer at the frame it was interrupted with; on a
/// floating-point build it finds its exception-return value and, if it had the
/// floating-point unit active, S16 to S31: whatever the other tasks did, and
/// whether or not they used the floating-point unit.
pub proof fn law_round_trip_through_any_interleaving(
    state: SchedulerState,
    cpu: CpuState,
    events: Seq<Event>,
    other: CpuState,
)
    requires
        state.wf(),
        cpu.wf(),
        other.wf(),
        state.can_switch(cpu),
        state.current_task != NO_TASK,
        state.next_task != state.current_task,
        permits_all(state.switched(cpu), events),
        waits_through(state.switched(cpu), events, state.current_task as int),
        after_all(state.switched(cpu), events).current_task != state.current_task,
        after_all(state.switched(cpu), events).next_task == state.current_task,
    ensures
        ({
            let back = after_all(state.switched(cpu), events);
            let resumed = back.switched_cpu(other);
            &&& back.switched(other).current_task == state.current_task
            &&& resumed.r.subrange(4, 12) == cpu.r.subrange(4, 12)
            &&& resumed.psp == cpu.psp
            &&& state.arch().has_fpu() ==> resumed.lr == cpu.lr
            &&& state.arch().has_fpu() && uses_fp(cpu.lr) ==> resumed.s.subrange(16, 32)
                == cpu.s.subrange(16, 32)
        }),
{
    let out = state.switched(cpu);
    lemma_switched_is_wf(state, cpu);
    law_wf_is_invariant(out, events);
    law_waiting_task_is_untouched(out, events, state.current_task as int);
    law_switch_round_trip(state, cpu, after_all(out, events), other);
}

} // verus!
