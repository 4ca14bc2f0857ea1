//! The scheduler: which task runs, which runs next, and what time it is.

use vstd::prelude::*;
use vstd::string::*;
use crate::arch::Arch;
use crate::cpu::{Cpu, CpuState};
use crate::frame::entered;
use crate::task::{lemma_primed_is_suspended, lemma_suspended_is_suspended, Task, TaskState};

verus! {

/// The index that stands for "no task": every bit set.
pub const NO_TASK: usize = usize::MAX;

/// Identifies a task by its position in the task list. The invalid identifier
/// stands for "no task has run yet".
#[derive(Copy, Clone, Debug, PartialEq, Eq)]
pub struct TaskId(usize);

impl View for TaskId {
    type V = usize;

    /// The position in the task list, or [`NO_TASK`].
    closed spec fn view(&self) -> usize {
        self.0
    }
}

impl TaskId {
    /// Is this the invalid identifier?
    pub fn is_invalid(self) -> (invalid: bool)
        ensures
            invalid == (self@ == NO_TASK),
    {
        self.0 == NO_TASK
    }

    /// The invalid identifier.
    pub fn invalid() -> (id: TaskId)
        ensures
            id@ == NO_TASK,
    {
        TaskId(NO_TASK)
    }

    /// The position in the task list, or [`NO_TASK`] for the invalid
    /// identifier.
    pub fn index(self) -> (index: usize)
        ensures
            index == self@,
    {
        self.0
    }
}

/// The character for one decimal digit.
pub open spec fn digit_char(digit: int) -> char {
    if digit == 0 {
        '0'
    } else if digit == 1 {
        '1'
    } else if digit == 2 {
        '2'
    } else if digit == 3 {
        '3'
    } else if digit == 4 {
        '4'
    } else if digit == 5 {
        '5'
    } else if digit == 6 {
        '6'
    } else if digit == 7 {
        '7'
    } else if digit == 8 {
        '8'
    } else {
        '9'
    }
}

/// The decimal digits of `n`, without leading zeros.
pub open spec fn decimal(n: nat) -> Seq<char>
    decreases n,
{
    if n < 10 {
        seq![digit_char(n as int)]
    } else {
        decimal(n / 10).push(digit_char((n % 10) as int))
    }
}

/// How a task identifier is displayed: `T` and the position in at least three
/// decimal digits, as in `T003`; `T---` for the invalid identifier.
pub open spec fn label_text(index: usize) -> Seq<char> {
    if index == NO_TASK {
        seq!['T', '-', '-', '-']
    } else if index < 10 {
        seq!['T', '0', '0'] + decimal(index as nat)
    } else if index < 100 {
        seq!['T', '0'] + decimal(index as nat)
    } else {
        seq!['T'] + decimal(index as nat)
    }
}

/// The text of one decimal digit.
fn digit_str(digit: usize) -> (text: &'static str)
    requires
        digit < 10,
    ensures
        text@ == seq![digit_char(digit as int)],
{
    proof {
        reveal_strlit("0");
        reveal_strlit("1");
        reveal_strlit("2");
        reveal_strlit("3");
        reveal_strlit("4");
        reveal_strlit("5");
        reveal_strlit("6");
        reveal_strlit("7");
        reveal_strlit("8");
        reveal_strlit("9");
    }
    let text = match digit {
        0 => "0",
        1 => "1",
        2 => "2",
        3 => "3",
        4 => "4",
        5 => "5",
        6 => "6",
        7 => "7",
        8 => "8",
        _ => "9",
    };
    assert(text@ =~= seq![digit_char(digit as int)]);
    text
}

/// Appends the decimal digits of `n` to `text`.
fn push_decimal(text: &mut String, n: usize)
    ensures
        final(text)@ == old(text)@ + decimal(n as nat),
    decreases n,
{
    if n >= 10 {
        push_decimal(text, n / 10);
    }
    text.append(digit_str(n % 10));
    assert(text@ =~= old(text)@ + decimal(n as nat));
}

impl TaskId {
    /// The text that displays the identifier: `T003` for the task at position
    /// 3, `T---` for the invalid identifier.
    pub fn label(self) -> (text: String)
        ensures
            text@ == label_text(self@),
    {
        proof {
            reveal_strlit("T---");
            reveal_strlit("T00");
            reveal_strlit("T0");
            reveal_strlit("T");
        }
        if self.is_invalid() {
            let text = String::from_str("T---");
            assert(text@ =~= label_text(self@));
            text
        } else {
            let mut text = if self.0 < 10 {
                String::from_str("T00")
            } else if self.0 < 100 {
                String::from_str("T0")
            } else {
                String::from_str("T")
            };
            push_decimal(&mut text, self.0);
            assert(text@ =~= label_text(self@));
            text
        }
    }
}

/// Which task the selection settled on, as a value of the model.
pub enum Selection {
    /// Another task: switch to the one at this position.
    NewTask(usize),
    /// The current task: no switch is needed.
    CurrentTask,
    /// Every task is parked.
    NoTasks,
}

/// Which task the selection settled on.
#[derive(Copy, Clone, Debug, PartialEq, Eq)]
pub enum TaskSelection {
    /// Another task: switch to it.
    NewTask(TaskId),
    /// The current task: no switch is needed.
    CurrentTask,
    /// Every task is parked: the processor may sleep.
    NoTasks,
}

impl View for TaskSelection {
    type V = Selection;

    open spec fn view(&self) -> Selection {
        match *self {
            TaskSelection::NewTask(id) => Selection::NewTask(id@),
            TaskSelection::CurrentTask => Selection::CurrentTask,
            TaskSelection::NoTasks => Selection::NoTasks,
        }
    }
}

/// What the caller has to ask of the hardware after an operation of the
/// scheduler.
#[derive(Copy, Clone, Debug, PartialEq, Eq, Structural)]
pub enum Request {
    /// Nothing.
    Nothing,
    /// Pend the pend-supervisor exception, whose handler switches to the next
    /// task.
    ContextSwitch,
    /// Wait for an interrupt: no task can run before the next tick.
    Sleep,
}

/// What a [`Scheduler`] holds.
pub struct SchedulerState {
    /// The position of the running task, or [`NO_TASK`] while none has run.
    pub current_task: usize,
    /// The position of the task that the context switch will make current.
    pub next_task: usize,
    /// The tasks.
    pub tasks: Seq<TaskState>,
    /// The number of ticks so far, modulo 2^32.
    pub ticks: u32,
    /// Have the stacks been primed?
    pub started: bool,
}

impl SchedulerState {
    /// The processor variant: that of the first task, which all tasks share.
    pub open spec fn arch(self) -> Arch {
        self.tasks[0].arch
    }

    /// There is at least one task; the current task is none or one of them,
    /// the next task is one of them, and the first while none is current;
    /// every task is well formed, so that its stored stack pointer lies in its
    /// own stack, and is made for the same processor variant; before the
    /// start every stack is untouched, and after it every task but the running
    /// one holds a whole suspended context.
    pub open spec fn wf(self) -> bool {
        &&& self.tasks.len() > 0
        &&& self.tasks.len() <= usize::MAX
        &&& (self.current_task == NO_TASK || self.current_task < self.tasks.len())
        &&& self.next_task < self.tasks.len()
        &&& self.current_task == NO_TASK ==> self.next_task == 0
        &&& forall|i: int|
            0 <= i < self.tasks.len() ==> (#[trigger] self.tasks[i]).wf() && self.tasks[i].arch
                == self.arch()
        &&& !self.started ==> self.current_task == NO_TASK && forall|i: int|
            0 <= i < self.tasks.len() ==> (#[trigger] self.tasks[i]).is_fresh()
        &&& self.started ==> forall|i: int|
            0 <= i < self.tasks.len() && i != self.current_task ==> (
            #[trigger] self.tasks[i]).is_suspended()
    }

    /// The position `k` places after the current task, wrapping around the end
    /// of the list, for `k` up to the number of tasks.
    pub open spec fn slot(self, k: int) -> int {
        if self.current_task + k < self.tasks.len() {
            self.current_task + k
        } else {
            self.current_task + k - self.tasks.len()
        }
    }

    /// Is the task `k` places after the current one the first that is not
    /// parked, the current task itself coming last?
    pub open spec fn first_runnable(self, k: int) -> bool {
        &&& 1 <= k <= self.tasks.len()
        &&& !self.tasks[self.slot(k)].parked
        &&& forall|j: int| 1 <= j < k ==> self.tasks[#[trigger] self.slot(j)].parked
    }

    /// The task to run: the first one after the current task, in cyclic order,
    /// that is not parked. Before any task has run it is the first of the
    /// list.
    pub open spec fn selection(self) -> Selection {
        if self.current_task == NO_TASK {
            Selection::NewTask(0)
        } else if exists|k: int| self.first_runnable(k) {
            let k = choose|k: int| self.first_runnable(k);
            if k == self.tasks.len() {
                Selection::CurrentTask
            } else {
                Selection::NewTask(self.slot(k) as usize)
            }
        } else {
            Selection::NoTasks
        }
    }

    /// The state with `next_task` set to the selected task, if the selection
    /// is a new task, and unchanged otherwise.
    pub open spec fn with_selection(self) -> SchedulerState {
        match self.selection() {
            Selection::NewTask(next) => SchedulerState { next_task: next, ..self },
            _ => self,
        }
    }

    /// The state with no task parked.
    pub open spec fn unparked(self) -> SchedulerState {
        SchedulerState {
            tasks: Seq::new(
                self.tasks.len(),
                |i: int| TaskState { parked: false, ..self.tasks[i] },
            ),
            ..self
        }
    }

    /// The state after a tick: every task is unparked, the tick counter has
    /// advanced by one modulo 2^32, and the next task is the selected one.
    pub open spec fn ticked(self) -> SchedulerState {
        (SchedulerState {
            ticks: if self.ticks == u32::MAX {
                0
            } else {
                (self.ticks + 1) as u32
            },
            ..self.unparked()
        }).with_selection()
    }

    /// What a tick asks of the hardware: a context switch if another task is
    /// selected, nothing otherwise.
    pub open spec fn tick_request(self) -> Request {
        match self.unparked().selection() {
            Selection::NewTask(_) => Request::ContextSwitch,
            _ => Request::Nothing,
        }
    }

    /// The state with the current task parked.
    pub open spec fn parked_current(self) -> SchedulerState {
        SchedulerState {
            tasks: self.tasks.update(
                self.current_task as int,
                TaskState { parked: true, ..self.tasks[self.current_task as int] },
            ),
            ..self
        }
    }

    /// The state after the current task has yielded: it is parked, and the
    /// next task is the selected one.
    pub open spec fn yielded(self) -> SchedulerState {
        self.parked_current().with_selection()
    }

    /// What a yield asks of the hardware: a context switch if another task can
    /// run, sleep if none can.
    pub open spec fn yield_request(self) -> Request {
        match self.parked_current().selection() {
            Selection::NewTask(_) => Request::ContextSwitch,
            _ => Request::Sleep,
        }
    }

    /// The state after the start: every stack is primed with its task's
    /// initial frame.
    pub open spec fn started_up(self) -> SchedulerState {
        SchedulerState {
            tasks: Seq::new(self.tasks.len(), |i: int| self.tasks[i].primed()),
            started: true,
            ..self
        }
    }

    /// May the context switch run while the registers are `cpu`? The stacks
    /// must be primed, and the current task, if there is one, must have room
    /// for the frame.
    pub open spec fn can_switch(self, cpu: CpuState) -> bool {
        &&& self.started
        &&& self.current_task != NO_TASK ==> self.tasks[self.current_task as int].can_suspend(cpu)
    }

    /// The state after the saving half of the context switch: the current
    /// task, if there is one, is suspended with the registers `cpu`.
    pub open spec fn saved(self, cpu: CpuState) -> SchedulerState {
        if self.current_task == NO_TASK {
            self
        } else {
            SchedulerState {
                tasks: self.tasks.update(
                    self.current_task as int,
                    self.tasks[self.current_task as int].suspended(cpu),
                ),
                ..self
            }
        }
    }

    /// The state after the context switch: the current task is suspended and
    /// the next task has become the current one.
    pub open spec fn switched(self, cpu: CpuState) -> SchedulerState {
        SchedulerState { current_task: self.next_task, ..self.saved(cpu) }
    }

    /// The registers after the context switch: those of the next task.
    pub open spec fn switched_cpu(self, cpu: CpuState) -> CpuState {
        self.saved(cpu).tasks[self.next_task as int].resumed(cpu)
    }

    /// The state after the hardware has stacked an exception frame on the
    /// stack of the current task.
    pub open spec fn interrupted(self, cpu: CpuState) -> SchedulerState {
        SchedulerState {
            tasks: self.tasks.update(
                self.current_task as int,
                self.tasks[self.current_task as int].interrupted(cpu),
            ),
            ..self
        }
    }
}

/// Only one offset can be the first runnable one.
pub proof fn lemma_first_runnable_is_unique(state: SchedulerState, k: int)
    requires
        state.first_runnable(k),
    ensures
        (choose|j: int| state.first_runnable(j)) == k,
{
    let j = choose|j: int| state.first_runnable(j);
    assert(state.first_runnable(j));
    if j < k {
        let _ = state.slot(j);
    } else if k < j {
        let _ = state.slot(k);
    }
}

/// A pre-emptive task-switching scheduler.
///
/// It slices time between its tasks in a round-robin fashion, whether or not
/// they have work to do.
pub struct Scheduler {
    current_task: usize,
    next_task: usize,
    task_list: Vec<Task>,
    ticks: u32,
    started: bool,
}

impl View for Scheduler {
    type V = SchedulerState;

    closed spec fn view(&self) -> SchedulerState {
        SchedulerState {
            current_task: self.current_task,
            next_task: self.next_task,
            tasks: Seq::new(self.task_list@.len(), |i: int| self.task_list@[i]@),
            ticks: self.ticks,
            started: self.started,
        }
    }
}

impl Scheduler {
    /// Builds the scheduler over a list of new tasks. No task is current, the
    /// first task is next, and the tick counter is zero.
    pub fn new(task_list: Vec<Task>) -> (scheduler: Scheduler)
        requires
            task_list@.len() > 0,
            forall|i: int|
                0 <= i < task_list@.len() ==> (#[trigger] task_list@[i])@.wf()
                    && task_list@[i]@.is_fresh() && task_list@[i]@.arch == task_list@[0]@.arch,
        ensures
            scheduler@.wf(),
            scheduler@ == (SchedulerState {
                current_task: NO_TASK,
                next_task: 0,
                tasks: Seq::new(task_list@.len(), |i: int| task_list@[i]@),
                ticks: 0,
                started: false,
            }),
    {
        Scheduler::new_at(task_list, 0)
    }

    /// Builds the scheduler as [`Scheduler::new`] does, but with the tick
    /// counter at `now`: for a clock that does not begin at zero.
    pub fn new_at(task_list: Vec<Task>, now: u32) -> (scheduler: Scheduler)
        requires
            task_list@.len() > 0,
            forall|i: int|
                0 <= i < task_list@.len() ==> (#[trigger] task_list@[i])@.wf()
                    && task_list@[i]@.is_fresh() && task_list@[i]@.arch == task_list@[0]@.arch,
        ensures
            scheduler@.wf(),
            scheduler@ == (SchedulerState {
                current_task: NO_TASK,
                next_task: 0,
                tasks: Seq::new(task_list@.len(), |i: int| task_list@[i]@),
                ticks: now,
                started: false,
            }),
    {
        let num_tasks = task_list.len();
        let scheduler = Scheduler {
            task_list,
            current_task: NO_TASK,
            next_task: 0,
            ticks: now,
            started: false,
        };
        proof {
            let state = scheduler@;
            assert(state.tasks.len() == num_tasks);
            assert forall|i: int| 0 <= i < state.tasks.len() implies (#[trigger] state.tasks[i]).wf()
                && state.tasks[i].arch == state.arch() && state.tasks[i].is_fresh() by {
                assert(state.tasks[i] == task_list@[i]@);
                assert(state.tasks[0] == task_list@[0]@);
            }
        }
        scheduler
    }

    /// The current tick count.
    pub fn now(&self) -> (ticks: u32)
        ensures
            ticks == self@.ticks,
    {
        self.ticks
    }

    /// The identifier of the running task; the invalid one while no task has
    /// run.
    pub fn current_task_id(&self) -> (id: TaskId)
        ensures
            id@ == self@.current_task,
    {
        TaskId(self.current_task)
    }

    /// The identifier of the task that the context switch will make current.
    pub fn next_task_id(&self) -> (id: TaskId)
        ensures
            id@ == self@.next_task,
    {
        TaskId(self.next_task)
    }

    /// Have the stacks been primed?
    pub fn is_started(&self) -> (started: bool)
        ensures
            started == self@.started,
    {
        self.started
    }

    /// The number of tasks.
    pub fn num_tasks(&self) -> (count: usize)
        ensures
            count == self@.tasks.len(),
    {
        self.task_list.len()
    }

    /// The task at position `index`.
    pub fn task(&self, index: usize) -> (task: &Task)
        requires
            index < self@.tasks.len(),
        ensures
            task@ == self@.tasks[index as int],
    {
        &self.task_list[index]
    }

    /// The processor variant the tasks were made for.
    pub fn arch(&self) -> (arch: Arch)
        requires
            self@.wf(),
        ensures
            arch == self@.arch(),
    {
        self.task_list[0].arch()
    }

    /// May the hardware stack an exception frame on the stack of the current
    /// task while the registers are `cpu`? See [`Scheduler::exception_entry`].
    pub fn can_take_exception(&self, cpu: &Cpu) -> (ok: bool)
        requires
            self@.wf(),
        ensures
            ok == (self@.current_task != NO_TASK && self@.tasks[self@.current_task as int].can_interrupt(
                cpu@,
            )),
    {
        if self.current_task == NO_TASK {
            return false;
        }
        assert(self@.tasks[self.current_task as int].wf());
        self.task_list[self.current_task].can_interrupt(cpu)
    }

    /// May the context switch run while the registers are `cpu`? See
    /// [`Scheduler::pend_sv`].
    pub fn can_switch(&self, cpu: &Cpu) -> (ok: bool)
        requires
            self@.wf(),
        ensures
            ok == self@.can_switch(cpu@),
    {
        if !self.started {
            return false;
        }
        if self.current_task == NO_TASK {
            return true;
        }
        assert(self@.tasks[self.current_task as int].wf());
        self.task_list[self.current_task].can_suspend(cpu)
    }

    /// May exception return pop a hardware frame from the stack of the current
    /// task while the registers are `cpu`? See [`Scheduler::exception_return`].
    pub fn can_return(&self, cpu: &Cpu) -> (ok: bool)
        requires
            self@.wf(),
        ensures
            ok == (self@.current_task != NO_TASK && self@.tasks[self@.current_task as int].can_return(
                cpu@,
            )),
    {
        if self.current_task == NO_TASK {
            return false;
        }
        assert(self@.tasks[self.current_task as int].wf());
        self.task_list[self.current_task].can_return(cpu)
    }

    /// Selects the next task in the round-robin: the first task after the
    /// current one that is not parked, the current one coming last. Changes
    /// nothing.
    pub fn pick_next_task(&self) -> (selection: TaskSelection)
        requires
            self@.wf(),
        ensures
            selection@ == self@.selection(),
    {
        let current = self.current_task;
        if current == NO_TASK {
            return TaskSelection::NewTask(TaskId(0));
        }
        let num_tasks = self.task_list.len();
        let mut idx: usize = current;
        let mut k: usize = 0;
        while k < num_tasks
            invariant
                self@.wf(),
                current == self@.current_task,
                current < num_tasks,
                num_tasks == self@.tasks.len(),
                k <= num_tasks,
                idx == self@.slot(k as int),
                forall|j: int| 1 <= j <= k ==> self@.tasks[#[trigger] self@.slot(j)].parked,
            decreases num_tasks - k,
        {
            k += 1;
            idx = if idx + 1 == num_tasks {
                0
            } else {
                idx + 1
            };
            if !self.task_list[idx].parked() {
                proof {
                    assert(self@.first_runnable(k as int));
                    lemma_first_runnable_is_unique(self@, k as int);
                }
                return if idx == current {
                    TaskSelection::CurrentTask
                } else {
                    TaskSelection::NewTask(TaskId(idx))
                };
            }
        }
        proof {
            assert forall|j: int| !self@.first_runnable(j) by {
                if 1 <= j <= num_tasks {
                    let _ = self@.slot(j);
                }
            }
        }
        TaskSelection::NoTasks
    }

    /// Stores the selected task as the next one, if the selection is another
    /// task.
    fn publish(&mut self, selection: TaskSelection)
        requires
            selection@ == old(self)@.selection(),
        ensures
            final(self)@ == old(self)@.with_selection(),
    {
        match selection {
            TaskSelection::NewTask(task_id) => {
                self.next_task = task_id.0;
            },
            TaskSelection::CurrentTask | TaskSelection::NoTasks => {},
        }
    }

    /// Starts the scheduler: primes the stack of every task with its initial
    /// frame, so that the first context switch launches a task cleanly.
    ///
    /// May be called once. The caller then programs the system timer and
    /// performs the request, which is always a context switch.
    pub fn start(&mut self) -> (request: Request)
        requires
            old(self)@.wf(),
            !old(self)@.started,
        ensures
            final(self)@ == old(self)@.started_up(),
            final(self)@.wf(),
            request == Request::ContextSwitch,
    {
        let num_tasks = self.task_list.len();
        let mut task_idx: usize = 0;
        while task_idx < num_tasks
            invariant
                old(self)@.wf(),
                task_idx <= num_tasks,
                num_tasks == old(self)@.tasks.len(),
                self@.tasks.len() == num_tasks,
                self.current_task == old(self).current_task,
                self.next_task == old(self).next_task,
                self.ticks == old(self).ticks,
                self.started == old(self).started,
                forall|i: int|
                    0 <= i < task_idx ==> #[trigger] self@.tasks[i] == old(self)@.tasks[i].primed(),
                forall|i: int|
                    task_idx <= i < num_tasks ==> #[trigger] self@.tasks[i] == old(self)@.tasks[i],
            decreases num_tasks - task_idx,
        {
            let ghost before = self@;
            assert(before.tasks[task_idx as int] == old(self)@.tasks[task_idx as int]);
            self.task_list[task_idx].prime();
            assert forall|i: int| 0 <= i < num_tasks && i != task_idx implies #[trigger] self@.tasks[i]
                == before.tasks[i] by {}
            task_idx += 1;
        }
        self.started = true;
        proof {
            assert(self@.tasks =~= old(self)@.started_up().tasks);
            assert forall|i: int| 0 <= i < num_tasks implies (#[trigger] self@.tasks[i]).wf()
                && self@.tasks[i].is_suspended() && self@.tasks[i].arch == self@.arch() by {
                lemma_primed_is_suspended(old(self)@.tasks[i]);
                lemma_primed_is_suspended(old(self)@.tasks[0]);
            }
        }
        Request::ContextSwitch
    }

    /// The system tick: unparks every task, advances the tick counter by one,
    /// wrapping at 2^32, and selects the next task.
    ///
    /// Returns a request for a context switch if another task is to run, and
    /// for nothing if the current task stays.
    pub fn sched_tick(&mut self) -> (request: Request)
        requires
            old(self)@.wf(),
        ensures
            final(self)@ == old(self)@.ticked(),
            final(self)@.wf(),
            request == old(self)@.tick_request(),
    {
        let num_tasks = self.task_list.len();
        let mut i: usize = 0;
        while i < num_tasks
            invariant
                i <= num_tasks,
                num_tasks == old(self)@.tasks.len(),
                self@.tasks.len() == num_tasks,
                self.current_task == old(self).current_task,
                self.next_task == old(self).next_task,
                self.ticks == old(self).ticks,
                self.started == old(self).started,
                forall|j: int|
                    0 <= j < i ==> #[trigger] self@.tasks[j] == (TaskState {
                        parked: false,
                        ..old(self)@.tasks[j]
                    }),
                forall|j: int| i <= j < num_tasks ==> #[trigger] self@.tasks[j] == old(self)@.tasks[j],
            decreases num_tasks - i,
        {
            let ghost before = self@;
            assert(before.tasks[i as int] == old(self)@.tasks[i as int]);
            self.task_list[i].unpark();
            assert forall|j: int| 0 <= j < num_tasks && j != i implies #[trigger] self@.tasks[j]
                == before.tasks[j] by {}
            i += 1;
        }
        assert(self@.tasks =~= old(self)@.unparked().tasks);
        self.ticks = self.ticks.wrapping_add(1);
        proof {
            lemma_flags_keep_wf(old(self)@, self@);
            lemma_selection_reads_tasks_only(old(self)@.unparked(), self@);
        }
        let selection = self.pick_next_task();
        let ghost woken = self@;
        self.publish(selection);
        proof {
            lemma_selection_in_range(woken);
            lemma_flags_keep_wf(woken, self@);
        }
        match selection {
            TaskSelection::NewTask(_) => Request::ContextSwitch,
            TaskSelection::CurrentTask | TaskSelection::NoTasks => Request::Nothing,
        }
    }

    /// The running task gives up the processor until the next tick: parks it
    /// and selects the next task.
    ///
    /// Returns a request for a context switch if another task can run, and for
    /// sleep if every task is parked. Requires a running task.
    pub fn yield_until_tick(&mut self) -> (request: Request)
        requires
            old(self)@.wf(),
            old(self)@.current_task != NO_TASK,
        ensures
            final(self)@ == old(self)@.yielded(),
            final(self)@.wf(),
            request == old(self)@.yield_request(),
            request != Request::Nothing,
    {
        let task_id = self.current_task;
        let ghost before = self@;
        self.task_list[task_id].park();
        proof {
            assert(self@.tasks =~= before.parked_current().tasks);
            lemma_flags_keep_wf(before, self@);
        }
        let selection = self.pick_next_task();
        let ghost parked = self@;
        self.publish(selection);
        proof {
            lemma_selection_in_range(parked);
            lemma_flags_keep_wf(parked, self@);
            lemma_parked_current_is_not_selected(before);
        }
        match selection {
            TaskSelection::NewTask(_) => Request::ContextSwitch,
            TaskSelection::CurrentTask | TaskSelection::NoTasks => Request::Sleep,
        }
    }

    /// The context switch, as the pend-supervisor handler performs it.
    ///
    /// Unless no task has run yet, the callee-saved registers of the current
    /// task are pushed below the process stack pointer (on floating-point
    /// builds with the exception-return value, and with S16 to S31 if it says
    /// that the task had the floating-point unit active), and the resulting
    /// pointer is stored in the task. Then the same registers are popped from
    /// the stored stack pointer of the next task, the process stack pointer is
    /// left at the hardware frame above them, and the next task becomes the
    /// current one.
    pub fn pend_sv(&mut self, cpu: &mut Cpu)
        requires
            old(self)@.wf(),
            old(self)@.can_switch(old(cpu)@),
        ensures
            final(self)@ == old(self)@.switched(old(cpu)@),
            final(self)@.wf(),
            final(cpu)@ == old(self)@.switched_cpu(old(cpu)@),
            final(self)@.tasks[final(self)@.current_task as int].can_return(final(cpu)@),
    {
        let ghost before = self@;
        let current = self.current_task;
        let next = self.next_task;
        if current != NO_TASK {
            self.task_list[current].suspend(cpu);
            proof {
                assert(self@.tasks =~= before.saved(cpu@).tasks);
                lemma_suspended_is_suspended(before.tasks[current as int], cpu@);
            }
        }
        proof {
            assert(self@ == before.saved(cpu@));
            lemma_switched_is_wf(before, cpu@);
            assert(self@.tasks[next as int] == before.switched(cpu@).tasks[next as int]);
        }
        self.task_list[next].resume(cpu);
        self.current_task = next;
        proof {
            assert(self@.tasks =~= before.switched(old(cpu)@).tasks);
        }
    }

    /// Exception entry while the current task runs: the hardware stacks its
    /// frame on the task's stack and puts the exception-return value in `lr`.
    pub fn exception_entry(&mut self, cpu: &mut Cpu)
        requires
            old(self)@.wf(),
            old(self)@.current_task != NO_TASK,
            old(self)@.tasks[old(self)@.current_task as int].can_interrupt(old(cpu)@),
        ensures
            final(self)@ == old(self)@.interrupted(old(cpu)@),
            final(self)@.wf(),
            final(cpu)@ == entered(old(self)@.arch(), old(cpu)@),
    {
        let ghost before = self@;
        let current = self.current_task;
        self.task_list[current].exception_entry(cpu);
        proof {
            assert(self@.tasks =~= before.interrupted(old(cpu)@).tasks);
        }
    }

    /// Exception return into the current task: the hardware pops its frame
    /// from the task's stack.
    pub fn exception_return(&self, cpu: &mut Cpu)
        requires
            self@.wf(),
            self@.current_task != NO_TASK,
            self@.tasks[self@.current_task as int].can_return(old(cpu)@),
        ensures
            final(cpu)@ == self@.tasks[self@.current_task as int].returned_to(old(cpu)@),
    {
        self.task_list[self.current_task].exception_return(cpu);
    }
}

/// A state that differs from a well-formed one only in parked flags, the next
/// task and the tick counter is well formed, if its next task is in range.
pub proof fn lemma_flags_keep_wf(before: SchedulerState, after: SchedulerState)
    requires
        before.wf(),
        after.current_task == before.current_task,
        after.started == before.started,
        after.next_task < before.tasks.len(),
        after.current_task == NO_TASK ==> after.next_task == 0,
        after.tasks.len() == before.tasks.len(),
        forall|i: int|
            #![trigger after.tasks[i]]
            0 <= i < before.tasks.len() ==> after.tasks[i] == (TaskState {
                parked: after.tasks[i].parked,
                ..before.tasks[i]
            }),
    ensures
        after.wf(),
{
    assert(after.tasks[0].arch == before.tasks[0].arch);
    assert forall|i: int| 0 <= i < after.tasks.len() implies (#[trigger] after.tasks[i]).wf()
        && after.tasks[i].arch == after.arch() by {
        assert(before.tasks[i].wf());
    }
    if !after.started {
        assert forall|i: int| 0 <= i < after.tasks.len() implies (#[trigger] after.tasks[i]).is_fresh() by {
            assert(before.tasks[i].is_fresh());
        }
    } else {
        assert forall|i: int| 0 <= i < after.tasks.len() && i != after.current_task implies (
        #[trigger] after.tasks[i]).is_suspended() by {
            assert(before.tasks[i].is_suspended());
        }
    }
}

/// The selection depends on the current task and the parked flags alone.
pub proof fn lemma_selection_reads_tasks_only(a: SchedulerState, b: SchedulerState)
    requires
        a.current_task == b.current_task,
        a.tasks == b.tasks,
    ensures
        a.selection() == b.selection(),
{
    if a.current_task != NO_TASK {
        assert forall|k: int| a.first_runnable(k) implies b.first_runnable(k) by {
            assert(a.slot(k) == b.slot(k));
            assert forall|j: int| 1 <= j < k implies b.tasks[#[trigger] b.slot(j)].parked by {
                assert(a.slot(j) == b.slot(j));
            }
        }
        assert forall|k: int| b.first_runnable(k) implies a.first_runnable(k) by {
            assert(a.slot(k) == b.slot(k));
            assert forall|j: int| 1 <= j < k implies a.tasks[#[trigger] a.slot(j)].parked by {
                assert(a.slot(j) == b.slot(j));
            }
        }
        if exists|k: int| a.first_runnable(k) {
            let k = choose|k: int| a.first_runnable(k);
            assert(a.first_runnable(k));
            assert(b.first_runnable(k));
            lemma_first_runnable_is_unique(b, k);
            assert(a.slot(k) == b.slot(k));
        }
    }
}

/// The selected task is one of the tasks, and is not the current one.
pub proof fn lemma_selection_in_range(state: SchedulerState)
    requires
        state.wf(),
    ensures
        state.selection() matches Selection::NewTask(next) ==> next < state.tasks.len() && next
            != state.current_task && (state.current_task != NO_TASK ==> !state.tasks[next as int].parked),
{
    if state.current_task != NO_TASK && exists|k: int| state.first_runnable(k) {
        let k = choose|k: int| state.first_runnable(k);
        assert(state.first_runnable(k));
    }
}

/// After the current task has been parked, the selection is never the current
/// task.
pub proof fn lemma_parked_current_is_not_selected(state: SchedulerState)
    requires
        state.wf(),
        state.current_task != NO_TASK,
    ensures
        state.parked_current().selection() != Selection::CurrentTask,
{
    let parked = state.parked_current();
    if exists|k: int| parked.first_runnable(k) {
        let k = choose|k: int| parked.first_runnable(k);
        assert(parked.first_runnable(k));
        if k == parked.tasks.len() {
            assert(parked.slot(k) == parked.current_task);
            assert(parked.tasks[parked.current_task as int].parked);
        }
    }
}

/// The context switch keeps the state well formed, and leaves the registers
/// at a whole hardware frame of the task that has become current.
pub proof fn lemma_switched_is_wf(state: SchedulerState, cpu: CpuState)
    requires
        state.wf(),
        cpu.wf(),
        state.can_switch(cpu),
    ensures
        state.switched(cpu).wf(),
        state.switched(cpu).tasks[state.next_task as int].can_return(state.switched_cpu(cpu)),
{
    let saved = state.saved(cpu);
    let after = state.switched(cpu);
    if state.current_task != NO_TASK {
        lemma_suspended_is_suspended(state.tasks[state.current_task as int], cpu);
    }
    assert(after.tasks[0].arch == state.tasks[0].arch);
    assert forall|i: int| 0 <= i < after.tasks.len() implies (#[trigger] after.tasks[i]).wf()
        && after.tasks[i].arch == after.arch() && after.tasks[i].is_suspended() by {
        assert(state.tasks[i].wf());
        if i != state.current_task {
            assert(state.tasks[i].is_suspended());
        }
    }
    let next = after.tasks[state.next_task as int];
    assert(next.is_suspended());
}

} // verus!
