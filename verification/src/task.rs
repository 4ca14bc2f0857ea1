//! Tasks: a never-returning entry function with a stack of its own.

use vstd::prelude::*;
use crate::arch::{lemma_exc_return_bits, uses_fp, Arch, EXC_RETURN_BASIC};
use crate::cpu::{Cpu, CpuState};
use crate::frame::{
    build_initial_frame, callee_frame, callee_frame_len, entered, exception_entry,
    exception_return, hardware_frame, hardware_frame_len, holds_context, initial_frame,
    initial_frame_len, restore_context, restored, returned, save_context, saved_exc_return,
};
use crate::stack::{MemoryState, Stack, StackMemory};
use crate::stack_pusher::StackPusher;

verus! {

/// What a [`Task`] holds.
pub struct TaskState {
    /// The stored stack pointer: the value the process stack pointer takes
    /// when the context switch resumes the task.
    pub stack: u32,
    /// The address of the entry function.
    pub entry_fn: u32,
    /// Is the task waiting for the next tick?
    pub parked: bool,
    /// The processor variant the task was made for.
    pub arch: Arch,
    /// The task's stack.
    pub memory: MemoryState,
}

impl TaskState {
    /// The stack is well formed and larger than the variant's minimum, and the
    /// stored stack pointer is a word boundary inside it.
    pub open spec fn wf(self) -> bool {
        &&& self.memory.wf()
        &&& self.memory.is_cursor(self.stack as int)
        &&& self.memory.size() > self.arch.min_stack_size()
    }

    /// Has nothing been pushed on the stack yet?
    pub open spec fn is_fresh(self) -> bool {
        self.stack == self.memory.top()
    }

    /// Does the stored stack pointer address a whole suspended context?
    pub open spec fn is_suspended(self) -> bool {
        holds_context(self.arch, self.memory, self.stack as int)
    }

    /// The task with the initial frame pushed from the top of its stack.
    pub open spec fn primed(self) -> TaskState {
        let sp = self.memory.top() - 4 * initial_frame_len(self.arch);
        TaskState {
            stack: sp as u32,
            memory: self.memory.written(sp, initial_frame(self.arch, self.entry_fn)),
            ..self
        }
    }

    /// May the context switch suspend the task while the registers are `cpu`?
    /// The hardware frame at `psp` must lie inside the stack, and there must be
    /// room below it for the frame of the context switch.
    pub open spec fn can_suspend(self, cpu: CpuState) -> bool {
        &&& self.memory.is_cursor(cpu.psp as int)
        &&& self.memory.base + 4 * callee_frame_len(self.arch, cpu.lr) <= cpu.psp
        &&& cpu.psp + 4 * hardware_frame_len(self.arch, cpu.lr) <= self.memory.top()
    }

    /// The task after the context switch has suspended it with the registers
    /// `cpu`.
    pub open spec fn suspended(self, cpu: CpuState) -> TaskState {
        let sp = cpu.psp - 4 * callee_frame_len(self.arch, cpu.lr);
        TaskState {
            stack: sp as u32,
            memory: self.memory.written(sp, callee_frame(self.arch, cpu)),
            ..self
        }
    }

    /// The frame the context switch pops when it resumes the task.
    pub open spec fn saved_frame(self) -> Seq<u32> {
        self.memory.words_at(
            self.stack as int,
            callee_frame_len(self.arch, saved_exc_return(self.arch, self.memory, self.stack as int)),
        )
    }

    /// The registers after the context switch has resumed the task.
    pub open spec fn resumed(self, cpu: CpuState) -> CpuState {
        restored(self.arch, cpu, self.saved_frame(), self.stack)
    }

    /// May the hardware stack an exception frame while the registers are `cpu`?
    pub open spec fn can_interrupt(self, cpu: CpuState) -> bool {
        &&& self.memory.is_cursor(cpu.psp as int)
        &&& self.memory.base + 4 * hardware_frame(self.arch, cpu).len() <= cpu.psp
    }

    /// The task after the hardware has stacked an exception frame.
    pub open spec fn interrupted(self, cpu: CpuState) -> TaskState {
        TaskState {
            memory: self.memory.written(
                cpu.psp - 4 * hardware_frame(self.arch, cpu).len(),
                hardware_frame(self.arch, cpu),
            ),
            ..self
        }
    }

    /// Is there a whole hardware frame at `psp`, of the kind that the
    /// exception-return value in `lr` announces?
    pub open spec fn can_return(self, cpu: CpuState) -> bool {
        &&& self.memory.is_cursor(cpu.psp as int)
        &&& cpu.psp + 4 * hardware_frame_len(self.arch, cpu.lr) <= self.memory.top()
    }

    /// The registers after exception return into the task.
    pub open spec fn returned_to(self, cpu: CpuState) -> CpuState {
        returned(
            self.arch,
            cpu,
            self.memory.words_at(cpu.psp as int, hardware_frame_len(self.arch, cpu.lr)),
        )
    }
}

/// A task that the scheduler manages.
pub struct Task {
    stack: u32,
    entry_fn: u32,
    parked: bool,
    arch: Arch,
    memory: StackMemory,
}

impl View for Task {
    type V = TaskState;

    closed spec fn view(&self) -> TaskState {
        TaskState {
            stack: self.stack,
            entry_fn: self.entry_fn,
            parked: self.parked,
            arch: self.arch,
            memory: self.memory@,
        }
    }
}

impl Task {
    /// A new task that will start at the address `entry_fn`, on the given
    /// stack. Its stack pointer is the top of the stack, and it is not parked.
    pub fn new<const N: usize>(entry_fn: u32, stack: Stack<N>, arch: Arch) -> (task: Task)
        requires
            stack.wf(),
            N > arch.min_stack_size(),
        ensures
            task@.wf(),
            task@ == (TaskState {
                stack: stack@.top() as u32,
                entry_fn,
                parked: false,
                arch,
                memory: stack@,
            }),
    {
        let top = stack.top();
        Task { stack: top, entry_fn, parked: false, arch, memory: stack.into_memory() }
    }

    /// The address of the entry function.
    pub fn entry_fn(&self) -> (entry_fn: u32)
        ensures
            entry_fn == self@.entry_fn,
    {
        self.entry_fn
    }

    /// The stored stack pointer.
    pub fn stack(&self) -> (stack: u32)
        ensures
            stack == self@.stack,
    {
        self.stack
    }

    /// Replaces the stored stack pointer. The new one must be a word boundary
    /// of the task's own stack.
    pub(crate) fn set_stack(&mut self, new_stack: u32)
        requires
            old(self)@.memory.is_cursor(new_stack as int),
        ensures
            final(self)@ == (TaskState { stack: new_stack, ..old(self)@ }),
    {
        self.stack = new_stack;
    }

    /// Marks the task as waiting for the next tick.
    pub fn park(&mut self)
        ensures
            final(self)@ == (TaskState { parked: true, ..old(self)@ }),
    {
        self.parked = true;
    }

    /// Marks the task as runnable.
    pub fn unpark(&mut self)
        ensures
            final(self)@ == (TaskState { parked: false, ..old(self)@ }),
    {
        self.parked = false;
    }

    /// Is the task waiting for the next tick?
    pub fn parked(&self) -> (parked: bool)
        ensures
            parked == self@.parked,
    {
        self.parked
    }

    /// The processor variant the task was made for.
    pub fn arch(&self) -> (arch: Arch)
        ensures
            arch == self@.arch,
    {
        self.arch
    }

    /// The task's stack.
    pub fn memory(&self) -> (memory: &StackMemory)
        ensures
            memory@ == self@.memory,
    {
        &self.memory
    }

    /// May the hardware stack an exception frame while the registers are
    /// `cpu`?
    pub fn can_interrupt(&self, cpu: &Cpu) -> (ok: bool)
        requires
            self@.wf(),
        ensures
            ok == self@.can_interrupt(cpu@),
    {
        let len: u32 = if self.arch.has_fpu() && cpu.fpca {
            26
        } else {
            8
        };
        let base = self.memory.base();
        let top = self.memory.top();
        base <= cpu.psp && cpu.psp <= top && (cpu.psp - base) % 4 == 0 && cpu.psp - base >= 4 * len
    }

    /// May the context switch suspend the task while the registers are `cpu`?
    pub fn can_suspend(&self, cpu: &Cpu) -> (ok: bool)
        requires
            self@.wf(),
        ensures
            ok == self@.can_suspend(cpu@),
    {
        let extended = self.arch.has_fpu() && uses_fp(cpu.lr);
        let below: u32 = if !self.arch.has_fpu() {
            8
        } else if extended {
            25
        } else {
            9
        };
        let above: u32 = if extended {
            26
        } else {
            8
        };
        let base = self.memory.base();
        let top = self.memory.top();
        base <= cpu.psp && cpu.psp <= top && (cpu.psp - base) % 4 == 0 && cpu.psp - base >= 4
            * below && top - cpu.psp >= 4 * above
    }

    /// Is there a whole hardware frame at the process stack pointer, of the
    /// kind that the exception-return value in `lr` announces?
    pub fn can_return(&self, cpu: &Cpu) -> (ok: bool)
        requires
            self@.wf(),
        ensures
            ok == self@.can_return(cpu@),
    {
        let len: u32 = if self.arch.has_fpu() && uses_fp(cpu.lr) {
            26
        } else {
            8
        };
        let base = self.memory.base();
        let top = self.memory.top();
        base <= cpu.psp && cpu.psp <= top && (cpu.psp - base) % 4 == 0 && top - cpu.psp >= 4 * len
    }

    /// Pushes the initial frame from the top of the stack and stores the
    /// address of the last word pushed as the task's stack pointer.
    pub(crate) fn prime(&mut self)
        requires
            old(self)@.wf(),
        ensures
            final(self)@ == old(self)@.primed(),
            final(self)@.wf(),
            final(self)@.is_suspended(),
    {
        let frame = build_initial_frame(self.arch, self.entry_fn);
        let top = self.memory.top();
        let mut pusher = StackPusher::new(top);
        pusher.push_frame(&mut self.memory, &frame);
        // Set the task stack pointer to the last thing pushed
        self.set_stack(pusher.current());
        proof {
            lemma_primed_is_suspended(old(self)@);
        }
    }

    /// The saving half of the context switch: writes the callee-saved
    /// registers below the process stack pointer and stores the address of the
    /// lowest word written as the task's stack pointer.
    pub(crate) fn suspend(&mut self, cpu: &Cpu)
        requires
            old(self)@.wf(),
            cpu@.wf(),
            old(self)@.can_suspend(cpu@),
        ensures
            final(self)@ == old(self)@.suspended(cpu@),
            final(self)@.wf(),
            final(self)@.is_suspended(),
    {
        let sp = save_context(self.arch, cpu, &mut self.memory);
        self.set_stack(sp);
        proof {
            lemma_suspended_is_suspended(old(self)@, cpu@);
        }
    }

    /// The restoring half of the context switch: pops the callee-saved
    /// registers from the stored stack pointer and leaves the process stack
    /// pointer at the hardware frame above them.
    pub(crate) fn resume(&self, cpu: &mut Cpu)
        requires
            self@.wf(),
            self@.is_suspended(),
        ensures
            final(cpu)@ == self@.resumed(old(cpu)@),
    {
        restore_context(self.arch, cpu, &self.memory, self.stack);
    }

    /// Exception entry while the task runs: the hardware stacks its frame on
    /// the task's stack.
    pub(crate) fn exception_entry(&mut self, cpu: &mut Cpu)
        requires
            old(self)@.wf(),
            old(self)@.can_interrupt(old(cpu)@),
        ensures
            final(self)@ == old(self)@.interrupted(old(cpu)@),
            final(self)@.wf(),
            final(cpu)@ == entered(old(self)@.arch, old(cpu)@),
    {
        exception_entry(self.arch, cpu, &mut self.memory);
    }

    /// Exception return into the task: the hardware pops its frame from the
    /// task's stack.
    pub(crate) fn exception_return(&self, cpu: &mut Cpu)
        requires
            self@.wf(),
            self@.can_return(old(cpu)@),
        ensures
            final(cpu)@ == self@.returned_to(old(cpu)@),
    {
        exception_return(self.arch, cpu, &self.memory);
    }
}

/// A primed task is well formed and holds a whole suspended context.
pub proof fn lemma_primed_is_suspended(task: TaskState)
    requires
        task.wf(),
    ensures
        task.primed().wf(),
        task.primed().is_suspended(),
        task.primed().saved_frame() == initial_frame(task.arch, task.entry_fn).subrange(
            0,
            callee_frame_len(task.arch, EXC_RETURN_BASIC),
        ),
{
    lemma_exc_return_bits();
    let primed = task.primed();
    let frame = initial_frame(task.arch, task.entry_fn);
    let at = task.memory.index_of(primed.stack as int);
    assert(frame.len() == initial_frame_len(task.arch));
    assert(forall|i: int| 0 <= i < frame.len() ==> primed.memory.words[at + i] == frame[i]);
    if task.arch.has_fpu() {
        assert(primed.memory.index_of(primed.stack + 32) == at + 8);
        assert(primed.memory.words[at + 8] == frame[8]);
    }
    assert(primed.saved_frame() =~= frame.subrange(
        0,
        callee_frame_len(task.arch, EXC_RETURN_BASIC),
    ));
}

/// A task that the context switch has suspended is well formed and holds a
/// whole suspended context: the frame just written.
pub proof fn lemma_suspended_is_suspended(task: TaskState, cpu: CpuState)
    requires
        task.wf(),
        cpu.wf(),
        task.can_suspend(cpu),
    ensures
        task.suspended(cpu).wf(),
        task.suspended(cpu).is_suspended(),
        task.suspended(cpu).saved_frame() == callee_frame(task.arch, cpu),
{
    let after = task.suspended(cpu);
    let frame = callee_frame(task.arch, cpu);
    let at = task.memory.index_of(after.stack as int);
    assert(frame.len() == callee_frame_len(task.arch, cpu.lr));
    assert(forall|i: int| 0 <= i < frame.len() ==> after.memory.words[at + i] == frame[i]);
    if task.arch.has_fpu() {
        assert(after.memory.index_of(after.stack + 32) == at + 8);
        assert(after.memory.words[at + 8] == frame[8]);
        assert(frame[8] == cpu.lr);
    }
    assert(after.saved_frame() =~= frame);
}

} // verus!
