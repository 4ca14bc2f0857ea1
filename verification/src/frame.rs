//! The frames that exception entry and the context switch keep on a task's
//! stack, and the moves of registers into and out of them.
//!
//! A suspended task's stack holds, from its stored stack pointer upwards,
//! first the frame the context switch wrote (the callee-saved registers, and
//! on floating-point builds the exception-return value and, if the task had
//! used the floating-point unit, S16 to S31), then the frame the hardware
//! stacked on exception entry (R0 to R3, R12, LR, PC, xPSR, and on an
//! extended frame S0 to S15, FPSCR and a reserved word).

use vstd::prelude::*;
use crate::arch::{
    uses_fp, lemma_exc_return_bits, Arch, EXC_RETURN_BASIC, EXC_RETURN_EXTENDED, INITIAL_XPSR,
};
use crate::cpu::{Cpu, CpuState};
use crate::stack::{MemoryState, StackMemory};
use crate::stack_pusher::StackPusher;

verus! {

/// The basic frame that exception entry stacks, lowest address first.
pub open spec fn basic_frame(cpu: CpuState) -> Seq<u32> {
    cpu.r.subrange(0, 4) + seq![cpu.r[12], cpu.lr, cpu.pc, cpu.xpsr]
}

/// Does exception entry stack an extended frame?
pub open spec fn stacks_extended(arch: Arch, cpu: CpuState) -> bool {
    arch.has_fpu() && cpu.fpca
}

/// The frame that exception entry stacks: the basic frame, followed on an
/// extended frame by S0 to S15, FPSCR and a reserved word.
pub open spec fn hardware_frame(arch: Arch, cpu: CpuState) -> Seq<u32> {
    if stacks_extended(arch, cpu) {
        basic_frame(cpu) + cpu.s.subrange(0, 16) + seq![cpu.fpscr, 0u32]
    } else {
        basic_frame(cpu)
    }
}

/// The registers after exception entry: the stack pointer has moved below the
/// stacked frame, the link register holds the exception-return value, and the
/// floating-point context is no longer marked active.
pub open spec fn entered(arch: Arch, cpu: CpuState) -> CpuState {
    CpuState {
        lr: if stacks_extended(arch, cpu) {
            EXC_RETURN_EXTENDED
        } else {
            EXC_RETURN_BASIC
        },
        psp: (cpu.psp - 4 * hardware_frame(arch, cpu).len()) as u32,
        fpca: false,
        ..cpu
    }
}

/// Does exception return with this exception-return value pop an extended
/// frame?
pub open spec fn pops_extended(arch: Arch, exc_return: u32) -> bool {
    arch.has_fpu() && uses_fp(exc_return)
}

/// The number of words exception return pops.
pub open spec fn hardware_frame_len(arch: Arch, exc_return: u32) -> int {
    if pops_extended(arch, exc_return) {
        26
    } else {
        8
    }
}

/// The registers after exception return has popped `frame`.
pub open spec fn returned(arch: Arch, cpu: CpuState, frame: Seq<u32>) -> CpuState {
    let extended = pops_extended(arch, cpu.lr);
    CpuState {
        r: frame.subrange(0, 4) + cpu.r.subrange(4, 12) + seq![frame[4]],
        lr: frame[5],
        pc: frame[6],
        xpsr: frame[7],
        psp: (cpu.psp + 4 * frame.len()) as u32,
        s: if extended {
            frame.subrange(8, 24) + cpu.s.subrange(16, 32)
        } else {
            cpu.s
        },
        fpscr: if extended {
            frame[24]
        } else {
            cpu.fpscr
        },
        fpca: extended,
    }
}

/// The frame the context switch writes below the hardware frame, lowest
/// address first.
///
/// On Baseline the high registers are stacked through the low ones, after
/// them, and so lie below them. On floating-point builds the exception-return
/// value follows R11, and S16 to S31 follow it if it says that the task had
/// the floating-point unit active.
pub open spec fn callee_frame(arch: Arch, cpu: CpuState) -> Seq<u32> {
    match arch {
        Arch::Baseline => cpu.r.subrange(8, 12) + cpu.r.subrange(4, 8),
        Arch::Mainline => cpu.r.subrange(4, 12),
        Arch::MainlineFp => cpu.r.subrange(4, 12).push(cpu.lr) + (if uses_fp(cpu.lr) {
            cpu.s.subrange(16, 32)
        } else {
            Seq::<u32>::empty()
        }),
    }
}

/// The number of words the context switch writes and reads.
pub open spec fn callee_frame_len(arch: Arch, exc_return: u32) -> int {
    if !arch.has_fpu() {
        8
    } else if uses_fp(exc_return) {
        25
    } else {
        9
    }
}

/// The registers after the context switch has popped `frame` from `sp`.
///
/// Without a floating-point unit the exception-return value is always the
/// basic one.
pub open spec fn restored(arch: Arch, cpu: CpuState, frame: Seq<u32>, sp: u32) -> CpuState {
    match arch {
        Arch::Baseline => CpuState {
            r: cpu.r.subrange(0, 4) + frame.subrange(4, 8) + frame.subrange(0, 4)
                + cpu.r.subrange(12, 13),
            lr: EXC_RETURN_BASIC,
            psp: (sp + 4 * frame.len()) as u32,
            ..cpu
        },
        Arch::Mainline => CpuState {
            r: cpu.r.subrange(0, 4) + frame.subrange(0, 8) + cpu.r.subrange(12, 13),
            lr: EXC_RETURN_BASIC,
            psp: (sp + 4 * frame.len()) as u32,
            ..cpu
        },
        Arch::MainlineFp => CpuState {
            r: cpu.r.subrange(0, 4) + frame.subrange(0, 8) + cpu.r.subrange(12, 13),
            lr: frame[8],
            psp: (sp + 4 * frame.len()) as u32,
            s: if uses_fp(frame[8]) {
                cpu.s.subrange(0, 16) + frame.subrange(9, 25)
            } else {
                cpu.s
            },
            ..cpu
        },
    }
}

/// The frame a task's stack is primed with before it first runs: what would
/// have been stacked had the task been pre-empted at its entry instruction
/// with every register zero. R4 to R11 are zero; on floating-point builds the
/// basic exception-return value follows; then come R0 to R3, R12 and LR, all
/// zero, the entry address as PC, and an xPSR with only the Thumb bit set.
pub open spec fn initial_frame(arch: Arch, entry_fn: u32) -> Seq<u32> {
    Seq::new(8, |i: int| 0u32) + (if arch.has_fpu() {
        seq![EXC_RETURN_BASIC]
    } else {
        Seq::<u32>::empty()
    }) + seq![0u32, 0u32, 0u32, 0u32, 0u32, 0u32, entry_fn, INITIAL_XPSR]
}

/// The number of words of the initial frame: sixteen, and one more on
/// floating-point builds.
pub open spec fn initial_frame_len(arch: Arch) -> int {
    if arch.has_fpu() {
        17
    } else {
        16
    }
}

/// Appends `count` registers of `bank`, from register `from` on, to `frame`.
fn store_registers<const N: usize>(
    frame: &mut Vec<u32>,
    bank: &[u32; N],
    from: usize,
    count: usize,
)
    requires
        from + count <= N,
    ensures
        final(frame)@ == old(frame)@ + bank@.subrange(from as int, from + count),
{
    let ghost before = frame@;
    let mut i: usize = 0;
    assert(frame@ =~= before + bank@.subrange(from as int, from + i));
    while i < count
        invariant
            from + count <= N,
            i <= count,
            frame@ == before + bank@.subrange(from as int, from + i),
        decreases count - i,
    {
        frame.push(bank[from + i]);
        i += 1;
        assert(frame@ =~= before + bank@.subrange(from as int, from + i));
    }
}

/// Copies `count` words of `frame`, from word `from` on, into the registers of
/// `bank` from register `at` on.
fn load_registers<const N: usize>(
    bank: &mut [u32; N],
    at: usize,
    frame: &Vec<u32>,
    from: usize,
    count: usize,
)
    requires
        at + count <= N,
        from + count <= frame@.len(),
    ensures
        final(bank)@ == old(bank)@.subrange(0, at as int) + frame@.subrange(
            from as int,
            from + count,
        ) + old(bank)@.subrange(at + count, N as int),
{
    let ghost before = bank@;
    let len: usize = frame.len();
    let mut i: usize = 0;
    assert(bank@ =~= before.subrange(0, at as int) + frame@.subrange(from as int, from + i)
        + before.subrange(at + i, N as int));
    while i < count
        invariant
            at + count <= N,
            from + count <= len,
            len == frame@.len(),
            before.len() == N,
            i <= count,
            bank@ == before.subrange(0, at as int) + frame@.subrange(from as int, from + i)
                + before.subrange(at + i, N as int),
        decreases count - i,
    {
        bank[at + i] = frame[from + i];
        i += 1;
        assert(bank@ =~= before.subrange(0, at as int) + frame@.subrange(from as int, from + i)
            + before.subrange(at + i, N as int));
    }
}

/// Builds the frame a task's stack is primed with.
pub fn build_initial_frame(arch: Arch, entry_fn: u32) -> (frame: Vec<u32>)
    ensures
        frame@ == initial_frame(arch, entry_fn),
        frame@.len() == initial_frame_len(arch),
{
    // R4 to R11
    let mut frame: Vec<u32> = vec![0u32; 8];
    if arch.has_fpu() {
        // The exception-return value, without the floating-point bit, so that
        // no extended frame and no high floating-point registers are needed.
        frame.push(EXC_RETURN_BASIC);
    }
    // R0 to R3
    frame.push(0);
    frame.push(0);
    frame.push(0);
    frame.push(0);
    // R12
    frame.push(0);
    // LR
    frame.push(0);
    // PC
    frame.push(entry_fn);
    // xPSR
    frame.push(INITIAL_XPSR);
    assert(frame@ =~= initial_frame(arch, entry_fn));
    frame
}

/// Exception entry, as the hardware performs it: stacks the hardware frame of
/// the running task below `psp`.
pub fn exception_entry(arch: Arch, cpu: &mut Cpu, memory: &mut StackMemory)
    requires
        old(memory)@.wf(),
        old(memory)@.is_cursor(old(cpu).psp as int),
        old(memory)@.base + 4 * hardware_frame(arch, old(cpu)@).len() <= old(cpu).psp,
    ensures
        final(cpu)@ == entered(arch, old(cpu)@),
        final(memory)@ == old(memory)@.written(
            final(cpu).psp as int,
            hardware_frame(arch, old(cpu)@),
        ),
{
    let extended = arch.has_fpu() && cpu.fpca;
    let mut frame: Vec<u32> = Vec::new();
    store_registers(&mut frame, &cpu.r, 0, 4);
    frame.push(cpu.r[12]);
    frame.push(cpu.lr);
    frame.push(cpu.pc);
    frame.push(cpu.xpsr);
    assert(frame@ =~= basic_frame(cpu@));
    if extended {
        store_registers(&mut frame, &cpu.s, 0, 16);
        frame.push(cpu.fpscr);
        frame.push(0);
    }
    assert(frame@ =~= hardware_frame(arch, cpu@));
    let mut pusher = StackPusher::new(cpu.psp);
    pusher.push_frame(memory, &frame);
    cpu.psp = pusher.current();
    cpu.lr = if extended {
        EXC_RETURN_EXTENDED
    } else {
        EXC_RETURN_BASIC
    };
    cpu.fpca = false;
}

/// Exception return, as the hardware performs it: pops the hardware frame at
/// `psp`, basic or extended as the exception-return value in `lr` says.
pub fn exception_return(arch: Arch, cpu: &mut Cpu, memory: &StackMemory)
    requires
        memory@.wf(),
        memory@.is_cursor(old(cpu).psp as int),
        old(cpu).psp + 4 * hardware_frame_len(arch, old(cpu).lr) <= memory@.top(),
    ensures
        final(cpu)@ == returned(
            arch,
            old(cpu)@,
            memory@.words_at(old(cpu).psp as int, hardware_frame_len(arch, old(cpu).lr)),
        ),
{
    let extended = arch.has_fpu() && uses_fp(cpu.lr);
    let len: usize = if extended {
        26
    } else {
        8
    };
    let ghost before = cpu@;
    let frame = memory.read_frame(cpu.psp, len);
    load_registers(&mut cpu.r, 0, &frame, 0, 4);
    cpu.r[12] = frame[4];
    cpu.lr = frame[5];
    cpu.pc = frame[6];
    cpu.xpsr = frame[7];
    if extended {
        load_registers(&mut cpu.s, 0, &frame, 8, 16);
        cpu.fpscr = frame[24];
    }
    cpu.fpca = extended;
    cpu.psp = cpu.psp + 4 * (len as u32);
    assert(cpu@.r =~= returned(arch, before, frame@).r);
    assert(cpu@.s =~= returned(arch, before, frame@).s);
}

/// The saving half of the context switch: writes the callee-saved registers
/// below `psp` and returns the address of the lowest word written, which is
/// the stack pointer to store for the task.
pub fn save_context(arch: Arch, cpu: &Cpu, memory: &mut StackMemory) -> (sp: u32)
    requires
        old(memory)@.wf(),
        old(memory)@.is_cursor(cpu.psp as int),
        old(memory)@.base + 4 * callee_frame_len(arch, cpu.lr) <= cpu.psp,
    ensures
        sp == cpu.psp - 4 * callee_frame_len(arch, cpu.lr),
        final(memory)@ == old(memory)@.written(sp as int, callee_frame(arch, cpu@)),
{
    let mut frame: Vec<u32> = Vec::new();
    match arch {
        Arch::Baseline => {
            store_registers(&mut frame, &cpu.r, 8, 4);
            store_registers(&mut frame, &cpu.r, 4, 4);
        },
        Arch::Mainline => {
            store_registers(&mut frame, &cpu.r, 4, 8);
        },
        Arch::MainlineFp => {
            store_registers(&mut frame, &cpu.r, 4, 8);
            frame.push(cpu.lr);
            if uses_fp(cpu.lr) {
                store_registers(&mut frame, &cpu.s, 16, 16);
            }
        },
    }
    assert(frame@ =~= callee_frame(arch, cpu@));
    let mut pusher = StackPusher::new(cpu.psp);
    pusher.push_frame(memory, &frame);
    pusher.current()
}

/// The exception-return value that the context switch will find in the frame
/// at `sp`: the saved one on floating-point builds, the basic one elsewhere.
pub open spec fn saved_exc_return(arch: Arch, memory: MemoryState, sp: int) -> u32 {
    if arch.has_fpu() {
        memory.word(sp + 32)
    } else {
        EXC_RETURN_BASIC
    }
}

/// Is there a whole suspended context at `sp`: the frame of the context
/// switch, and above it the frame of the hardware?
pub open spec fn holds_context(arch: Arch, memory: MemoryState, sp: int) -> bool {
    let exc_return = saved_exc_return(arch, memory, sp);
    &&& memory.is_cursor(sp)
    &&& sp + 36 <= memory.top()
    &&& sp + 4 * callee_frame_len(arch, exc_return) + 4 * hardware_frame_len(arch, exc_return)
        <= memory.top()
}

/// The restoring half of the context switch: pops the callee-saved registers
/// from `sp` and leaves `psp` at the hardware frame above them.
pub fn restore_context(arch: Arch, cpu: &mut Cpu, memory: &StackMemory, sp: u32)
    requires
        memory@.wf(),
        holds_context(arch, memory@, sp as int),
    ensures
        final(cpu)@ == restored(
            arch,
            old(cpu)@,
            memory@.words_at(
                sp as int,
                callee_frame_len(arch, saved_exc_return(arch, memory@, sp as int)),
            ),
            sp,
        ),
{
    let ghost before = cpu@;
    match arch {
        Arch::Baseline => {
            let frame = memory.read_frame(sp, 8);
            load_registers(&mut cpu.r, 8, &frame, 0, 4);
            load_registers(&mut cpu.r, 4, &frame, 4, 4);
            cpu.lr = EXC_RETURN_BASIC;
            cpu.psp = sp + 32;
            assert(cpu@.r =~= restored(arch, before, frame@, sp).r);
        },
        Arch::Mainline => {
            let frame = memory.read_frame(sp, 8);
            load_registers(&mut cpu.r, 4, &frame, 0, 8);
            cpu.lr = EXC_RETURN_BASIC;
            cpu.psp = sp + 32;
            assert(cpu@.r =~= restored(arch, before, frame@, sp).r);
        },
        Arch::MainlineFp => {
            let exc_return: u32 = memory.read(sp + 32);
            if uses_fp(exc_return) {
                let frame = memory.read_frame(sp, 25);
                load_registers(&mut cpu.r, 4, &frame, 0, 8);
                load_registers(&mut cpu.s, 16, &frame, 9, 16);
                cpu.lr = exc_return;
                cpu.psp = sp + 100;
                assert(cpu@.r =~= restored(arch, before, frame@, sp).r);
                assert(cpu@.s =~= restored(arch, before, frame@, sp).s);
            } else {
                let frame = memory.read_frame(sp, 9);
                load_registers(&mut cpu.r, 4, &frame, 0, 8);
                cpu.lr = exc_return;
                cpu.psp = sp + 36;
                assert(cpu@.r =~= restored(arch, before, frame@, sp).r);
            }
        },
    }
}

/// A primed stack launches its task: when the context switch pops the first
/// part of the initial frame and exception return pops the rest, whatever the
/// registers held before, the task starts at its entry address in Thumb state,
/// with R0 to R12 and LR zero, its stack empty and no floating-point context.
pub proof fn law_initial_frame_launches_task(arch: Arch, entry_fn: u32, cpu: CpuState, sp: u32)
    requires
        cpu.wf(),
        sp + 4 * initial_frame_len(arch) <= u32::MAX,
    ensures
        ({
            let frame = initial_frame(arch, entry_fn);
            let split = callee_frame_len(arch, EXC_RETURN_BASIC);
            let switched = restored(arch, cpu, frame.subrange(0, split), sp);
            let launched = returned(arch, switched, frame.subrange(split, frame.len() as int));
            &&& frame.len() == initial_frame_len(arch)
            &&& arch.has_fpu() ==> frame[8] == EXC_RETURN_BASIC
            &&& launched.pc == entry_fn
            &&& launched.xpsr == INITIAL_XPSR
            &&& launched.lr == 0
            &&& launched.r == Seq::new(13, |i: int| 0u32)
            &&& launched.psp == sp + 4 * frame.len()
            &&& !launched.fpca
        }),
{
    lemma_exc_return_bits();
    let frame = initial_frame(arch, entry_fn);
    let split = callee_frame_len(arch, EXC_RETURN_BASIC);
    let switched = restored(arch, cpu, frame.subrange(0, split), sp);
    let launched = returned(arch, switched, frame.subrange(split, frame.len() as int));
    assert(switched.lr == EXC_RETURN_BASIC);
    assert(launched.r =~= Seq::new(13, |i: int| 0u32));
}

/// The callee-saved registers make the round trip: whatever the processor
/// held in between, popping the frame that the context switch wrote for a task
/// brings back the R4 to R11 the task had, and on floating-point builds its
/// exception-return value.
pub proof fn law_callee_saved_round_trip(arch: Arch, task: CpuState, other: CpuState, sp: u32)
    requires
        task.wf(),
        other.wf(),
    ensures
        ({
            let frame = callee_frame(arch, task);
            let resumed = restored(arch, other, frame, sp);
            &&& frame.len() == callee_frame_len(arch, task.lr)
            &&& resumed.r.subrange(4, 12) == task.r.subrange(4, 12)
            &&& resumed.r.subrange(0, 4) == other.r.subrange(0, 4)
            &&& resumed.r[12] == other.r[12]
            &&& arch.has_fpu() ==> resumed.lr == task.lr
            &&& !arch.has_fpu() ==> resumed.lr == EXC_RETURN_BASIC
        }),
{
    let frame = callee_frame(arch, task);
    let resumed = restored(arch, other, frame, sp);
    assert(resumed.r.subrange(4, 12) =~= task.r.subrange(4, 12));
    assert(resumed.r.subrange(0, 4) =~= other.r.subrange(0, 4));
}

/// The high floating-point registers make the round trip: on a floating-point
/// build, a task that had the floating-point unit active finds in S16 to S31
/// what it left there, whatever other tasks did to them in between; and
/// resuming a task that had not used the unit leaves every floating-point
/// register as it is.
pub proof fn law_fp_round_trip(task: CpuState, other: CpuState, sp: u32)
    requires
        task.wf(),
        other.wf(),
    ensures
        ({
            let resumed = restored(
                Arch::MainlineFp,
                other,
                callee_frame(Arch::MainlineFp, task),
                sp,
            );
            &&& uses_fp(task.lr) ==> resumed.s.subrange(16, 32) == task.s.subrange(16, 32)
            &&& uses_fp(task.lr) ==> resumed.s.subrange(0, 16) == other.s.subrange(0, 16)
            &&& !uses_fp(task.lr) ==> resumed.s == other.s
        }),
{
    let resumed = restored(Arch::MainlineFp, other, callee_frame(Arch::MainlineFp, task), sp);
    if uses_fp(task.lr) {
        assert(resumed.s.subrange(16, 32) =~= task.s.subrange(16, 32));
        assert(resumed.s.subrange(0, 16) =~= other.s.subrange(0, 16));
    }
}

/// A pre-empted task resumes where it was: exception entry and the saving
/// half of the context switch, followed, after anything else has used the
/// processor, by the restoring half and exception return, give the task back
/// its general registers, LR, PC, xPSR and stack pointer, and, if it had the
/// floating-point unit active on a floating-point build, S0 to S31 and FPSCR.
pub proof fn law_preemption_round_trip(arch: Arch, task: CpuState, other: CpuState)
    requires
        task.wf(),
        other.wf(),
        task.psp >= 4 * hardware_frame(arch, task).len() + 4 * callee_frame(
            arch,
            entered(arch, task),
        ).len(),
    ensures
        ({
            let handler = entered(arch, task);
            let sp = (handler.psp - 4 * callee_frame(arch, handler).len()) as u32;
            let switched = restored(arch, other, callee_frame(arch, handler), sp);
            let resumed = returned(arch, switched, hardware_frame(arch, task));
            &&& resumed.r == task.r
            &&& resumed.lr == task.lr
            &&& resumed.pc == task.pc
            &&& resumed.xpsr == task.xpsr
            &&& resumed.psp == task.psp
            &&& resumed.fpca == stacks_extended(arch, task)
            &&& stacks_extended(arch, task) ==> resumed.s == task.s && resumed.fpscr == task.fpscr
        }),
{
    lemma_exc_return_bits();
    let handler = entered(arch, task);
    let sp = (handler.psp - 4 * callee_frame(arch, handler).len()) as u32;
    let switched = restored(arch, other, callee_frame(arch, handler), sp);
    let resumed = returned(arch, switched, hardware_frame(arch, task));
    assert(switched.lr == handler.lr);
    assert(switched.psp == handler.psp);
    assert(resumed.r =~= task.r);
    if stacks_extended(arch, task) {
        assert(resumed.s =~= task.s);
    }
}

} // verus!
