//! The registers of the processor, as far as the kernel touches them.

use vstd::prelude::*;

verus! {

/// The register file of a Cortex-M processor.
///
/// While a task runs, `lr`, `pc` and `xpsr` are the task's own. Inside an
/// exception handler `lr` holds the exception-return value, and `psp` is the
/// stack pointer of the task that was interrupted.
#[derive(Clone, Copy, Debug, PartialEq, Eq)]
pub struct Cpu {
    /// The general registers R0 to R12.
    pub r: [u32; 13],
    /// The link register.
    pub lr: u32,
    /// The program counter.
    pub pc: u32,
    /// The program status register.
    pub xpsr: u32,
    /// The process stack pointer.
    pub psp: u32,
    /// The single-precision registers S0 to S31.
    pub s: [u32; 32],
    /// The floating-point status and control register.
    pub fpscr: u32,
    /// Has the running task used the floating-point unit?
    pub fpca: bool,
}

/// What a [`Cpu`] holds, with its register banks as sequences.
pub struct CpuState {
    /// R0 to R12.
    pub r: Seq<u32>,
    /// The link register.
    pub lr: u32,
    /// The program counter.
    pub pc: u32,
    /// The program status register.
    pub xpsr: u32,
    /// The process stack pointer.
    pub psp: u32,
    /// S0 to S31.
    pub s: Seq<u32>,
    /// The floating-point status and control register.
    pub fpscr: u32,
    /// Has the running task used the floating-point unit?
    pub fpca: bool,
}

impl CpuState {
    /// There are thirteen general and thirty-two floating-point registers.
    pub open spec fn wf(self) -> bool {
        &&& self.r.len() == 13
        &&& self.s.len() == 32
    }
}

impl View for Cpu {
    type V = CpuState;

    open spec fn view(&self) -> CpuState {
        CpuState {
            r: self.r@,
            lr: self.lr,
            pc: self.pc,
            xpsr: self.xpsr,
            psp: self.psp,
            s: self.s@,
            fpscr: self.fpscr,
            fpca: self.fpca,
        }
    }
}

impl Cpu {
    /// A processor with every register zero.
    pub fn new() -> (cpu: Cpu)
        ensures
            cpu@.wf(),
            cpu@.r == Seq::new(13, |i: int| 0u32),
            cpu@.s == Seq::new(32, |i: int| 0u32),
            cpu.lr == 0,
            cpu.pc == 0,
            cpu.xpsr == 0,
            cpu.psp == 0,
            cpu.fpscr == 0,
            !cpu.fpca,
    {
        let cpu = Cpu {
            r: [0u32; 13],
            lr: 0,
            pc: 0,
            xpsr: 0,
            psp: 0,
            s: [0u32; 32],
            fpscr: 0,
            fpca: false,
        };
        assert(cpu@.r =~= Seq::new(13, |i: int| 0u32));
        assert(cpu@.s =~= Seq::new(32, |i: int| 0u32));
        cpu
    }
}

} // verus!
