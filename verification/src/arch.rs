//! The processor variants the kernel supports, and the constants that depend
//! on them.

use vstd::prelude::*;

verus! {

/// The value of the program status register when a task starts: only the
/// Thumb bit (bit 24) is set.
pub const INITIAL_XPSR: u32 = 0x0100_0000;

/// The exception-return value for "thread mode, process stack, basic frame".
pub const EXC_RETURN_BASIC: u32 = 0xFFFF_FFFD;

/// The exception-return value for "thread mode, process stack, extended
/// frame": as [`EXC_RETURN_BASIC`], with bit 4 clear.
pub const EXC_RETURN_EXTENDED: u32 = 0xFFFF_FFED;

/// Does this exception-return value say that the interrupted task had the
/// floating-point unit active? It does when bit 4 is clear.
pub open spec fn spec_uses_fp(exc_return: u32) -> bool {
    exc_return & 0x10 == 0
}

/// Does this exception-return value say that the interrupted task had the
/// floating-point unit active?
#[verifier::when_used_as_spec(spec_uses_fp)]
pub fn uses_fp(exc_return: u32) -> (active: bool)
    ensures
        active == spec_uses_fp(exc_return),
{
    exc_return & 0x10 == 0
}

/// The basic exception-return value has bit 4 set, the extended one has it
/// clear.
pub proof fn lemma_exc_return_bits()
    ensures
        !spec_uses_fp(EXC_RETURN_BASIC),
        spec_uses_fp(EXC_RETURN_EXTENDED),
{
    assert(0xFFFF_FFFDu32 & 0x10 != 0) by (bit_vector);
    assert(0xFFFF_FFEDu32 & 0x10 == 0) by (bit_vector);
}

/// A processor variant. The variants differ in what the context switch keeps
/// on a task's stack.
#[derive(Clone, Copy, PartialEq, Eq, Debug, Structural)]
pub enum Arch {
    /// Armv6-M and Armv8-M Baseline: the high registers are stacked through
    /// the low ones, in two halves.
    Baseline,
    /// Armv7-M, Armv7E-M and Armv8-M Mainline without a floating-point unit.
    Mainline,
    /// Armv7E-M and Armv8-M Mainline with a hardware floating-point unit.
    MainlineFp,
}

impl Arch {
    /// Does the variant have a floating-point unit?
    pub open spec fn spec_has_fpu(self) -> bool {
        self == Arch::MainlineFp
    }

    /// Does the variant have a floating-point unit?
    #[verifier::when_used_as_spec(spec_has_fpu)]
    pub fn has_fpu(self) -> (fpu: bool)
        ensures
            fpu == self.spec_has_fpu(),
    {
        match self {
            Arch::MainlineFp => true,
            _ => false,
        }
    }

    /// The stack size, in bytes, that every task's stack must exceed.
    pub open spec fn spec_min_stack_size(self) -> usize {
        if self.spec_has_fpu() {
            204
        } else {
            72
        }
    }

    /// The stack size, in bytes, that every task's stack must exceed: room for
    /// sixteen words of task state, or for forty-nine where the extended
    /// floating-point frame may be stacked, plus eight bytes of headroom.
    #[verifier::when_used_as_spec(spec_min_stack_size)]
    pub fn min_stack_size(self) -> (bytes: usize)
        ensures
            bytes == self.spec_min_stack_size(),
    {
        if self.has_fpu() {
            4 * 49 + 8
        } else {
            4 * 16 + 8
        }
    }
}

} // verus!
