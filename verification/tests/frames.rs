use pets::arch::{uses_fp, EXC_RETURN_BASIC, EXC_RETURN_EXTENDED, INITIAL_XPSR};
use pets::frame::{
    build_initial_frame, exception_entry, exception_return, restore_context, save_context,
};
use pets::{Arch, Cpu, StackMemory};

fn numbered_cpu() -> Cpu {
    let mut cpu = Cpu::new();
    for i in 0..13 {
        cpu.r[i] = 0x100 + i as u32;
    }
    for i in 0..32 {
        cpu.s[i] = 0x500 + i as u32;
    }
    cpu.lr = 0x0800_0131;
    cpu.pc = 0x0800_0246;
    cpu.xpsr = 0x2100_0000;
    cpu.fpscr = 0x0300_0000;
    cpu
}

#[test]
fn constants_have_their_architectural_values() {
    assert_eq!(INITIAL_XPSR, 1 << 24);
    assert_eq!(EXC_RETURN_BASIC, 0xFFFF_FFFD);
    assert_eq!(EXC_RETURN_EXTENDED, 0xFFFF_FFED);
    assert!(!uses_fp(EXC_RETURN_BASIC));
    assert!(uses_fp(EXC_RETURN_EXTENDED));
}

#[test]
fn min_stack_size_depends_on_the_fpu() {
    assert_eq!(Arch::Baseline.min_stack_size(), 72);
    assert_eq!(Arch::Mainline.min_stack_size(), 72);
    assert_eq!(Arch::MainlineFp.min_stack_size(), 204);
    assert!(!Arch::Baseline.has_fpu());
    assert!(!Arch::Mainline.has_fpu());
    assert!(Arch::MainlineFp.has_fpu());
}

#[test]
fn initial_frame_without_fpu_has_sixteen_words() {
    let expected = vec![0, 0, 0, 0, 0, 0, 0, 0, 0, 0, 0, 0, 0, 0, 0x0800_0101, 0x0100_0000];
    assert_eq!(build_initial_frame(Arch::Mainline, 0x0800_0101), expected);
    assert_eq!(build_initial_frame(Arch::Baseline, 0x0800_0101), expected);
}

#[test]
fn initial_frame_with_fpu_carries_the_exception_return_value() {
    let expected =
        vec![0, 0, 0, 0, 0, 0, 0, 0, 0xFFFF_FFFD, 0, 0, 0, 0, 0, 0, 0x0800_0101, 0x0100_0000];
    assert_eq!(build_initial_frame(Arch::MainlineFp, 0x0800_0101), expected);
}

#[test]
fn exception_entry_stacks_the_basic_frame() {
    let mut memory = StackMemory::new(0x2000_0000, 256);
    let mut cpu = numbered_cpu();
    cpu.psp = 0x2000_0100;
    exception_entry(Arch::Mainline, &mut cpu, &mut memory);
    assert_eq!(cpu.psp, 0x2000_00E0);
    assert_eq!(cpu.lr, 0xFFFF_FFFD);
    assert_eq!(
        memory.read_frame(0x2000_00E0, 8),
        vec![0x100, 0x101, 0x102, 0x103, 0x10C, 0x0800_0131, 0x0800_0246, 0x2100_0000]
    );
    assert_eq!(memory.read(0x2000_00DC), 0);
}

#[test]
fn exception_entry_ignores_fpca_without_fpu() {
    let mut memory = StackMemory::new(0x2000_0000, 256);
    let mut cpu = numbered_cpu();
    cpu.psp = 0x2000_0100;
    cpu.fpca = true;
    exception_entry(Arch::Baseline, &mut cpu, &mut memory);
    assert_eq!(cpu.psp, 0x2000_00E0);
    assert_eq!(cpu.lr, 0xFFFF_FFFD);
}

#[test]
fn exception_entry_stacks_the_extended_frame() {
    let mut memory = StackMemory::new(0x2000_0000, 256);
    let mut cpu = numbered_cpu();
    cpu.psp = 0x2000_0100;
    cpu.fpca = true;
    exception_entry(Arch::MainlineFp, &mut cpu, &mut memory);
    assert_eq!(cpu.psp, 0x2000_0100 - 104);
    assert_eq!(cpu.lr, 0xFFFF_FFED);
    assert!(!cpu.fpca);
    let frame = memory.read_frame(cpu.psp, 26);
    assert_eq!(
        frame[0..8],
        [0x100, 0x101, 0x102, 0x103, 0x10C, 0x0800_0131, 0x0800_0246, 0x2100_0000]
    );
    for i in 0..16 {
        assert_eq!(frame[8 + i], 0x500 + i as u32);
    }
    assert_eq!(frame[24], 0x0300_0000);
    assert_eq!(frame[25], 0);
}

#[test]
fn exception_return_undoes_exception_entry() {
    for arch in [Arch::Baseline, Arch::Mainline, Arch::MainlineFp] {
        for fpca in [false, true] {
            let mut memory = StackMemory::new(0x2000_0000, 256);
            let mut cpu = numbered_cpu();
            cpu.psp = 0x2000_0100;
            cpu.fpca = fpca && arch.has_fpu();
            let task = cpu;
            exception_entry(arch, &mut cpu, &mut memory);
            // The handler is free to use the registers that the hardware stacked.
            for i in 0..4 {
                cpu.r[i] = 0xAAAA_0000;
            }
            cpu.r[12] = 0xAAAA_0000;
            if task.fpca {
                for i in 0..16 {
                    cpu.s[i] = 0xBBBB_0000;
                }
                cpu.fpscr = 0;
            }
            exception_return(arch, &mut cpu, &memory);
            assert_eq!(cpu, task);
        }
    }
}

#[test]
fn mainline_saves_r4_to_r11_in_order() {
    let mut memory = StackMemory::new(0x2000_0000, 256);
    let mut cpu = numbered_cpu();
    cpu.psp = 0x2000_0080;
    cpu.lr = EXC_RETURN_BASIC;
    let sp = save_context(Arch::Mainline, &cpu, &mut memory);
    assert_eq!(sp, 0x2000_0060);
    assert_eq!(
        memory.read_frame(sp, 8),
        vec![0x104, 0x105, 0x106, 0x107, 0x108, 0x109, 0x10A, 0x10B]
    );
}

#[test]
fn baseline_saves_the_high_registers_below_the_low_ones() {
    let mut memory = StackMemory::new(0x2000_0000, 256);
    let mut cpu = numbered_cpu();
    cpu.psp = 0x2000_0080;
    cpu.lr = EXC_RETURN_BASIC;
    let sp = save_context(Arch::Baseline, &cpu, &mut memory);
    assert_eq!(sp, 0x2000_0060);
    assert_eq!(
        memory.read_frame(sp, 8),
        vec![0x108, 0x109, 0x10A, 0x10B, 0x104, 0x105, 0x106, 0x107]
    );
}

#[test]
fn fpu_build_saves_the_exception_return_value() {
    let mut memory = StackMemory::new(0x2000_0000, 256);
    let mut cpu = numbered_cpu();
    cpu.psp = 0x2000_0080;
    cpu.lr = EXC_RETURN_BASIC;
    let sp = save_context(Arch::MainlineFp, &cpu, &mut memory);
    assert_eq!(sp, 0x2000_0080 - 36);
    assert_eq!(
        memory.read_frame(sp, 9),
        vec![0x104, 0x105, 0x106, 0x107, 0x108, 0x109, 0x10A, 0x10B, 0xFFFF_FFFD]
    );
}

#[test]
fn fpu_build_saves_s16_to_s31_when_the_fpu_was_active() {
    let mut memory = StackMemory::new(0x2000_0000, 256);
    let mut cpu = numbered_cpu();
    cpu.psp = 0x2000_0080;
    cpu.lr = EXC_RETURN_EXTENDED;
    let sp = save_context(Arch::MainlineFp, &cpu, &mut memory);
    assert_eq!(sp, 0x2000_0080 - 100);
    let frame = memory.read_frame(sp, 25);
    assert_eq!(frame[8], 0xFFFF_FFED);
    for i in 0..16 {
        assert_eq!(frame[9 + i], 0x510 + i as u32);
    }
}

#[test]
fn restore_undoes_save_on_every_variant() {
    for arch in [Arch::Baseline, Arch::Mainline, Arch::MainlineFp] {
        for exc_return in [EXC_RETURN_BASIC, EXC_RETURN_EXTENDED] {
            let mut memory = StackMemory::new(0x2000_0000, 512);
            let mut cpu = numbered_cpu();
            cpu.psp = 0x2000_0100;
            cpu.lr = exc_return;
            let saved = cpu;
            let sp = save_context(arch, &cpu, &mut memory);
            let mut other = Cpu::new();
            for i in 0..13 {
                other.r[i] = 0xEEEE_0000 + i as u32;
            }
            for i in 0..32 {
                other.s[i] = 0xFFFF_0000 + i as u32;
            }
            restore_context(arch, &mut other, &memory, sp);
            assert_eq!(other.r[4..12], saved.r[4..12]);
            assert_eq!(other.r[0..4], [0xEEEE_0000, 0xEEEE_0001, 0xEEEE_0002, 0xEEEE_0003]);
            assert_eq!(other.r[12], 0xEEEE_000C);
            assert_eq!(other.psp, saved.psp);
            if arch.has_fpu() {
                assert_eq!(other.lr, exc_return);
            } else {
                assert_eq!(other.lr, EXC_RETURN_BASIC);
            }
            if arch.has_fpu() && uses_fp(exc_return) {
                assert_eq!(other.s[16..32], saved.s[16..32]);
            } else {
                assert_eq!(other.s[16], 0xFFFF_0010);
                assert_eq!(other.s[31], 0xFFFF_001F);
            }
            assert_eq!(other.s[0], 0xFFFF_0000);
            assert_eq!(other.s[15], 0xFFFF_000F);
        }
    }
}

#[test]
fn initial_frame_pops_into_a_clean_task() {
    for arch in [Arch::Baseline, Arch::Mainline, Arch::MainlineFp] {
        let mut memory = StackMemory::new(0x2000_0000, 256);
        let frame = build_initial_frame(arch, 0x0800_0421);
        let mut pusher = pets::StackPusher::new(memory.top());
        pusher.push_frame(&mut memory, &frame);
        let mut cpu = numbered_cpu();
        cpu.fpca = true;
        restore_context(arch, &mut cpu, &memory, pusher.current());
        exception_return(arch, &mut cpu, &memory);
        assert_eq!(cpu.pc, 0x0800_0421);
        assert_eq!(cpu.xpsr, 1 << 24);
        assert_eq!(cpu.lr, 0);
        assert_eq!(cpu.r, [0u32; 13]);
        assert_eq!(cpu.psp, memory.top());
        assert!(!cpu.fpca);
    }
}
