use pets::{
    delay, now, task_id, Arch, Cpu, Delay, Request, Scheduler, Stack, Task, TaskId, TaskSelection,
};

const ENTRY_A: u32 = 0x0800_0101;
const ENTRY_B: u32 = 0x0800_0201;
const ENTRY_C: u32 = 0x0800_0301;

fn three_tasks(arch: Arch) -> Scheduler {
    Scheduler::new(vec![
        Task::new(ENTRY_A, Stack::<1024>::new(0x2000_0000), arch),
        Task::new(ENTRY_B, Stack::<1024>::new(0x2000_0400), arch),
        Task::new(ENTRY_C, Stack::<1024>::new(0x2000_0800), arch),
    ])
}

fn started(arch: Arch) -> (Scheduler, Cpu) {
    let mut scheduler = three_tasks(arch);
    assert_eq!(scheduler.start(), Request::ContextSwitch);
    let mut cpu = Cpu::new();
    assert!(scheduler.can_switch(&cpu));
    scheduler.pend_sv(&mut cpu);
    assert!(scheduler.can_return(&cpu));
    scheduler.exception_return(&mut cpu);
    (scheduler, cpu)
}

fn switch(scheduler: &mut Scheduler, cpu: &mut Cpu) {
    assert!(scheduler.can_take_exception(cpu));
    scheduler.exception_entry(cpu);
    assert!(scheduler.can_switch(cpu));
    scheduler.pend_sv(cpu);
    assert!(scheduler.can_return(cpu));
    scheduler.exception_return(cpu);
}

fn index_of(selection: TaskSelection) -> Option<usize> {
    match selection {
        TaskSelection::NewTask(id) => Some(id.index()),
        _ => None,
    }
}

#[test]
fn task_starts_at_the_top_of_its_stack() {
    let task = Task::new(ENTRY_A, Stack::<1024>::new(0x2000_0000), Arch::Mainline);
    assert_eq!(task.stack(), 0x2000_0400);
    assert_eq!(task.entry_fn(), ENTRY_A);
    assert!(!task.parked());
    assert_eq!(task.arch(), Arch::Mainline);
    assert_eq!(task.memory().base(), 0x2000_0000);
    assert_eq!(task.memory().size(), 1024);
}

#[test]
fn task_accepts_the_smallest_stacks() {
    let small = Task::new(ENTRY_A, Stack::<76>::new(0x2000_0000), Arch::Baseline);
    assert_eq!(small.stack(), 0x2000_004C);
    let small_fp = Task::new(ENTRY_A, Stack::<208>::new(0x2000_0000), Arch::MainlineFp);
    assert_eq!(small_fp.stack(), 0x2000_00D0);
}

#[test]
fn park_and_unpark_set_the_flag() {
    let mut task = Task::new(ENTRY_A, Stack::<1024>::new(0x2000_0000), Arch::Mainline);
    task.park();
    assert!(task.parked());
    task.unpark();
    assert!(!task.parked());
}

#[test]
fn task_ids_display_with_three_digits() {
    let mut tasks = Vec::new();
    for i in 0..1001u32 {
        tasks.push(Task::new(ENTRY_A, Stack::<76>::new(0x2000_0000 + 80 * i), Arch::Mainline));
    }
    let mut scheduler = Scheduler::new(tasks);
    scheduler.start();
    let mut cpu = Cpu::new();
    scheduler.pend_sv(&mut cpu);
    scheduler.exception_return(&mut cpu);
    let mut seen = vec![scheduler.current_task_id().label()];
    for _ in 0..1000 {
        assert_eq!(scheduler.sched_tick(), Request::ContextSwitch);
        switch(&mut scheduler, &mut cpu);
        seen.push(scheduler.current_task_id().label());
    }
    assert_eq!(seen[0], "T000");
    assert_eq!(seen[3], "T003");
    assert_eq!(seen[9], "T009");
    assert_eq!(seen[10], "T010");
    assert_eq!(seen[99], "T099");
    assert_eq!(seen[100], "T100");
    assert_eq!(seen[123], "T123");
    assert_eq!(seen[1000], "T1000");
}

#[test]
fn invalid_task_id_displays_dashes() {
    assert!(TaskId::invalid().is_invalid());
    assert_eq!(TaskId::invalid().index(), usize::MAX);
    assert_eq!(TaskId::invalid().label(), "T---");
}

#[test]
fn new_scheduler_has_run_no_task() {
    let scheduler = three_tasks(Arch::Mainline);
    assert!(scheduler.current_task_id().is_invalid());
    assert_eq!(scheduler.current_task_id().index(), usize::MAX);
    assert_eq!(scheduler.next_task_id().index(), 0);
    assert_eq!(scheduler.now(), 0);
    assert_eq!(scheduler.num_tasks(), 3);
    assert!(!scheduler.is_started());
    assert_eq!(scheduler.arch(), Arch::Mainline);
}

#[test]
fn facade_falls_back_without_a_scheduler() {
    assert_eq!(now(None), 0);
    assert!(task_id(None).is_invalid());
    let mut scheduler = three_tasks(Arch::Mainline);
    assert!(task_id(Some(&scheduler)).is_invalid());
    scheduler.sched_tick();
    scheduler.sched_tick();
    assert_eq!(now(Some(&scheduler)), 2);
    let (scheduler, _) = started(Arch::Mainline);
    assert_eq!(task_id(Some(&scheduler)).index(), 0);
}

#[test]
fn start_primes_every_stack_without_fpu() {
    for arch in [Arch::Baseline, Arch::Mainline] {
        let mut scheduler = three_tasks(arch);
        assert_eq!(scheduler.start(), Request::ContextSwitch);
        assert!(scheduler.is_started());
        assert!(scheduler.current_task_id().is_invalid());
        let entries = [ENTRY_A, ENTRY_B, ENTRY_C];
        for i in 0..3 {
            let task = scheduler.task(i);
            let top = task.memory().top();
            assert_eq!(task.stack(), top - 64);
            let mut expected = vec![0u32; 16];
            expected[14] = entries[i];
            expected[15] = 1 << 24;
            assert_eq!(task.memory().read_frame(task.stack(), 16), expected);
            assert_eq!(task.memory().read(task.stack() - 4), 0);
        }
    }
}

#[test]
fn start_primes_every_stack_with_fpu() {
    let mut scheduler = three_tasks(Arch::MainlineFp);
    scheduler.start();
    let entries = [ENTRY_A, ENTRY_B, ENTRY_C];
    for i in 0..3 {
        let task = scheduler.task(i);
        let top = task.memory().top();
        assert_eq!(task.stack(), top - 68);
        let mut expected = vec![0u32; 17];
        expected[8] = 0xFFFF_FFFD;
        expected[15] = entries[i];
        expected[16] = 1 << 24;
        assert_eq!(task.memory().read_frame(task.stack(), 17), expected);
    }
}

#[test]
fn every_task_is_launched_cleanly() {
    for arch in [Arch::Baseline, Arch::Mainline, Arch::MainlineFp] {
        let (mut scheduler, mut cpu) = started(arch);
        let entries = [ENTRY_A, ENTRY_B, ENTRY_C];
        for i in 0..3 {
            assert_eq!(scheduler.current_task_id().index(), i);
            assert_eq!(cpu.pc, entries[i]);
            assert_eq!(cpu.xpsr, 1 << 24);
            assert_eq!(cpu.lr, 0);
            assert_eq!(cpu.r, [0u32; 13]);
            assert_eq!(cpu.psp, scheduler.task(i).memory().top());
            assert!(!cpu.fpca);
            // Leave something in the registers for the next task not to see.
            for r in 0..13 {
                cpu.r[r] = 0x1234_0000 + r as u32;
            }
            cpu.lr = 0x0800_0999;
            cpu.fpca = arch.has_fpu();
            assert_eq!(scheduler.sched_tick(), Request::ContextSwitch);
            switch(&mut scheduler, &mut cpu);
        }
    }
}

#[test]
fn first_switch_ends_no_task() {
    let mut scheduler = three_tasks(Arch::Mainline);
    scheduler.start();
    assert!(scheduler.current_task_id().is_invalid());
    let mut cpu = Cpu::new();
    scheduler.pend_sv(&mut cpu);
    assert!(!scheduler.current_task_id().is_invalid());
    assert_eq!(scheduler.current_task_id().label(), "T000");
    assert_eq!(cpu.lr, 0xFFFF_FFFD);
    assert_eq!(cpu.psp, scheduler.task(0).memory().top() - 32);
    // Nothing was saved: there was no task to save, and every stack is as the
    // start left it.
    for i in 0..3 {
        let task = scheduler.task(i);
        assert_eq!(task.stack(), task.memory().top() - 64);
        assert_eq!(task.memory().read_frame(task.memory().base(), 240), vec![0u32; 240]);
    }
}

#[test]
fn switching_to_the_running_task_changes_no_register() {
    for arch in [Arch::Baseline, Arch::Mainline, Arch::MainlineFp] {
        let (mut scheduler, mut cpu) = started(arch);
        assert_eq!(scheduler.next_task_id().index(), 0);
        for r in 0..13 {
            cpu.r[r] = 0x4000 + r as u32;
        }
        for i in 0..32 {
            cpu.s[i] = 0x5000 + i as u32;
        }
        cpu.fpca = arch.has_fpu();
        cpu.pc = 0x0800_0500;
        let running = cpu;
        switch(&mut scheduler, &mut cpu);
        assert_eq!(scheduler.current_task_id().index(), 0);
        assert_eq!(cpu, running);
    }
}

#[test]
fn tick_before_the_first_switch_selects_the_first_task() {
    let mut scheduler = three_tasks(Arch::Mainline);
    assert_eq!(index_of(scheduler.pick_next_task()), Some(0));
    assert_eq!(scheduler.sched_tick(), Request::ContextSwitch);
    assert_eq!(scheduler.next_task_id().index(), 0);
    assert_eq!(scheduler.now(), 1);
}

#[test]
fn context_switch_cannot_run_before_start() {
    let scheduler = three_tasks(Arch::Mainline);
    let cpu = Cpu::new();
    assert!(!scheduler.can_switch(&cpu));
    assert!(!scheduler.can_take_exception(&cpu));
    assert!(!scheduler.can_return(&cpu));
}

#[test]
fn round_robin_cycles_in_ascending_order() {
    for arch in [Arch::Baseline, Arch::Mainline, Arch::MainlineFp] {
        let (mut scheduler, mut cpu) = started(arch);
        let mut seen = vec![scheduler.current_task_id().index()];
        for tick in 1..=7u32 {
            assert!(scheduler.can_take_exception(&cpu));
            scheduler.exception_entry(&mut cpu);
            assert_eq!(scheduler.sched_tick(), Request::ContextSwitch);
            scheduler.pend_sv(&mut cpu);
            scheduler.exception_return(&mut cpu);
            assert_eq!(scheduler.now(), tick);
            seen.push(task_id(Some(&scheduler)).index());
        }
        assert_eq!(seen, vec![0, 1, 2, 0, 1, 2, 0, 1]);
    }
}

#[test]
fn single_task_keeps_running() {
    let mut scheduler =
        Scheduler::new(vec![Task::new(ENTRY_A, Stack::<256>::new(0x2000_0000), Arch::Mainline)]);
    scheduler.start();
    let mut cpu = Cpu::new();
    scheduler.pend_sv(&mut cpu);
    scheduler.exception_return(&mut cpu);
    assert_eq!(scheduler.sched_tick(), Request::Nothing);
    assert_eq!(scheduler.current_task_id().index(), 0);
    assert_eq!(scheduler.pick_next_task(), TaskSelection::CurrentTask);
    assert_eq!(scheduler.yield_until_tick(), Request::Sleep);
    assert_eq!(scheduler.pick_next_task(), TaskSelection::NoTasks);
    assert_eq!(scheduler.sched_tick(), Request::Nothing);
    assert!(!scheduler.task(0).parked());
    assert_eq!(scheduler.now(), 2);
}

#[test]
fn selection_skips_parked_tasks() {
    let (mut scheduler, mut cpu) = started(Arch::Mainline);
    // Task 0 yields: task 1 is next.
    assert_eq!(scheduler.yield_until_tick(), Request::ContextSwitch);
    assert!(scheduler.task(0).parked());
    assert_eq!(scheduler.next_task_id().index(), 1);
    switch(&mut scheduler, &mut cpu);
    // Task 1 is asked, without yielding: task 0 is parked, so task 2 it is.
    assert_eq!(index_of(scheduler.pick_next_task()), Some(2));
    // Task 1 yields: task 2 is next.
    assert_eq!(scheduler.yield_until_tick(), Request::ContextSwitch);
    assert_eq!(scheduler.next_task_id().index(), 2);
    switch(&mut scheduler, &mut cpu);
    // Only task 2 is left.
    assert_eq!(scheduler.pick_next_task(), TaskSelection::CurrentTask);
    // Task 2 yields: nobody is left, the next task stays as it is.
    assert_eq!(scheduler.yield_until_tick(), Request::Sleep);
    assert_eq!(scheduler.next_task_id().index(), 2);
    assert_eq!(scheduler.current_task_id().index(), 2);
    assert_eq!(scheduler.pick_next_task(), TaskSelection::NoTasks);
    // The tick wakes everybody; the round robin goes on after task 2.
    assert_eq!(scheduler.sched_tick(), Request::ContextSwitch);
    assert_eq!(scheduler.next_task_id().index(), 0);
    for i in 0..3 {
        assert!(!scheduler.task(i).parked());
    }
}

#[test]
fn selection_wraps_past_the_end_of_the_list() {
    let (mut scheduler, mut cpu) = started(Arch::Mainline);
    scheduler.sched_tick();
    switch(&mut scheduler, &mut cpu);
    // Task 1 yields, then task 2 does: task 0 is the only one left.
    scheduler.yield_until_tick();
    switch(&mut scheduler, &mut cpu);
    assert_eq!(scheduler.current_task_id().index(), 2);
    assert_eq!(scheduler.yield_until_tick(), Request::ContextSwitch);
    assert_eq!(scheduler.next_task_id().index(), 0);
}

#[test]
fn yield_and_switch_leave_the_clock_alone() {
    let (mut scheduler, mut cpu) = started(Arch::Mainline);
    scheduler.sched_tick();
    switch(&mut scheduler, &mut cpu);
    assert_eq!(scheduler.now(), 1);
    scheduler.yield_until_tick();
    assert_eq!(scheduler.now(), 1);
    switch(&mut scheduler, &mut cpu);
    assert_eq!(scheduler.now(), 1);
}

#[test]
fn callee_saved_registers_survive_a_round() {
    for arch in [Arch::Baseline, Arch::Mainline, Arch::MainlineFp] {
        let (mut scheduler, mut cpu) = started(arch);
        for round in 0..3u32 {
            for task in 0..3u32 {
                assert_eq!(scheduler.current_task_id().index(), task as usize);
                if round > 0 {
                    for r in 0..13 {
                        assert_eq!(cpu.r[r], (task << 16) + ((round - 1) << 8) + r as u32);
                    }
                    assert_eq!(cpu.lr, 0x0800_0000 + task);
                    assert_eq!(cpu.pc, 0x0800_1000 + round - 1);
                    assert_eq!(cpu.xpsr, 0x6100_0000);
                }
                for r in 0..13 {
                    cpu.r[r] = (task << 16) + (round << 8) + r as u32;
                }
                cpu.lr = 0x0800_0000 + task;
                cpu.pc = 0x0800_1000 + round;
                cpu.xpsr = 0x6100_0000;
                let psp = cpu.psp;
                assert_eq!(scheduler.sched_tick(), Request::ContextSwitch);
                switch(&mut scheduler, &mut cpu);
                let suspended = scheduler.task(task as usize);
                let saved = if arch.has_fpu() { 17 * 4 } else { 16 * 4 };
                assert_eq!(suspended.stack(), psp - saved);
            }
        }
    }
}

#[test]
fn stored_stack_pointers_stay_inside_their_stacks() {
    for arch in [Arch::Baseline, Arch::Mainline, Arch::MainlineFp] {
        let (mut scheduler, mut cpu) = started(arch);
        for step in 0..50u32 {
            // The running task uses some of its stack, and sometimes the FPU.
            cpu.psp -= 8 * (step % 5);
            cpu.fpca = arch.has_fpu() && step % 3 == 0;
            if step % 4 == 0 {
                scheduler.yield_until_tick();
            } else {
                scheduler.sched_tick();
            }
            switch(&mut scheduler, &mut cpu);
            for i in 0..3 {
                let task = scheduler.task(i);
                assert!(task.memory().base() <= task.stack());
                assert!(task.stack() <= task.memory().top());
                assert_eq!(task.stack() % 4, 0);
            }
            assert!(scheduler.current_task_id().index() < 3);
            assert!(scheduler.next_task_id().index() < 3);
        }
    }
}

#[test]
fn context_switch_needs_room_on_the_stack() {
    let mut scheduler =
        Scheduler::new(vec![Task::new(ENTRY_A, Stack::<76>::new(0x2000_0000), Arch::Mainline)]);
    scheduler.start();
    let mut cpu = Cpu::new();
    scheduler.pend_sv(&mut cpu);
    scheduler.exception_return(&mut cpu);
    assert_eq!(cpu.psp, 0x2000_004C);
    // 76 bytes hold the two frames of 32 bytes each, and 12 bytes more.
    cpu.psp -= 12;
    assert!(scheduler.can_take_exception(&cpu));
    cpu.psp -= 32;
    assert!(scheduler.can_take_exception(&cpu));
    cpu.psp -= 4;
    assert!(!scheduler.can_take_exception(&cpu));
    cpu.psp += 4;
    scheduler.exception_entry(&mut cpu);
    assert_eq!(cpu.psp, 0x2000_0000);
    assert!(!scheduler.can_switch(&cpu));
    assert!(scheduler.can_return(&cpu));
    cpu.psp += 2;
    assert!(!scheduler.can_return(&cpu));
}

#[test]
fn delay_of_zero_yields_exactly_once() {
    let (mut scheduler, mut cpu) = started(Arch::Mainline);
    let (waiting, request) = delay(&mut scheduler, 0);
    assert_eq!(request, Request::ContextSwitch);
    assert!(scheduler.task(0).parked());
    switch(&mut scheduler, &mut cpu);
    scheduler.yield_until_tick();
    switch(&mut scheduler, &mut cpu);
    scheduler.yield_until_tick();
    // No tick has come, and task 0 is parked still; were it to run again, the
    // delay is over at once.
    assert_eq!(scheduler.now(), 0);
    assert!(waiting.is_over(scheduler.now()));
}

#[test]
fn delay_is_over_after_its_ticks() {
    let waiting = Delay::new(100, 5);
    assert!(!waiting.is_over(100));
    assert!(!waiting.is_over(104));
    assert!(waiting.is_over(105));
    assert!(waiting.is_over(106));
    let long = Delay::new(7, 1_000_000);
    assert!(!long.is_over(1_000_006));
    assert!(long.is_over(1_000_007));
    let longest = Delay::new(5, u32::MAX);
    assert!(!longest.is_over(3));
    assert!(longest.is_over(4));
}

#[test]
fn delay_survives_the_wrap_of_the_clock() {
    let waiting = Delay::new(0xFFFF_FFFD, 5);
    assert!(!waiting.is_over(0xFFFF_FFFD));
    assert!(!waiting.is_over(0xFFFF_FFFE));
    assert!(!waiting.is_over(0xFFFF_FFFF));
    assert!(!waiting.is_over(0));
    assert!(!waiting.is_over(1));
    assert!(waiting.is_over(2));
    assert!(waiting.is_over(3));
}

#[test]
fn resume_yields_again_until_the_delay_is_over() {
    let mut scheduler =
        Scheduler::new(vec![Task::new(ENTRY_A, Stack::<256>::new(0x2000_0000), Arch::Mainline)]);
    scheduler.start();
    let mut cpu = Cpu::new();
    scheduler.pend_sv(&mut cpu);
    scheduler.exception_return(&mut cpu);
    let (waiting, request) = delay(&mut scheduler, 3);
    assert_eq!(request, Request::Sleep);
    for tick in 1..3 {
        assert_eq!(scheduler.sched_tick(), Request::Nothing);
        assert_eq!(scheduler.now(), tick);
        assert!(!scheduler.task(0).parked());
        assert_eq!(waiting.resume(&mut scheduler), Some(Request::Sleep));
        assert!(scheduler.task(0).parked());
    }
    scheduler.sched_tick();
    assert_eq!(waiting.resume(&mut scheduler), None);
    assert!(!scheduler.task(0).parked());
    assert_eq!(scheduler.now(), 3);
}
