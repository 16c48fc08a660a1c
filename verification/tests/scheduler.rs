use primoria::kernel::CpuRegs;
use primoria::tty::Tty;
use primoria::tty::TtyMode;
use primoria::kernel::StackFrame;
use primoria::kernel::State;
use primoria::kernel::FLAG_IF;
use primoria::kernel::LAUNCH_THREAD;
use primoria::kernel::MAX_THREADS;
use primoria::kernel::STACK_BYTES;

const ARENA_BASE: usize = 0x10_0000;
const ARENA_SIZE: usize = 8192 * 16;
const TRAMPOLINE: u64 = 0x4000_0000;
const BOOT_SP: usize = 0x8000;

fn boot_state() -> State {
    let mut s = State::new(TRAMPOLINE, ARENA_BASE, ARENA_SIZE);
    s.init();
    s.start(BOOT_SP);
    s
}

fn boot_frame() -> StackFrame {
    StackFrame {
        instruction_pointer: 0x1111,
        code_segment: 0x08,
        cpu_flags: 0x202,
        stack_pointer: 0x7000,
        stack_segment: 0x10,
    }
}

#[test]
fn single_thread_idle() {
    let mut s = boot_state();
    let mut frame = boot_frame();
    let regs = CpuRegs::zeroed();
    for _ in 0..1000 {
        let _load = s.timer_interrupt_handler(regs, &mut frame);
    }
    assert_eq!(s.thread_id(), 0);
    assert_eq!(s.ticks(), 1000);
    assert_eq!(s.thread_count, 1);
    // with a single thread the frame never moves
    assert_eq!(frame, boot_frame());
}

#[test]
fn spawn_one_observe_parent_id() {
    let mut s = boot_state();
    let frame = boot_frame();
    let id = s.launch(0xABCD, &frame);
    assert_eq!(id, 1);
    assert_eq!(s.thread_count, 2);

    // drive the machine: whenever the child runs, its body bumps a counter
    let mut counter: u64 = 0;
    let mut parent_ran_after_child = false;
    let mut live_frame = frame;
    let mut live_regs = CpuRegs::zeroed();
    for _ in 0..6 {
        live_regs = s.timer_interrupt_handler(live_regs, &mut live_frame);
        match s.thread_id() {
            1 => counter += 1,
            0 => {
                if counter > 0 {
                    parent_ran_after_child = true;
                }
            }
            _ => unreachable!(),
        }
    }
    assert!(counter > 0);
    assert!(parent_ran_after_child);
}

#[test]
fn spawn_seven_eighth_refused() {
    let mut s = boot_state();
    let frame = boot_frame();
    for expected in 1..=6 {
        let id = s.launch(0x1000 + expected as u64, &frame);
        assert_eq!(id, expected);
    }
    // the seventh spawn succeeds and returns 7
    let seventh = s.launch(0x2000, &frame);
    assert_eq!(seventh, 7);
    assert_eq!(s.thread_count, MAX_THREADS);
    // the eighth finds no slot
    let eighth = s.try_launch(0x3000, &frame);
    assert_eq!(eighth, None);
    assert_eq!(s.thread_count, MAX_THREADS);
}

#[test]
fn spawned_stacks_disjoint() {
    let mut s = boot_state();
    let frame = boot_frame();
    for _ in 0..7 {
        s.launch(0x9000, &frame);
    }
    for i in 0..s.thread_count {
        for j in (i + 1)..s.thread_count {
            let end_i = s.threads[i].stack_end;
            let end_j = s.threads[j].stack_end;
            assert!(end_i + STACK_BYTES <= end_j);
        }
    }
}

#[test]
fn round_trip_restores_registers_and_frame() {
    let mut s = boot_state();
    let frame = boot_frame();
    s.launch(0xABCD, &frame);

    let saved_regs = CpuRegs {
        r12: 0x1111,
        r13: 0x2222,
        r14: 0x3333,
        r15: 0x4444,
        ..CpuRegs::zeroed()
    };
    let mut live_frame = boot_frame();
    // switch away from thread 0 ...
    let child_regs = s.timer_interrupt_handler(saved_regs, &mut live_frame);
    assert_eq!(s.thread_id(), 1);
    assert_eq!(child_regs.rdi, 0xABCD);
    // ... and back, with no events between: everything is bit-identical
    let restored = s.timer_interrupt_handler(child_regs, &mut live_frame);
    assert_eq!(s.thread_id(), 0);
    assert_eq!(restored.r12, 0x1111);
    assert_eq!(restored.r13, 0x2222);
    assert_eq!(restored.r14, 0x3333);
    assert_eq!(restored.r15, 0x4444);
    assert_eq!(restored, saved_regs);
    assert_eq!(live_frame, boot_frame());
}

#[test]
fn ticks_monotonic_across_events() {
    let mut s = boot_state();
    let frame = boot_frame();
    let mut live_frame = boot_frame();
    let mut last = s.ticks();
    for step in 0..20 {
        if step % 5 == 0 && s.thread_count < MAX_THREADS {
            s.launch(0x7000, &frame);
        } else {
            let _ = s.timer_interrupt_handler(CpuRegs::zeroed(), &mut live_frame);
        }
        let now = s.ticks();
        assert!(now >= last);
        assert!(s.thread_id() < s.thread_count);
        assert!(s.thread_count <= MAX_THREADS);
        last = now;
    }
}

#[test]
fn child_flags_sanitized_interrupt_kept() {
    let mut s = boot_state();
    // parent flags: all sanitized bits set, interrupts enabled
    let frame = StackFrame {
        cpu_flags: 0x0cd5 | FLAG_IF,
        ..boot_frame()
    };
    let id = s.launch(0x5555, &frame);
    let child = s.threads[id].stack_frame;
    assert_eq!(child.cpu_flags & 0x0001, 0); // CF
    assert_eq!(child.cpu_flags & 0x0004, 0); // PF
    assert_eq!(child.cpu_flags & 0x0010, 0); // AF
    assert_eq!(child.cpu_flags & 0x0040, 0); // ZF
    assert_eq!(child.cpu_flags & 0x0080, 0); // SF
    assert_eq!(child.cpu_flags & 0x0400, 0); // DF
    assert_eq!(child.cpu_flags & 0x0800, 0); // OF
    assert_eq!(child.cpu_flags & FLAG_IF, FLAG_IF); // IF inherited
    // segments inherited, stack fresh, entry in RDI, trampoline first
    assert_eq!(child.code_segment, 0x08);
    assert_eq!(child.stack_segment, 0x10);
    assert_eq!(child.instruction_pointer, TRAMPOLINE);
    assert_eq!(child.stack_pointer, (ARENA_BASE + STACK_BYTES) as u64);
    assert_eq!(s.threads[id].cpu_regs.rdi, 0x5555);
    assert_eq!(s.threads[id].cpu_regs.rax, 0);
}

#[test]
fn syscall_dispatcher_returns_child_in_rax() {
    let mut s = boot_state();
    let frame = boot_frame();
    let regs = CpuRegs {
        rax: LAUNCH_THREAD,
        rdi: 0x6666,
        rbx: 77,
        ..CpuRegs::zeroed()
    };
    let out = s.system_interrupt_handler(regs, &frame);
    assert_eq!(out.rax, 1);
    assert_eq!(out.rbx, 77);
    assert_eq!(out.rdi, 0x6666);
    assert_eq!(s.thread_count, 2);

    // an unknown selector does nothing and returns zero
    let out2 = s.system_interrupt_handler(CpuRegs { rax: 0x42, ..regs }, &frame);
    assert_eq!(out2.rax, 0);
    assert_eq!(s.thread_count, 2);
}

#[test]
fn back_to_thread_loads_current_registers() {
    let mut s = boot_state();
    let frame = boot_frame();
    s.launch(0x1234, &frame);
    let mut live_frame = boot_frame();
    let _ = s.timer_interrupt_handler(CpuRegs::zeroed(), &mut live_frame);
    let (regs, out_frame) = s.back_to_thread(&live_frame);
    assert_eq!(regs.rdi, 0x1234);
    assert_eq!(out_frame, live_frame);
}

#[test]
fn spawn_two_round_robin_all_threads_write() {
    let mut s = boot_state();
    let frame = boot_frame();
    let id1 = s.launch(0xAAAA, &frame);
    let id2 = s.launch(0xBBBB, &frame);
    assert_eq!((id1, id2), (1, 2));

    // the test buffer: thread 0 writes '.', the children write 'A' and 'B'
    let mut buffer = Tty::new(80, 25);
    buffer.mode = TtyMode::Fixed;
    let mut live_frame = boot_frame();
    let mut live_regs = CpuRegs::zeroed();
    for _ in 0..4 {
        let (col, ch) = match s.thread_id() {
            0 => (2, '.'),
            1 => (0, 'A'),
            _ => (1, 'B'),
        };
        buffer.row = 0;
        buffer.col = col;
        buffer.putchar(ch);
        live_regs = s.timer_interrupt_handler(live_regs, &mut live_frame);
    }
    assert_ne!(buffer.cell_at(0, 0).ch, '\0');
    assert_ne!(buffer.cell_at(0, 1).ch, '\0');
    assert_ne!(buffer.cell_at(0, 2).ch, '\0');
    assert_eq!(buffer.cell_at(0, 0).ch, 'A');
    assert_eq!(buffer.cell_at(0, 1).ch, 'B');
    assert_eq!(buffer.cell_at(0, 2).ch, '.');
}
