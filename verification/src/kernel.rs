//! The multitasking core: the thread table, the timer-driven round-robin
//! context switch, and the spawn syscall.
//!
//! The interrupt stubs themselves are assembly; what they do to the thread
//! table is computed here. A timer tick saves the interrupted thread's
//! registers, advances the tick counter, rotates `current_thread`, swaps the
//! hardware interrupt frame in place, and yields the register block that the
//! `iretq` path must load. The spawn syscall allocates a fresh stack from the
//! arena and synthesizes a resumable frame for the child.
//!
//! Every operation is specified against [`SchedView`], the mathematical image
//! of the scheduler state, by a total spec-level transition function; the
//! laws at the end of the module (invariant preservation, spawn counting,
//! stack disjointness, tick monotonicity, and the context-switch round trip)
//! are proved over those transitions.

use vstd::prelude::*;

use crate::memory::Allocator;
use crate::memory::spec_align_up;

verus! {

/// Capacity of the thread table.
pub const MAX_THREADS: usize = 8;

/// Machine words in a spawned thread's stack.
pub const STACK_SIZE: usize = 1024;

/// Bytes in a spawned thread's stack (`STACK_SIZE` 8-byte words).
pub const STACK_BYTES: usize = 1024 * 8;

/// Alignment of a spawned thread's stack.
pub const STACK_ALIGN: usize = 8;

/// Syscall selector carried in RAX: spawn a thread from an entry pointer.
pub const LAUNCH_THREAD: u64 = 0xaa;

/// The arithmetic/status bits cleared on a child's first frame:
/// CF (0x0001), PF (0x0004), AF (0x0010), ZF (0x0040), SF (0x0080),
/// DF (0x0400) and OF (0x0800).
pub const FLAGS_CLEAR_MASK: u64 = 0x0cd5;

/// The interrupt-enable bit of the flags register.
pub const FLAG_IF: u64 = 0x0200;

/// The 15 general-purpose registers, in the fixed layout the interrupt stubs
/// push and pop them in.
#[derive(Debug, Clone, Copy, PartialEq, Eq, Structural)]
pub struct CpuRegs {
    pub rax: u64,
    pub rbx: u64,
    pub rcx: u64,
    pub rdx: u64,
    pub rsi: u64,
    pub rdi: u64,
    pub rbp: u64,
    pub r8: u64,
    pub r9: u64,
    pub r10: u64,
    pub r11: u64,
    pub r12: u64,
    pub r13: u64,
    pub r14: u64,
    pub r15: u64,
}

impl CpuRegs {
    pub open spec fn spec_zeroed() -> CpuRegs {
        CpuRegs {
            rax: 0, rbx: 0, rcx: 0, rdx: 0, rsi: 0, rdi: 0, rbp: 0,
            r8: 0, r9: 0, r10: 0, r11: 0, r12: 0, r13: 0, r14: 0, r15: 0,
        }
    }

    /// All registers zero.
    pub fn zeroed() -> (r: CpuRegs)
        ensures
            r == CpuRegs::spec_zeroed(),
    {
        CpuRegs {
            rax: 0, rbx: 0, rcx: 0, rdx: 0, rsi: 0, rdi: 0, rbp: 0,
            r8: 0, r9: 0, r10: 0, r11: 0, r12: 0, r13: 0, r14: 0, r15: 0,
        }
    }
}

/// The five-word hardware interrupt frame, as pushed by interrupts that
/// return with `iretq`.
#[derive(Debug, Clone, Copy, PartialEq, Eq, Structural)]
pub struct StackFrame {
    pub instruction_pointer: u64,
    pub code_segment: u64,
    pub cpu_flags: u64,
    pub stack_pointer: u64,
    pub stack_segment: u64,
}

impl StackFrame {
    pub open spec fn spec_zeroed() -> StackFrame {
        StackFrame {
            instruction_pointer: 0,
            code_segment: 0,
            cpu_flags: 0,
            stack_pointer: 0,
            stack_segment: 0,
        }
    }

    /// All words zero.
    pub fn zeroed() -> (r: StackFrame)
        ensures
            r == StackFrame::spec_zeroed(),
    {
        StackFrame {
            instruction_pointer: 0,
            code_segment: 0,
            cpu_flags: 0,
            stack_pointer: 0,
            stack_segment: 0,
        }
    }
}

/// One slot of the thread table: the saved CPU state of a suspended thread
/// and the top of its stack region.
#[derive(Debug, Clone, Copy, PartialEq, Eq, Structural)]
pub struct Thread {
    pub stack_frame: StackFrame,
    pub cpu_regs: CpuRegs,
    /// Address one past the highest byte of the thread's stack.
    pub stack_end: usize,
}

impl Thread {
    pub open spec fn spec_zeroed() -> Thread {
        Thread {
            stack_frame: StackFrame::spec_zeroed(),
            cpu_regs: CpuRegs::spec_zeroed(),
            stack_end: 0,
        }
    }

    pub fn zeroed() -> (r: Thread)
        ensures
            r == Thread::spec_zeroed(),
    {
        Thread {
            stack_frame: StackFrame::zeroed(),
            cpu_regs: CpuRegs::zeroed(),
            stack_end: 0,
        }
    }
}

/// The mathematical image of the scheduler state: the thread table as a
/// sequence, the counters as unbounded integers, and the stack arena reduced
/// to its three numbers.
#[verifier::ext_equal]
pub struct SchedView {
    pub threads: Seq<Thread>,
    pub thread_count: int,
    pub current_thread: int,
    pub ticks: int,
    pub trampoline: u64,
    pub arena_base: int,
    pub arena_size: int,
    pub arena_index: int,
}

impl SchedView {
    /// The stack region of thread `j` lies entirely above the stack top of
    /// thread `i`, so the two regions cannot overlap.
    pub open spec fn stacks_apart(self, i: int, j: int) -> bool {
        self.threads[i].stack_end + STACK_BYTES <= self.threads[j].stack_end
    }

    /// The spawned stack region of thread `i` lies inside the used part of
    /// the arena.
    pub open spec fn stack_in_arena(self, i: int) -> bool {
        &&& self.arena_base + STACK_BYTES <= self.threads[i].stack_end
        &&& self.threads[i].stack_end <= self.arena_base + self.arena_index
    }

    /// The scheduler invariant. Beyond the bounds on `current_thread` and
    /// `thread_count`, it places every spawned stack inside the arena, in
    /// allocation order with no overlap, and keeps the boot thread's stack
    /// below the arena.
    pub open spec fn wf(self) -> bool {
        &&& self.threads.len() == MAX_THREADS
        &&& 1 <= self.thread_count <= MAX_THREADS
        &&& 0 <= self.current_thread < self.thread_count
        &&& 0 <= self.arena_index <= self.arena_size
        &&& self.arena_base >= 0
        &&& self.arena_base + self.arena_size <= usize::MAX
        &&& self.arena_base % (STACK_ALIGN as int) == 0
        &&& self.arena_index % (STACK_ALIGN as int) == 0
        &&& self.threads[0].stack_end <= self.arena_base
        &&& forall|i: int| 1 <= i < self.thread_count ==> #[trigger] self.stack_in_arena(i)
        &&& forall|i: int, j: int|
            1 <= i < j < self.thread_count ==> #[trigger] self.stacks_apart(i, j)
    }
}

/// The scheduler's whole state. On the machine this is a single mutable
/// value owned by the interrupt-disabled sections; here it is explicit, and
/// every operation on it is verified against its view.
pub struct State {
    /// The thread table; always `MAX_THREADS` slots, of which
    /// `[0, thread_count)` are live.
    pub threads: Vec<Thread>,
    /// Number of live threads; grows monotonically (threads never die).
    pub thread_count: usize,
    /// Index of the thread whose state is loaded on the CPU.
    pub current_thread: usize,
    /// Timer interrupts since boot.
    pub ticks: usize,
    /// Address of the entry trampoline installed as a child's first
    /// instruction pointer.
    pub trampoline: u64,
    /// The arena that spawned threads' stacks are carved from.
    pub stack_alloc: Allocator,
}

impl View for State {
    type V = SchedView;

    open spec fn view(&self) -> SchedView {
        SchedView {
            threads: self.threads@,
            thread_count: self.thread_count as int,
            current_thread: self.current_thread as int,
            ticks: self.ticks as int,
            trampoline: self.trampoline,
            arena_base: self.stack_alloc.base as int,
            arena_size: self.stack_alloc.size as int,
            arena_index: self.stack_alloc.index as int,
        }
    }
}

//
// Spec-level transitions
//

/// Round-robin: the thread scheduled after `current_thread`.
pub open spec fn spec_next_thread(v: SchedView) -> int {
    (v.current_thread + 1) % v.thread_count
}

/// Saving the interrupted thread's pushed register block into its table slot.
pub open spec fn spec_save_regs(v: SchedView, regs: CpuRegs) -> SchedView {
    SchedView {
        threads: v.threads.update(
            v.current_thread,
            Thread { cpu_regs: regs, ..v.threads[v.current_thread] },
        ),
        ..v
    }
}

/// The round-robin frame swap: pick the next thread; if it differs from the
/// current one, park the live frame in the outgoing slot and replace it with
/// the incoming thread's saved frame. Returns the new state and the frame
/// that now sits on the interrupt stack.
pub open spec fn spec_switch(v: SchedView, frame: StackFrame) -> (SchedView, StackFrame) {
    let cur = v.current_thread;
    let next = spec_next_thread(v);
    if next != cur {
        (
            SchedView {
                threads: v.threads.update(
                    cur,
                    Thread { stack_frame: frame, ..v.threads[cur] },
                ),
                current_thread: next,
                ..v
            },
            v.threads[next].stack_frame,
        )
    } else {
        (SchedView { current_thread: next, ..v }, frame)
    }
}

/// One timer tick: save the pushed registers, count the tick, rotate the
/// frame, and hand back the register block of the thread to resume.
pub open spec fn spec_tick(v: SchedView, regs: CpuRegs, frame: StackFrame) -> (
    SchedView,
    StackFrame,
    CpuRegs,
) {
    let saved = spec_save_regs(v, regs);
    let counted = SchedView { ticks: saved.ticks + 1, ..saved };
    let (switched, out_frame) = spec_switch(counted, frame);
    (switched, out_frame, switched.threads[switched.current_thread].cpu_regs)
}

/// A child's first flags word: the caller's flags with the arithmetic/status
/// bits cleared. The interrupt-enable bit is inherited, so a child spawned
/// from preemptible code is itself preemptible.
pub open spec fn spec_sanitize_flags(f: u64) -> u64 {
    f & !FLAGS_CLEAR_MASK
}

/// Whether a spawn can succeed: a table slot is free and the arena still has
/// room for one stack.
pub open spec fn spec_can_spawn(v: SchedView) -> bool {
    &&& v.thread_count < MAX_THREADS
    &&& v.arena_index + STACK_BYTES <= v.arena_size
}

/// The thread slot synthesized for a child: it starts at the trampoline with
/// the caller's segments, sanitized flags, a fresh stack, and all registers
/// zero except RDI, which carries the entry pointer for the trampoline.
pub open spec fn spec_child_thread(v: SchedView, entry: u64, frame: StackFrame) -> Thread {
    let stack_end = v.arena_base + v.arena_index + STACK_BYTES;
    Thread {
        stack_frame: StackFrame {
            instruction_pointer: v.trampoline,
            code_segment: frame.code_segment,
            cpu_flags: spec_sanitize_flags(frame.cpu_flags),
            stack_pointer: stack_end as u64,
            stack_segment: frame.stack_segment,
        },
        cpu_regs: CpuRegs { rdi: entry, ..CpuRegs::spec_zeroed() },
        stack_end: stack_end as usize,
    }
}

/// A successful spawn: install the child in the next slot, consume one stack
/// from the arena, grow the table, and return the child's id.
pub open spec fn spec_spawn(v: SchedView, entry: u64, frame: StackFrame) -> (SchedView, int) {
    let child = v.thread_count;
    (
        SchedView {
            threads: v.threads.update(child, spec_child_thread(v, entry, frame)),
            thread_count: child + 1,
            arena_index: v.arena_index + STACK_BYTES,
            ..v
        },
        child,
    )
}

/// The syscall dispatcher's effect: a spawn for the `LAUNCH_THREAD`
/// selector, nothing (and a zero result) for any other selector.
pub open spec fn spec_syscall(v: SchedView, id: u64, arg: u64, frame: StackFrame) -> (
    SchedView,
    int,
) {
    if id == LAUNCH_THREAD {
        spec_spawn(v, arg, frame)
    } else {
        (v, 0)
    }
}

/// One scheduler-visible occurrence: a timer tick, with the register block
/// and interrupt frame the hardware pushed, or a software interrupt with its
/// selector and argument. The frame swap and the spawn are total here: a
/// spawn that would overflow the table or the arena (which halts the real
/// machine) leaves the state unchanged.
pub enum Event {
    Tick { regs: CpuRegs, frame: StackFrame },
    Syscall { id: u64, arg: u64, frame: StackFrame },
}

/// The state after one event.
pub open spec fn spec_step(v: SchedView, e: Event) -> SchedView {
    match e {
        Event::Tick { regs, frame } => spec_tick(v, regs, frame).0,
        Event::Syscall { id, arg, frame } => if id == LAUNCH_THREAD && spec_can_spawn(v) {
            spec_spawn(v, arg, frame).0
        } else {
            v
        },
    }
}

/// The state after a whole sequence of events, oldest first.
pub open spec fn spec_run(v: SchedView, evs: Seq<Event>) -> SchedView
    decreases evs.len(),
{
    if evs.len() == 0 {
        v
    } else {
        spec_run(spec_step(v, evs[0]), evs.subrange(1, evs.len() as int))
    }
}

/// Whether an event is a spawn syscall.
pub open spec fn is_launch_event(e: Event) -> bool {
    e matches Event::Syscall { id, .. } && id == LAUNCH_THREAD
}

/// A timer tick keeps the invariant, counts exactly one tick, and touches
/// neither the table size nor any stack bound.
pub proof fn lemma_tick_preserves_wf(v: SchedView, regs: CpuRegs, frame: StackFrame)
    requires
        v.wf(),
    ensures
        spec_tick(v, regs, frame).0.wf(),
        spec_tick(v, regs, frame).0.ticks == v.ticks + 1,
        spec_tick(v, regs, frame).0.thread_count == v.thread_count,
{
    let v1 = spec_tick(v, regs, frame).0;
    vstd::arithmetic::div_mod::lemma_mod_bound(v.current_thread + 1, v.thread_count);
    assert forall|i: int| 1 <= i < v1.thread_count implies #[trigger] v1.stack_in_arena(i) by {
        assert(v.stack_in_arena(i));
    }
    assert forall|i: int, j: int|
        1 <= i < j < v1.thread_count implies #[trigger] v1.stacks_apart(i, j) by {
        assert(v.stacks_apart(i, j));
    }
}

/// A possible spawn keeps the invariant and grows the table by one; the new
/// stack is carved past every earlier one.
pub proof fn lemma_spawn_preserves_wf(v: SchedView, entry: u64, frame: StackFrame)
    requires
        v.wf(),
        spec_can_spawn(v),
    ensures
        spec_spawn(v, entry, frame).0.wf(),
        spec_spawn(v, entry, frame).0.thread_count == v.thread_count + 1,
        spec_spawn(v, entry, frame).0.ticks == v.ticks,
        spec_spawn(v, entry, frame).1 == v.thread_count,
{
    let v1 = spec_spawn(v, entry, frame).0;
    let child = v.thread_count;
    lemma_aligned_sum(v.arena_index, STACK_BYTES as int);
    assert(v1.stack_in_arena(child));
    assert forall|i: int| 1 <= i < v1.thread_count implies #[trigger] v1.stack_in_arena(i) by {
        if i < child {
            assert(v.stack_in_arena(i));
        }
    }
    assert forall|i: int, j: int|
        1 <= i < j < v1.thread_count implies #[trigger] v1.stacks_apart(i, j) by {
        if j < child {
            assert(v.stacks_apart(i, j));
        } else {
            assert(v.stack_in_arena(i));
        }
    }
}

/// Every single event keeps the invariant; the tick counter and the thread
/// count never decrease.
pub proof fn lemma_step_preserves_wf(v: SchedView, e: Event)
    requires
        v.wf(),
    ensures
        spec_step(v, e).wf(),
        spec_step(v, e).ticks >= v.ticks,
        spec_step(v, e).thread_count >= v.thread_count,
{
    match e {
        Event::Tick { regs, frame } => lemma_tick_preserves_wf(v, regs, frame),
        Event::Syscall { id, arg, frame } => {
            if id == LAUNCH_THREAD && spec_can_spawn(v) {
                lemma_spawn_preserves_wf(v, arg, frame);
            }
        },
    }
}

/// Across any sequence of syscalls and timer ticks, the scheduler stays
/// within its bounds: `0 <= current_thread < thread_count <= MAX_THREADS`
/// always holds, and two successive observations of the tick counter or the
/// thread count never go backwards.
pub proof fn lemma_run_preserves_wf(v: SchedView, evs: Seq<Event>)
    requires
        v.wf(),
    ensures
        spec_run(v, evs).wf(),
        0 <= spec_run(v, evs).current_thread < spec_run(v, evs).thread_count <= MAX_THREADS,
        spec_run(v, evs).ticks >= v.ticks,
        spec_run(v, evs).thread_count >= v.thread_count,
    decreases evs.len(),
{
    if evs.len() > 0 {
        lemma_step_preserves_wf(v, evs[0]);
        lemma_run_preserves_wf(spec_step(v, evs[0]), evs.subrange(1, evs.len() as int));
    }
}

/// A run of `n` spawn syscalls, none of which fails, grows the thread count
/// by exactly `n`: enough table slots and enough arena room guarantee that
/// every one of them succeeds.
pub proof fn lemma_spawn_sequence(v: SchedView, evs: Seq<Event>)
    requires
        v.wf(),
        forall|i: int| 0 <= i < evs.len() ==> is_launch_event(#[trigger] evs[i]),
        v.thread_count + evs.len() <= MAX_THREADS,
        v.arena_index + evs.len() * STACK_BYTES <= v.arena_size,
    ensures
        spec_run(v, evs).wf(),
        spec_run(v, evs).thread_count == v.thread_count + evs.len(),
    decreases evs.len(),
{
    if evs.len() > 0 {
        assert(is_launch_event(evs[0]));
        assert(evs.len() * STACK_BYTES >= 1 * STACK_BYTES) by (nonlinear_arith)
            requires evs.len() >= 1;
        assert(spec_can_spawn(v));
        let e = evs[0];
        match e {
            Event::Syscall { id, arg, frame } => {
                lemma_spawn_preserves_wf(v, arg, frame);
                let v1 = spec_step(v, e);
                let rest = evs.subrange(1, evs.len() as int);
                assert(v1.arena_index + rest.len() * STACK_BYTES <= v1.arena_size) by {
                    assert(evs.len() * STACK_BYTES == rest.len() * STACK_BYTES + STACK_BYTES)
                        by (nonlinear_arith)
                        requires rest.len() == evs.len() - 1, evs.len() >= 1;
                }
                lemma_spawn_sequence(v1, rest);
            },
            Event::Tick { .. } => {
                assert(false);
            },
        }
    }
}

/// Starting from the freshly booted table (one thread, untouched arena),
/// `n` spawns that fit leave exactly `1 + n` threads.
pub proof fn lemma_spawn_count_from_boot(v: SchedView, evs: Seq<Event>)
    requires
        v.wf(),
        v.thread_count == 1,
        v.arena_index == 0,
        forall|i: int| 0 <= i < evs.len() ==> is_launch_event(#[trigger] evs[i]),
        evs.len() <= MAX_THREADS - 1,
        evs.len() * STACK_BYTES <= v.arena_size,
    ensures
        spec_run(v, evs).thread_count == 1 + evs.len(),
{
    lemma_spawn_sequence(v, evs);
}

/// Distinct threads have disjoint stack regions. A stack occupies the
/// addresses below its `stack_end`: a spawned stack is the `STACK_BYTES`
/// below it, and the boot thread's stack lies wholly below the arena, so for
/// `i < j` the region of thread `j` starts at or above the top of thread
/// `i`'s.
pub proof fn lemma_stacks_disjoint(v: SchedView, i: int, j: int)
    requires
        v.wf(),
        0 <= i < j < v.thread_count,
    ensures
        v.threads[i].stack_end + STACK_BYTES <= v.threads[j].stack_end,
{
    assert(v.stack_in_arena(j));
    if i >= 1 {
        assert(v.stacks_apart(i, j));
    }
}

/// The context-switch round trip: with two threads, a timer tick switches
/// away from the current thread, and a second tick (with no events between,
/// so the other thread hands back exactly the block and frame it was given)
/// restores the first thread's registers and interrupt frame bit for bit.
pub proof fn lemma_round_trip(v: SchedView, regs: CpuRegs, frame: StackFrame)
    requires
        v.wf(),
        v.thread_count == 2,
    ensures
        ({
            let first = spec_tick(v, regs, frame);
            let second = spec_tick(first.0, first.2, first.1);
            &&& first.0.current_thread != v.current_thread
            &&& second.2 == regs
            &&& second.1 == frame
            &&& second.0.current_thread == v.current_thread
            &&& second.0.ticks == v.ticks + 2
        }),
{
    lemma_tick_preserves_wf(v, regs, frame);
    if v.current_thread == 0 {
        assert((0int + 1) % 2 == 1);
        assert((1int + 1) % 2 == 0);
    } else {
        assert((1int + 1) % 2 == 0);
        assert((0int + 1) % 2 == 1);
    }
}

/// What a spawned thread sees in its flags word at its first instruction:
/// the carry, parity, adjust, zero, sign, direction and overflow bits are
/// clear, and the interrupt-enable bit is exactly the parent's, so a child
/// of preemptible code stays preemptible.
pub proof fn lemma_flag_sanitization(f: u64)
    ensures
        spec_sanitize_flags(f) & 0x0001 == 0,
        spec_sanitize_flags(f) & 0x0004 == 0,
        spec_sanitize_flags(f) & 0x0010 == 0,
        spec_sanitize_flags(f) & 0x0040 == 0,
        spec_sanitize_flags(f) & 0x0080 == 0,
        spec_sanitize_flags(f) & 0x0400 == 0,
        spec_sanitize_flags(f) & 0x0800 == 0,
        spec_sanitize_flags(f) & FLAG_IF == f & FLAG_IF,
{
    assert((f & !0xcd5u64) & 0x0001u64 == 0 && (f & !0xcd5u64) & 0x0004u64 == 0 && (f
        & !0xcd5u64) & 0x0010u64 == 0 && (f & !0xcd5u64) & 0x0040u64 == 0 && (f & !0xcd5u64)
        & 0x0080u64 == 0 && (f & !0xcd5u64) & 0x0400u64 == 0 && (f & !0xcd5u64) & 0x0800u64 == 0
        && (f & !0xcd5u64) & 0x0200u64 == f & 0x0200u64) by (bit_vector);
}

/// A sum of two multiples of the stack alignment is itself one.
proof fn lemma_aligned_sum(a: int, b: int)
    requires
        a >= 0,
        b >= 0,
        a % (STACK_ALIGN as int) == 0,
        b % (STACK_ALIGN as int) == 0,
    ensures
        (a + b) % (STACK_ALIGN as int) == 0,
        spec_align_up(a + b, STACK_ALIGN as int) == a + b,
{
    assert((a + b) % (STACK_ALIGN as int) == 0) by (nonlinear_arith)
        requires
            a >= 0,
            b >= 0,
            a % (STACK_ALIGN as int) == 0,
            b % (STACK_ALIGN as int) == 0,
    ;
}

//
// Executable operations
//

impl State {
    /// A fresh, not yet initialized state. `trampoline` is the address a
    /// spawned thread starts at; the stack arena is `[arena_base,
    /// arena_base + arena_size)`.
    pub fn new(trampoline: u64, arena_base: usize, arena_size: usize) -> (s: State)
        requires
            arena_base + arena_size <= usize::MAX,
            arena_base % 8 == 0,
        ensures
            s@.threads.len() == MAX_THREADS,
            forall|i: int| 0 <= i < MAX_THREADS ==> s@.threads[i] == Thread::spec_zeroed(),
            s@.thread_count == 0,
            s@.current_thread == 0,
            s@.ticks == 0,
            s@.trampoline == trampoline,
            s@.arena_base == arena_base,
            s@.arena_size == arena_size,
            s@.arena_index == 0,
    {
        let mut threads: Vec<Thread> = Vec::new();
        while threads.len() < MAX_THREADS
            invariant
                threads@.len() <= MAX_THREADS,
                forall|i: int| 0 <= i < threads@.len() ==> threads@[i] == Thread::spec_zeroed(),
            decreases MAX_THREADS - threads@.len(),
        {
            threads.push(Thread::zeroed());
        }
        State {
            threads,
            thread_count: 0,
            current_thread: 0,
            ticks: 0,
            trampoline,
            stack_alloc: Allocator::new(arena_base, arena_size),
        }
    }

    /// Brings the boot thread to life: exactly one thread, the one now
    /// running. Must happen once, before interrupts are enabled.
    pub fn init(&mut self)
        requires
            old(self)@.threads.len() == MAX_THREADS,
            old(self)@.current_thread == 0,
            old(self)@.arena_index == 0,
            old(self)@.arena_base % 8 == 0,
            old(self)@.arena_base + old(self)@.arena_size <= usize::MAX,
            old(self)@.threads[0].stack_end <= old(self)@.arena_base,
        ensures
            final(self)@ == (SchedView { thread_count: 1, ..old(self)@ }),
            final(self)@.wf(),
    {
        self.thread_count = 1;
        proof {
            assert(final(self)@ =~= SchedView { thread_count: 1, ..old(self)@ });
        }
    }

    /// Records the boot thread's stack top, captured from the live stack
    /// pointer when the kernel's entry function starts. The boot stack grows
    /// down from below the arena, so it cannot collide with spawned stacks.
    pub fn start(&mut self, stack_pointer: usize)
        requires
            old(self)@.wf(),
            stack_pointer <= old(self)@.arena_base,
        ensures
            final(self)@.wf(),
            final(self)@ == (SchedView {
                threads: old(self)@.threads.update(
                    0,
                    Thread { stack_end: stack_pointer, ..old(self)@.threads[0] },
                ),
                ..old(self)@
            }),
    {
        let boot = Thread {
            stack_end: stack_pointer,
            ..self.threads[0]
        };
        self.threads.set(0, boot);
        proof {
            assert forall|i: int| 1 <= i < self@.thread_count implies #[trigger] self@
                .stack_in_arena(i) by {
                assert(old(self)@.stack_in_arena(i));
            }
            assert forall|i: int, j: int|
                1 <= i < j < self@.thread_count implies #[trigger] self@.stacks_apart(i, j) by {
                assert(old(self)@.stacks_apart(i, j));
            }
        }
    }

    /// Which thread is executing right now.
    pub fn thread_id(&self) -> (id: usize)
        ensures
            id == self@.current_thread,
    {
        self.current_thread
    }

    /// Timer ticks since boot; never decreases.
    pub fn ticks(&self) -> (t: usize)
        ensures
            t == self@.ticks,
    {
        self.ticks
    }

    /// Copies the register block the timer stub pushed into the table slot of
    /// the interrupted (still current) thread.
    pub fn save_regs_to_current(&mut self, regs: CpuRegs)
        requires
            old(self)@.wf(),
        ensures
            final(self)@ == spec_save_regs(old(self)@, regs),
            final(self)@.wf(),
    {
        let cur = self.current_thread;
        let slot = Thread { cpu_regs: regs, ..self.threads[cur] };
        self.threads.set(cur, slot);
        proof {
            assert(self@ =~= spec_save_regs(old(self)@, regs));
            assert forall|i: int| 1 <= i < self@.thread_count implies #[trigger] self@
                .stack_in_arena(i) by {
                assert(old(self)@.stack_in_arena(i));
            }
            assert forall|i: int, j: int|
                1 <= i < j < self@.thread_count implies #[trigger] self@.stacks_apart(i, j) by {
                assert(old(self)@.stacks_apart(i, j));
            }
        }
    }

    /// The register block of the thread to resume.
    pub fn get_current_regs(&self) -> (r: CpuRegs)
        requires
            self@.wf(),
        ensures
            r == self@.threads[self@.current_thread].cpu_regs,
    {
        self.threads[self.current_thread].cpu_regs
    }

    /// Round-robin selection over the live slots. If the next thread differs
    /// from the current one, the interrupt frame on the kernel stack is
    /// written back into the outgoing slot and overwritten in place with the
    /// incoming thread's frame. Runs with interrupts masked on the machine,
    /// so the whole update is atomic with respect to the scheduler.
    pub fn switch_stack_frame(&mut self, stack_frame: &mut StackFrame)
        requires
            old(self)@.wf(),
        ensures
            (final(self)@, *final(stack_frame)) == spec_switch(old(self)@, *old(stack_frame)),
            final(self)@.wf(),
    {
        let cur = self.current_thread;
        let next = (cur + 1) % self.thread_count;
        assert(next < self@.thread_count) by {
            vstd::arithmetic::div_mod::lemma_mod_bound(cur as int + 1, self@.thread_count);
        }
        if cur != next {
            let outgoing = Thread { stack_frame: *stack_frame, ..self.threads[cur] };
            self.threads.set(cur, outgoing);
            *stack_frame = self.threads[next].stack_frame;
        }
        self.current_thread = next;
        proof {
            assert(self@ =~= spec_switch(old(self)@, *old(stack_frame)).0);
            assert forall|i: int| 1 <= i < self@.thread_count implies #[trigger] self@
                .stack_in_arena(i) by {
                assert(old(self)@.stack_in_arena(i));
            }
            assert forall|i: int, j: int|
                1 <= i < j < self@.thread_count implies #[trigger] self@.stacks_apart(i, j) by {
                assert(old(self)@.stacks_apart(i, j));
            }
        }
    }

    /// Everything the timer stub does between the push and the `iretq`: save
    /// the pushed register block, count the tick, rotate the frame in place,
    /// and return the register block that the resume path must load. The
    /// end-of-interrupt signal to the controller is I/O and happens outside.
    pub fn timer_interrupt_handler(
        &mut self,
        regs: CpuRegs,
        stack_frame: &mut StackFrame,
    ) -> (load: CpuRegs)
        requires
            old(self)@.wf(),
            old(self)@.ticks < usize::MAX,
        ensures
            (final(self)@, *final(stack_frame), load) == spec_tick(
                old(self)@,
                regs,
                *old(stack_frame),
            ),
            final(self)@.wf(),
    {
        self.save_regs_to_current(regs);
        let ghost saved = self@;
        self.ticks = self.ticks + 1;
        proof {
            assert(self@ =~= SchedView { ticks: saved.ticks + 1, ..saved });
            assert forall|i: int| 1 <= i < self@.thread_count implies #[trigger] self@
                .stack_in_arena(i) by {
                assert(saved.stack_in_arena(i));
            }
            assert forall|i: int, j: int|
                1 <= i < j < self@.thread_count implies #[trigger] self@.stacks_apart(i, j) by {
                assert(saved.stacks_apart(i, j));
            }
        }
        self.switch_stack_frame(stack_frame);
        let load = self.get_current_regs();
        load
    }

    /// The scheduler's half of the spawn syscall. The caller (the syscall
    /// stub) guarantees a free slot and arena room; the child's id is
    /// returned and its slot is fully synthesized. Any other selector leaves
    /// the state untouched and returns zero.
    pub fn syscall_impl(&mut self, id: u64, arg2: u64, stack_frame: &StackFrame) -> (r: usize)
        requires
            old(self)@.wf(),
            id == LAUNCH_THREAD ==> spec_can_spawn(old(self)@),
        ensures
            final(self)@.wf(),
            (final(self)@, r as int) == spec_syscall(old(self)@, id, arg2, *stack_frame),
    {
        if id != LAUNCH_THREAD {
            return 0;
        }
        proof {
            lemma_aligned_sum(self@.arena_base, self@.arena_index);
        }
        let addr_opt = self.stack_alloc.allocate(STACK_BYTES, STACK_ALIGN);
        let addr = match addr_opt {
            Some(a) => a,
            None => {
                // Unreachable: the caller established arena room.
                proof {
                    assert(old(self)@.arena_index + STACK_BYTES <= old(self)@.arena_size);
                    assert(false);
                }
                0
            },
        };
        let stack_end = addr + STACK_BYTES;
        let child = self.thread_count;
        let child_thread = Thread {
            stack_frame: StackFrame {
                instruction_pointer: self.trampoline,
                code_segment: stack_frame.code_segment,
                cpu_flags: stack_frame.cpu_flags & !FLAGS_CLEAR_MASK,
                stack_pointer: stack_end as u64,
                stack_segment: stack_frame.stack_segment,
            },
            cpu_regs: CpuRegs { rdi: arg2, ..CpuRegs::zeroed() },
            stack_end,
        };
        self.threads.set(child, child_thread);
        self.thread_count = child + 1;
        proof {
            assert(self@ =~= spec_spawn(old(self)@, arg2, *stack_frame).0);
            assert(self@.stack_in_arena(child as int));
            assert forall|i: int| 1 <= i < self@.thread_count implies #[trigger] self@
                .stack_in_arena(i) by {
                if i < child {
                    assert(old(self)@.stack_in_arena(i));
                }
            }
            assert forall|i: int, j: int|
                1 <= i < j < self@.thread_count implies #[trigger] self@.stacks_apart(i, j) by {
                if j < child {
                    assert(old(self)@.stacks_apart(i, j));
                } else {
                    assert(old(self)@.stack_in_arena(i));
                }
            }
        }
        child
    }

    /// Spawns a thread running `entry`: the whole `int 0x80` round trip with
    /// the `LAUNCH_THREAD` selector, on a machine where the syscall gate
    /// runs with interrupts masked. `stack_frame` is the caller's interrupt
    /// frame, from which the child inherits its segments and (sanitized)
    /// flags. Returns the child's id, which is never 0: the boot thread
    /// occupies slot 0 before any spawn.
    pub fn launch(&mut self, entry: u64, stack_frame: &StackFrame) -> (id: usize)
        requires
            old(self)@.wf(),
            spec_can_spawn(old(self)@),
        ensures
            final(self)@.wf(),
            (final(self)@, id as int) == spec_spawn(old(self)@, entry, *stack_frame),
            id == old(self)@.thread_count,
            1 <= id < MAX_THREADS,
    {
        self.syscall_impl(LAUNCH_THREAD, entry, stack_frame)
    }

    /// A spawn that reports exhaustion instead of requiring room: `None`
    /// exactly when the table is full or the arena has no stack left, with
    /// the state untouched.
    pub fn try_launch(&mut self, entry: u64, stack_frame: &StackFrame) -> (r: Option<usize>)
        requires
            old(self)@.wf(),
        ensures
            final(self)@.wf(),
            r is Some <==> spec_can_spawn(old(self)@),
            match r {
                Some(id) => (final(self)@, id as int) == spec_spawn(
                    old(self)@,
                    entry,
                    *stack_frame,
                ),
                None => final(self)@ == old(self)@,
            },
    {
        proof {
            lemma_aligned_sum(self@.arena_base, self@.arena_index);
        }
        if self.thread_count < MAX_THREADS
            && self.stack_alloc.can_allocate(STACK_BYTES, STACK_ALIGN) {
            Some(self.launch(entry, stack_frame))
        } else {
            None
        }
    }

    /// What the diverging resume path loads before `iretq`: the current
    /// thread's saved register block, against the interrupt frame the caller
    /// points at.
    pub fn back_to_thread(&self, stack_frame: &StackFrame) -> (r: (CpuRegs, StackFrame))
        requires
            self@.wf(),
        ensures
            r.0 == self@.threads[self@.current_thread].cpu_regs,
            r.1 == *stack_frame,
    {
        (self.get_current_regs(), *stack_frame)
    }

    /// Everything the syscall stub does around the dispatcher: the selector
    /// arrives in RAX and the argument in RDI of the caller's pushed
    /// registers, and the dispatcher's result replaces RAX in the block the
    /// stub restores before `iretq`. All other registers are preserved. No
    /// end-of-interrupt is sent: a software interrupt is not routed through
    /// the controller.
    pub fn system_interrupt_handler(
        &mut self,
        regs: CpuRegs,
        stack_frame: &StackFrame,
    ) -> (out: CpuRegs)
        requires
            old(self)@.wf(),
            regs.rax == LAUNCH_THREAD ==> spec_can_spawn(old(self)@),
        ensures
            final(self)@.wf(),
            final(self)@ == spec_syscall(old(self)@, regs.rax, regs.rdi, *stack_frame).0,
            out == (CpuRegs {
                rax: spec_syscall(old(self)@, regs.rax, regs.rdi, *stack_frame).1 as u64,
                ..regs
            }),
    {
        let r = self.syscall_impl(regs.rax, regs.rdi, stack_frame);
        CpuRegs { rax: r as u64, ..regs }
    }
}

} // verus!
