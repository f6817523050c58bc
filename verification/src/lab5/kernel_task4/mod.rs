//! Four harts share one spin-locked record while timer interrupts and
//! inter-processor interrupts arrive on dedicated interrupt stacks. The
//! per-hart counters the atomics hold are kept here as plain state, updated
//! at the points where a hart performs its atomic operation.
pub mod spinlock;

use vstd::prelude::*;
use self::spinlock::{SpinLock, SpinLockGuard};

verus! {

pub const EXPECTED_HARTS: usize = 4;
pub const NO_HART: usize = usize::MAX;
pub const INTERRUPT_STACK_PER_HART: usize = 8 * 1024;
pub const CLINT_BASE: usize = 0x0200_0000;
pub const CLINT_MTIMECMP_OFFSET: usize = 0x4000;
pub const MTIME_FREQ_HZ: u64 = 10_000_000;
pub const MTIME_TICK_NS: u64 = 100;
pub const TIMER_INTERVAL_TICKS: u64 = 2_500;
pub const TARGET_TIMER_IRQS: u64 = 10;
pub const TARGET_IPI_RECEIVED: u64 = 4;
pub const TARGET_WORK_UNITS: u64 = 12;
pub const IPI_SEND_PERIOD: u64 = 2;
pub const IPI_SEND_LIMIT: u64 = 6;
pub const CRITICAL_HOLD_TICKS: u64 = 4_500;
pub const NORMAL_WORK_ITERS: u64 = 8_000;

/// Registers saved by the machine-mode trap entry, floating point included.
#[derive(Clone, Copy)]
pub struct TrapFrame {
    pub ra: usize,
    pub gp: usize,
    pub tp: usize,
    pub t0: usize,
    pub t1: usize,
    pub t2: usize,
    pub s0: usize,
    pub s1: usize,
    pub a0: usize,
    pub a1: usize,
    pub a2: usize,
    pub a3: usize,
    pub a4: usize,
    pub a5: usize,
    pub a6: usize,
    pub a7: usize,
    pub s2: usize,
    pub s3: usize,
    pub s4: usize,
    pub s5: usize,
    pub s6: usize,
    pub s7: usize,
    pub s8: usize,
    pub s9: usize,
    pub s10: usize,
    pub s11: usize,
    pub t3: usize,
    pub t4: usize,
    pub t5: usize,
    pub t6: usize,
    pub saved_sp: usize,
    pub mepc: usize,
    pub f: [u64; 32],
    pub fcsr: usize,
    pub reserved: usize,
}

/// The record the harts update under the lock.
#[derive(Clone, Copy)]
pub struct SharedKernelState {
    pub critical_sections: u64,
    pub shared_checksum: u64,
    pub last_owner: u64,
}

impl SharedKernelState {
    pub fn empty() -> (r: Self)
        ensures
            r.critical_sections == 0 && r.shared_checksum == 0 && r.last_owner == 0,
    {
        SharedKernelState { critical_sections: 0, shared_checksum: 0, last_owner: 0 }
    }
}

/// `x` rotated left by `k` bits.
pub open spec fn spec_rotl(x: u64, k: u64) -> u64 {
    if k % 64 == 0 { x } else { ((x << (k % 64)) | (x >> (64 - k % 64))) as u64 }
}

/// `u64::rotate_left`.
pub fn rotate_left(x: u64, k: u32) -> (r: u64)
    ensures
        r == spec_rotl(x, k as u64),
{
    let s = (k % 64) as u64;
    if s == 0 {
        x
    } else {
        (x << s) | (x >> (64 - s))
    }
}

/// One round of the busy loop's mixing function.
pub open spec fn mix_step(acc: u64, index: u64) -> u64 {
    spec_rotl(acc, 5).wrapping_add(index ^ 0x9e37_79b9_7f4a_7c15).wrapping_mul(0x5851_f42d_4c95_7f2d)
}

/// `acc` after `n` rounds of mixing.
pub open spec fn mixed(acc: u64, n: nat) -> u64
    decreases n,
{
    if n == 0 { acc } else { mix_step(mixed(acc, (n - 1) as nat), (n - 1) as u64) }
}

/// Burns time deterministically: `iterations` rounds of mixing.
pub fn busy_mix(acc: u64, iterations: u64) -> (r: u64)
    ensures
        r == mixed(acc, iterations as nat),
{
    let mut acc = acc;
    let mut index: u64 = 0;
    let ghost start = acc;
    while index < iterations
        invariant
            index <= iterations,
            acc == mixed(start, index as nat),
        decreases iterations - index,
    {
        acc = rotate_left(acc, 5).wrapping_add(index ^ 0x9e37_79b9_7f4a_7c15).wrapping_mul(0x5851_f42d_4c95_7f2d);
        index += 1;
    }
    acc
}

/// The CLINT `msip` register of `hart_id`.
pub fn msip_addr(hart_id: usize) -> (r: usize)
    requires
        hart_id < EXPECTED_HARTS,
    ensures
        r == CLINT_BASE + hart_id * 4,
{
    CLINT_BASE + hart_id * 4
}

/// The CLINT `mtimecmp` register of `hart_id`.
pub fn mtimecmp_addr(hart_id: usize) -> (r: usize)
    requires
        hart_id < EXPECTED_HARTS,
    ensures
        r == CLINT_BASE + CLINT_MTIMECMP_OFFSET + hart_id * 8,
{
    CLINT_BASE + CLINT_MTIMECMP_OFFSET + hart_id * 8
}

/// The deadline the next timer interrupt is armed for.
pub fn next_timer_deadline(now: u64) -> (r: u64)
    ensures
        r == now.wrapping_add(TIMER_INTERVAL_TICKS),
{
    now.wrapping_add(TIMER_INTERVAL_TICKS)
}

/// Top of `hart_id`'s interrupt stack, below `stacks_top` (wrapping).
pub fn interrupt_stack_top(stacks_top: usize, hart_id: usize) -> (r: usize)
    requires
        hart_id < EXPECTED_HARTS,
    ensures
        r == stacks_top.wrapping_sub((hart_id * INTERRUPT_STACK_PER_HART) as usize),
{
    assert(hart_id * INTERRUPT_STACK_PER_HART <= 3 * 8192) by (nonlinear_arith)
        requires hart_id < 4, INTERRUPT_STACK_PER_HART == 8192;
    stacks_top.wrapping_sub(hart_id * INTERRUPT_STACK_PER_HART)
}

/// Bottom of `hart_id`'s interrupt stack.
pub fn interrupt_stack_bottom(stacks_top: usize, hart_id: usize) -> (r: usize)
    requires
        hart_id < EXPECTED_HARTS,
    ensures
        r == stacks_top.wrapping_sub((hart_id * INTERRUPT_STACK_PER_HART) as usize).wrapping_sub(INTERRUPT_STACK_PER_HART),
{
    interrupt_stack_top(stacks_top, hart_id).wrapping_sub(INTERRUPT_STACK_PER_HART)
}

/// Microseconds covered by `ticks` (saturating).
pub fn ticks_to_us(ticks: u64) -> (r: u64)
    ensures
        r == crate::common::time::sat_mul(ticks as int, MTIME_TICK_NS as int) / 1_000,
{
    crate::common::time::saturating_mul(ticks, MTIME_TICK_NS) / 1_000
}

/// `PASS` or `FAIL`.
pub fn pass_fail(condition: bool) -> (r: &'static str)
    ensures
        condition ==> r@ == "PASS"@,
        !condition ==> r@ == "FAIL"@,
{
    if condition { "PASS" } else { "FAIL" }
}

/// 1 or 0.
pub fn bool_to_u64(value: bool) -> (r: u64)
    ensures
        r == (if value { 1u64 } else { 0u64 }),
{
    if value { 1 } else { 0 }
}

/// Interrupt and work counters of one hart.
#[derive(Clone, Copy)]
pub struct HartCounters {
    pub init_done: bool,
    pub work_units_done: u64,
    pub timer_irqs: u64,
    pub ipi_irqs: u64,
    pub ipi_sent: u64,
    pub interrupts_while_lock_held: u64,
    pub last_mepc: u64,
    pub in_critical: bool,
    pub min_interrupt_sp: usize,
    pub last_interrupt_sp: usize,
}

impl HartCounters {
    /// As `initialize_global_state` leaves them.
    pub fn initial() -> (r: Self)
        ensures
            !r.init_done && r.work_units_done == 0 && r.timer_irqs == 0 && r.ipi_irqs == 0 && r.ipi_sent == 0,
            r.interrupts_while_lock_held == 0 && r.last_mepc == 0 && !r.in_critical,
            r.min_interrupt_sp == usize::MAX && r.last_interrupt_sp == 0,
    {
        HartCounters { init_done: false, work_units_done: 0, timer_irqs: 0, ipi_irqs: 0, ipi_sent: 0,
            interrupts_while_lock_held: 0, last_mepc: 0, in_critical: false, min_interrupt_sp: usize::MAX,
            last_interrupt_sp: 0 }
    }
}

/// The machine-wide state: barrier counters, the shared record behind its
/// lock, the lock-holder witness and every hart's counters.
pub struct SmpState {
    pub ready_harts: usize,
    pub booted_mask: usize,
    pub start_work: bool,
    pub finished_harts: usize,
    pub shutdown: bool,
    pub active_lock_holder: usize,
    pub lock_state_violations: u64,
    pub shared: SpinLock<SharedKernelState>,
    pub harts: [HartCounters; EXPECTED_HARTS],
}

/// The outcome of a timer interrupt.
#[derive(Clone, Copy)]
pub struct TimerOutcome {
    /// The next `mtimecmp` deadline.
    pub next_deadline: u64,
    /// The hart that should get an IPI, if one is due.
    pub ipi_target: Option<usize>,
}

/// The acceptance checks printed at shutdown.
#[derive(Clone, Copy)]
pub struct SmpSummary {
    pub interrupts_stable: bool,
    pub stack_and_lock_safe: bool,
}

impl SmpState {
    /// As `initialize_global_state` leaves it.
    pub fn new() -> (r: Self)
        ensures
            r.ready_harts == 0 && r.booted_mask == 0 && !r.start_work && r.finished_harts == 0 && !r.shutdown,
            r.active_lock_holder == NO_HART && r.lock_state_violations == 0,
            !r.shared.locked && r.shared.value.critical_sections == 0,
            forall|h: int| 0 <= h < EXPECTED_HARTS ==> #[trigger] r.harts[h].timer_irqs == 0 && r.harts[h].ipi_irqs == 0
                && !r.harts[h].in_critical && r.harts[h].work_units_done == 0,
    {
        SmpState {
            ready_harts: 0,
            booted_mask: 0,
            start_work: false,
            finished_harts: 0,
            shutdown: false,
            active_lock_holder: NO_HART,
            lock_state_violations: 0,
            shared: SpinLock::new(SharedKernelState::empty()),
            harts: [HartCounters::initial(); EXPECTED_HARTS],
        }
    }

    /// A hart finished its setup: flags it, sets its bit in the booted mask
    /// and returns the number of harts ready so far.
    pub fn mark_hart_initialized(&mut self, hart_id: usize) -> (r: usize)
        requires
            hart_id < EXPECTED_HARTS,
            old(self).ready_harts < usize::MAX,
        ensures
            r == old(self).ready_harts + 1,
            final(self).ready_harts == r,
            final(self).booted_mask == old(self).booted_mask | (1usize << hart_id),
            final(self).harts[hart_id as int].init_done,
    {
        let mut h = self.harts[hart_id];
        h.init_done = true;
        self.harts[hart_id] = h;
        self.booted_mask = self.booted_mask | (1usize << hart_id);
        self.ready_harts = self.ready_harts + 1;
        self.ready_harts
    }

    /// The hart has done its share: enough work units, timer interrupts and IPIs.
    pub fn local_done(&self, hart_id: usize, work_units: u64) -> (r: bool)
        requires
            hart_id < EXPECTED_HARTS,
        ensures
            r == (work_units >= TARGET_WORK_UNITS && self.harts[hart_id as int].timer_irqs >= TARGET_TIMER_IRQS
                && self.harts[hart_id as int].ipi_irqs >= TARGET_IPI_RECEIVED),
    {
        work_units >= TARGET_WORK_UNITS && self.harts[hart_id].timer_irqs >= TARGET_TIMER_IRQS
            && self.harts[hart_id].ipi_irqs >= TARGET_IPI_RECEIVED
    }

    /// A timer interrupt on `hart_id` at `now`: re-arms the timer, counts the
    /// interrupt, and every second one sends an IPI to the next hart until
    /// six have been sent.
    pub fn handle_timer_interrupt(&mut self, hart_id: usize, now: u64) -> (r: TimerOutcome)
        requires
            hart_id < EXPECTED_HARTS,
            old(self).harts[hart_id as int].timer_irqs < u64::MAX,
        ensures
            ({
                let old_h = old(self).harts[hart_id as int];
                let count = old_h.timer_irqs + 1;
                let send = count % 2 == 0 && old_h.ipi_sent < IPI_SEND_LIMIT;
                &&& r.next_deadline == now.wrapping_add(TIMER_INTERVAL_TICKS)
                &&& final(self).harts[hart_id as int].timer_irqs == count
                &&& (send ==> r.ipi_target == Some(((hart_id + 1) % (EXPECTED_HARTS as int)) as usize)
                        && final(self).harts[hart_id as int].ipi_sent == old_h.ipi_sent + 1)
                &&& (!send ==> r.ipi_target is None && final(self).harts[hart_id as int].ipi_sent == old_h.ipi_sent)
            }),
            forall|h: int| 0 <= h < EXPECTED_HARTS && h != hart_id ==> #[trigger] final(self).harts[h] == old(self).harts[h],
    {
        let next_deadline = next_timer_deadline(now);
        let mut h = self.harts[hart_id];
        h.timer_irqs = h.timer_irqs + 1;
        let count = h.timer_irqs;
        let mut ipi_target = None;
        if count % IPI_SEND_PERIOD == 0 {
            if h.ipi_sent < IPI_SEND_LIMIT {
                ipi_target = Some((hart_id + 1) % EXPECTED_HARTS);
                h.ipi_sent = h.ipi_sent + 1;
            }
        }
        self.harts[hart_id] = h;
        TimerOutcome { next_deadline, ipi_target }
    }

    /// An IPI reached `hart_id` (its `msip` is cleared by the caller).
    pub fn handle_machine_software_interrupt(&mut self, hart_id: usize)
        requires
            hart_id < EXPECTED_HARTS,
            old(self).harts[hart_id as int].ipi_irqs < u64::MAX,
        ensures
            final(self).harts[hart_id as int].ipi_irqs == old(self).harts[hart_id as int].ipi_irqs + 1,
            forall|h: int| 0 <= h < EXPECTED_HARTS && h != hart_id ==> #[trigger] final(self).harts[h] == old(self).harts[h],
    {
        let mut h = self.harts[hart_id];
        h.ipi_irqs = h.ipi_irqs + 1;
        self.harts[hart_id] = h;
    }

    /// Notes the stack pointer an interrupt on `hart_id` ran with, keeping
    /// the lowest one seen.
    pub fn record_interrupt_stack(&mut self, hart_id: usize, frame_sp: usize)
        requires
            hart_id < EXPECTED_HARTS,
        ensures
            final(self).harts[hart_id as int].last_interrupt_sp == frame_sp,
            final(self).harts[hart_id as int].min_interrupt_sp == (if frame_sp < old(self).harts[hart_id as int].min_interrupt_sp { frame_sp } else { old(self).harts[hart_id as int].min_interrupt_sp }),
            forall|h: int| 0 <= h < EXPECTED_HARTS && h != hart_id ==> #[trigger] final(self).harts[h] == old(self).harts[h],
    {
        let mut h = self.harts[hart_id];
        h.last_interrupt_sp = frame_sp;
        h.min_interrupt_sp = update_min_sp(h.min_interrupt_sp, frame_sp);
        self.harts[hart_id] = h;
    }

    /// Runs one critical section of `hart_id` under the shared lock (taken
    /// after `spins` failed attempts): the holder witness is swapped in and
    /// out around the update, and any unexpected holder counts as a violation.
    pub fn with_shared_state_lock(&mut self, hart_id: usize, spins: u64, local: u64, now: u64) -> (r: u64)
        requires
            hart_id < EXPECTED_HARTS,
            !old(self).shared.locked,
            old(self).lock_state_violations < u64::MAX - 1,
            old(self).shared.value.critical_sections < u64::MAX,
        ensures
            !final(self).shared.locked,
            final(self).shared.acquisitions == old(self).shared.acquisitions.wrapping_add(1),
            final(self).active_lock_holder == NO_HART,
            old(self).active_lock_holder == NO_HART ==> final(self).lock_state_violations == old(self).lock_state_violations,
            final(self).shared.value.critical_sections == old(self).shared.value.critical_sections + 1,
            final(self).shared.value.last_owner == hart_id,
            !final(self).harts[hart_id as int].in_critical,
            r == critical_mix(old(self).shared.value, hart_id, local),
            final(self).shared.value.shared_checksum == old(self).shared.value.shared_checksum
                ^ spec_rotl(critical_mix(old(self).shared.value, hart_id, local), (hart_id + 1) as u64),
    {
        let guard = self.shared.lock(spins);
        let previous_holder = self.active_lock_holder;
        self.active_lock_holder = hart_id;
        if previous_holder != NO_HART {
            self.lock_state_violations = self.lock_state_violations + 1;
        }
        let mut h = self.harts[hart_id];
        h.in_critical = true;
        self.harts[hart_id] = h;

        let mut state = self.shared.value;
        state.critical_sections = state.critical_sections + 1;
        state.last_owner = hart_id as u64;
        let mixed_local = busy_mix(local ^ state.shared_checksum ^ state.critical_sections, 512);
        state.shared_checksum = state.shared_checksum ^ rotate_left(mixed_local, (hart_id as u32) + 1);
        self.shared.value = state;

        let mut h = self.harts[hart_id];
        h.in_critical = false;
        self.harts[hart_id] = h;
        let observed_holder = self.active_lock_holder;
        self.active_lock_holder = NO_HART;
        if observed_holder != hart_id {
            self.lock_state_violations = self.lock_state_violations + 1;
        }
        self.shared.unlock(guard);
        mixed_local
    }

    /// The checks of `print_summary_and_exit`; `stacks_top` is the top of
    /// the interrupt stacks.
    pub fn summary(&self, stacks_top: usize) -> (r: SmpSummary)
        ensures
            r.interrupts_stable == (self.ready_harts == EXPECTED_HARTS && self.finished_harts == EXPECTED_HARTS
                && forall|h: int| 0 <= h < EXPECTED_HARTS ==> delivered(#[trigger] self.harts[h])),
            r.stack_and_lock_safe == (self.lock_state_violations == 0
                && (forall|h: int| 0 <= h < EXPECTED_HARTS ==> !(#[trigger] self.harts[h]).in_critical)
                && (exists|h: int| 0 <= h < EXPECTED_HARTS && #[trigger] self.harts[h].interrupts_while_lock_held > 0)
                && forall|h: int| 0 <= h < EXPECTED_HARTS ==> stack_ok(stacks_top, h as usize, #[trigger] self.harts[h].min_interrupt_sp)),
    {
        let mut interrupt_stack_safe = true;
        let mut delivered_on_all_harts = true;
        let mut lock_boundary_safe = self.lock_state_violations == 0;
        let mut lock_edge_observed = false;
        let mut hart_id: usize = 0;
        while hart_id < EXPECTED_HARTS
            invariant
                hart_id <= EXPECTED_HARTS,
                delivered_on_all_harts == forall|h: int| 0 <= h < hart_id ==> delivered(#[trigger] self.harts[h]),
                lock_edge_observed == exists|h: int| 0 <= h < hart_id && #[trigger] self.harts[h].interrupts_while_lock_held > 0,
                interrupt_stack_safe == forall|h: int| 0 <= h < hart_id ==> stack_ok(stacks_top, h as usize, #[trigger] self.harts[h].min_interrupt_sp),
                lock_boundary_safe == (self.lock_state_violations == 0 && forall|h: int| 0 <= h < hart_id ==> !(#[trigger] self.harts[h]).in_critical),
            decreases EXPECTED_HARTS - hart_id,
        {
            let h = self.harts[hart_id];
            let bottom = interrupt_stack_bottom(stacks_top, hart_id);
            let top = interrupt_stack_top(stacks_top, hart_id);
            let ghost old_delivered = delivered_on_all_harts;
            let ghost old_edge = lock_edge_observed;
            let ghost old_stack = interrupt_stack_safe;
            let ghost old_boundary = lock_boundary_safe;
            delivered_on_all_harts = delivered_on_all_harts && h.timer_irqs >= TARGET_TIMER_IRQS && h.ipi_irqs >= TARGET_IPI_RECEIVED;
            lock_edge_observed = lock_edge_observed || h.interrupts_while_lock_held > 0;
            interrupt_stack_safe = interrupt_stack_safe && h.min_interrupt_sp >= bottom && h.min_interrupt_sp < top;
            lock_boundary_safe = lock_boundary_safe && !h.in_critical;
            proof {
                let n = hart_id as int;
                assert(stack_ok(stacks_top, hart_id, h.min_interrupt_sp) == (h.min_interrupt_sp >= bottom && h.min_interrupt_sp < top));
                if delivered_on_all_harts {
                    assert forall|k: int| 0 <= k < n + 1 implies delivered(#[trigger] self.harts[k]) by {
                        if k < n { assert(old_delivered); }
                    }
                } else {
                    if old_delivered {
                        assert(!delivered(self.harts[n]));
                    } else {
                        let w = choose|k: int| 0 <= k < n && !delivered(#[trigger] self.harts[k]);
                        assert(0 <= w < n + 1);
                    }
                }
                if lock_edge_observed {
                    if !old_edge {
                        assert(self.harts[n].interrupts_while_lock_held > 0);
                    }
                }
                if interrupt_stack_safe {
                    assert forall|k: int| 0 <= k < n + 1 implies stack_ok(stacks_top, k as usize, #[trigger] self.harts[k].min_interrupt_sp) by {
                        if k < n { assert(old_stack); }
                    }
                } else {
                    if old_stack {
                        assert(!stack_ok(stacks_top, n as usize, self.harts[n].min_interrupt_sp));
                    } else {
                        let w = choose|k: int| 0 <= k < n && !stack_ok(stacks_top, k as usize, #[trigger] self.harts[k].min_interrupt_sp);
                        assert(0 <= w < n + 1);
                    }
                }
                if lock_boundary_safe {
                    assert forall|k: int| 0 <= k < n + 1 implies !(#[trigger] self.harts[k]).in_critical by {
                        if k < n { assert(old_boundary); }
                    }
                } else {
                    if old_boundary {
                        assert(self.harts[n].in_critical);
                    } else if self.lock_state_violations == 0 {
                        let w = choose|k: int| 0 <= k < n && (#[trigger] self.harts[k]).in_critical;
                        assert(0 <= w < n + 1);
                    }
                }
            }
            hart_id += 1;
        }
        let interrupts_stable = self.ready_harts == EXPECTED_HARTS && self.finished_harts == EXPECTED_HARTS && delivered_on_all_harts;
        let stack_and_lock_safe = interrupt_stack_safe && lock_boundary_safe && lock_edge_observed;
        SmpSummary { interrupts_stable, stack_and_lock_safe }
    }
}

/// The hart saw its share of timer interrupts and IPIs.
pub open spec fn delivered(h: HartCounters) -> bool {
    h.timer_irqs >= TARGET_TIMER_IRQS && h.ipi_irqs >= TARGET_IPI_RECEIVED
}

/// The lowest of the recorded and the new stack pointer.
pub fn update_min_sp(current: usize, candidate: usize) -> (r: usize)
    ensures
        r == (if candidate < current { candidate } else { current }),
{
    if candidate < current { candidate } else { current }
}

/// The mixed value a critical section of `hart_id` computes from `local`.
pub open spec fn critical_mix(s: SharedKernelState, hart_id: usize, local: u64) -> u64 {
    mixed(local ^ s.shared_checksum ^ ((s.critical_sections + 1) as u64), 512)
}

/// The minimum interrupt stack pointer of `hart` lies in its interrupt stack.
pub open spec fn stack_ok(stacks_top: usize, hart: usize, min_sp: usize) -> bool {
    let top = stacks_top.wrapping_sub((hart * INTERRUPT_STACK_PER_HART) as usize);
    let bottom = top.wrapping_sub(INTERRUPT_STACK_PER_HART);
    min_sp >= bottom && min_sp < top
}

} // verus!
