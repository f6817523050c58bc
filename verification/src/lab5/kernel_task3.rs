//! A work queue shared by four harts: eight jobs are popped from one run
//! queue, each takes a block of a bump-allocated heap and stamps it, and the
//! run is accepted when every hart booted, both locks were used for every
//! job, and jobs ran in parallel.
use vstd::prelude::*;
use crate::lab5::kernel_task4::rotate_left;
use crate::lab5::kernel_task4::spec_rotl;
use crate::lab5::kernel_task4::spinlock::SpinLock;

verus! {

pub const EXPECTED_HARTS: usize = 4;
pub const JOB_COUNT: usize = 8;
pub const HEAP_SIZE: usize = 65536;
pub const ALLOC_ALIGN: usize = 64;
pub const LOCK_HOLD_SPINS: u32 = 128;

#[derive(Clone, Copy, PartialEq, Eq, Structural)]
pub enum JobClass {
    Interactive,
    Compute,
}

impl JobClass {
    pub fn as_str(self) -> (r: &'static str)
        ensures
            self == JobClass::Interactive ==> r@ == "interactive"@,
            self == JobClass::Compute ==> r@ == "compute"@,
    {
        match self {
            JobClass::Interactive => "interactive",
            JobClass::Compute => "compute",
        }
    }
}

/// A job of the suite.
#[derive(Clone, Copy)]
pub struct JobDefinition {
    pub id: u64,
    pub name: &'static str,
    pub class: JobClass,
    pub alloc_bytes: usize,
    pub bursts: usize,
    pub iterations: u64,
}

/// Heap bytes job `i` asks for.
pub open spec fn job_alloc_bytes(i: int) -> usize {
    if i == 0 { 512 } else if i == 1 { 4096 } else if i == 2 { 768 } else if i == 3 { 3072 }
    else if i == 4 { 640 } else if i == 5 { 4096 } else if i == 6 { 896 } else { 3584 }
}

/// Job `i`'s bursts and iterations per burst.
pub open spec fn job_work(i: int) -> (usize, u64) {
    if i == 0 { (6, 28_000) } else if i == 1 { (1, 820_000) } else if i == 2 { (5, 34_000) } else if i == 3 { (1, 760_000) }
    else if i == 4 { (7, 26_000) } else if i == 5 { (1, 900_000) } else if i == 6 { (6, 30_000) } else { (1, 880_000) }
}

/// The eight jobs in queue order; even ones are interactive.
pub fn job_def(index: usize) -> (r: JobDefinition)
    requires
        index < JOB_COUNT,
    ensures
        r.id == job_def_spec(index as int).id,
        r.class == job_def_spec(index as int).class,
        r.bursts == job_def_spec(index as int).bursts,
        r.iterations == job_def_spec(index as int).iterations,
        r.id == index + 1,
        r.alloc_bytes == job_alloc_bytes(index as int),
        r.class == (if index % 2 == 0 { JobClass::Interactive } else { JobClass::Compute }),
        r.bursts >= 1,
{
    match index {
        0 => JobDefinition { id: 1, name: "tty_echo", class: JobClass::Interactive, alloc_bytes: 512, bursts: 6, iterations: 28_000 },
        1 => JobDefinition { id: 2, name: "batch_crc_a", class: JobClass::Compute, alloc_bytes: 4096, bursts: 1, iterations: 820_000 },
        2 => JobDefinition { id: 3, name: "ui_refresh", class: JobClass::Interactive, alloc_bytes: 768, bursts: 5, iterations: 34_000 },
        3 => JobDefinition { id: 4, name: "batch_crc_b", class: JobClass::Compute, alloc_bytes: 3072, bursts: 1, iterations: 760_000 },
        4 => JobDefinition { id: 5, name: "pipe_shell", class: JobClass::Interactive, alloc_bytes: 640, bursts: 7, iterations: 26_000 },
        5 => JobDefinition { id: 6, name: "matrix_mul", class: JobClass::Compute, alloc_bytes: 4096, bursts: 1, iterations: 900_000 },
        6 => JobDefinition { id: 7, name: "input_mux", class: JobClass::Interactive, alloc_bytes: 896, bursts: 6, iterations: 30_000 },
        _ => JobDefinition { id: 8, name: "log_compact", class: JobClass::Compute, alloc_bytes: 3584, bursts: 1, iterations: 880_000 },
    }
}

/// Job `i` but for its name.
pub open spec fn job_def_spec(i: int) -> JobDefinition {
    JobDefinition {
        id: (i + 1) as u64,
        name: "",
        class: if i % 2 == 0 { JobClass::Interactive } else { JobClass::Compute },
        alloc_bytes: job_alloc_bytes(i),
        bursts: job_work(i).0,
        iterations: job_work(i).1,
    }
}

/// A block of the heap.
#[derive(Clone, Copy, PartialEq, Eq, Structural)]
pub struct Allocation {
    pub offset: usize,
    pub size: usize,
}

/// The global run queue: job indices handed out in order.
pub struct RunQueue {
    pub entries: [usize; JOB_COUNT],
    pub next: usize,
    pub pop_count: u64,
}

/// `after` is `before` with one pop that returned `r`: the job at the
/// cursor while any is left.
pub open spec fn popped(before: RunQueue, after: RunQueue, r: Option<usize>) -> bool {
    if before.next >= JOB_COUNT {
        &&& r == None::<usize>
        &&& after == before
    } else {
        &&& r == Some(before.entries[before.next as int])
        &&& after.entries == before.entries
        &&& after.next == before.next + 1
        &&& after.pop_count == before.pop_count.wrapping_add(1)
    }
}

impl RunQueue {
    /// Every job queued once, in index order, and the cursor within it.
    pub open spec fn wf(&self) -> bool {
        &&& forall|i: int| 0 <= i < JOB_COUNT ==> #[trigger] self.entries[i] == i
        &&& self.next <= JOB_COUNT
    }

    pub fn empty() -> (r: Self)
        ensures
            r.next == 0 && r.pop_count == 0,
            forall|i: int| 0 <= i < JOB_COUNT ==> #[trigger] r.entries[i] == 0,
    {
        RunQueue { entries: [0; JOB_COUNT], next: 0, pop_count: 0 }
    }

    /// Queues every job in index order.
    pub fn reset(&mut self)
        ensures
            final(self).wf(),
            final(self).next == 0,
            final(self).pop_count == 0,
    {
        let mut index: usize = 0;
        while index < JOB_COUNT
            invariant
                index <= JOB_COUNT,
                forall|i: int| 0 <= i < index ==> #[trigger] self.entries[i] == i,
            decreases JOB_COUNT - index,
        {
            self.entries[index] = index;
            index += 1;
        }
        self.next = 0;
        self.pop_count = 0;
    }

    /// The next queued job, if any is left.
    pub fn pop_next(&mut self) -> (r: Option<usize>)
        requires
            old(self).wf(),
        ensures
            final(self).wf(),
            popped(*old(self), *final(self), r),
            r == (if old(self).next < JOB_COUNT { Some(old(self).next) } else { None }),
    {
        if self.next >= JOB_COUNT {
            None
        } else {
            let job_index = self.entries[self.next];
            self.next = self.next + 1;
            self.pop_count = self.pop_count.wrapping_add(1);
            Some(job_index)
        }
    }

    /// Jobs not handed out yet.
    pub fn remaining(&self) -> (r: usize)
        ensures
            r == (if self.next <= JOB_COUNT { (JOB_COUNT - self.next) as usize } else { 0 }),
    {
        if self.next <= JOB_COUNT { JOB_COUNT - self.next } else { 0 }
    }
}

/// No job is handed out twice: two pops in a row that both return a job
/// return different jobs, and the second one the later.
pub proof fn lemma_run_queue_hands_out_once(q0: RunQueue, q1: RunQueue, q2: RunQueue, a: usize, b: usize)
    requires
        q0.wf(),
        popped(q0, q1, Some(a)),
        popped(q1, q2, Some(b)),
    ensures
        a < b,
        q2.wf(),
{
}

/// The bump allocator over the heap.
pub struct BumpAllocator {
    pub next_offset: usize,
    pub high_water: usize,
    pub allocations: u64,
}

/// `x` rounded up as the allocator does it: add `align - 1` and clear the
/// bits below `align` (wrapping).
pub open spec fn round_up(x: usize, align: usize) -> usize {
    let mask = align.wrapping_sub(1);
    x.wrapping_add(mask) & !mask
}

/// `after` is `before` after a request for `size` bytes aligned to `align`
/// that returned `r`: a block starting at the rounded-up cursor when it fits
/// in the heap, else nothing and no change.
pub open spec fn allocated(before: BumpAllocator, after: BumpAllocator, size: usize, align: usize,
    r: Option<Allocation>) -> bool {
    let start = round_up(before.next_offset, align);
    if start + size > HEAP_SIZE {
        &&& r == None::<Allocation>
        &&& after == before
    } else {
        &&& r == Some(Allocation { offset: start, size })
        &&& after.next_offset == start + size
        &&& after.high_water == (if start + size > before.high_water { (start + size) as usize } else { before.high_water })
        &&& after.allocations == before.allocations.wrapping_add(1)
    }
}

impl BumpAllocator {
    /// The cursor within the heap and the high-water mark between the cursor
    /// and the heap's end.
    pub open spec fn wf(&self) -> bool {
        &&& self.next_offset <= self.high_water
        &&& self.high_water <= HEAP_SIZE
    }

    pub fn empty() -> (r: Self)
        ensures
            r.wf(),
            r.next_offset == 0 && r.high_water == 0 && r.allocations == 0,
    {
        BumpAllocator { next_offset: 0, high_water: 0, allocations: 0 }
    }

    pub fn reset(&mut self)
        ensures
            final(self).wf(),
            final(self).next_offset == 0 && final(self).high_water == 0 && final(self).allocations == 0,
    {
        self.next_offset = 0;
        self.high_water = 0;
        self.allocations = 0;
    }

    /// A block of `size` bytes at the cursor rounded up to `align`, if it
    /// fits in the heap.
    pub fn allocate(&mut self, size: usize, align: usize) -> (r: Option<Allocation>)
        requires
            old(self).wf(),
        ensures
            final(self).wf(),
            allocated(*old(self), *final(self), size, align, r),
    {
        let mask = align.wrapping_sub(1);
        let start = self.next_offset.wrapping_add(mask) & !mask;
        let end = match start.checked_add(size) {
            Some(e) => e,
            None => return None,
        };
        if end > HEAP_SIZE {
            return None;
        }
        self.next_offset = end;
        if end > self.high_water {
            self.high_water = end;
        }
        self.allocations = self.allocations.wrapping_add(1);
        Some(Allocation { offset: start, size })
    }
}

/// With a power-of-two alignment of 64, a block starts at the first multiple
/// of 64 at or after the cursor.
pub proof fn lemma_round_up_aligned(x: usize)
    requires
        x <= HEAP_SIZE,
    ensures
        round_up(x, ALLOC_ALIGN) % 64 == 0,
        x <= round_up(x, ALLOC_ALIGN) < x + 64,
{
    let y = x.wrapping_add(63usize);
    assert(y == x + 63);
    assert((y & !63usize) % 64 == 0 && x <= (y & !63usize) && (y & !63usize) < x + 64) by (bit_vector)
        requires
            y == x + 63,
            x <= 65536usize;
    assert(ALLOC_ALIGN.wrapping_sub(1) == 63usize);
}

/// Blocks never overlap: of two blocks handed out one after the other with
/// the usual alignment, the second starts after the first ends, and both lie
/// within the heap.
pub proof fn lemma_allocations_disjoint(a0: BumpAllocator, a1: BumpAllocator, a2: BumpAllocator, s1: usize, s2: usize,
    x: Allocation, y: Allocation)
    requires
        a0.wf(),
        allocated(a0, a1, s1, ALLOC_ALIGN, Some(x)),
        allocated(a1, a2, s2, ALLOC_ALIGN, Some(y)),
    ensures
        x.offset + x.size <= y.offset,
        y.offset + y.size <= HEAP_SIZE,
        a0.next_offset <= x.offset,
{
    lemma_round_up_aligned(a0.next_offset);
    lemma_round_up_aligned(a1.next_offset);
}

/// `u8::rotate_left` by less than 8.
pub open spec fn spec_rotl8(x: u8, k: u32) -> u8 {
    if k == 0 { x } else { ((x << k) | (x >> (8 - k) as u32)) as u8 }
}

pub fn rotl8(x: u8, k: u32) -> (r: u8)
    requires
        k < 8,
    ensures
        r == spec_rotl8(x, k),
{
    if k == 0 { x } else { (x << k) | (x >> (8 - k)) }
}

/// The stamp's first byte for a job, hart and burst.
pub open spec fn stamp_seed(job_id: u64, hart_id: usize, burst: usize) -> u8 {
    (job_id as u8).wrapping_add((hart_id as u8).wrapping_mul(7)).wrapping_add((burst as u8).wrapping_mul(13))
}

/// Byte `i` of a stamp.
pub open spec fn stamp_byte(seed: u8, i: int, k: u32) -> u8 {
    spec_rotl8(seed.wrapping_add(i as u8), k)
}

/// The running checksum over the first `n` stamped bytes.
pub open spec fn fill_checksum(seed: u8, k: u32, n: nat) -> u64
    decreases n,
{
    if n == 0 { 0 } else {
        spec_rotl(fill_checksum(seed, k, (n - 1) as nat), 3).wrapping_add(stamp_byte(seed, n - 1, k) as u64)
    }
}

/// The stride of the read-back pass.
pub open spec fn verify_stride(size: int) -> int {
    if size / 8 >= 1 { size / 8 } else { 1 }
}

/// The checksum after reading back the stamp from byte `i` on.
pub open spec fn verify_checksum(acc: u64, seed: u8, k: u32, size: int, i: int) -> u64
    decreases (if size > i { size - i } else { 0 }),
{
    if i >= size || i < 0 {
        acc
    } else {
        let stride = if size / 8 >= 1 { size / 8 } else { 1 };
        verify_checksum(acc ^ ((stamp_byte(seed, i, k) as u64) << ((i as usize) & 7usize)), seed, k, size, i + stride)
    }
}

/// The checksum `touch_heap` returns for a stamp of `size` bytes.
pub open spec fn touch_checksum(seed: u8, k: u32, size: int) -> u64 {
    verify_checksum(fill_checksum(seed, k, size as nat), seed, k, size, 0)
}

/// Stamps the block with a pattern of the job, hart and burst, reads it
/// back at eight points, and returns the checksum of both passes.
pub fn touch_heap(heap: &mut Vec<u8>, allocation: Allocation, job_id: u64, hart_id: usize, burst: usize) -> (r: u64)
    requires
        allocation.offset + allocation.size <= old(heap).len(),
    ensures
        final(heap).len() == old(heap).len(),
        forall|j: int| 0 <= j < old(heap).len() ==> #[trigger] final(heap)@[j] == (
            if allocation.offset <= j < allocation.offset + allocation.size {
                stamp_byte(stamp_seed(job_id, hart_id, burst), j - allocation.offset, (hart_id & 7) as u32)
            } else { old(heap)@[j] }),
        r == touch_checksum(stamp_seed(job_id, hart_id, burst), (hart_id & 7) as u32, allocation.size as int),
{
    let seed = (job_id as u8).wrapping_add((hart_id as u8).wrapping_mul(7)).wrapping_add((burst as u8).wrapping_mul(13));
    let k = (hart_id & 7) as u32;
    assert(k < 8) by (bit_vector)
        requires k == (hart_id & 7) as u32;
    let base = allocation.offset;
    let size = allocation.size;
    let mut index: usize = 0;
    let mut checksum: u64 = 0;
    while index < size
        invariant
            index <= size,
            base + size <= heap.len(),
            heap.len() == old(heap).len(),
            k < 8,
            k == (hart_id & 7) as u32,
            seed == stamp_seed(job_id, hart_id, burst),
            base == allocation.offset,
            size == allocation.size,
            checksum == fill_checksum(seed, k, index as nat),
            forall|j: int| 0 <= j < heap.len() ==> #[trigger] heap@[j] == (
                if base <= j < base + index { stamp_byte(seed, j - base, k) } else { old(heap)@[j] }),
        decreases size - index,
    {
        let value = rotl8(seed.wrapping_add(index as u8), k);
        heap.set(base + index, value);
        checksum = rotate_left(checksum, 3).wrapping_add(value as u64);
        index += 1;
    }
    let ghost filled = checksum;
    let stride = if size / 8 >= 1 { size / 8 } else { 1 };
    let mut verify_index: usize = 0;
    while verify_index < size
        invariant
            base + size <= heap.len(),
            stride == verify_stride(size as int),
            stride >= 1,
            forall|j: int| 0 <= j < heap.len() ==> #[trigger] heap@[j] == (
                if base <= j < base + size { stamp_byte(seed, j - base, k) } else { old(heap)@[j] }),
            verify_checksum(checksum, seed, k, size as int, verify_index as int)
                == verify_checksum(filled, seed, k, size as int, 0),
        decreases size - verify_index,
    {
        let value = heap[base + verify_index];
        let shift = verify_index & 7;
        assert(shift < 64) by (bit_vector)
            requires shift == verify_index & 7;
        let ghost before = checksum;
        let ghost vi = verify_index as int;
        checksum = checksum ^ ((value as u64) << shift);
        proof {
            assert(value == stamp_byte(seed, vi, k));
            assert(verify_checksum(before, seed, k, size as int, vi)
                == verify_checksum(checksum, seed, k, size as int, vi + stride));
        }
        if stride >= size - verify_index {
            verify_index = size;
            proof {
                assert(verify_checksum(checksum, seed, k, size as int, vi + stride) == checksum);
                assert(verify_checksum(checksum, seed, k, size as int, size as int) == checksum);
            }
        } else {
            verify_index = verify_index + stride;
        }
    }
    checksum
}

/// One round of a job's compute loop.
pub open spec fn job_mix_step(acc: u64, index: u64) -> u64 {
    spec_rotl(acc, 7).wrapping_add(index ^ 0x5851_f42d_4c95_7f2d).wrapping_mul(0x1405_7b7e_f767_814f)
}

/// `acc` after `n` rounds.
pub open spec fn job_mixed(acc: u64, n: nat) -> u64
    decreases n,
{
    if n == 0 { acc } else { job_mix_step(job_mixed(acc, (n - 1) as nat), (n - 1) as u64) }
}

/// A job's compute loop: `iterations` rounds of mixing.
pub fn busy_mix(acc: u64, iterations: u64) -> (r: u64)
    ensures
        r == job_mixed(acc, iterations as nat),
{
    let mut acc = acc;
    let mut index: u64 = 0;
    let ghost start = acc;
    while index < iterations
        invariant
            index <= iterations,
            acc == job_mixed(start, index as nat),
        decreases iterations - index,
    {
        acc = rotate_left(acc, 7).wrapping_add(index ^ 0x5851_f42d_4c95_7f2d).wrapping_mul(0x1405_7b7e_f767_814f);
        index += 1;
    }
    acc
}

/// A job's accumulator before its first burst.
pub open spec fn job_seed(job_id: u64, hart_id: usize, offset: usize) -> u64 {
    0x9e37_79b9_7f4a_7c15u64 ^ job_id ^ ((hart_id as u64) << 32u64) ^ (offset as u64)
}

/// A job's accumulator after `n` bursts, each a compute loop and a stamp of
/// its block.
pub open spec fn job_acc(job_id: u64, iterations: u64, hart_id: usize, a: Allocation, n: nat) -> u64
    decreases n,
{
    if n == 0 {
        job_seed(job_id, hart_id, a.offset)
    } else {
        let prev = job_acc(job_id, iterations, hart_id, a, (n - 1) as nat);
        job_mixed(prev ^ ((n - 1) as u64), iterations as nat)
            ^ touch_checksum(stamp_seed(job_id, hart_id, (n - 1) as usize), (hart_id & 7) as u32, a.size as int)
    }
}

/// Runs `job` on `hart_id` in its block: its bursts of computing and
/// stamping. Returns its checksum; the block holds the last burst's stamp.
pub fn execute_job(heap: &mut Vec<u8>, hart_id: usize, job: JobDefinition, allocation: Allocation) -> (r: u64)
    requires
        allocation.offset + allocation.size <= old(heap).len(),
    ensures
        r == job_acc(job.id, job.iterations, hart_id, allocation, job.bursts as nat),
        final(heap).len() == old(heap).len(),
        forall|j: int| 0 <= j < old(heap).len() && !(allocation.offset <= j < allocation.offset + allocation.size)
            ==> #[trigger] final(heap)@[j] == old(heap)@[j],
        job.bursts > 0 ==> forall|j: int| allocation.offset <= j < allocation.offset + allocation.size
            ==> #[trigger] final(heap)@[j] == stamp_byte(stamp_seed(job.id, hart_id, (job.bursts - 1) as usize),
                j - allocation.offset, (hart_id & 7) as u32),
{
    let mut burst: usize = 0;
    let mut acc = 0x9e37_79b9_7f4a_7c15u64 ^ job.id ^ ((hart_id as u64) << 32) ^ (allocation.offset as u64);
    while burst < job.bursts
        invariant
            burst <= job.bursts,
            allocation.offset + allocation.size <= heap.len(),
            heap.len() == old(heap).len(),
            acc == job_acc(job.id, job.iterations, hart_id, allocation, burst as nat),
            forall|j: int| 0 <= j < old(heap).len() && !(allocation.offset <= j < allocation.offset + allocation.size)
                ==> #[trigger] heap@[j] == old(heap)@[j],
            burst > 0 ==> forall|j: int| allocation.offset <= j < allocation.offset + allocation.size
                ==> #[trigger] heap@[j] == stamp_byte(stamp_seed(job.id, hart_id, (burst - 1) as usize),
                    j - allocation.offset, (hart_id & 7) as u32),
        decreases job.bursts - burst,
    {
        acc = busy_mix(acc ^ (burst as u64), job.iterations);
        acc = acc ^ touch_heap(heap, allocation, job.id, hart_id, burst);
        burst += 1;
    }
    acc
}

/// What a hart's scheduler loop does next.
#[derive(Clone, Copy)]
pub enum HartStep {
    /// Run this job; this many are left in the queue.
    Run(usize, usize),
    /// The queue is empty and every job is done: the hart leaves the loop.
    Drained,
    /// The queue is empty but jobs still run elsewhere: spin and retry.
    Wait,
}

/// One job's run as it is reported.
#[derive(Clone, Copy)]
pub struct JobRun {
    pub running_now: u64,
    pub allocation: Allocation,
    pub high_water: usize,
    pub checksum: u64,
    pub completed_jobs: usize,
    pub running_after: u64,
}

/// The final report and its three acceptance checks.
#[derive(Clone, Copy)]
pub struct WorkQueueSummary {
    pub ready_harts: usize,
    pub booted_mask: usize,
    pub completed_jobs: usize,
    pub finished_harts: usize,
    pub max_parallel_jobs: u64,
    pub queue_pop_count: u64,
    pub queue_remaining: usize,
    pub allocator_allocations: u64,
    pub allocator_high_water: usize,
    pub all_harts_awakened: bool,
    pub locks_protected: bool,
    pub stable_under_smp: bool,
}

/// The mask with one bit per expected hart.
pub fn expected_hart_mask() -> (r: usize)
    ensures
        r == 15,
{
    assert(1usize << 4usize == 16usize) by (bit_vector);
    (1usize << EXPECTED_HARTS) - 1
}

/// The state the harts share.
pub struct WorkQueueSystem {
    pub run_queue: SpinLock<RunQueue>,
    pub allocator: SpinLock<BumpAllocator>,
    pub heap: Vec<u8>,
    pub ready_harts: usize,
    pub booted_mask: usize,
    pub start_scheduling: bool,
    pub shutdown: bool,
    pub completed_jobs: usize,
    pub finished_harts: usize,
    pub running_jobs: u64,
    pub max_parallel_jobs: u64,
    pub hart_init_done: [bool; EXPECTED_HARTS],
    pub hart_jobs_done: [u64; EXPECTED_HARTS],
    pub hart_alloc_bytes: [u64; EXPECTED_HARTS],
    pub job_completion_hart: [usize; JOB_COUNT],
    pub job_checksums: [u64; JOB_COUNT],
}

impl WorkQueueSystem {
    /// Both locks free around well-formed state, and the whole heap there.
    pub open spec fn wf(&self) -> bool {
        &&& self.run_queue.value.wf()
        &&& !self.run_queue.locked
        &&& self.allocator.value.wf()
        &&& !self.allocator.locked
        &&& self.heap.len() == HEAP_SIZE
    }

    /// The state at boot: every job queued, an empty heap, no hart ready.
    pub fn new() -> (r: Self)
        ensures
            r.wf(),
            r.run_queue.value.next == 0 && r.run_queue.value.pop_count == 0,
            r.allocator.value.next_offset == 0 && r.allocator.value.allocations == 0,
            r.ready_harts == 0 && r.booted_mask == 0 && r.completed_jobs == 0 && r.finished_harts == 0,
            r.running_jobs == 0 && r.max_parallel_jobs == 0 && !r.start_scheduling && !r.shutdown,
            r.run_queue.acquisitions == 1 && r.allocator.acquisitions == 1,
    {
        let mut heap: Vec<u8> = Vec::new();
        let mut i: usize = 0;
        while i < HEAP_SIZE
            invariant
                i <= HEAP_SIZE,
                heap.len() == i,
            decreases HEAP_SIZE - i,
        {
            heap.push(0);
            i += 1;
        }
        let mut system = WorkQueueSystem {
            run_queue: SpinLock::new(RunQueue::empty()),
            allocator: SpinLock::new(BumpAllocator::empty()),
            heap,
            ready_harts: 0,
            booted_mask: 0,
            start_scheduling: false,
            shutdown: false,
            completed_jobs: 0,
            finished_harts: 0,
            running_jobs: 0,
            max_parallel_jobs: 0,
            hart_init_done: [false; EXPECTED_HARTS],
            hart_jobs_done: [0; EXPECTED_HARTS],
            hart_alloc_bytes: [0; EXPECTED_HARTS],
            job_completion_hart: [usize::MAX; JOB_COUNT],
            job_checksums: [0; JOB_COUNT],
        };
        system.initialize_global_state();
        system
    }

    /// Queues every job, empties the allocator (each under its lock) and
    /// clears the flags and counters.
    pub fn initialize_global_state(&mut self)
        requires
            !old(self).run_queue.locked,
            !old(self).allocator.locked,
            old(self).heap.len() == HEAP_SIZE,
        ensures
            final(self).wf(),
            final(self).run_queue.value.next == 0 && final(self).run_queue.value.pop_count == 0,
            final(self).allocator.value.next_offset == 0 && final(self).allocator.value.allocations == 0,
            final(self).run_queue.acquisitions == old(self).run_queue.acquisitions.wrapping_add(1),
            final(self).allocator.acquisitions == old(self).allocator.acquisitions.wrapping_add(1),
            final(self).ready_harts == 0 && final(self).booted_mask == 0 && final(self).completed_jobs == 0,
            final(self).finished_harts == 0 && final(self).running_jobs == 0 && final(self).max_parallel_jobs == 0,
            !final(self).start_scheduling && !final(self).shutdown,
    {
        let guard = self.run_queue.lock(0);
        self.run_queue.value.reset();
        self.run_queue.unlock(guard);
        let guard = self.allocator.lock(0);
        self.allocator.value.reset();
        self.allocator.unlock(guard);
        self.shutdown = false;
        self.start_scheduling = false;
        self.ready_harts = 0;
        self.booted_mask = 0;
        self.completed_jobs = 0;
        self.finished_harts = 0;
        self.running_jobs = 0;
        self.max_parallel_jobs = 0;
    }

    /// Hart `hart_id` finished its own start-up: its bit is set in the boot
    /// mask and the ready count (returned) goes up.
    pub fn mark_hart_initialized(&mut self, hart_id: usize) -> (r: usize)
        requires
            hart_id < EXPECTED_HARTS,
        ensures
            r == old(self).ready_harts.wrapping_add(1),
            final(self).ready_harts == r,
            final(self).booted_mask == old(self).booted_mask | (1usize << hart_id),
            final(self).hart_init_done@ == old(self).hart_init_done@.update(hart_id as int, true),
            final(self).run_queue == old(self).run_queue,
            final(self).allocator == old(self).allocator,
            final(self).heap@ == old(self).heap@,
            final(self).completed_jobs == old(self).completed_jobs,
    {
        self.hart_init_done[hart_id] = true;
        self.booted_mask = self.booted_mask | (1usize << hart_id);
        self.ready_harts = self.ready_harts.wrapping_add(1);
        self.ready_harts
    }

    /// The primary hart opens the start barrier once every hart is ready.
    pub fn try_release_start_barrier(&mut self) -> (r: bool)
        ensures
            r == (old(self).ready_harts >= EXPECTED_HARTS),
            final(self).start_scheduling == (old(self).start_scheduling || r),
            final(self).ready_harts == old(self).ready_harts,
            final(self).run_queue == old(self).run_queue,
            final(self).allocator == old(self).allocator,
            final(self).heap@ == old(self).heap@,
    {
        if self.ready_harts >= EXPECTED_HARTS {
            self.start_scheduling = true;
            true
        } else {
            false
        }
    }

    /// Pops the next job under the run-queue lock (taken after `spins` failed
    /// tries). Returns it and how many are left.
    pub fn pop_next_job(&mut self, spins: u64) -> (r: (Option<usize>, usize))
        requires
            old(self).wf(),
        ensures
            final(self).wf(),
            popped(old(self).run_queue.value, final(self).run_queue.value, r.0),
            r.0 == (if old(self).run_queue.value.next < JOB_COUNT { Some(old(self).run_queue.value.next) } else { None }),
            r.1 == JOB_COUNT - final(self).run_queue.value.next,
            final(self).run_queue.acquisitions == old(self).run_queue.acquisitions.wrapping_add(1),
            final(self).allocator == old(self).allocator,
            final(self).heap@ == old(self).heap@,
            final(self).completed_jobs == old(self).completed_jobs,
            final(self).running_jobs == old(self).running_jobs,
    {
        let guard = self.run_queue.lock(spins);
        let job_index = self.run_queue.value.pop_next();
        let remaining = self.run_queue.value.remaining();
        self.run_queue.unlock(guard);
        (job_index, remaining)
    }

    /// A block of `size` bytes under the allocator lock. Returns it (if the
    /// heap has room) and the high-water mark.
    pub fn allocate_for_job(&mut self, size: usize, spins: u64) -> (r: (Option<Allocation>, usize))
        requires
            old(self).wf(),
        ensures
            final(self).wf(),
            allocated(old(self).allocator.value, final(self).allocator.value, size, ALLOC_ALIGN, r.0),
            r.1 == final(self).allocator.value.high_water,
            final(self).allocator.acquisitions == old(self).allocator.acquisitions.wrapping_add(1),
            final(self).run_queue == old(self).run_queue,
            final(self).heap@ == old(self).heap@,
            final(self).completed_jobs == old(self).completed_jobs,
            final(self).running_jobs == old(self).running_jobs,
            final(self).max_parallel_jobs == old(self).max_parallel_jobs,
            final(self).job_checksums == old(self).job_checksums,
            final(self).job_completion_hart == old(self).job_completion_hart,
            final(self).hart_jobs_done == old(self).hart_jobs_done,
            final(self).hart_alloc_bytes == old(self).hart_alloc_bytes,
    {
        let guard = self.allocator.lock(spins);
        let result = self.allocator.value.allocate(size, ALLOC_ALIGN);
        let high_water = self.allocator.value.high_water;
        self.allocator.unlock(guard);
        (result, high_water)
    }

    /// Raises the parallelism high-water mark to `candidate`.
    pub fn update_max_parallel_jobs(&mut self, candidate: u64)
        ensures
            final(self).max_parallel_jobs == (if candidate > old(self).max_parallel_jobs { candidate } else {
                old(self).max_parallel_jobs }),
            final(self).run_queue == old(self).run_queue,
            final(self).allocator == old(self).allocator,
            final(self).heap@ == old(self).heap@,
            final(self).completed_jobs == old(self).completed_jobs,
            final(self).running_jobs == old(self).running_jobs,
            final(self).job_checksums == old(self).job_checksums,
            final(self).job_completion_hart == old(self).job_completion_hart,
            final(self).hart_jobs_done == old(self).hart_jobs_done,
            final(self).hart_alloc_bytes == old(self).hart_alloc_bytes,
    {
        if candidate > self.max_parallel_jobs {
            self.max_parallel_jobs = candidate;
        }
    }

    /// Hart `hart_id` runs job `job_index`: it counts as running, takes its
    /// block, computes, and is recorded as completed by this hart. `None`
    /// when the heap has no room for the block (the kernel then stops).
    pub fn run_job(&mut self, hart_id: usize, job_index: usize, spins: u64) -> (r: Option<JobRun>)
        requires
            old(self).wf(),
            hart_id < EXPECTED_HARTS,
            job_index < JOB_COUNT,
        ensures
            final(self).wf(),
            ({
                let running_now = old(self).running_jobs.wrapping_add(1);
                let start = round_up(old(self).allocator.value.next_offset, ALLOC_ALIGN);
                let size = job_alloc_bytes(job_index as int);
                &&& final(self).max_parallel_jobs == (if running_now > old(self).max_parallel_jobs { running_now }
                    else { old(self).max_parallel_jobs })
                &&& final(self).run_queue == old(self).run_queue
                &&& (r is None <==> start + size > HEAP_SIZE)
                &&& r is None ==> final(self).running_jobs == running_now && final(self).completed_jobs == old(self).completed_jobs
                &&& r matches Some(run) ==> {
                    &&& run.running_now == running_now
                    &&& run.allocation == Allocation { offset: start, size }
                    &&& run.checksum == job_acc(job_def_spec(job_index as int).id, job_def_spec(job_index as int).iterations,
                        hart_id, run.allocation, job_def_spec(job_index as int).bursts as nat)
                    &&& run.completed_jobs == old(self).completed_jobs.wrapping_add(1)
                    &&& run.running_after == running_now.wrapping_sub(1)
                    &&& final(self).completed_jobs == run.completed_jobs
                    &&& final(self).running_jobs == run.running_after
                    &&& final(self).job_checksums@ == old(self).job_checksums@.update(job_index as int, run.checksum)
                    &&& final(self).job_completion_hart@ == old(self).job_completion_hart@.update(job_index as int, hart_id)
                    &&& final(self).hart_jobs_done@ == old(self).hart_jobs_done@.update(hart_id as int,
                        old(self).hart_jobs_done[hart_id as int].wrapping_add(1))
                    &&& final(self).hart_alloc_bytes@ == old(self).hart_alloc_bytes@.update(hart_id as int,
                        old(self).hart_alloc_bytes[hart_id as int].wrapping_add(size as u64))
                }
            }),
    {
        let job = job_def(job_index);
        let running_now = self.running_jobs.wrapping_add(1);
        self.running_jobs = running_now;
        self.update_max_parallel_jobs(running_now);
        let (result, high_water) = self.allocate_for_job(job.alloc_bytes, spins);
        let allocation = match result {
            Some(a) => a,
            None => return None,
        };
        let checksum = execute_job(&mut self.heap, hart_id, job, allocation);
        let completed_jobs = self.completed_jobs.wrapping_add(1);
        self.completed_jobs = completed_jobs;
        let running_after = self.running_jobs.wrapping_sub(1);
        self.running_jobs = running_after;
        let ghost c0 = self.job_checksums@;
        let ghost h0 = self.job_completion_hart@;
        let ghost d0 = self.hart_jobs_done@;
        let ghost b0 = self.hart_alloc_bytes@;
        self.job_checksums[job_index] = checksum;
        self.job_completion_hart[job_index] = hart_id;
        self.hart_jobs_done[hart_id] = self.hart_jobs_done[hart_id].wrapping_add(1);
        self.hart_alloc_bytes[hart_id] = self.hart_alloc_bytes[hart_id].wrapping_add(job.alloc_bytes as u64);
        proof {
            assert(self.job_checksums@ =~= c0.update(job_index as int, checksum));
            assert(self.job_completion_hart@ =~= h0.update(job_index as int, hart_id));
            assert(self.hart_jobs_done@ =~= d0.update(hart_id as int, d0[hart_id as int].wrapping_add(1)));
            assert(self.hart_alloc_bytes@ =~= b0.update(hart_id as int, b0[hart_id as int].wrapping_add(job.alloc_bytes as u64)));
        }
        Some(JobRun { running_now, allocation, high_water, checksum, completed_jobs, running_after })
    }

    /// One turn of a hart's scheduler loop: a job to run, or, with the queue
    /// empty, leave once every job is done and spin otherwise.
    pub fn scheduler_step(&mut self, spins: u64) -> (r: HartStep)
        requires
            old(self).wf(),
        ensures
            final(self).wf(),
            popped(old(self).run_queue.value, final(self).run_queue.value,
                (match r { HartStep::Run(j, _) => Some(j), _ => None })),
            match r {
                HartStep::Run(j, left) => j == old(self).run_queue.value.next && left == JOB_COUNT - (j + 1),
                HartStep::Drained => old(self).run_queue.value.next >= JOB_COUNT && old(self).completed_jobs == JOB_COUNT,
                HartStep::Wait => old(self).run_queue.value.next >= JOB_COUNT && old(self).completed_jobs != JOB_COUNT,
            },
            final(self).allocator == old(self).allocator,
            final(self).completed_jobs == old(self).completed_jobs,
    {
        let (job, remaining) = self.pop_next_job(spins);
        match job {
            Some(j) => HartStep::Run(j, remaining),
            None => if self.completed_jobs == JOB_COUNT { HartStep::Drained } else { HartStep::Wait },
        }
    }

    /// A hart left its loop: counted, and the last one shuts the run down.
    /// Returns the count and whether this hart was the last.
    pub fn hart_drained(&mut self) -> (r: (usize, bool))
        ensures
            r.0 == old(self).finished_harts.wrapping_add(1),
            r.1 == (r.0 == EXPECTED_HARTS),
            final(self).finished_harts == r.0,
            final(self).shutdown == (old(self).shutdown || r.1),
            final(self).run_queue == old(self).run_queue,
            final(self).allocator == old(self).allocator,
            final(self).heap@ == old(self).heap@,
    {
        let finished = self.finished_harts.wrapping_add(1);
        self.finished_harts = finished;
        if finished == EXPECTED_HARTS {
            self.shutdown = true;
        }
        (finished, finished == EXPECTED_HARTS)
    }

    /// The final report: every hart booted, every job went through both
    /// locks, and all jobs completed with at least two running at once.
    pub fn summary(&mut self) -> (r: WorkQueueSummary)
        requires
            old(self).wf(),
        ensures
            final(self).wf(),
            r.ready_harts == old(self).ready_harts,
            r.booted_mask == old(self).booted_mask,
            r.completed_jobs == old(self).completed_jobs,
            r.finished_harts == old(self).finished_harts,
            r.max_parallel_jobs == old(self).max_parallel_jobs,
            r.queue_pop_count == old(self).run_queue.value.pop_count,
            r.queue_remaining == JOB_COUNT - old(self).run_queue.value.next,
            r.allocator_allocations == old(self).allocator.value.allocations,
            r.allocator_high_water == old(self).allocator.value.high_water,
            final(self).run_queue.acquisitions == old(self).run_queue.acquisitions.wrapping_add(1),
            final(self).allocator.acquisitions == old(self).allocator.acquisitions.wrapping_add(1),
            r.all_harts_awakened == (r.ready_harts == EXPECTED_HARTS && r.booted_mask == 15),
            r.locks_protected == (r.queue_pop_count == JOB_COUNT && r.allocator_allocations == JOB_COUNT
                && final(self).run_queue.acquisitions >= JOB_COUNT && final(self).allocator.acquisitions >= JOB_COUNT),
            r.stable_under_smp == (r.completed_jobs == JOB_COUNT && r.finished_harts == EXPECTED_HARTS
                && r.max_parallel_jobs >= 2),
    {
        let guard = self.run_queue.lock(0);
        let queue_pop_count = self.run_queue.value.pop_count;
        let queue_remaining = self.run_queue.value.remaining();
        self.run_queue.unlock(guard);
        let guard = self.allocator.lock(0);
        let allocator_allocations = self.allocator.value.allocations;
        let allocator_high_water = self.allocator.value.high_water;
        self.allocator.unlock(guard);
        let all_harts_awakened = self.ready_harts == EXPECTED_HARTS && self.booted_mask == expected_hart_mask();
        let locks_protected = queue_pop_count == JOB_COUNT as u64 && allocator_allocations == JOB_COUNT as u64
            && self.run_queue.acquisitions() >= JOB_COUNT as u64 && self.allocator.acquisitions() >= JOB_COUNT as u64;
        let stable_under_smp = self.completed_jobs == JOB_COUNT && self.finished_harts == EXPECTED_HARTS
            && self.max_parallel_jobs >= 2;
        WorkQueueSummary {
            ready_harts: self.ready_harts,
            booted_mask: self.booted_mask,
            completed_jobs: self.completed_jobs,
            finished_harts: self.finished_harts,
            max_parallel_jobs: self.max_parallel_jobs,
            queue_pop_count,
            queue_remaining,
            allocator_allocations,
            allocator_high_water,
            all_harts_awakened,
            locks_protected,
            stable_under_smp,
        }
    }
}

} // verus!
