use lib::lab3::kernel_task2::abs_diff;
use lib::lab3::kernel_task4::InterruptMutex;
use lib::lab3::task2::{average_ns, round_label, sort_u64_slice, ticks_to_ns, ticks_to_us};
use lib::lab3::task3::{kernel_ratio_bp, ratio_bp, saturating_add, task_stats_figures, TaskStats};
use lib::lab4::sv39::{
    leaf_level_name, leaf_pte, page_align_down, page_align_up, pte_clear_accessed, pte_is_swapped, pte_to_pa,
    satp_for_root, swap_pte, swap_slot_from_pte, table_pte, vpn0_index, vpn1_index, vpn2_index, PTE_A, PTE_R, PTE_V,
    PTE_W,
};
use lib::lab5::kernel_task2::{choose_initial_priority_task, next_slice_deadline};
use lib::lab5::kernel_task3::{rotl8, Allocation, BumpAllocator, RunQueue, HEAP_SIZE, JOB_COUNT};

#[test]
fn sorting_keeps_the_values() {
    let mut v = vec![5u64, 1, 4, 1, 9, 2, 6];
    sort_u64_slice(&mut v);
    assert_eq!(v, vec![1, 1, 2, 4, 5, 6, 9]);
    let mut empty: Vec<u64> = Vec::new();
    sort_u64_slice(&mut empty);
    assert!(empty.is_empty());
    let mut one = vec![u64::MAX];
    sort_u64_slice(&mut one);
    assert_eq!(one, vec![u64::MAX]);
}

#[test]
fn time_conversions() {
    assert_eq!(ticks_to_ns(3), 300);
    assert_eq!(ticks_to_ns(u64::MAX), u64::MAX);
    assert_eq!(ticks_to_us(10_000_000), 1_000_000);
    assert_eq!(average_ns(10, 0), 0);
    assert_eq!(average_ns(10, 4), 250);
    assert_eq!(round_label(0), "round#0(warm-up)");
    assert_eq!(round_label(3), "round#3");
    assert_eq!(round_label(9), "round#?");
}

#[test]
fn shares_in_basis_points() {
    assert_eq!(ratio_bp(1, 4), 2500);
    assert_eq!(ratio_bp(5, 0), 0);
    assert_eq!(saturating_add(u64::MAX, 1), u64::MAX);
    let mut s = TaskStats::empty();
    s.user_ticks = 300;
    s.kernel_ticks = 100;
    assert_eq!(kernel_ratio_bp(s), 2500);
    assert_eq!(task_stats_figures(s), (400, 7500, 2500));
    assert_eq!(abs_diff(3, 10), 7);
    assert_eq!(abs_diff(10, 3), 7);
}

#[test]
fn interrupt_mutex_restores_the_interrupt_state() {
    let mut m = InterruptMutex::new(5u32);
    let mut sie = true;
    let guard = m.lock(&mut sie).expect("free mutex");
    assert!(!sie);
    assert!(m.locked);
    // Taking it again while held is refused and keeps interrupts off.
    assert!(m.lock(&mut sie).is_none());
    assert!(!sie);
    m.unlock(guard, &mut sie);
    assert!(sie);
    assert!(!m.locked);
    // Interrupts that were off stay off.
    let mut off = false;
    let g = m.lock(&mut off).unwrap();
    m.unlock(g, &mut off);
    assert!(!off);
    assert_eq!(m.value, 5);
}

#[test]
fn sv39_entries() {
    let pa = 0x8020_3000u64;
    let leaf = leaf_pte(pa, PTE_R | PTE_W | PTE_A);
    assert_eq!(leaf, ((pa >> 12) << 10) | PTE_R | PTE_W | PTE_A | PTE_V);
    assert_eq!(pte_to_pa(leaf), pa);
    assert_eq!(pte_clear_accessed(leaf), leaf - 64);
    assert_eq!(pte_clear_accessed(pte_clear_accessed(leaf)), leaf - 64);
    assert_eq!(table_pte(0x8040_0000), ((0x8040_0000u64 >> 12) << 10) | 1);
    assert_eq!(satp_for_root(0x8040_0000), (8u64 << 60) | 0x80400);
    let va = 0x0000_0040_1234_5678u64;
    assert_eq!(vpn2_index(va), ((va >> 30) & 0x1ff) as usize);
    assert_eq!(vpn1_index(va), ((va >> 21) & 0x1ff) as usize);
    assert_eq!(vpn0_index(va), ((va >> 12) & 0x1ff) as usize);
    assert_eq!(page_align_down(0x1fff), 0x1000);
    assert_eq!(page_align_up(0x1001), 0x2000);
    assert_eq!(page_align_up(0x2000), 0x2000);
    assert_eq!(leaf_level_name(1), "L1-2M");
    assert_eq!(leaf_level_name(7), "invalid");
}

#[test]
fn swap_entries_roundtrip() {
    let pte = swap_pte(42);
    assert!(pte_is_swapped(pte));
    assert_eq!(swap_slot_from_pte(pte), 42);
    assert!(!pte_is_swapped(leaf_pte(0x8000_0000, PTE_R)));
}

#[test]
fn run_queue_hands_each_job_out_once() {
    let mut q = RunQueue::empty();
    q.reset();
    let mut seen = Vec::new();
    while let Some(j) = q.pop_next() {
        seen.push(j);
    }
    assert_eq!(seen, (0..JOB_COUNT).collect::<Vec<_>>());
    assert_eq!(q.remaining(), 0);
    assert!(q.pop_next().is_none());
}

#[test]
fn bump_allocations_are_aligned_and_disjoint() {
    let mut a = BumpAllocator::empty();
    let x = a.allocate(100, 64).unwrap();
    let y = a.allocate(10, 64).unwrap();
    assert!(x == Allocation { offset: 0, size: 100 });
    assert!(y == Allocation { offset: 128, size: 10 });
    assert!(x.offset + x.size <= y.offset);
    assert_eq!(a.high_water, 138);
    assert!(a.allocate(HEAP_SIZE, 64).is_none());
    assert_eq!(a.next_offset, 138);
}

#[test]
fn rotations_and_deadlines() {
    assert_eq!(rotl8(0b1000_0001, 1), 0b0000_0011);
    assert_eq!(rotl8(0x5a, 0), 0x5a);
    assert_eq!(choose_initial_priority_task(), 0);
    assert_eq!(next_slice_deadline(u64::MAX), u64::MAX.wrapping_add(next_slice_deadline(0)));
}
