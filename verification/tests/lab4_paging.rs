use lib::lab4::kernel_task1::{
    build_single_page_table, exit_code, handle_expected_kernel_access_fault, handle_supervisor_trap, pte_bit,
    pte_flag_chars, prepare_user_frame, walk_zeroed, Layout, TrapDecision, UserSharedData, KERNEL_PROBE_VA,
    LOAD_PAGE_FAULT, USER_DATA_VA, USER_ENV_CALL, USER_STACK_TOP, USER_STACK_VA, USER_STAGE_BEFORE_PROBE, USER_TEXT_VA,
};
use lib::lab4::kernel_task2::{
    fault_kind_name, user_leaf_flags_for_vma, vma_flags_name, vma_kind_name, yes_no, EcallOutcome, LazyKernel,
    Layout as LazyLayout, SyscallFrame, UserSharedData as LazyShared, HEAP_PAGE0_VALUE, HEAP_PAGE1_VALUE,
    MMAP_PAGE0_VALUE, MMAP_PAGE1_VALUE, STAGE_DONE, STORE_PAGE_FAULT, SYS_EXIT, SYS_MMAP, SYS_SBRK, USER_HEAP_BASE,
    USER_HEAP_LIMIT, USER_MMAP_BASE, VMA_READ, VMA_WRITE,
};
use lib::lab4::sv39::{
    leaf_pte, pte_accessed, pte_has_cow, pte_has_user, pte_has_write, pte_is_leaf, pte_is_valid, pte_to_pa,
    satp_for_root, table_pte, PTE_A, PTE_D, PTE_G, PTE_R, PTE_U, PTE_V, PTE_W, PTE_X,
};

fn single_layout() -> Layout {
    Layout {
        root: 0x8010_0000,
        low_l1: 0x8010_1000,
        dev_l0: 0x8010_2000,
        user_l0: 0x8010_3000,
        kernel_l1: 0x8010_4000,
        code: 0x8020_0000,
        data: 0x8020_1000,
        stack: 0x8020_2000,
    }
}

#[test]
fn pte_helpers() {
    let pte = leaf_pte(0x8020_0000, PTE_R | PTE_W | PTE_U | PTE_A);
    assert!(pte_is_valid(pte) && pte_is_leaf(pte) && pte_has_user(pte) && pte_has_write(pte) && pte_accessed(pte));
    assert!(!pte_has_cow(pte));
    assert_eq!(pte_to_pa(pte), 0x8020_0000);
    let t = table_pte(0x8010_3000);
    assert!(pte_is_valid(t) && !pte_is_leaf(t));
    assert_eq!(pte_to_pa(t), 0x8010_3000);
    assert_eq!(satp_for_root(0x8010_0000), (8u64 << 60) | 0x80100);
    assert_eq!(pte_flag_chars(PTE_V | PTE_R | PTE_X | PTE_D), ['V', 'R', '-', 'X', '-', '-', '-', 'D']);
    assert!(pte_bit(PTE_G, PTE_G));
    assert!(!pte_bit(PTE_R, PTE_X));
    let w = walk_zeroed();
    assert_eq!((w.leaf_level, w.leaf_pte), (usize::MAX, 0));
}

#[test]
fn single_address_space_isolates_the_kernel() {
    let l = single_layout();
    let t = build_single_page_table(&l);
    let k = t.walk(l.root, KERNEL_PROBE_VA);
    assert_eq!(k.leaf_level, 1);
    assert!(!pte_has_user(k.leaf_pte));
    let u = t.walk(l.root, USER_TEXT_VA);
    assert_eq!(u.leaf_level, 0);
    assert_eq!(pte_to_pa(u.leaf_pte), l.code);
    assert_eq!(pte_to_pa(t.walk(l.root, USER_DATA_VA).leaf_pte), l.data);
    assert_eq!(pte_to_pa(t.walk(l.root, USER_STACK_VA).leaf_pte), l.stack);

    let satp = satp_for_root(l.root);
    let mut ev = UserSharedData::initial();
    ev.readback = ev.seed;
    ev.stack_echo = ev.seed;
    ev.stage_marker = USER_STAGE_BEFORE_PROBE;
    let a = handle_expected_kernel_access_fault(&t, &l, satp, satp, KERNEL_PROBE_VA, &ev);
    assert!(a.same_tree_ok && a.u_flag_ok && a.fault_ok);
    assert_eq!(exit_code(a), 0);
    let a = handle_expected_kernel_access_fault(&t, &l, satp, satp + 1, KERNEL_PROBE_VA + 8, &ev);
    assert!(!a.same_tree_ok && a.u_flag_ok && !a.fault_ok);
    assert_eq!(exit_code(a), 1);
    ev.record_unexpected_ecall(9);
    assert_eq!(ev.unexpected_syscall_code, 9);
    assert!(!handle_expected_kernel_access_fault(&t, &l, satp, satp, KERNEL_PROBE_VA, &ev).fault_ok);

    assert!(matches!(handle_supervisor_trap(LOAD_PAGE_FAULT, 0x8000_0000, 0), TrapDecision::ExpectedAccessFault { stval: 0x8000_0000 }));
    assert!(matches!(handle_supervisor_trap(USER_ENV_CALL, 0, 3), TrapDecision::UnexpectedEcall { a0: 3 }));
    assert!(matches!(handle_supervisor_trap(2, 0, 0), TrapDecision::Unexpected { scause: 2 }));
    let e = prepare_user_frame();
    assert_eq!((e.epc, e.sp), (USER_TEXT_VA, USER_STACK_TOP));
}

fn lazy_layout() -> LazyLayout {
    LazyLayout {
        root: 0x8010_0000,
        low_l1: 0x8010_1000,
        dev_l0: 0x8010_2000,
        user_l0: 0x8010_3000,
        kernel_l1: 0x8010_4000,
        code: 0x8020_0000,
        shared: 0x8020_1000,
        stack: 0x8020_2000,
        pool: 0x8030_0000,
    }
}

fn ecall(k: &mut LazyKernel, nr: usize, a0: u64) -> (EcallOutcome, u64) {
    let mut f = SyscallFrame { epc: 0x40_0000, a0, a7: nr };
    let r = k.handle_user_ecall(&mut f);
    assert_eq!(f.epc, 0x40_0004);
    (r, f.a0)
}

#[test]
fn lazy_pages_are_mapped_on_first_touch() {
    assert_eq!(user_leaf_flags_for_vma(VMA_READ | VMA_WRITE), PTE_U | PTE_A | PTE_R | PTE_W | PTE_D);
    assert_eq!(user_leaf_flags_for_vma(VMA_READ), PTE_U | PTE_A | PTE_R);
    assert_eq!(fault_kind_name(13), "load");
    assert_eq!(fault_kind_name(STORE_PAGE_FAULT), "store");
    assert_eq!(fault_kind_name(12), "unknown");
    assert_eq!(vma_kind_name(1), "heap");
    assert_eq!(vma_kind_name(2), "mmap");
    assert_eq!(vma_flags_name(VMA_READ | VMA_WRITE), "rw");
    assert_eq!(vma_flags_name(0), "-");
    assert_eq!((yes_no(true), yes_no(false)), ("yes", "no"));

    let mut k = LazyKernel::new(lazy_layout());
    let (r, a0) = ecall(&mut k, SYS_SBRK, 2 * 4096);
    assert!(matches!(r, EcallOutcome::Resume));
    assert_eq!(a0, USER_HEAP_BASE);
    assert_eq!(k.heap_break, USER_HEAP_BASE + 2 * 4096);
    let (r, a0) = ecall(&mut k, SYS_MMAP, 4096 + 1);
    assert!(matches!(r, EcallOutcome::Resume));
    assert_eq!(a0, USER_MMAP_BASE);
    assert_eq!(k.next_mmap_base, USER_MMAP_BASE + 2 * 4096);
    assert!(!pte_is_valid(k.walk_virtual(USER_HEAP_BASE).leaf_pte));
    assert_eq!(k.stats.page_alloc_count, 0);

    // Outside every reservation: refused.
    assert!(k.handle_lazy_page_fault(13, USER_HEAP_BASE + 5 * 4096).is_err());
    let rep = k.handle_lazy_page_fault(13, USER_HEAP_BASE + 8).unwrap();
    assert_eq!(rep.fault_va, USER_HEAP_BASE);
    assert_eq!(rep.pa, 0x8030_0000);
    assert!(!pte_is_valid(rep.before.leaf_pte));
    assert!(pte_is_valid(rep.after.leaf_pte));
    assert_eq!(pte_to_pa(k.walk_virtual(USER_HEAP_BASE).leaf_pte), 0x8030_0000);
    // Mapped already: a second fault on the page is refused.
    assert!(k.handle_lazy_page_fault(15, USER_HEAP_BASE).is_err());
    k.handle_lazy_page_fault(15, USER_HEAP_BASE + 4096).unwrap();
    k.handle_lazy_page_fault(13, USER_MMAP_BASE).unwrap();
    let rep = k.handle_lazy_page_fault(15, USER_MMAP_BASE + 4096 + 16).unwrap();
    assert_eq!(rep.pa, 0x8030_0000 + 3 * 4096);
    assert_eq!(k.stats.page_alloc_count, 4);

    let shared = LazyShared {
        stage_marker: STAGE_DONE,
        heap_base: USER_HEAP_BASE,
        mmap_base: USER_MMAP_BASE,
        heap_page0_readback: HEAP_PAGE0_VALUE,
        heap_page1_readback: HEAP_PAGE1_VALUE,
        mmap_page0_initial: 0,
        mmap_page0_readback: MMAP_PAGE0_VALUE,
        mmap_page1_initial: 0,
        mmap_page1_readback: MMAP_PAGE1_VALUE,
        exit_code: 0,
    };
    let (r, _) = ecall(&mut k, SYS_EXIT, 0);
    assert!(matches!(r, EcallOutcome::Exit { code: 0 }));
    let a = k.finish_user_program(0, &shared);
    assert!(a.reservation_ok && a.mapped_ok && a.user_ok);
    // Six faults were taken, two of them refused.
    assert!(!a.fault_path_ok);
    assert_eq!(k.stats.page_fault_count, 6);
    let a = k.finish_user_program(1, &LazyShared::zeroed());
    assert!(!a.user_ok);
    let (r, _) = ecall(&mut k, 42, 0);
    assert!(matches!(r, EcallOutcome::UnexpectedSyscall));
    let (r, _) = ecall(&mut k, SYS_SBRK, USER_HEAP_LIMIT);
    assert!(matches!(r, EcallOutcome::Fail { .. }));
}

use lib::lab4::kernel_task3::{
    make_cow_pte, make_writable_data_pte, other_pid, CowKernel, CowTrapOutcome, Layout as CowLayout, ProcFrame,
    CHILD_WRITE_VALUE, INITIAL_VALUE, PARENT_WRITE_VALUE, STORE_PAGE_FAULT as COW_STORE_FAULT, SYS_EXIT as COW_EXIT,
    SYS_FORK, SYS_REPORT, SYS_YIELD as COW_YIELD, USER_DATA_VA as COW_DATA_VA, USER_ENV_CALL as COW_ECALL,
};
use lib::lab4::kernel_task4::{
    handle_user_ecall as swap_ecall, is_workingset_va, working_page_index, working_page_va, EcallOutcome as SwapEcall,
    FaultResolution, Layout as SwapLayout, SwapKernel, UserSharedData as SwapShared, PAGE0_VALUE, PAGE2_VALUE,
    STAGE_DONE as SWAP_DONE, SYS_EXIT as SWAP_EXIT, USER_WORKINGSET_BASE,
};

fn cow_layout() -> CowLayout {
    CowLayout {
        dev_l0: 0x8010_0000,
        kernel_l1: 0x8010_1000,
        roots: [0x8010_2000, 0x8010_3000],
        low_l1s: [0x8010_4000, 0x8010_5000],
        user_l0s: [0x8010_6000, 0x8010_7000],
        code: 0x8020_0000,
        pool: 0x8030_0000,
    }
}

fn run(o: CowTrapOutcome) -> (usize, ProcFrame) {
    match o {
        CowTrapOutcome::Run { pid, frame, .. } => (pid, frame),
        CowTrapOutcome::Finish => panic!("finished early"),
        CowTrapOutcome::Fail { reason } => panic!("{}", reason),
    }
}

fn data_index(k: &CowKernel, pid: usize) -> usize {
    let pa = pte_to_pa(k.walk_proc_virtual(pid, COW_DATA_VA).leaf_pte);
    ((pa - k.layout.pool) / 4096) as usize
}

#[test]
fn fork_shares_then_copies_on_write() {
    assert_eq!(other_pid(0), 1);
    assert_eq!(other_pid(1), 0);
    assert!(pte_has_write(make_writable_data_pte(0x8030_0000)));
    let cow = make_cow_pte(0x8030_0000);
    assert!(pte_has_cow(cow) && !pte_has_write(cow) && pte_to_pa(cow) == 0x8030_0000);

    let mut k = CowKernel::new(cow_layout());
    assert_eq!(k.frames[data_index(&k, 0)][0], INITIAL_VALUE);
    let mut f = k.proc_frames[0];
    f.a7 = SYS_FORK;
    let (pid, f) = run(k.handle_supervisor_trap(f, COW_ECALL, 0));
    assert_eq!((pid, f.a0), (0, 1));
    assert_eq!(k.refcounts[0], 2);
    assert_eq!(data_index(&k, 0), data_index(&k, 1));
    let mut f = f;
    f.a7 = COW_YIELD;
    let (pid, f) = run(k.handle_supervisor_trap(f, COW_ECALL, 0));
    assert_eq!((pid, f.a0), (1, 0));
    // The child writes: its page is copied.
    let (pid, mut f) = run(k.handle_supervisor_trap(f, COW_STORE_FAULT, COW_DATA_VA));
    assert_eq!(pid, 1);
    assert_ne!(data_index(&k, 0), data_index(&k, 1));
    assert_eq!(k.frames[data_index(&k, 1)][0], INITIAL_VALUE);
    let ci = data_index(&k, 1);
    k.frames[ci][0] = CHILD_WRITE_VALUE;
    assert_eq!(k.frames[data_index(&k, 0)][0], INITIAL_VALUE);
    f.a7 = SYS_REPORT;
    f.a1 = INITIAL_VALUE;
    f.a2 = CHILD_WRITE_VALUE;
    let (_, mut f) = run(k.handle_supervisor_trap(f, COW_ECALL, 0));
    f.a7 = COW_EXIT;
    f.a0 = 0;
    let (pid, f) = run(k.handle_supervisor_trap(f, COW_ECALL, 0));
    assert_eq!(pid, 0);
    // The parent writes: it is the last user of the shared page, which is reused.
    let before = data_index(&k, 0);
    let (pid, mut f) = run(k.handle_supervisor_trap(f, COW_STORE_FAULT, COW_DATA_VA + 8));
    assert_eq!(pid, 0);
    assert_eq!(data_index(&k, 0), before);
    let pi = data_index(&k, 0);
    k.frames[pi][0] = PARENT_WRITE_VALUE;
    f.a7 = SYS_REPORT;
    f.a1 = INITIAL_VALUE;
    f.a2 = INITIAL_VALUE;
    f.a3 = PARENT_WRITE_VALUE;
    let (_, mut f) = run(k.handle_supervisor_trap(f, COW_ECALL, 0));
    f.a7 = COW_EXIT;
    f.a0 = 0;
    assert!(matches!(k.handle_supervisor_trap(f, COW_ECALL, 0), CowTrapOutcome::Finish));
    let a = k.finish_experiment().unwrap();
    assert!(a.fork_ok && a.cow_ok && a.semantics_ok);
    assert_eq!(k.data_page_alloc_count, 2);
}

#[test]
fn cow_faults_elsewhere_are_refused() {
    let mut k = CowKernel::new(cow_layout());
    let f = k.proc_frames[0];
    // The parent's page is writable, not copy-on-write.
    assert!(matches!(k.handle_supervisor_trap(f, COW_STORE_FAULT, COW_DATA_VA), CowTrapOutcome::Fail { .. }));
    let f = k.proc_frames[0];
    assert!(matches!(k.handle_supervisor_trap(f, 13, COW_DATA_VA), CowTrapOutcome::Fail { .. }));
    let mut f = k.proc_frames[0];
    f.a7 = 77;
    assert!(matches!(k.handle_supervisor_trap(f, COW_ECALL, 0), CowTrapOutcome::Fail { .. }));
}

fn swap_layout() -> SwapLayout {
    SwapLayout {
        root: 0x8010_0000,
        low_l1: 0x8010_1000,
        dev_l0: 0x8010_2000,
        user_l0: 0x8010_3000,
        kernel_l1: 0x8010_4000,
        code: 0x8020_0000,
        shared: 0x8020_1000,
        stack: 0x8020_2000,
        frame_pool: 0x8030_0000,
        swap_area: 0x8040_0000,
    }
}

#[test]
fn clock_replacement_swaps_pages_out_and_back() {
    assert!(is_workingset_va(USER_WORKINGSET_BASE + 2 * 4096));
    assert!(!is_workingset_va(USER_WORKINGSET_BASE + 3 * 4096));
    assert_eq!(working_page_index(USER_WORKINGSET_BASE + 4096), 1);
    assert_eq!(working_page_va(2), USER_WORKINGSET_BASE + 2 * 4096);

    let mut k = SwapKernel::new(swap_layout());
    let frame_of = |r: FaultResolution| match r {
        FaultResolution::LazyAllocated { frame_index, .. } => frame_index,
        FaultResolution::SwappedIn { frame_index, .. } => frame_index,
    };
    let r = k.handle_user_page_fault(15, USER_WORKINGSET_BASE).unwrap();
    assert!(matches!(r, FaultResolution::LazyAllocated { .. }));
    k.frames[frame_of(r)][0] = PAGE0_VALUE;
    let r = k.handle_user_page_fault(15, USER_WORKINGSET_BASE + 4096).unwrap();
    assert!(matches!(r, FaultResolution::LazyAllocated { .. }));
    let r = k.handle_user_page_fault(15, USER_WORKINGSET_BASE + 2 * 4096).unwrap();
    assert!(matches!(r, FaultResolution::LazyAllocated { .. }));
    k.frames[frame_of(r)][0] = PAGE2_VALUE;
    assert!(k.evidence.replacement_triggered);
    assert_eq!(k.evidence.evicted_page_index, 0);
    let page2 = k.frames[frame_of(r)][0];
    let r = k.handle_user_page_fault(13, USER_WORKINGSET_BASE + 16).unwrap();
    assert!(matches!(r, FaultResolution::SwappedIn { .. }));
    let page0 = k.frames[frame_of(r)][0];
    assert_eq!(page0, PAGE0_VALUE);
    assert!(k.handle_user_page_fault(13, USER_WORKINGSET_BASE + 3 * 4096).is_err());

    let mut epc = 0x40_0000u64;
    assert!(matches!(swap_ecall(&mut epc, SWAP_EXIT, 0), SwapEcall::Exit { code: 0 }));
    assert_eq!(epc, 0x40_0004);
    assert!(matches!(swap_ecall(&mut epc, 5, 0), SwapEcall::UnexpectedSyscall));
    let shared = SwapShared {
        stage_marker: SWAP_DONE,
        page2_hit_readback: page2,
        page0_swapin_readback: page0,
        page0_hit_again: page0,
        exit_code: 0,
    };
    // A fault outside the working set is refused before it is counted.
    let a = k.finish_user_program(0, &shared);
    assert!(a.replacement_ok && a.swap_pte_ok && a.swapin_ok && a.counts_ok);
    assert_eq!(k.stats.hits, 2);
    assert_eq!(k.stats.swap_outs, 2);
    assert_eq!(k.stats.swap_ins, 1);
    assert_eq!(k.stats.lazy_allocs, 3);
}

#[test]
fn clock_gives_second_chances_in_order() {
    let mut k = SwapKernel::new(swap_layout());
    k.handle_user_page_fault(15, USER_WORKINGSET_BASE).unwrap();
    k.handle_user_page_fault(15, USER_WORKINGSET_BASE + 4096).unwrap();
    assert_eq!(k.clock_hand, 0);
    let pte_of = |k: &SwapKernel, page: usize| k.walk_virtual(working_page_va(page)).leaf_pte;
    assert!(lib::lab4::sv39::pte_accessed(pte_of(&k, 0)) && lib::lab4::sv39::pte_accessed(pte_of(&k, 1)));
    // Both pages were accessed: the hand clears both and comes back to frame 0.
    assert_eq!(k.evict_with_clock(2), Ok(0));
    assert_eq!((k.stats.clock_scans, k.stats.second_chances, k.stats.swap_outs), (3, 2, 1));
    assert_eq!(k.clock_hand, 1);
    assert!(!k.working_pages[0].resident && k.working_pages[0].has_swap && k.working_pages[0].swap_slot == 0);
    assert!(!k.resident_frames[0].in_use);
    assert_eq!(pte_of(&k, 0), (0 << 10) | 256);
    assert!(!lib::lab4::sv39::pte_accessed(pte_of(&k, 1)));
    // Page 2 takes the free frame; the hand now points at frame 1, whose page
    // lost its A bit, so it goes at once.
    k.handle_user_page_fault(15, USER_WORKINGSET_BASE + 2 * 4096).unwrap();
    assert_eq!(k.evict_with_clock(0), Ok(1));
    assert_eq!((k.stats.clock_scans, k.stats.second_chances, k.stats.swap_outs), (4, 2, 2));
    assert_eq!(k.clock_hand, 0);
    assert!(k.working_pages[1].has_swap && k.working_pages[1].swap_slot == 1);
    assert_eq!(pte_of(&k, 1), (1 << 10) | 256);
    assert!(lib::lab4::sv39::pte_accessed(pte_of(&k, 2)));
}

use lib::lab4::kernel_task2::SupervisorTrapOutcome;

#[test]
fn supervisor_trap_dispatch_by_cause() {
    let mut k = LazyKernel::new(lazy_layout());
    let mut f = SyscallFrame { epc: 0x40_0000, a0: 4096, a7: SYS_SBRK };
    match k.handle_supervisor_trap(&mut f, 8, 0) {
        SupervisorTrapOutcome::Ecall(EcallOutcome::Resume) => {},
        _ => panic!("sbrk should resume"),
    }
    assert_eq!((f.epc, f.a0), (0x40_0004, USER_HEAP_BASE));
    let before = f;
    match k.handle_supervisor_trap(&mut f, 15, USER_HEAP_BASE + 8) {
        SupervisorTrapOutcome::PageFault(Ok(rep)) => {
            assert_eq!(rep.fault_va, USER_HEAP_BASE);
            assert_eq!(rep.pa, 0x8030_0000);
        },
        _ => panic!("the heap fault should map a page"),
    }
    assert_eq!((f.epc, f.a0), (before.epc, before.a0));
    // The same page again, and a page outside every VMA, are refused.
    assert!(matches!(k.handle_supervisor_trap(&mut f, 13, USER_HEAP_BASE), SupervisorTrapOutcome::PageFault(Err(_))));
    assert!(matches!(k.handle_supervisor_trap(&mut f, 13, 0x10), SupervisorTrapOutcome::PageFault(Err(_))));
    assert!(matches!(k.handle_supervisor_trap(&mut f, 2, 0), SupervisorTrapOutcome::Unexpected));
    assert_eq!(f.epc, before.epc);
}
