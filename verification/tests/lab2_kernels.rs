use lib::common::abi::TrapFrame;
use lib::lab2::kernel_task1::{
    dispatch_syscall, qemu_exit_value, sys_write, validate_user_output_ptr, MemoryLayout, SyscallEffect, TaskInfo,
    EFAULT, EINVAL, ENOSYS, SYS_GET_TASKINFO, SYS_SHUTDOWN, SYS_WRITE,
};
use lib::lab2::kernel_task4::{
    cause_code, exception_name, medeleg_mask, read_user_instruction, setup_page_tables, user_alias, USER_BASE,
};
use lib::lab2::task3::{next_frame_pointer_valid, UserStack};

fn layout() -> MemoryLayout {
    MemoryLayout { image_end: 0x8010_0000, user_stack_bottom: 0x8020_0000, user_stack_top: 0x8020_1000 }
}

#[test]
fn write_checks_the_buffer() {
    let l = layout();
    assert_eq!(sys_write(0x8000_1000, 0, &l), 0);
    assert_eq!(sys_write(0x8000_1000, 16, &l), 16);
    assert_eq!(sys_write(0, 16, &l), EFAULT);
    assert_eq!(sys_write(0x7fff_fff0, 32, &l), EFAULT);
    assert_eq!(sys_write(0x800f_fff8, 16, &l), EFAULT);
    assert_eq!(sys_write(usize::MAX - 4, 16, &l), EFAULT);
}

#[test]
fn output_pointer_checks() {
    let l = layout();
    assert_eq!(validate_user_output_ptr(0, 40, 8, &l), Err(EFAULT));
    assert_eq!(validate_user_output_ptr(0x8020_0004, 40, 8, &l), Err(EINVAL));
    assert_eq!(validate_user_output_ptr(0x8020_0ff8, 40, 8, &l), Err(EFAULT));
    assert_eq!(validate_user_output_ptr(0x8020_0100, 40, 8, &l), Ok(()));
}

#[test]
fn syscall_dispatch() {
    let l = layout();
    let mut f = TrapFrame::zeroed();
    f.a7 = SYS_GET_TASKINFO;
    f.a0 = 0x8020_0100;
    match dispatch_syscall(&mut f, &l) {
        SyscallEffect::CopyTaskInfo { addr, info } => {
            assert_eq!(addr, 0x8020_0100);
            assert_eq!(info.task_id, 1);
            assert_eq!(info.name(), "kernel_task1_user");
        },
        _ => panic!("expected a copy"),
    }
    assert_eq!(f.a0, 0);
    f.a7 = SYS_WRITE;
    f.a0 = 0;
    f.a1 = 4;
    assert!(matches!(dispatch_syscall(&mut f, &l), SyscallEffect::Done));
    assert_eq!(f.a0 as isize, EFAULT);
    f.a7 = SYS_SHUTDOWN;
    f.a0 = 3;
    assert!(matches!(dispatch_syscall(&mut f, &l), SyscallEffect::Shutdown { code: 3 }));
    f.a7 = 99;
    assert!(matches!(dispatch_syscall(&mut f, &l), SyscallEffect::Unknown { nr: 99 }));
    assert_eq!(f.a0 as isize, ENOSYS);
}

#[test]
fn exit_values_and_empty_info() {
    assert_eq!(qemu_exit_value(0), 0x5555);
    assert_eq!(qemu_exit_value(1), 0x1_3333);
    let info = TaskInfo::empty();
    assert_eq!(info.task_id, 0);
    assert_eq!(info.name(), "");
}

#[test]
fn exception_causes() {
    assert_eq!(cause_code(0x8000_0000_0000_0005), 5);
    assert_eq!(cause_code(15), 15);
    assert_eq!(exception_name(2), "Illegal Instruction");
    assert_eq!(exception_name(15), "Store/AMO Page Fault");
    assert_eq!(exception_name(8), "Environment Call from U-mode");
    assert_eq!(exception_name(3), "Other Exception");
    assert_eq!(medeleg_mask(), (1 << 2) | (1 << 12) | (1 << 13) | (1 << 15) | (1 << 8));
    assert_eq!(user_alias(0x8000_1234), USER_BASE + 0x1234);
}

#[test]
fn page_tables_map_kernel_user_and_devices() {
    let (root, l1, l0) = setup_page_tables(0x8030_0000, 0x8030_1000);
    // Kernel gigapage at 0x8000_0000 (entry 2), user alias (entry 1).
    assert_eq!(root[2], ((0x8000_0000u64 >> 12) << 10) | 238 | 1);
    assert_eq!(root[1], ((0x8000_0000u64 >> 12) << 10) | 222 | 1);
    assert_eq!(root[0], ((0x8030_0000u64 >> 12) << 10) | 1);
    assert_eq!(l1[128], ((0x1000_0000u64 >> 12) << 10) | 230 | 1);
    assert_eq!(l0[256], ((0x0010_0000u64 >> 12) << 10) | 230 | 1);
    assert_eq!(root.iter().filter(|e| **e != 0).count(), 3);
}

#[test]
fn instruction_words_are_read_little_endian() {
    let mem = [0x73u8, 0x00, 0x10, 0x00, 0xff];
    assert_eq!(read_user_instruction(USER_BASE, &mem), Some(0x0010_0073));
    assert_eq!(read_user_instruction(USER_BASE + 2, &mem), Some(0x0010));
    assert_eq!(read_user_instruction(USER_BASE + 1, &mem), None);
    assert_eq!(read_user_instruction(USER_BASE - 4, &mem), None);
}

#[test]
fn frame_pointer_walk() {
    // Two frames: fp 0x1040 -> record (0x1080, ra 0x8000_0100), fp 0x1080 -> record (0, ra 0x8000_0200).
    let bottom = 0x1000usize;
    let mut words = vec![0usize; 0x100 / 8];
    words[(0x1040 - 16 - bottom) / 8] = 0x1080;
    words[(0x1040 - 8 - bottom) / 8] = 0x8000_0100;
    words[(0x1080 - 16 - bottom) / 8] = 0;
    words[(0x1080 - 8 - bottom) / 8] = 0x8000_0200;
    let stack = UserStack { bottom, top: bottom + 0x100, image_end: 0x8010_0000, words };
    let trace = stack.print_stack_trace(0x1040);
    assert_eq!(trace.len(), 2);
    assert_eq!(trace[0].return_address, 0x8000_0100);
    assert_eq!(trace[1].fp, 0x1080);
    assert_eq!(trace[1].return_address, 0x8000_0200);
    assert!(next_frame_pointer_valid(0x1040, 0x1080, 0x1100));
    assert!(!next_frame_pointer_valid(0x1040, 0x1040, 0x1100));
    assert!(!next_frame_pointer_valid(0x1040, 0x1084, 0x1100));
}

use lib::lab2::kernel_task4::{ExceptionSuite, SuiteOutcome};

#[test]
fn exception_suite_write_leaves_the_counters() {
    let mut s = ExceptionSuite::new();
    let user_end = USER_BASE + 0x10_0000;
    let mut f = TrapFrame::zeroed();
    f.a7 = 0;
    f.a0 = 0x1000;
    f.a1 = 4;
    assert!(s.handle_syscall(&mut f, user_end) == SuiteOutcome::Answered);
    assert_eq!(f.a0 as isize, -14);
    let st = s.stats;
    assert_eq!(
        (st.illegal_instruction, st.store_page_fault, st.load_page_fault, st.instruction_page_fault, st.other_faults, st.clean_exits),
        (0, 0, 0, 0, 0, 0)
    );
    let mut f = TrapFrame::zeroed();
    f.a0 = USER_BASE as usize;
    f.a1 = 4;
    assert!(s.handle_syscall(&mut f, user_end) == SuiteOutcome::Write { addr: USER_BASE, len: 4 });
    assert_eq!(f.a0, 4);
    assert_eq!(s.stats.clean_exits, 0);
    assert_eq!(s.current_app_index, 0);
}
