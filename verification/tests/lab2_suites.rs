use lib::common::abi::{make_request, TrapFrame, UserCall};
use lib::common::text::{padded_bytes_to_str, zero_terminated_len};
use lib::common::time::saturating_mul;
use lib::common::user_mem::range_ok;
use lib::lab2::kernel_task1::syscall;
use lib::lab2::kernel_task1::syscall::{describe_error, get_taskinfo, shutdown};
use lib::lab2::kernel_task1::{padded_name, SYS_GET_TASKINFO as K1_GET, SYS_SHUTDOWN as K1_SHUTDOWN, SYS_WRITE as K1_WRITE};
use lib::lab2::kernel_task2::{
    initial_tasks, pass_fail, user_range_valid, validated_user_mut, Kernel, KernelEffect, SyscallStats, TaskStatus,
    EFAULT, EINVAL, ENOSYS, SYS_EXIT, SYS_GET_TASKINFO, SYS_WRITE,
};
use lib::lab2::kernel_task3::{
    ticks_to_us, AppTimingSummary, KernelEffect as RunEffect, RunStatus, Suite, TOTAL_RUNS,
};

const USER_END: usize = 0x8010_0000;

#[test]
fn user_call_stubs() {
    assert!(matches!(syscall::write(0x8000_0000, 0), UserCall::Immediate(0)));
    match syscall::write(0x8000_0100, 5) {
        UserCall::Trap(r) => {
            assert_eq!(r.nr, K1_WRITE);
            assert_eq!(r.a0, 0x8000_0100);
            assert_eq!(r.a1, 5);
        },
        _ => panic!("expected a trap"),
    }
    let r = get_taskinfo(0x8000_2000);
    assert_eq!((r.nr, r.a0), (K1_GET, 0x8000_2000));
    let r = shutdown(7);
    assert_eq!((r.nr, r.a0), (K1_SHUTDOWN, 7));
    let r = make_request(3, 1, 2, 3, 4, 5);
    assert_eq!((r.nr, r.a0, r.a4), (3, 1, 5));
    assert_eq!(describe_error(EFAULT), "bad user pointer");
    assert_eq!(describe_error(EINVAL), "invalid argument");
    assert_eq!(describe_error(ENOSYS), "unknown syscall");
    assert_eq!(describe_error(-1), "unexpected error");
}

#[test]
fn names_and_ranges() {
    let name = padded_name(b"io_burst");
    assert_eq!(&name[..8], b"io_burst");
    assert!(name[8..].iter().all(|b| *b == 0));
    let long = padded_name(&[b'x'; 40]);
    assert_eq!(long[30], b'x');
    assert_eq!(long[31], 0);
    assert_eq!(zero_terminated_len(b"abc\0def"), 3);
    assert_eq!(zero_terminated_len(b"abc"), 3);
    assert_eq!(padded_bytes_to_str(b"hi\0\0"), "hi");
    assert_eq!(padded_bytes_to_str(&[0xff, 0xfe, 0]), "<invalid>");
    assert!(range_ok(10, 0, 20, 30));
    assert!(range_ok(20, 10, 20, 30));
    assert!(!range_ok(21, 10, 20, 30));
    assert!(!range_ok(usize::MAX, 2, 0, usize::MAX));
    assert_eq!(saturating_mul(1 << 40, 1 << 30), u64::MAX);
    assert_eq!(saturating_mul(6, 7), 42);
    assert_eq!(pass_fail(true), "PASS");
    assert_eq!(pass_fail(false), "FAIL");
}

#[test]
fn user_pointer_checks() {
    assert!(user_range_valid(0, 0, USER_END));
    assert!(user_range_valid(0x8000_0000, 16, USER_END));
    assert!(!user_range_valid(0x7fff_fff8, 16, USER_END));
    assert!(!user_range_valid(USER_END - 8, 16, USER_END));
    assert_eq!(validated_user_mut(0, 80, 8, USER_END), Err(EFAULT));
    assert_eq!(validated_user_mut(0x8000_0004, 80, 8, USER_END), Err(EINVAL));
    assert_eq!(validated_user_mut(USER_END - 8, 80, 8, USER_END), Err(EFAULT));
    assert_eq!(validated_user_mut(0x8000_0100, 80, 8, USER_END), Ok(()));
}

#[test]
fn histogram_suite_counts_each_call() {
    let tasks = initial_tasks();
    assert_eq!(tasks[3].name, "illegal_trap");
    let mut k = Kernel::new();
    k.launch_task(0, 100);
    let mut f = TrapFrame::zeroed();
    for _ in 0..3 {
        f.a7 = SYS_WRITE;
        f.a0 = 0x8000_1000;
        f.a1 = 8;
        assert!(matches!(k.handle_syscall(&mut f, 110, USER_END), KernelEffect::ConsoleWrite { addr: 0x8000_1000, len: 8 }));
        assert_eq!(f.a0, 8);
    }
    f.a7 = SYS_WRITE;
    f.a0 = 0;
    f.a1 = 8;
    assert!(matches!(k.handle_syscall(&mut f, 120, USER_END), KernelEffect::Resume));
    assert_eq!(f.a0 as isize, EFAULT);
    f.a7 = SYS_GET_TASKINFO;
    f.a0 = 0x8000_2000;
    match k.handle_syscall(&mut f, 130, USER_END) {
        KernelEffect::CopyTaskInfo { addr, info } => {
            assert_eq!(addr, 0x8000_2000);
            assert_eq!(info.task_id, 1);
            assert_eq!(info.total_syscalls, 5);
            assert_eq!(info.write_calls, 4);
            assert_eq!(info.get_taskinfo_calls, 1);
            assert_eq!(info.error_syscalls, 1);
            assert_eq!(info.elapsed_cycles, 30);
            assert_eq!(info.name(), "io_burst");
        },
        _ => panic!("expected a copy"),
    }
    f.a7 = 9;
    assert!(matches!(k.handle_syscall(&mut f, 140, USER_END), KernelEffect::Resume));
    assert_eq!(f.a0 as isize, ENOSYS);
    let s: SyscallStats = k.current_task().stats;
    assert_eq!(s.unknown_syscalls, 1);
    assert_eq!(s.error_syscalls, 2);
    assert_eq!(s.write_calls(), 4);
    assert_eq!(s.get_taskinfo_calls(), 1);
    f.a7 = SYS_EXIT;
    f.a0 = 0;
    assert!(matches!(k.handle_syscall(&mut f, 150, USER_END), KernelEffect::Launch { index: 1 }));
    let t = k.current_task();
    assert!(t.status == TaskStatus::Exited);
    assert_eq!(t.elapsed_cycles(), 50);
    k.launch_task(3, 200);
    assert!(matches!(k.handle_user_fault(2, 0xdead, 260), KernelEffect::FinalReport));
    let t = k.current_task();
    assert!(t.status == TaskStatus::Faulted);
    assert_eq!((t.fault_cause, t.fault_tval), (2, 0xdead));
    assert_eq!(t.stats.total_syscalls, 0);
}

#[test]
fn timing_suite_summarises_measured_runs() {
    assert_eq!(ticks_to_us(10), 1);
    assert_eq!(ticks_to_us(25), 2);
    let mut s = Suite::new();
    let ticks = [1000u64, 30, 50, 40];
    for i in 0..TOTAL_RUNS {
        s.launch_run(i, 1000 * (i as u64 + 1));
        let end = 1000 * (i as u64 + 1) + ticks[i % 4];
        let e = if i == 6 {
            s.handle_user_fault(2, 0, end)
        } else {
            s.finish_current_run(0, end)
        };
        if i + 1 < TOTAL_RUNS {
            assert!(matches!(e, RunEffect::Launch { index } if index == i + 1));
        } else {
            assert!(matches!(e, RunEffect::FinalReport));
        }
    }
    let a = s.summarize_app(0);
    assert_eq!((a.runs, a.successful_runs), (3, 3));
    assert_eq!((a.min_ticks, a.max_ticks, a.total_ticks), (30, 50, 120));
    assert_eq!((a.min_us, a.max_us, a.total_us), (3, 5, 12));
    assert_eq!(a.avg_ticks(), 40);
    assert_eq!(a.avg_us(), 4);
    assert_eq!(a.spread_us(), 2);
    assert_eq!(a.spread_basis_points(), 5000);
    let b = s.summarize_app(1);
    assert_eq!((b.runs, b.successful_runs), (3, 2));
    assert!(!s.every_run_exited_successfully());
    assert!(s.every_run_has_nonzero_timing());
    assert!(!s.each_app_has_expected_run_count());
    assert!(s.runs[6].status == RunStatus::Faulted);
    let e = AppTimingSummary::empty();
    assert_eq!(e.avg_us(), 0);
    assert_eq!(e.spread_basis_points(), 0);
}

#[test]
fn suites_start_from_their_tables() {
    let k = Kernel::new();
    assert_eq!(k.current, 0);
    for (i, t) in k.tasks.iter().enumerate() {
        assert_eq!(t.id, i as u64 + 1);
        assert_eq!((t.stats.total_syscalls, t.start_cycle, t.end_cycle, t.exit_code), (0, 0, 0, 0));
        assert!(t.status == TaskStatus::Ready);
    }
    assert_eq!(k.tasks[1].name, "compute_spin");
    let s = Suite::new();
    assert_eq!(s.current_run, 0);
    for (i, r) in s.runs.iter().enumerate() {
        assert_eq!((r.app_index, r.round, r.counted), (i / 4, i % 4, i % 4 != 0));
        assert!(r.status == RunStatus::Scheduled);
        assert_eq!(r.start_mtime, 0);
    }
    assert_eq!(s.current_app().id, 1);
}

use lib::lab2::task2::{task_configs, StatsSuite, TaskInfo as StatsInfo, TaskStatus as StatsStatus};

#[test]
fn statistics_suite_counts_and_checks() {
    let configs = task_configs();
    assert_eq!(configs[2].name, "info_flood");
    assert_eq!(StatsInfo::empty().total_syscalls, 0);
    let mut k = StatsSuite::new(100);
    let mut f = TrapFrame::zeroed();
    for _ in 0..24 {
        f.a7 = SYS_WRITE;
        f.a0 = 0x8000_1000;
        f.a1 = 3;
        assert!(matches!(k.handle_syscall(&mut f, 110, USER_END), KernelEffect::ConsoleWrite { addr: 0x8000_1000, len: 3 }));
        assert_eq!(f.a0, 3);
    }
    f.a7 = SYS_EXIT;
    f.a0 = 0;
    assert!(matches!(k.handle_syscall(&mut f, 200, USER_END), KernelEffect::Launch { index: 1 }));
    assert_eq!((k.stats[0].total_syscalls, k.stats[0].write_calls, k.stats[0].error_syscalls), (25, 24, 0));
    k.launch_task(1, 300);
    f.a7 = SYS_EXIT;
    f.a0 = 0;
    assert!(matches!(k.handle_syscall(&mut f, 5300, USER_END), KernelEffect::Launch { index: 2 }));
    k.launch_task(2, 6000);
    for n in 0..20u64 {
        f.a7 = SYS_GET_TASKINFO;
        f.a0 = 0x8000_2000;
        match k.handle_syscall(&mut f, 6010 + n, USER_END) {
            KernelEffect::CopyTaskInfo { addr, info } => {
                assert_eq!(addr, 0x8000_2000);
                assert_eq!((info.task_id, info.get_taskinfo_calls, info.elapsed_cycles), (3, n + 1, 10 + n));
                assert_eq!(info.name(), "info_flood");
            },
            _ => panic!("expected a copy"),
        }
        assert_eq!(f.a0, 0);
    }
    // A misaligned record and an unknown call both fail and are counted.
    f.a7 = SYS_GET_TASKINFO;
    f.a0 = 0x8000_2004;
    assert!(matches!(k.handle_syscall(&mut f, 6100, USER_END), KernelEffect::Resume));
    assert_eq!(f.a0 as isize, EINVAL);
    f.a7 = 7;
    assert!(matches!(k.handle_syscall(&mut f, 6100, USER_END), KernelEffect::Resume));
    assert_eq!(f.a0 as isize, ENOSYS);
    assert_eq!((k.stats[2].error_syscalls, k.stats[2].get_taskinfo_calls, k.stats[2].total_syscalls), (2, 21, 22));
    f.a7 = SYS_EXIT;
    f.a0 = 0;
    assert!(matches!(k.handle_syscall(&mut f, 6200, USER_END), KernelEffect::Launch { index: 3 }));
    k.launch_task(3, 7000);
    assert!(matches!(k.handle_user_fault(2, 0x8000_3000, 7010), KernelEffect::FinalReport));
    assert!(k.stats[3].status == StatsStatus::Faulted);
    let c = k.final_checks();
    assert!(c.io_pass && c.compute_pass && c.illegal_pass && c.trend_pass);
    assert!(!c.info_pass && !c.all_pass());
    assert_eq!(k.stats[1].elapsed_cycles(), 5000);
}
