use lib::common::abi::TrapFrame;
use lib::lab3::kernel_task1::{
    task_def, SwitchReason, TaskState as TraceState, TraceKernel, TraceOutcome, MACHINE_TIMER_INTERRUPT as K1_TIMER,
    NO_TASK, SYS_FINISH as K1_FINISH, SYS_YIELD, USER_ENV_CALL as K1_ECALL,
};
use lib::lab3::task1::{
    build_task, next_slice_deadline, phase_label, workload_name, FinishOutcome, FpPreemptionKernel, Phase, TaskLaunch,
    TaskState, TimerOutcome, TrapOutcome, MACHINE_TIMER_INTERRUPT, SYS_FINISH, SYS_WRITE, TIME_SLICE_TICKS,
    USER_ENV_CALL,
};

fn frame_at(mepc: usize) -> TrapFrame {
    let mut f = TrapFrame::zeroed();
    f.mepc = mepc;
    f
}

#[test]
fn switch_trace_kernel_round_trip() {
    assert_eq!(task_def(0), (1, "yield_demo"));
    assert_eq!(task_def(1), (2, "timeslice_demo"));
    assert_eq!(SwitchReason::TimeSlice.as_str(), "time_slice");
    assert_eq!(SwitchReason::Boot.as_str(), "boot");
    let mut k = TraceKernel::initialize_tasks([frame_at(0x100), frame_at(0x200)]);
    assert_eq!(k.current_task, NO_TASK);
    let mut f = frame_at(0x104);
    assert!(k.handle_explicit_yield(&mut f) == TraceOutcome::Fatal);
    k.start(0);
    assert_eq!(k.next_runnable_excluding(0), Some(1));

    // Task 0 yields: its registers are kept and task 1's are loaded.
    let mut f = frame_at(0x150);
    f.a7 = SYS_YIELD;
    match k.dispatch_trap(&mut f, K1_ECALL) {
        TraceOutcome::Switch(t) => {
            assert_eq!((t.from, t.to, t.switch_index), (0, 1, 1));
            assert!(t.reason == SwitchReason::ExplicitYield);
            assert_eq!(t.from_mepc, 0x154);
            assert_eq!(t.to_mepc, 0x200);
            assert!(t.emit && !t.limit_reached);
        },
        _ => panic!("expected a switch"),
    }
    assert_eq!(f.mepc, 0x200);
    assert_eq!(k.tasks[0].frame.mepc, 0x154);

    // A timer interrupt moves back to task 0.
    let mut f2 = frame_at(0x260);
    match k.dispatch_trap(&mut f2, K1_TIMER) {
        TraceOutcome::Switch(t) => {
            assert!(t.reason == SwitchReason::TimeSlice);
            assert_eq!((t.from, t.to), (1, 0));
        },
        _ => panic!("expected a switch"),
    }
    assert_eq!(f2.mepc, 0x154);

    // An unknown call is refused.
    let mut f3 = frame_at(0x300);
    f3.a7 = 7;
    assert!(k.dispatch_trap(&mut f3, K1_ECALL) == TraceOutcome::UnsupportedSyscall(7));
    assert_eq!(f3.a0 as isize, -38);
    assert!(k.dispatch_trap(&mut f3, 2) == TraceOutcome::Fatal);

    // Task 0 finishes; task 1 finishes; everything is done.
    let mut f4 = frame_at(0x400);
    f4.a7 = K1_FINISH;
    f4.a0 = 5;
    assert!(matches!(k.dispatch_trap(&mut f4, K1_ECALL), TraceOutcome::Switch(t) if t.reason == SwitchReason::TaskExit));
    assert_eq!(k.current_task, 1);
    let mut f5 = frame_at(0x500);
    f5.a7 = K1_FINISH;
    f5.a0 = 6;
    assert!(k.dispatch_trap(&mut f5, K1_ECALL) == TraceOutcome::AllFinished);
    assert!(k.tasks[0].state == TraceState::Finished && k.tasks[1].state == TraceState::Finished);
    let s = k.finish_experiment();
    assert_eq!(s.exit_codes, [5, 6]);
    assert_eq!(s.counters.total_switches, 3);
    assert_eq!(s.counters.timer_interrupt_count, 1);
    assert!(s.explicit_yield_observed && s.time_slice_observed && s.multiple_switches && s.pass);
}

#[test]
fn switch_traces_stop_at_the_limit() {
    let mut k = TraceKernel::initialize_tasks([frame_at(0x100), frame_at(0x200)]);
    k.start(0);
    let mut last = None;
    for _ in 0..12 {
        let mut f = frame_at(0x1000);
        if let TraceOutcome::Switch(t) = k.handle_timer_interrupt(&mut f) {
            last = Some(t);
            if t.switch_index == 10 {
                assert!(t.emit && t.limit_reached);
            }
        }
    }
    let t = last.unwrap();
    assert_eq!(t.switch_index, 12);
    assert!(!t.emit);
    assert_eq!(k.counters.switch_trace_emitted, 10);
}

#[test]
fn fp_preemption_experiment() {
    assert_eq!(workload_name(0), "fp_alpha");
    assert_eq!(workload_name(1), "fp_beta");
    assert_eq!(phase_label(0), "reference");
    assert_eq!(phase_label(1), "preemptive");
    assert_eq!(phase_label(5), "unknown");
    assert_eq!(next_slice_deadline(100), 100 + TIME_SLICE_TICKS);
    assert_eq!(next_slice_deadline(u64::MAX), TIME_SLICE_TICKS - 1);
    let launch = TaskLaunch { entry: 0x8000_4000, gp: 0x11, tp: 0x22, stack_tops: [0x8100_0000, 0x8200_0000] };
    let t = build_task(&launch, 1, 1, 77);
    assert!(t.state == TaskState::Runnable);
    assert_eq!((t.frame.mepc, t.frame.user_sp, t.frame.a0, t.frame.a1, t.frame.a2), (0x8000_4000, 0x8200_0000, 1, 1, 77));

    let mut k = FpPreemptionKernel::new(launch);
    assert!(k.current_phase == Phase::Reference(0));
    let mut f = k.tasks[0].frame;
    f.a7 = SYS_FINISH;
    f.a0 = 1234;
    assert!(k.dispatch_trap(&mut f, USER_ENV_CALL, 0x9000_0000) == TrapOutcome::Finish(FinishOutcome::NextReference(1)));
    assert_eq!(f.a0, 1);
    f.a7 = SYS_FINISH;
    f.a0 = 5678;
    assert!(k.dispatch_trap(&mut f, USER_ENV_CALL, 0x9000_0000) == TrapOutcome::Finish(FinishOutcome::PreemptiveStarted));
    assert!(k.current_phase == Phase::Preemptive);
    assert_eq!(f.a2, 1234);
    assert_eq!(k.tasks[1].frame.a2, 5678);

    // A write in the preemptive phase, a good one and a bad one.
    f.a7 = SYS_WRITE;
    f.a0 = 0x8000_1000;
    f.a1 = 3;
    assert!(k.dispatch_trap(&mut f, USER_ENV_CALL, 0x9000_0000) == TrapOutcome::Write { addr: 0x8000_1000, len: 3 });
    assert_eq!(f.a0, 3);
    f.a7 = SYS_WRITE;
    f.a0 = 0x1000;
    f.a1 = 3;
    assert!(k.dispatch_trap(&mut f, USER_ENV_CALL, 0x9000_0000) == TrapOutcome::WriteRejected);
    assert_eq!(f.a0 as isize, -14);

    // Preemption to task 1 and back.
    let r = k.dispatch_trap(&mut f, MACHINE_TIMER_INTERRUPT, 0x9000_0000);
    assert!(r == TrapOutcome::Timer(TimerOutcome::Switched { to: 1, preempted: true, logged: true, capped: false }));
    f.a7 = SYS_FINISH;
    f.a0 = 5678;
    assert!(k.dispatch_trap(&mut f, USER_ENV_CALL, 0x9000_0000) == TrapOutcome::Finish(FinishOutcome::NextTask(0)));
    let r = k.dispatch_trap(&mut f, MACHINE_TIMER_INTERRUPT, 0x9000_0000);
    assert!(r == TrapOutcome::Timer(TimerOutcome::Switched { to: 0, preempted: false, logged: false, capped: false }));
    f.a7 = SYS_FINISH;
    f.a0 = 1234;
    assert!(k.dispatch_trap(&mut f, USER_ENV_CALL, 0x9000_0000) == TrapOutcome::Finish(FinishOutcome::ExperimentDone));
    assert!(k.dispatch_trap(&mut f, 13, 0x9000_0000) == TrapOutcome::UnexpectedTrap);
    let v = k.finish_experiment();
    assert_eq!(v.matched, [true, true]);
    assert!(v.all_match && v.interrupts_ok && v.switches_ok);
    assert_eq!(k.timer_interrupt_count, 2);
    assert_eq!(k.forced_switch_count, 1);
}

use lib::lab3::task3::{
    kernel_ratio_bp, task_name, AccountingError, AccountingKernel, AccountingOutcome, CpuMode, SYS_FINISH as ACC_FINISH,
    SYS_PROBE, USER_ENV_CALL as ACC_ECALL,
};

#[test]
fn user_and_kernel_time_accounting() {
    assert_eq!(task_name(0), "compute_background");
    assert_eq!(task_name(1), "syscall_probe");
    let mut k = AccountingKernel::new([TrapFrame::zeroed(), TrapFrame::zeroed()], 0, 10);
    assert!(k.cpu_mode == CpuMode::User);
    // The compute task runs 1000 ticks and exits.
    let mut f = TrapFrame::zeroed();
    f.a7 = ACC_FINISH;
    f.a0 = 42;
    assert!(k.dispatch_trap(&mut f, ACC_ECALL, 1010, 1015, 1020) == Ok(AccountingOutcome::Launched(1)));
    assert_eq!((k.stats[0].user_ticks, k.stats[0].kernel_ticks, k.stats[0].result), (1000, 5, 42));
    assert!(k.stats[0].finished);
    // The probing task: two probes, an unknown call, then its exit.
    for t in [1030u64, 1090] {
        let mut f = TrapFrame::zeroed();
        f.a7 = SYS_PROBE;
        f.mepc = 0x100;
        assert!(k.dispatch_trap(&mut f, ACC_ECALL, t, t + 50, 0) == Ok(AccountingOutcome::Resume));
        assert_eq!((f.a0, f.mepc), (0, 0x104));
    }
    let mut f = TrapFrame::zeroed();
    f.a7 = 9;
    assert!(k.dispatch_trap(&mut f, ACC_ECALL, 1150, 1150, 0) == Ok(AccountingOutcome::Resume));
    assert_eq!(f.a0 as isize, -38);
    assert!(k.dispatch_trap(&mut f, 2, 1155, 0, 0) == Ok(AccountingOutcome::UnexpectedTrap));
    // The unexpected trap left the CPU in the kernel.
    assert!(k.dispatch_trap(&mut f, ACC_ECALL, 1156, 0, 0) == Err(AccountingError::NotInUserMode));
    assert!(k.return_to_current_task(1160) == Ok(()));
    let mut f = TrapFrame::zeroed();
    f.a7 = ACC_FINISH;
    assert!(k.dispatch_trap(&mut f, ACC_ECALL, 1170, 1180, 0) == Ok(AccountingOutcome::AllFinished));
    let s = k.stats[1];
    assert_eq!(s.syscalls, 3);
    assert_eq!(s.user_ticks, 10 + 10 + 10 + 5 + 10);
    assert_eq!(s.kernel_ticks, 50 + 50 + 0 + 5 + 10);
    assert_eq!(kernel_ratio_bp(s), 115 * 10_000 / 160);
    let r = k.final_report();
    assert!(r.compute_user_dominant);
    assert!(r.syscall_kernel_ratio_rises);
}

use lib::lab3::task2::{
    BenchOutcome, Phase as BenchPhase, TaskLaunch as BenchLaunch, TaskState as BenchState, YieldBenchKernel, MODE_NOOP,
    MODE_YIELD,
};

#[test]
fn phase_end_restarts_both_tasks() {
    let launch = BenchLaunch { entry: 0x8000_5000, gp: 1, tp: 2, stack_tops: [0x8100_0000, 0x8200_0000] };
    let mut k = YieldBenchKernel::new(launch, 100);
    k.phase_hot_ops = 5;
    k.phase_switches = 3;
    k.current_task = 1;
    k.tasks[0].state = BenchState::Finished;
    let mut f = TrapFrame::zeroed();
    let r = k.finish_phase(&mut f, 150, 200);
    assert!(r == BenchOutcome::BaselineDone { round: 0, elapsed: 50, hot_ops: 5 });
    assert!(k.current_phase == BenchPhase::Yield { round: 0 });
    assert_eq!((k.current_task, k.phase_hot_ops, k.phase_switches, k.phase_start_ticks), (0, 0, 0, 200));
    for i in 0..2 {
        assert!(k.tasks[i].state == BenchState::Runnable);
        assert_eq!((k.tasks[i].frame.a0, k.tasks[i].frame.a1, k.tasks[i].frame.mepc), (i, MODE_YIELD, 0x8000_5000));
    }
    assert_eq!((f.a0, f.a1, f.user_sp), (0, MODE_YIELD, 0x8100_0000));
    assert_eq!((k.round_records[0].baseline_ticks, k.round_records[0].baseline_ops), (50, 5));
    k.phase_hot_ops = 7;
    let r = k.finish_phase(&mut f, 260, 300);
    assert!(r == BenchOutcome::YieldDone { round: 0, elapsed: 60, hot_ops: 7, switches: 0 });
    assert!(k.current_phase == BenchPhase::Baseline { round: 1 });
    assert_eq!(k.tasks[1].frame.a1, MODE_NOOP);
}
