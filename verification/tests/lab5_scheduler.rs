use lib::common::abi::TrapFrame;
use lib::lab5::kernel_task2::{
    build_initial_frame, phase_def, service_share_tenths, task_def, task_role, Scheduler, SchedulerPolicy,
    SwitchReason, TaskClass, TrapOutcome, MACHINE_TIMER_INTERRUPT, SYS_FINISH, SYS_YIELD, USER_ENV_CALL,
};

fn frames() -> [TrapFrame; 3] {
    [
        build_initial_frame(1, 2, 0x8100_0000, 0x8000_1000),
        build_initial_frame(1, 2, 0x8200_0000, 0x8000_2000),
        build_initial_frame(1, 2, 0x8300_0000, 0x8000_3000),
    ]
}

fn call(s: &mut Scheduler, nr: usize, a0: usize, now: u64) -> TrapOutcome {
    let mut f = TrapFrame::zeroed();
    f.a7 = nr;
    f.a0 = a0;
    f.mepc = 0x8000_0100;
    s.dispatch_trap(&mut f, USER_ENV_CALL, now)
}

fn tick(s: &mut Scheduler, now: u64) -> TrapOutcome {
    let mut f = TrapFrame::zeroed();
    f.mepc = 0x8000_0200;
    s.dispatch_trap(&mut f, MACHINE_TIMER_INTERRUPT, now)
}

fn switched_to(o: TrapOutcome) -> usize {
    match o {
        TrapOutcome::Switch(r) => r.to,
        TrapOutcome::ExitSwitch(_, r) => r.to,
        _ => panic!("expected a switch"),
    }
}

#[test]
fn definitions_and_shares() {
    let t = task_def(0);
    assert_eq!((t.id, t.priority), (1, 0));
    assert!(t.class == TaskClass::Interactive);
    assert_eq!(task_def(2).priority, 2);
    assert_eq!(TaskClass::Compute.as_str(), "compute");
    assert!(phase_def(0).1 == SchedulerPolicy::RoundRobin);
    assert!(phase_def(1).1 == SchedulerPolicy::StaticPriority);
    assert_eq!(SchedulerPolicy::StaticPriority.as_str(), "static_priority");
    assert_eq!(SwitchReason::TaskExit.as_str(), "task_exit");
    assert_eq!(task_role(1), "cpu-bound short compute workload");
    assert_eq!(task_role(7), "unknown");
    assert_eq!(service_share_tenths(200, 400), 500);
    assert_eq!(service_share_tenths(1, 3), 333);
    assert_eq!(service_share_tenths(5, 0), 0);
    assert_eq!(service_share_tenths(u64::MAX, u64::MAX), 1000);
    let f = build_initial_frame(7, 8, 9, 10);
    assert_eq!((f.gp, f.tp, f.user_sp, f.mepc, f.a0), (7, 8, 9, 10, 0));
}

#[test]
fn round_robin_then_static_priority() {
    let mut s = Scheduler::new();
    assert_eq!(s.current_task(), None);
    assert!(matches!(tick(&mut s, 50), TrapOutcome::NoCurrentTask));

    // Round robin.
    assert_eq!(s.start_phase(0, 100, &frames()), 0);
    assert_eq!(s.current_phase_name(), phase_def(0).0);
    let o = tick(&mut s, 200);
    assert!(matches!(o, TrapOutcome::Switch(r) if r.reason == SwitchReason::TimeSlice && r.from == 0 && r.to == 1));
    assert_eq!(switched_to(call(&mut s, SYS_YIELD, 0, 300)), 2);
    assert!(matches!(call(&mut s, 9, 0, 310), TrapOutcome::UnsupportedSyscall(9)));
    assert_eq!(switched_to(call(&mut s, SYS_FINISH, 0, 400)), 0);
    assert_eq!(switched_to(call(&mut s, SYS_FINISH, 0, 500)), 1);
    assert!(matches!(call(&mut s, SYS_FINISH, 0, 600), TrapOutcome::ExitLast(1)));
    assert_eq!(s.complete_phase_or_finish(), Some(1));
    let rr = s.phase_summaries[0];
    assert_eq!(rr.task_stats[0].runtime_ticks, 200);
    assert_eq!(rr.task_stats[0].finish_tick, 400);
    assert_eq!(rr.task_stats[2].finish_order, 1);
    assert_eq!(rr.time_slice_switches, 1);
    assert_eq!(rr.explicit_yield_switches, 1);
    assert_eq!(rr.task_exit_switches, 2);

    // Static priority: the interactive task keeps the CPU at a tick.
    assert_eq!(s.start_phase(1, 1000, &frames()), 0);
    assert!(s.current_policy() == SchedulerPolicy::StaticPriority);
    assert!(matches!(tick(&mut s, 1100), TrapOutcome::Resume));
    assert_eq!(switched_to(call(&mut s, SYS_FINISH, 0, 1200)), 1);
    assert_eq!(switched_to(tick(&mut s, 1300)), 2);
    assert_eq!(switched_to(call(&mut s, SYS_FINISH, 0, 1400)), 1);
    assert!(matches!(call(&mut s, SYS_FINISH, 0, 1500), TrapOutcome::ExitLast(1)));
    assert_eq!(s.complete_phase_or_finish(), None);
    let prio = s.phase_summaries[1].task_stats[0];
    assert_eq!((prio.runtime_ticks, prio.finish_tick), (200, 200));

    let report = s.cross_phase_comparison();
    assert_eq!(report.rr_service_share_tenths, 500);
    assert_eq!(report.prio_service_share_tenths, 1000);
    assert!(report.high_priority_favored && report.timing_diff_visible && report.low_priority_completed);
}
