use base_kit::qemu::{
    effective_timeout_sec, finish_launch, launched_result, plan_launch, poll_outcome, poll_step, qemu_args,
    resolve_qemu_bin, skipped_launch, LaunchError, LaunchPlan, PollStep, QemuLaunchOpts,
};

#[test]
fn missing_qemu_plan_skips() {
    let opts = QemuLaunchOpts {
        bin: "qemu-system-base-virt-missing-xyz".into(),
        kernel: Some("/tmp/nope.bin".into()),
        ..Default::default()
    };
    match plan_launch(&opts, false).unwrap() {
        LaunchPlan::Skip(r) => {
            assert!(r.skipped);
            assert!(!r.launched);
            assert_eq!(r.skip_reason.as_deref(), Some("qemu-system-base-virt-missing-xyz not installed"));
            assert_eq!(r.kernel.as_deref(), Some("/tmp/nope.bin"));
            assert_eq!(r.log_path, None);
            assert_eq!(r.timeout_sec, 8);
        }
        LaunchPlan::Run(_) => panic!("expected a skip"),
    }
}

#[test]
fn default_opts() {
    let o = QemuLaunchOpts::default();
    assert_eq!(o.bin, "qemu-system-aarch64");
    assert_eq!(o.machine, "virt");
    assert_eq!(o.cpu, "cortex-a72");
    assert_eq!(o.memory, "256M");
    assert_eq!(o.kernel, None);
    assert_eq!(o.timeout_sec, 8);
    assert_eq!(o.log_path, "qemu.log");
    assert!(o.extra_args.is_empty());
}

#[test]
fn missing_kernel_is_refused() {
    let opts = QemuLaunchOpts::default();
    assert!(matches!(plan_launch(&opts, true), Err(LaunchError::MissingKernel)));
}

#[test]
fn run_plan_builds_the_command() {
    let opts = QemuLaunchOpts {
        kernel: Some("k.bin".into()),
        timeout_sec: 0,
        extra_args: vec!["-s".into(), "-S".into()],
        ..Default::default()
    };
    match plan_launch(&opts, true).unwrap() {
        LaunchPlan::Run(cmd) => {
            assert_eq!(cmd.bin, "qemu-system-aarch64");
            assert_eq!(
                cmd.args,
                vec!["-machine", "virt", "-cpu", "cortex-a72", "-m", "256M", "-nographic", "-kernel", "k.bin", "-s", "-S"]
            );
            assert_eq!(cmd.log_path, "qemu.log");
            assert_eq!(cmd.timeout_sec, 1);
        }
        LaunchPlan::Skip(_) => panic!("expected a run"),
    }
    assert_eq!(qemu_args(&opts, "other").len(), 11);
}

#[test]
fn resolve_bin() {
    assert_eq!(resolve_qemu_bin(Some("/opt/q"), "qemu-system-arm"), "/opt/q");
    assert_eq!(resolve_qemu_bin(None, "qemu-system-arm"), "qemu-system-arm");
}

#[test]
fn polling_decisions() {
    assert_eq!(poll_step(Some(Some(0)), 0, 8), PollStep::Exited(Some(0)));
    assert_eq!(poll_step(Some(None), 99_999, 1), PollStep::Exited(None));
    assert_eq!(poll_step(None, 7_999, 8), PollStep::Wait);
    assert_eq!(poll_step(None, 8_000, 8), PollStep::TimedOut);
    assert_eq!(poll_outcome(PollStep::TimedOut), (Some(124), true));
    assert_eq!(poll_outcome(PollStep::Exited(Some(3))), (Some(3), false));
    assert_eq!(effective_timeout_sec(0), 1);
    assert_eq!(effective_timeout_sec(5), 5);
}

#[test]
fn reports() {
    let opts = QemuLaunchOpts::default();
    let s = skipped_launch(&opts);
    assert_eq!(s.bin, "qemu-system-aarch64");
    assert_eq!(s.exit_code, None);
    assert!(!s.timed_out);
    let r = launched_result(&opts, "k", Some(124), true);
    assert!(r.launched && !r.skipped && r.timed_out);
    assert_eq!(r.kernel.as_deref(), Some("k"));
    assert_eq!(r.log_path.as_deref(), Some("qemu.log"));
    assert_eq!(r.exit_code, Some(124));
}

#[test]
fn finished_runs_report_their_end() {
    let opts = QemuLaunchOpts { kernel: Some("k".into()), ..Default::default() };
    let t = finish_launch(&opts, "k", PollStep::TimedOut);
    assert!(t.launched && !t.skipped && t.timed_out);
    assert_eq!(t.exit_code, Some(124));
    assert_eq!(t.skip_reason, None);
    let e = finish_launch(&opts, "k", PollStep::Exited(Some(0)));
    assert!(!e.timed_out);
    assert_eq!(e.exit_code, Some(0));
    assert_eq!(e.bin, "qemu-system-aarch64");
}
