//! QEMU launch planning: which command to run, when to give up waiting, and
//! what to report. Running the process and waiting on it is the caller's part.

use vstd::prelude::*;

use crate::text::strings_view;

verus! {

/// What a launch attempt reports.
#[derive(Debug, Clone)]
pub struct QemuLaunchResult {
    pub launched: bool,
    pub skipped: bool,
    pub skip_reason: Option<String>,
    pub exit_code: Option<i32>,
    pub timed_out: bool,
    pub bin: String,
    pub kernel: Option<String>,
    pub log_path: Option<String>,
    pub timeout_sec: u64,
}

/// How to launch QEMU. Paths are given as text.
#[derive(Debug, Clone)]
pub struct QemuLaunchOpts {
    pub bin: String,
    pub machine: String,
    pub cpu: String,
    pub memory: String,
    pub kernel: Option<String>,
    pub timeout_sec: u64,
    pub log_path: String,
    pub extra_args: Vec<String>,
}

/// Why a launch cannot start.
#[derive(Debug, Clone, Copy, PartialEq, Eq, Structural)]
pub enum LaunchError {
    /// QEMU is installed but no kernel was given.
    MissingKernel,
}

/// The process to start: the binary, its arguments, where its output goes
/// and how many seconds it may run.
#[derive(Debug, Clone)]
pub struct QemuCommand {
    pub bin: String,
    pub args: Vec<String>,
    pub log_path: String,
    pub timeout_sec: u64,
}

/// What to do first.
#[derive(Debug, Clone)]
pub enum LaunchPlan {
    /// QEMU is not installed: report this result without starting anything.
    Skip(QemuLaunchResult),
    /// Start this command.
    Run(QemuCommand),
}

/// What to do after one look at the running process.
#[derive(Debug, Clone, Copy, PartialEq, Eq, Structural)]
pub enum PollStep {
    /// It exited, with this code (none when killed by a signal).
    Exited(Option<i32>),
    /// It ran out of time: kill it and report exit code 124.
    TimedOut,
    /// Look again later.
    Wait,
}

/// The text of an optional string.
pub open spec fn opt_view(o: Option<String>) -> Option<Seq<char>> {
    match o {
        Some(s) => Some(s@),
        None => None,
    }
}

/// The arguments QEMU gets: machine, cpu, memory, no graphics, the kernel,
/// then the extra arguments.
pub open spec fn qemu_arg_list(opts: QemuLaunchOpts, kernel: Seq<char>) -> Seq<Seq<char>> {
    seq![
        "-machine"@,
        opts.machine@,
        "-cpu"@,
        opts.cpu@,
        "-m"@,
        opts.memory@,
        "-nographic"@,
        "-kernel"@,
        kernel,
    ] + strings_view(opts.extra_args@)
}

/// The timeout actually applied: at least one second.
pub open spec fn effective_timeout(timeout_sec: u64) -> u64 {
    if timeout_sec < 1 {
        1
    } else {
        timeout_sec
    }
}

/// The report of a launch skipped because QEMU is not installed.
pub open spec fn is_skipped_report(r: QemuLaunchResult, opts: QemuLaunchOpts) -> bool {
    &&& !r.launched
    &&& r.skipped
    &&& opt_view(r.skip_reason) == Some(opts.bin@ + " not installed"@)
    &&& r.exit_code is None
    &&& !r.timed_out
    &&& r.bin@ == opts.bin@
    &&& opt_view(r.kernel) == opt_view(opts.kernel)
    &&& r.log_path is None
    &&& r.timeout_sec == opts.timeout_sec
}

/// The report of a launch that ran.
pub open spec fn is_launched_report(
    r: QemuLaunchResult,
    opts: QemuLaunchOpts,
    kernel: Seq<char>,
    exit_code: Option<i32>,
    timed_out: bool,
) -> bool {
    &&& r.launched
    &&& !r.skipped
    &&& r.skip_reason is None
    &&& r.exit_code == exit_code
    &&& r.timed_out == timed_out
    &&& r.bin@ == opts.bin@
    &&& opt_view(r.kernel) == Some(kernel)
    &&& opt_view(r.log_path) == Some(opts.log_path@)
    &&& r.timeout_sec == opts.timeout_sec
}

/// The step after one look: `status` is `None` while the process runs.
pub open spec fn poll_step_of(status: Option<Option<i32>>, elapsed_ms: u64, timeout_sec: u64) -> PollStep {
    match status {
        Some(code) => PollStep::Exited(code),
        None => if elapsed_ms >= timeout_sec * 1000 {
            PollStep::TimedOut
        } else {
            PollStep::Wait
        },
    }
}

fn clone_opt(o: &Option<String>) -> (c: Option<String>)
    ensures
        opt_view(c) == opt_view(*o),
{
    match o {
        Some(s) => Some(s.clone()),
        None => None,
    }
}

impl Default for QemuLaunchOpts {
    fn default() -> (o: Self)
        ensures
            o.bin@ == "qemu-system-aarch64"@,
            o.machine@ == "virt"@,
            o.cpu@ == "cortex-a72"@,
            o.memory@ == "256M"@,
            o.kernel is None,
            o.timeout_sec == 8,
            o.log_path@ == "qemu.log"@,
            o.extra_args@.len() == 0,
    {
        QemuLaunchOpts {
            bin: String::from_str("qemu-system-aarch64"),
            machine: String::from_str("virt"),
            cpu: String::from_str("cortex-a72"),
            memory: String::from_str("256M"),
            kernel: None,
            timeout_sec: 8,
            log_path: String::from_str("qemu.log"),
            extra_args: Vec::new(),
        }
    }
}

/// The QEMU binary: the explicit one when given, else the default.
pub fn resolve_qemu_bin(explicit: Option<&str>, default: &str) -> (b: String)
    ensures
        b@ == match explicit {
            Some(p) => p@,
            None => default@,
        },
{
    match explicit {
        Some(p) => String::from_str(p),
        None => String::from_str(default),
    }
}

/// The report of a launch skipped because QEMU is not installed.
pub fn skipped_launch(opts: &QemuLaunchOpts) -> (r: QemuLaunchResult)
    ensures
        is_skipped_report(r, *opts),
{
    let mut reason = opts.bin.clone();
    reason.append(" not installed");
    QemuLaunchResult {
        launched: false,
        skipped: true,
        skip_reason: Some(reason),
        exit_code: None,
        timed_out: false,
        bin: opts.bin.clone(),
        kernel: clone_opt(&opts.kernel),
        log_path: None,
        timeout_sec: opts.timeout_sec,
    }
}

/// The report of a launch that ran, with how it ended.
pub fn launched_result(opts: &QemuLaunchOpts, kernel: &str, exit_code: Option<i32>, timed_out: bool) -> (r: QemuLaunchResult)
    ensures
        is_launched_report(r, *opts, kernel@, exit_code, timed_out),
{
    QemuLaunchResult {
        launched: true,
        skipped: false,
        skip_reason: None,
        exit_code,
        timed_out,
        bin: opts.bin.clone(),
        kernel: Some(String::from_str(kernel)),
        log_path: Some(opts.log_path.clone()),
        timeout_sec: opts.timeout_sec,
    }
}

/// The arguments of the QEMU process.
pub fn qemu_args(opts: &QemuLaunchOpts, kernel: &str) -> (args: Vec<String>)
    ensures
        strings_view(args@) == qemu_arg_list(*opts, kernel@),
{
    let mut args: Vec<String> = Vec::new();
    args.push(String::from_str("-machine"));
    args.push(opts.machine.clone());
    args.push(String::from_str("-cpu"));
    args.push(opts.cpu.clone());
    args.push(String::from_str("-m"));
    args.push(opts.memory.clone());
    args.push(String::from_str("-nographic"));
    args.push(String::from_str("-kernel"));
    args.push(String::from_str(kernel));
    let ghost head = strings_view(args@);
    assert(head =~= seq![
        "-machine"@,
        opts.machine@,
        "-cpu"@,
        opts.cpu@,
        "-m"@,
        opts.memory@,
        "-nographic"@,
        "-kernel"@,
        kernel@,
    ]);
    let mut i: usize = 0;
    while i < opts.extra_args.len()
        invariant
            i <= opts.extra_args@.len(),
            strings_view(args@) == head + strings_view(opts.extra_args@.take(i as int)),
        decreases opts.extra_args@.len() - i,
    {
        let ghost before = args@;
        let a = opts.extra_args[i].clone();
        assert(a@ == opts.extra_args@[i as int]@);
        args.push(a);
        assert(strings_view(args@) =~= strings_view(before).push(a@));
        assert(strings_view(opts.extra_args@.take(i as int + 1)) =~= strings_view(
            opts.extra_args@.take(i as int),
        ).push(opts.extra_args@[i as int]@));
        assert(strings_view(args@) =~= head + strings_view(opts.extra_args@.take(i as int + 1)));
        i = i + 1;
    }
    assert(opts.extra_args@.take(i as int) =~= opts.extra_args@);
    args
}

/// The timeout actually applied: at least one second.
pub fn effective_timeout_sec(timeout_sec: u64) -> (t: u64)
    ensures
        t == effective_timeout(timeout_sec),
{
    if timeout_sec < 1 {
        1
    } else {
        timeout_sec
    }
}

/// Decides how a launch starts: skipped when QEMU is not installed, refused
/// without a kernel, else the command to run.
pub fn plan_launch(opts: &QemuLaunchOpts, bin_installed: bool) -> (r: Result<LaunchPlan, LaunchError>)
    ensures
        !bin_installed ==> (r matches Ok(LaunchPlan::Skip(rep)) && is_skipped_report(rep, *opts)),
        bin_installed && opts.kernel is None ==> r == Err::<LaunchPlan, LaunchError>(
            LaunchError::MissingKernel,
        ),
        bin_installed && opts.kernel is Some ==> (r matches Ok(LaunchPlan::Run(cmd)) && {
            &&& cmd.bin@ == opts.bin@
            &&& strings_view(cmd.args@) == qemu_arg_list(*opts, opts.kernel->0@)
            &&& cmd.log_path@ == opts.log_path@
            &&& cmd.timeout_sec == effective_timeout(opts.timeout_sec)
        }),
{
    if !bin_installed {
        return Ok(LaunchPlan::Skip(skipped_launch(opts)));
    }
    match &opts.kernel {
        None => Err(LaunchError::MissingKernel),
        Some(kernel) => Ok(
            LaunchPlan::Run(
                QemuCommand {
                    bin: opts.bin.clone(),
                    args: qemu_args(opts, kernel.as_str()),
                    log_path: opts.log_path.clone(),
                    timeout_sec: effective_timeout_sec(opts.timeout_sec),
                },
            ),
        ),
    }
}

/// Decides the next step after looking at the running process once.
/// `status` is `None` while it runs; `elapsed_ms` is the time since start.
pub fn poll_step(status: Option<Option<i32>>, elapsed_ms: u64, timeout_sec: u64) -> (s: PollStep)
    ensures
        s == poll_step_of(status, elapsed_ms, timeout_sec),
{
    match status {
        Some(code) => PollStep::Exited(code),
        None => if elapsed_ms / 1000 >= timeout_sec {
            PollStep::TimedOut
        } else {
            PollStep::Wait
        },
    }
}

/// The exit code and time-out flag of a finished poll.
pub open spec fn poll_outcome_of(step: PollStep) -> (Option<i32>, bool) {
    match step {
        PollStep::Exited(code) => (code, false),
        _ => (Some(124i32), true),
    }
}

/// What every launch report holds: launched exactly when not skipped, a skip
/// reason exactly when skipped, nothing run for a skip, exit code 124 on a
/// time-out, and the binary of the options.
pub open spec fn report_consistent(r: QemuLaunchResult, opts: QemuLaunchOpts) -> bool {
    &&& r.launched == !r.skipped
    &&& (r.skip_reason is Some) == r.skipped
    &&& r.skipped ==> (r.exit_code is None && !r.timed_out && r.log_path is None)
    &&& r.timed_out ==> r.exit_code == Some(124i32)
    &&& r.bin@ == opts.bin@
}

/// Every report of a launch is consistent: a skipped one as
/// [`skipped_launch`] makes it, a run one as [`finish_launch`] makes it from
/// the poll that ended the wait. A run one timed out exactly when the process
/// had not exited once the effective timeout (at least one second) had passed.
pub proof fn law_launch_report_consistent(
    r: QemuLaunchResult,
    opts: QemuLaunchOpts,
    kernel: Seq<char>,
    status: Option<Option<i32>>,
    elapsed_ms: u64,
)
    requires
        is_skipped_report(r, opts) || ({
            let step = poll_step_of(status, elapsed_ms, effective_timeout(opts.timeout_sec));
            &&& !(step is Wait)
            &&& is_launched_report(
                r,
                opts,
                kernel,
                poll_outcome_of(step).0,
                poll_outcome_of(step).1,
            )
        }),
    ensures
        report_consistent(r, opts),
        !r.skipped ==> (r.timed_out <==> (status is None && elapsed_ms >= effective_timeout(
            opts.timeout_sec,
        ) * 1000)),
        !r.skipped ==> (status matches Some(code) ==> r.exit_code == code),
{
}

/// The report of a run that the poll `step` ended.
pub fn finish_launch(opts: &QemuLaunchOpts, kernel: &str, step: PollStep) -> (r: QemuLaunchResult)
    requires
        !(step is Wait),
    ensures
        is_launched_report(r, *opts, kernel@, poll_outcome_of(step).0, poll_outcome_of(step).1),
        r.timed_out == (step is TimedOut),
{
    let (exit_code, timed_out) = poll_outcome(step);
    launched_result(opts, kernel, exit_code, timed_out)
}

/// The exit code and time-out flag that a finished poll reports.
pub fn poll_outcome(step: PollStep) -> (o: (Option<i32>, bool))
    requires
        !(step is Wait),
    ensures
        step matches PollStep::Exited(code) ==> o == (code, false),
        step is TimedOut ==> o == (Some(124i32), true),
{
    match step {
        PollStep::Exited(code) => (code, false),
        _ => (Some(124), true),
    }
}

} // verus!
