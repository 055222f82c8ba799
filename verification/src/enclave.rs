//! The lifetime of one enclave: the launcher commands that start and stop
//! it, what to do after each attempt, and the handle that stands for it
//! while it runs.
//!
//! Running the launcher, sleeping and connecting are the caller's part. The
//! caller runs a command, reports the outcome, and is told whether to try
//! again, to go on, or to give up.

use crate::raw_fd::{frame_of, FrameReceiver, FrameSender};
use crate::report::{
    json_as_u32, json_document, json_is_number, json_member, outcome_view, read_report,
    report_of_bytes, LauncherReport, NitroError, ReportView,
};
use vstd::prelude::*;
use vstd::string::StringExecFns;
use vstd::utf8::{decode_utf8, valid_utf8};

verus! {

/// Delay, in seconds, after which an attempt to connect to the enclave is
/// given up.
pub const NITRO_ENCLAVE_CONNECT_TIMEOUT: u32 = 30;

/// Delay, in milliseconds, between two attempts to run the launcher.
pub const RETRY_DELAY_MS: u64 = 1000;

/// Where the launcher is installed.
pub fn nitro_cli_path() -> (r: String)
    ensures
        r@ == "/usr/bin/nitro-cli"@,
{
    String::from_str("/usr/bin/nitro-cli")
}

/// The character that stands for a decimal digit.
pub open spec fn digit_char(d: nat) -> char
    recommends
        d < 10,
{
    if d == 0 {
        '0'
    } else if d == 1 {
        '1'
    } else if d == 2 {
        '2'
    } else if d == 3 {
        '3'
    } else if d == 4 {
        '4'
    } else if d == 5 {
        '5'
    } else if d == 6 {
        '6'
    } else if d == 7 {
        '7'
    } else if d == 8 {
        '8'
    } else {
        '9'
    }
}

/// A number in decimal, without sign or leading zeros.
pub open spec fn decimal(n: nat) -> Seq<char>
    decreases n,
{
    if n < 10 {
        seq![digit_char(n)]
    } else {
        decimal(n / 10).push(digit_char(n % 10))
    }
}

/// The text of one decimal digit.
fn digit_text(d: u32) -> (r: &'static str)
    requires
        d < 10,
    ensures
        r@ == seq![digit_char(d as nat)],
{
    proof {
        reveal_strlit("0");
        reveal_strlit("1");
        reveal_strlit("2");
        reveal_strlit("3");
        reveal_strlit("4");
        reveal_strlit("5");
        reveal_strlit("6");
        reveal_strlit("7");
        reveal_strlit("8");
        reveal_strlit("9");
    }
    let r = if d == 0 {
        "0"
    } else if d == 1 {
        "1"
    } else if d == 2 {
        "2"
    } else if d == 3 {
        "3"
    } else if d == 4 {
        "4"
    } else if d == 5 {
        "5"
    } else if d == 6 {
        "6"
    } else if d == 7 {
        "7"
    } else if d == 8 {
        "8"
    } else {
        "9"
    };
    assert(r@ =~= seq![digit_char(d as nat)]);
    r
}

/// Writes a number in decimal.
pub fn decimal_text(n: u32) -> (r: String)
    ensures
        r@ == decimal(n as nat),
    decreases n,
{
    if n < 10 {
        String::from_str(digit_text(n))
    } else {
        let mut text = decimal_text(n / 10);
        text.append(digit_text(n % 10));
        assert(text@ =~= decimal(n as nat));
        text
    }
}

/// The launcher's arguments that start an enclave from the image at
/// `eif_path` with two CPUs and `max_memory_mib` MiB of memory, in debug
/// mode if asked.
pub fn run_enclave_args(eif_path: &str, debug: bool, max_memory_mib: u32) -> (args: Vec<String>)
    ensures
        debug ==> args@.len() == 8,
        !debug ==> args@.len() == 7,
        args@[0]@ == "run-enclave"@,
        args@[1]@ == "--eif-path"@,
        args@[2]@ == eif_path@,
        args@[3]@ == "--cpu-count"@,
        args@[4]@ == "2"@,
        args@[5]@ == "--memory"@,
        args@[6]@ == decimal(max_memory_mib as nat),
        debug ==> args@[7]@ == "--debug-mode=true"@,
{
    let mut args: Vec<String> = Vec::new();
    args.push(String::from_str("run-enclave"));
    args.push(String::from_str("--eif-path"));
    args.push(String::from_str(eif_path));
    args.push(String::from_str("--cpu-count"));
    args.push(String::from_str("2"));
    args.push(String::from_str("--memory"));
    args.push(decimal_text(max_memory_mib));
    if debug {
        args.push(String::from_str("--debug-mode=true"));
    }
    args
}

/// The launcher's arguments that terminate the enclave `enclave_id`.
pub fn terminate_enclave_args(enclave_id: &str) -> (args: Vec<String>)
    ensures
        args@.len() == 3,
        args@[0]@ == "terminate-enclave"@,
        args@[1]@ == "--enclave-id"@,
        args@[2]@ == enclave_id@,
{
    let mut args: Vec<String> = Vec::new();
    args.push(String::from_str("terminate-enclave"));
    args.push(String::from_str("--enclave-id"));
    args.push(String::from_str(enclave_id));
    args
}

/// What one attempt to run the launcher came to.
#[derive(Debug, Clone, PartialEq, Eq)]
pub enum LaunchOutcome {
    /// The launcher could not be started.
    SpawnFailed,
    /// The launcher ran and ended, with or without success, having printed
    /// `stdout`.
    Exited { success: bool, stdout: Vec<u8> },
}

/// What to do after an attempt to start the enclave.
#[derive(Debug, Clone, PartialEq, Eq)]
pub enum LaunchStep {
    /// Wait this long, then run the launcher again.
    Retry { delay_ms: u64 },
    /// The enclave runs: connect to the channel at the reported address,
    /// and give up after this many seconds.
    Connect { report: LauncherReport, timeout_secs: u32 },
    /// The launcher's report cannot be used: give up.
    Fail(NitroError),
}

/// A step after a launch attempt, as plain values.
pub ghost enum LaunchDecision {
    Retry { delay_ms: u64 },
    Connect { report: ReportView, timeout_secs: u32 },
    Fail(NitroError),
}

impl View for LaunchStep {
    type V = LaunchDecision;

    open spec fn view(&self) -> LaunchDecision {
        match *self {
            LaunchStep::Retry { delay_ms } => LaunchDecision::Retry { delay_ms },
            LaunchStep::Connect { report, timeout_secs } => LaunchDecision::Connect {
                report: report@,
                timeout_secs,
            },
            LaunchStep::Fail(e) => LaunchDecision::Fail(e),
        }
    }
}

/// Whether a launch attempt failed in a way that passes: the launcher did
/// not start, or ended without success.
pub open spec fn launch_failed(outcome: LaunchOutcome) -> bool {
    match outcome {
        LaunchOutcome::SpawnFailed => true,
        LaunchOutcome::Exited { success, .. } => !success,
    }
}

/// The step that follows a launch attempt.
///
/// A launcher that did not start or ended without success is run again
/// after a fixed delay. A launcher that succeeded has printed its report; if
/// the report can be read, the enclave is connected to, and if not, the
/// launch is given up for good.
pub open spec fn launch_decision(outcome: LaunchOutcome) -> LaunchDecision {
    match outcome {
        LaunchOutcome::SpawnFailed => LaunchDecision::Retry { delay_ms: RETRY_DELAY_MS },
        LaunchOutcome::Exited { success, stdout } => if !success {
            LaunchDecision::Retry { delay_ms: RETRY_DELAY_MS }
        } else {
            match report_of_bytes(stdout@) {
                Ok(report) => LaunchDecision::Connect {
                    report,
                    timeout_secs: NITRO_ENCLAVE_CONNECT_TIMEOUT,
                },
                Err(e) => LaunchDecision::Fail(e),
            }
        },
    }
}

/// Decides what to do after an attempt to start the enclave.
pub fn after_launch(outcome: &LaunchOutcome) -> (step: LaunchStep)
    ensures
        step@ == launch_decision(*outcome),
{
    match outcome {
        LaunchOutcome::SpawnFailed => LaunchStep::Retry { delay_ms: RETRY_DELAY_MS },
        LaunchOutcome::Exited { success, stdout } => {
            if !*success {
                LaunchStep::Retry { delay_ms: RETRY_DELAY_MS }
            } else {
                let parsed = read_report(stdout.as_slice());
                assert(outcome_view(parsed) == report_of_bytes(stdout@));
                match parsed {
                    Ok(report) => LaunchStep::Connect {
                        report,
                        timeout_secs: NITRO_ENCLAVE_CONNECT_TIMEOUT,
                    },
                    Err(e) => LaunchStep::Fail(e),
                }
            }
        },
    }
}

/// How many times the launcher is run when its attempts come out as
/// `outcomes`, in that order: once for each outcome up to and including the
/// first that is not answered by a retry.
pub open spec fn launch_attempts(outcomes: Seq<LaunchOutcome>) -> nat
    decreases outcomes.len(),
{
    if outcomes.len() == 0 {
        0
    } else if launch_decision(outcomes[0]) is Retry {
        1 + launch_attempts(outcomes.drop_first())
    } else {
        1
    }
}

/// The step on which the launch loop ends when the launcher's attempts come
/// out as `outcomes`, or `None` if it is still retrying after all of them.
pub open spec fn launch_verdict(outcomes: Seq<LaunchOutcome>) -> Option<LaunchDecision>
    decreases outcomes.len(),
{
    if outcomes.len() == 0 {
        None
    } else if launch_decision(outcomes[0]) is Retry {
        launch_verdict(outcomes.drop_first())
    } else {
        Some(launch_decision(outcomes[0]))
    }
}

/// After `n` failed attempts and one that succeeds, the launcher has been
/// run exactly `n + 1` times, and the loop ends on what the successful
/// attempt's report says, never on a retry.
pub proof fn lemma_launch_retries_failures(outcomes: Seq<LaunchOutcome>, n: nat)
    requires
        n < outcomes.len(),
        forall|i: int| 0 <= i < n ==> launch_failed(#[trigger] outcomes[i]),
        !launch_failed(outcomes[n as int]),
    ensures
        launch_attempts(outcomes) == n + 1,
        launch_verdict(outcomes) == Some(launch_decision(outcomes[n as int])),
        !(launch_decision(outcomes[n as int]) is Retry),
        forall|i: int| 0 <= i < n ==> launch_decision(#[trigger] outcomes[i]) is Retry,
    decreases n,
{
    if n > 0 {
        let rest = outcomes.drop_first();
        assert(launch_failed(outcomes[0]));
        assert forall|i: int| 0 <= i < n - 1 implies launch_failed(#[trigger] rest[i]) by {
            assert(rest[i] == outcomes[i + 1]);
        }
        assert(rest[n - 1] == outcomes[n as int]);
        lemma_launch_retries_failures(rest, (n - 1) as nat);
    }
}

/// Whether the launcher succeeded and printed a report that cannot be read.
pub open spec fn report_unreadable(outcome: LaunchOutcome) -> bool {
    match outcome {
        LaunchOutcome::SpawnFailed => false,
        LaunchOutcome::Exited { success, stdout } => success && report_of_bytes(stdout@) is Err,
    }
}

/// A launcher that succeeds with a report that cannot be read ends the
/// launch at once: it is run once, whatever would have come after, and the
/// error is final.
pub proof fn lemma_unreadable_report_is_final(outcomes: Seq<LaunchOutcome>)
    requires
        outcomes.len() > 0,
        report_unreadable(outcomes[0]),
    ensures
        launch_attempts(outcomes) == 1,
        launch_verdict(outcomes) is Some,
        launch_verdict(outcomes).unwrap() is Fail,
{
}

/// Whether a text is no JSON document, or one whose channel address is
/// missing, no number, or no unsigned 32-bit number.
pub open spec fn address_unusable(text: Seq<char>) -> bool {
    match json_document(text) {
        Some(doc) => {
            let cid = json_member(doc, "EnclaveCID"@);
            !json_is_number(cid) || json_as_u32(cid) is None
        },
        None => true,
    }
}

/// The step after a launcher that succeeded and printed `stdout`.
pub open spec fn decision_on_report(stdout: Vec<u8>) -> LaunchDecision {
    launch_decision(LaunchOutcome::Exited { success: true, stdout })
}

/// A report without a usable channel address is answered with a parse
/// error and never with a retry.
pub proof fn lemma_address_must_be_a_number(stdout: Vec<u8>)
    requires
        valid_utf8(stdout@),
    ensures
        address_unusable(decode_utf8(stdout@)) ==> decision_on_report(stdout)
            == LaunchDecision::Fail(NitroError::SerdeError),
{
}

/// What the attempt to connect to the enclave's channel came to.
#[derive(Debug, Clone, Copy, PartialEq, Eq)]
pub enum ConnectOutcome {
    /// The channel is open.
    Connected,
    /// The attempt failed with the given error code.
    Failed(i32),
    /// The deadline passed before the channel opened.
    TimedOut,
}

/// A running enclave: its identifier, where its channel is, and the
/// launcher that stops it. There is no handle for an enclave that was not
/// started or not connected to.
#[derive(Debug)]
pub struct NitroEnclave {
    enclave_id: String,
    cid: u32,
    port: u32,
    nitro_cli_path: String,
}

/// A handle as plain values.
pub ghost struct EnclaveView {
    pub enclave_id: Seq<char>,
    pub cid: u32,
    pub port: u32,
    pub nitro_cli_path: Seq<char>,
}

impl View for NitroEnclave {
    type V = EnclaveView;

    closed spec fn view(&self) -> EnclaveView {
        EnclaveView {
            enclave_id: self.enclave_id@,
            cid: self.cid,
            port: self.port,
            nitro_cli_path: self.nitro_cli_path@,
        }
    }
}

/// The handle, or the error in its place, that a connect attempt to the
/// enclave of `report` on `port` comes to.
pub open spec fn handle_for(report: ReportView, port: u32, outcome: ConnectOutcome) -> Result<
    EnclaveView,
    NitroError,
> {
    match outcome {
        ConnectOutcome::Connected => Ok(
            EnclaveView {
                enclave_id: report.enclave_id,
                cid: report.enclave_cid,
                port,
                nitro_cli_path: "/usr/bin/nitro-cli"@,
            },
        ),
        ConnectOutcome::Failed(code) => Err(NitroError::ConnectError(code)),
        ConnectOutcome::TimedOut => Err(NitroError::ConnectTimeout),
    }
}

/// A handle or an error, as plain values.
pub open spec fn handle_view(r: Result<NitroEnclave, NitroError>) -> Result<
    EnclaveView,
    NitroError,
> {
    match r {
        Ok(enclave) => Ok(enclave@),
        Err(e) => Err(e),
    }
}

impl NitroEnclave {
    /// Makes the handle of the enclave that the launcher reported, once the
    /// attempt to connect to its channel on `port` has come to an end. Only
    /// an open channel gives a handle.
    pub fn new(report: LauncherReport, port: u32, outcome: ConnectOutcome) -> (r: Result<
        Self,
        NitroError,
    >)
        ensures
            handle_view(r) == handle_for(report@, port, outcome),
    {
        match outcome {
            ConnectOutcome::Connected => Ok(
                NitroEnclave {
                    enclave_id: report.enclave_id,
                    cid: report.enclave_cid,
                    port,
                    nitro_cli_path: nitro_cli_path(),
                },
            ),
            ConnectOutcome::Failed(code) => Err(NitroError::ConnectError(code)),
            ConnectOutcome::TimedOut => Err(NitroError::ConnectTimeout),
        }
    }

    /// The identifier that the launcher gave the enclave.
    pub fn enclave_id(&self) -> (r: &str)
        ensures
            r@ == self@.enclave_id,
    {
        self.enclave_id.as_str()
    }

    /// The address of the enclave's channel.
    pub fn cid(&self) -> (r: u32)
        ensures
            r == self@.cid,
    {
        self.cid
    }

    /// The port of the enclave's channel.
    pub fn port(&self) -> (r: u32)
        ensures
            r == self@.port,
    {
        self.port
    }

    /// Where the launcher that started the enclave is installed.
    pub fn nitro_cli_path(&self) -> (r: &str)
        ensures
            r@ == self@.nitro_cli_path,
    {
        self.nitro_cli_path.as_str()
    }

    /// Starts sending `buffer` to the enclave as one message.
    pub fn send_buffer<'a>(&self, buffer: &'a [u8]) -> (s: FrameSender<'a>)
        ensures
            s.wf(),
            s.payload() == buffer@,
            s.sent() == 0,
            s.frame() == frame_of(buffer@),
    {
        crate::raw_fd::send_buffer(buffer)
    }

    /// Starts receiving one message from the enclave.
    pub fn receive_buffer(&self) -> (r: FrameReceiver)
        ensures
            r.wf(),
            r.consumed() == Seq::<u8>::empty(),
            !r.complete(),
    {
        crate::raw_fd::receive_buffer()
    }

    /// The launcher's arguments that terminate this enclave.
    pub fn terminate_args(&self) -> (args: Vec<String>)
        ensures
            args@.len() == 3,
            args@[0]@ == "terminate-enclave"@,
            args@[1]@ == "--enclave-id"@,
            args@[2]@ == self@.enclave_id,
    {
        terminate_enclave_args(self.enclave_id.as_str())
    }
}

/// What one attempt to run the launcher's terminate command came to.
#[derive(Debug, Clone, Copy, PartialEq, Eq)]
pub enum TerminateOutcome {
    /// The launcher could not be started.
    SpawnFailed,
    /// The launcher ran and ended, with or without success.
    Exited { success: bool },
}

/// What to do after an attempt to terminate the enclave.
#[derive(Debug, Clone, Copy, PartialEq, Eq)]
pub enum ReleaseStep {
    /// Wait this long, then run the launcher again.
    Retry { delay_ms: u64 },
    /// Stop. With `warn`, the launcher ended without success and the
    /// enclave may have to be terminated by hand.
    Done { warn: bool },
}

/// The step that follows an attempt to terminate the enclave.
///
/// Only a launcher that could not be started is run again. One that ran
/// ends the release, whatever its exit status: without success it most
/// often means that the enclave is already gone.
pub open spec fn release_decision(outcome: TerminateOutcome) -> ReleaseStep {
    match outcome {
        TerminateOutcome::SpawnFailed => ReleaseStep::Retry { delay_ms: RETRY_DELAY_MS },
        TerminateOutcome::Exited { success } => ReleaseStep::Done { warn: !success },
    }
}

/// Decides what to do after an attempt to terminate the enclave.
pub fn after_terminate(outcome: TerminateOutcome) -> (step: ReleaseStep)
    ensures
        step == release_decision(outcome),
{
    match outcome {
        TerminateOutcome::SpawnFailed => ReleaseStep::Retry { delay_ms: RETRY_DELAY_MS },
        TerminateOutcome::Exited { success } => ReleaseStep::Done { warn: !success },
    }
}

/// How many times the terminate command is run when its attempts come out
/// as `outcomes`, in that order.
pub open spec fn release_attempts(outcomes: Seq<TerminateOutcome>) -> nat
    decreases outcomes.len(),
{
    if outcomes.len() == 0 {
        0
    } else if release_decision(outcomes[0]) is Retry {
        1 + release_attempts(outcomes.drop_first())
    } else {
        1
    }
}

/// Once the launcher has failed to start `n` times and then run, the
/// terminate command has been run exactly `n + 1` times and is not run
/// again, whether the launcher ended with success or without; without, the
/// release ends on a warning.
pub proof fn lemma_release_runs_once(outcomes: Seq<TerminateOutcome>, n: nat)
    requires
        n < outcomes.len(),
        forall|i: int| 0 <= i < n ==> #[trigger] outcomes[i] is SpawnFailed,
        outcomes[n as int] is Exited,
    ensures
        release_attempts(outcomes) == n + 1,
        release_decision(outcomes[n as int]) is Done,
        release_decision(outcomes[n as int])->warn == !outcomes[n as int]->success,
    decreases n,
{
    if n > 0 {
        let rest = outcomes.drop_first();
        assert(outcomes[0] is SpawnFailed);
        assert forall|i: int| 0 <= i < n - 1 implies #[trigger] rest[i] is SpawnFailed by {
            assert(rest[i] == outcomes[i + 1]);
        }
        assert(rest[n - 1] == outcomes[n as int]);
        lemma_release_runs_once(rest, (n - 1) as nat);
    }
}

} // verus!
