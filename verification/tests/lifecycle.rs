use nitro_enclave::enclave::{
    after_launch, after_terminate, decimal_text, nitro_cli_path, run_enclave_args,
    terminate_enclave_args,
    ConnectOutcome, LaunchOutcome, LaunchStep, NitroEnclave, ReleaseStep, TerminateOutcome,
    NITRO_ENCLAVE_CONNECT_TIMEOUT, RETRY_DELAY_MS,
};
use nitro_enclave::report::{
    build_report, parse_report, read_report, trim_quotes, LauncherReport, NitroError,
};

fn exited(success: bool, stdout: &str) -> LaunchOutcome {
    LaunchOutcome::Exited { success, stdout: stdout.as_bytes().to_vec() }
}

/// Runs the launch loop against a scripted launcher and returns how often it
/// was run and the step that ended the loop.
fn drive_launch(script: &[LaunchOutcome]) -> (usize, Option<LaunchStep>) {
    let mut runs = 0usize;
    for outcome in script {
        runs += 1;
        match after_launch(outcome) {
            LaunchStep::Retry { delay_ms } => assert_eq!(delay_ms, 1000),
            step => return (runs, Some(step)),
        }
    }
    (runs, None)
}

/// Runs the release loop against a scripted launcher and returns how often
/// it was run and whether the loop ended on a warning.
fn drive_release(script: &[TerminateOutcome]) -> (usize, Option<bool>) {
    let mut runs = 0usize;
    for outcome in script {
        runs += 1;
        match after_terminate(*outcome) {
            ReleaseStep::Retry { delay_ms } => assert_eq!(delay_ms, 1000),
            ReleaseStep::Done { warn } => return (runs, Some(warn)),
        }
    }
    (runs, None)
}

const GOOD_REPORT: &str = "{\"EnclaveID\": \"i-abc-enc123\", \"EnclaveCID\": 42}";

#[test]
fn create_connects_to_reported_address() {
    let step = after_launch(&exited(true, GOOD_REPORT));
    let report = match step {
        LaunchStep::Connect { report, timeout_secs } => {
            assert_eq!(timeout_secs, 30);
            report
        }
        other => panic!("unexpected step {:?}", other),
    };
    assert_eq!(report.enclave_cid, 42);
    assert_eq!(report.enclave_id, "i-abc-enc123");
    let enclave = NitroEnclave::new(report, 5005, ConnectOutcome::Connected).unwrap();
    assert_eq!(enclave.cid(), 42);
    assert_eq!(enclave.port(), 5005);
    assert_eq!(enclave.enclave_id(), "i-abc-enc123");
    assert_eq!(enclave.nitro_cli_path(), "/usr/bin/nitro-cli");
    assert_eq!(
        enclave.terminate_args(),
        vec!["terminate-enclave", "--enclave-id", "i-abc-enc123"]
    );
}

#[test]
fn constants_have_documented_values() {
    assert_eq!(NITRO_ENCLAVE_CONNECT_TIMEOUT, 30);
    assert_eq!(RETRY_DELAY_MS, 1000);
    assert_eq!(nitro_cli_path(), "/usr/bin/nitro-cli");
}

#[test]
fn run_enclave_arguments() {
    assert_eq!(
        run_enclave_args("/tmp/image.eif", false, 256),
        vec!["run-enclave", "--eif-path", "/tmp/image.eif", "--cpu-count", "2", "--memory", "256"]
    );
    assert_eq!(
        run_enclave_args("a b.eif", true, 4294967295),
        vec![
            "run-enclave",
            "--eif-path",
            "a b.eif",
            "--cpu-count",
            "2",
            "--memory",
            "4294967295",
            "--debug-mode=true"
        ]
    );
    assert_eq!(run_enclave_args("", false, 0)[6], "0");
}

#[test]
fn terminate_enclave_arguments() {
    assert_eq!(
        terminate_enclave_args("i-0f3-enc9"),
        vec!["terminate-enclave", "--enclave-id", "i-0f3-enc9"]
    );
}

#[test]
fn launch_retries_each_injected_failure() {
    for failures in 0usize..6 {
        let mut script: Vec<LaunchOutcome> = Vec::new();
        for i in 0..failures {
            if i % 2 == 0 {
                script.push(LaunchOutcome::SpawnFailed);
            } else {
                script.push(exited(false, "not a report"));
            }
        }
        script.push(exited(true, GOOD_REPORT));
        script.push(LaunchOutcome::SpawnFailed);
        let (runs, step) = drive_launch(&script);
        assert_eq!(runs, failures + 1);
        assert_eq!(
            step,
            Some(LaunchStep::Connect {
                report: LauncherReport { enclave_id: "i-abc-enc123".to_string(), enclave_cid: 42 },
                timeout_secs: 30,
            })
        );
    }
}

#[test]
fn launch_keeps_retrying_while_launcher_fails() {
    let script = vec![LaunchOutcome::SpawnFailed, exited(false, GOOD_REPORT), exited(false, "")];
    assert_eq!(drive_launch(&script), (3, None));
    assert_eq!(after_launch(&exited(false, GOOD_REPORT)), LaunchStep::Retry { delay_ms: 1000 });
    assert_eq!(after_launch(&LaunchOutcome::SpawnFailed), LaunchStep::Retry { delay_ms: 1000 });
}

#[test]
fn launch_fails_at_once_without_channel_address() {
    let script = vec![
        exited(true, "{\"EnclaveID\": \"i-abc-enc123\"}"),
        exited(true, GOOD_REPORT),
    ];
    assert_eq!(drive_launch(&script), (1, Some(LaunchStep::Fail(NitroError::SerdeError))));
}

#[test]
fn launch_fails_at_once_on_non_numeric_channel_address() {
    for report in [
        "{\"EnclaveID\": \"i-abc-enc123\", \"EnclaveCID\": \"42\"}",
        "{\"EnclaveID\": \"i-abc-enc123\", \"EnclaveCID\": null}",
        "{\"EnclaveID\": \"i-abc-enc123\", \"EnclaveCID\": [42]}",
        "{\"EnclaveID\": \"i-abc-enc123\", \"EnclaveCID\": true}",
    ] {
        let script = vec![exited(true, report), exited(true, GOOD_REPORT)];
        assert_eq!(drive_launch(&script), (1, Some(LaunchStep::Fail(NitroError::SerdeError))));
    }
}

#[test]
fn launch_fails_on_output_that_is_not_utf8() {
    let outcome = LaunchOutcome::Exited { success: true, stdout: vec![0x7b, 0xff, 0xfe, 0x7d] };
    assert_eq!(after_launch(&outcome), LaunchStep::Fail(NitroError::Utf8Error));
    assert_eq!(read_report(&[0xc3, 0x28]), Err(NitroError::Utf8Error));
}

#[test]
fn read_report_decodes_utf8() {
    let text = "{\"EnclaveID\": \"i-é-1\", \"EnclaveCID\": 7}";
    assert_eq!(
        read_report(text.as_bytes()),
        Ok(LauncherReport { enclave_id: "i-é-1".to_string(), enclave_cid: 7 })
    );
}

#[test]
fn parse_report_rejects_text_that_is_not_json() {
    assert_eq!(parse_report(""), Err(NitroError::SerdeError));
    assert_eq!(parse_report("EnclaveCID: 42"), Err(NitroError::SerdeError));
    assert_eq!(parse_report("{\"EnclaveCID\": 42"), Err(NitroError::SerdeError));
    assert_eq!(parse_report("{\"EnclaveCID\": 42} trailing"), Err(NitroError::SerdeError));
}

#[test]
fn parse_report_rejects_documents_that_are_no_object() {
    assert_eq!(parse_report("42"), Err(NitroError::SerdeError));
    assert_eq!(parse_report("[{\"EnclaveCID\": 42}]"), Err(NitroError::SerdeError));
    assert_eq!(parse_report("{\"enclavecid\": 42}"), Err(NitroError::SerdeError));
}

#[test]
fn parse_report_rejects_numbers_that_are_no_u32() {
    assert_eq!(parse_report("{\"EnclaveCID\": -1}"), Err(NitroError::SerdeError));
    assert_eq!(parse_report("{\"EnclaveCID\": 1.5}"), Err(NitroError::SerdeError));
    assert_eq!(parse_report("{\"EnclaveCID\": 4294967296}"), Err(NitroError::SerdeError));
}

#[test]
fn parse_report_accepts_the_whole_u32_range() {
    assert_eq!(
        parse_report("{\"EnclaveCID\": 0, \"EnclaveID\": \"a\"}"),
        Ok(LauncherReport { enclave_id: "a".to_string(), enclave_cid: 0 })
    );
    assert_eq!(
        parse_report("{\"EnclaveCID\": 4294967295, \"EnclaveID\": \"b\"}"),
        Ok(LauncherReport { enclave_id: "b".to_string(), enclave_cid: 4294967295 })
    );
}

#[test]
fn parse_report_prints_identifiers_that_are_no_string() {
    assert_eq!(
        parse_report("{\"EnclaveCID\": 3}"),
        Ok(LauncherReport { enclave_id: "null".to_string(), enclave_cid: 3 })
    );
    assert_eq!(
        parse_report("{\"EnclaveCID\": 3, \"EnclaveID\": 17}"),
        Ok(LauncherReport { enclave_id: "17".to_string(), enclave_cid: 3 })
    );
    assert_eq!(
        parse_report("{\"EnclaveCID\": 3, \"EnclaveID\": \"\"}"),
        Ok(LauncherReport { enclave_id: "".to_string(), enclave_cid: 3 })
    );
}

#[test]
fn parse_report_ignores_other_fields() {
    let text = "{\"EnclaveName\": \"x\", \"EnclaveID\": \"i-1-enc2\", \"ProcessID\": 9, \
                \"EnclaveCID\": 16, \"NumberOfCPUs\": 2, \"CPUIDs\": [1, 3], \"MemoryMiB\": 256}";
    assert_eq!(
        parse_report(text),
        Ok(LauncherReport { enclave_id: "i-1-enc2".to_string(), enclave_cid: 16 })
    );
}

#[test]
fn build_report_from_fields() {
    assert_eq!(build_report(false, Some(1), "\"x\""), Err(NitroError::SerdeError));
    assert_eq!(build_report(false, None, "\"x\""), Err(NitroError::SerdeError));
    assert_eq!(build_report(true, None, "\"x\""), Err(NitroError::SerdeError));
    assert_eq!(
        build_report(true, Some(9), "\"x\""),
        Ok(LauncherReport { enclave_id: "x".to_string(), enclave_cid: 9 })
    );
}

#[test]
fn trim_quotes_strips_both_ends_only() {
    assert_eq!(trim_quotes("\"i-abc-enc123\""), "i-abc-enc123");
    assert_eq!(trim_quotes("plain"), "plain");
    assert_eq!(trim_quotes(""), "");
    assert_eq!(trim_quotes("\""), "");
    assert_eq!(trim_quotes("\"\"\"\""), "");
    assert_eq!(trim_quotes("\"\"a\"b\"\"\""), "a\"b");
    assert_eq!(trim_quotes("a\""), "a");
    assert_eq!(trim_quotes("\"a"), "a");
    assert_eq!(trim_quotes("\"é\\\"ü\""), "é\\\"ü");
    assert_eq!(trim_quotes(" \"a\" "), " \"a\" ");
}

#[test]
fn handle_needs_an_open_channel() {
    let report = LauncherReport { enclave_id: "i-1".to_string(), enclave_cid: 4 };
    assert_eq!(
        NitroEnclave::new(report.clone(), 1, ConnectOutcome::Failed(111)).err(),
        Some(NitroError::ConnectError(111))
    );
    assert_eq!(
        NitroEnclave::new(report.clone(), 1, ConnectOutcome::TimedOut).err(),
        Some(NitroError::ConnectTimeout)
    );
    assert!(NitroEnclave::new(report, 1, ConnectOutcome::Connected).is_ok());
}

#[test]
fn handle_frames_what_it_sends_and_receives() {
    let report = LauncherReport { enclave_id: "i-1".to_string(), enclave_cid: 4 };
    let enclave = NitroEnclave::new(report, 5005, ConnectOutcome::Connected).unwrap();
    let payload = [0x01u8, 0x02, 0x03];
    let sender = enclave.send_buffer(&payload);
    assert_eq!(sender.pending(), &[3, 0, 0, 0, 0, 0, 0, 0]);
    let receiver = enclave.receive_buffer();
    assert_eq!(receiver.wanted(), 8);
    assert!(!receiver.is_complete());
}

#[test]
fn release_runs_terminate_once() {
    assert_eq!(drive_release(&[TerminateOutcome::Exited { success: true }]), (1, Some(false)));
    assert_eq!(
        drive_release(&[
            TerminateOutcome::Exited { success: true },
            TerminateOutcome::Exited { success: true }
        ]),
        (1, Some(false))
    );
}

#[test]
fn release_retries_when_launcher_does_not_start() {
    for failures in 0usize..5 {
        let mut script = vec![TerminateOutcome::SpawnFailed; failures];
        script.push(TerminateOutcome::Exited { success: true });
        assert_eq!(drive_release(&script), (failures + 1, Some(false)));
    }
    assert_eq!(drive_release(&[TerminateOutcome::SpawnFailed; 3]), (3, None));
}

#[test]
fn release_does_not_retry_on_failed_exit() {
    let script = [
        TerminateOutcome::Exited { success: false },
        TerminateOutcome::Exited { success: true },
    ];
    assert_eq!(drive_release(&script), (1, Some(true)));
    assert_eq!(
        after_terminate(TerminateOutcome::Exited { success: false }),
        ReleaseStep::Done { warn: true }
    );
    assert_eq!(
        after_terminate(TerminateOutcome::SpawnFailed),
        ReleaseStep::Retry { delay_ms: 1000 }
    );
}

#[test]
fn error_messages() {
    assert_eq!(NitroError::SerdeError.message(), "Nitro: Serde Error");
    assert_eq!(NitroError::Utf8Error.message(), "Nitro: launcher output is not UTF-8");
    assert_eq!(NitroError::ConnectError(5).message(), "Nitro: could not connect to the enclave");
    assert_eq!(NitroError::ConnectTimeout.message(), "Nitro: timed out connecting to the enclave");
}

#[test]
fn decimal_text_writes_numbers() {
    assert_eq!(decimal_text(0), "0");
    assert_eq!(decimal_text(9), "9");
    assert_eq!(decimal_text(10), "10");
    assert_eq!(decimal_text(256), "256");
    assert_eq!(decimal_text(1000), "1000");
    assert_eq!(decimal_text(1234567890), "1234567890");
    assert_eq!(decimal_text(4294967295), "4294967295");
    for n in [0u32, 7, 42, 99, 100, 101, 65535, 65536, 999_999_999, 4_000_000_000] {
        assert_eq!(decimal_text(n), n.to_string());
    }
}
