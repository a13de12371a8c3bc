use dns_test::Error;
use dns_test::output::{
    ExitStatus, Output, checked, checked_status, checked_stdout, format_command_failure,
    format_sandbox_failure,
};

fn argv(parts: &[&str]) -> Vec<String> {
    parts.iter().map(|p| p.to_string()).collect()
}

#[test]
fn status_success_means_exit_code_zero() {
    assert!(ExitStatus::new(Some(0)).success());
    assert!(!ExitStatus::new(Some(1)).success());
    assert!(!ExitStatus::new(None).success());
}

#[test]
fn from_raw_trims_and_keeps_status() {
    let out = Output::from_raw(ExitStatus::new(Some(0)), b"abc123\n".to_vec(), b"".to_vec())
        .unwrap();
    assert!(out.status.success());
    assert_eq!(out.stdout, "abc123");
    assert_eq!(out.stderr, "");
}

#[test]
fn from_raw_of_successful_silent_command_is_empty() {
    let out = Output::from_raw(ExitStatus::new(Some(0)), Vec::new(), Vec::new()).unwrap();
    assert!(out.status.success());
    assert_eq!(out.stdout, "");
    assert_eq!(out.stderr, "");
}

#[test]
fn from_raw_rejects_invalid_text() {
    let r = Output::from_raw(ExitStatus::new(Some(0)), vec![0xff], Vec::new());
    assert!(matches!(r, Err(Error::Encoding)));
    let r = Output::from_raw(ExitStatus::new(Some(0)), Vec::new(), vec![0xc3, 0x28]);
    assert!(matches!(r, Err(Error::Encoding)));
}

#[test]
fn failure_messages_name_the_command_and_sandbox() {
    let a = argv(&["docker", "run", "--rm"]);
    assert_eq!(format_command_failure(&a), "`docker run --rm` failed");
    let b = argv(&["cat", "/tmp/somefile"]);
    assert_eq!(
        format_sandbox_failure("dns-test-unbound-7-0", &b),
        "[dns-test-unbound-7-0] `cat /tmp/somefile` failed"
    );
}

#[test]
fn checked_passes_successful_output_through() {
    let a = argv(&["docker", "run"]);
    let out = Output::from_raw(ExitStatus::new(Some(0)), b"id\n".to_vec(), b"".to_vec()).unwrap();
    let ok = checked(&a, out).unwrap();
    assert_eq!(ok.stdout, "id");
}

#[test]
fn checked_reports_failures_with_diagnostics() {
    let a = argv(&["docker", "run"]);
    let out = Output::from_raw(ExitStatus::new(Some(1)), b"so\n".to_vec(), b"se\n".to_vec())
        .unwrap();
    match checked(&a, out) {
        Err(Error::NonZeroExit { message, stdout, stderr }) => {
            assert_eq!(message, "`docker run` failed");
            assert_eq!(stdout, "so");
            assert_eq!(stderr, "se");
        }
        _ => panic!("expected a non-zero-exit error"),
    }
}

#[test]
fn checked_stdout_returns_error_not_panic_on_failure() {
    let a = argv(&["false"]);
    let out = Output::from_raw(ExitStatus::new(Some(1)), b"out\n".to_vec(), b"err\n".to_vec())
        .unwrap();
    let r = checked_stdout("dns-test-unbound-1-2", &a, out);
    match r {
        Err(Error::NonZeroExit { message, stdout, stderr }) => {
            assert_eq!(message, "[dns-test-unbound-1-2] `false` failed");
            assert!(message.contains("dns-test-unbound-1-2"));
            assert!(message.contains("false"));
            assert_eq!(stdout, "out");
            assert_eq!(stderr, "err");
        }
        _ => panic!("expected a non-zero-exit error"),
    }
}

#[test]
fn checked_stdout_keeps_only_stdout_on_success() {
    let a = argv(&["cat", "/tmp/somefile"]);
    let out = Output::from_raw(ExitStatus::new(Some(0)), b"hello".to_vec(), b"".to_vec())
        .unwrap();
    assert_eq!(checked_stdout("sandbox", &a, out).unwrap(), "hello");
}

#[test]
fn checked_status_splits_on_exit_code() {
    let a = argv(&["chmod", "666", "/tmp/somefile"]);
    assert!(checked_status("s", &a, ExitStatus::new(Some(0))).is_ok());
    match checked_status("s", &a, ExitStatus::new(Some(2))) {
        Err(Error::NonZeroExit { message, stdout, stderr }) => {
            assert_eq!(message, "[s] `chmod 666 /tmp/somefile` failed");
            assert_eq!(stdout, "");
            assert_eq!(stderr, "");
        }
        _ => panic!("expected a non-zero-exit error"),
    }
}
