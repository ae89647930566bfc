use portwatcher::process_manager::{ProcessManager, SignalOutcome};
use portwatcher::types::{HelperRun, KillResult};

#[test]
fn test_process_exists_invalid() {
    // A very high PID should not exist
    assert!(!ProcessManager::process_exists(999999999));
}

#[test]
fn test_is_owned_by_current_user_init() {
    // Process 1 (init/systemd) is typically owned by root; in a pid
    // namespace it may instead be the caller's own supervisor, so assert
    // only when it really belongs to root and we are not root ourselves
    if users::get_current_uid() != 0 && ProcessManager::probe_owner_uid(1) == Some(0) {
        assert!(!ProcessManager::is_owned_by_current_user(1));
    }
}

#[test]
fn test_kill_nonexistent() {
    let result = ProcessManager::kill(999999999);
    matches!(result, KillResult::ProcessNotFound { .. });
}

#[test]
fn test_kill_not_owned() {
    // Process 1 is typically not owned by regular users; skip inside a pid
    // namespace where it is ours, to avoid signalling our own supervisor
    if users::get_current_uid() != 0 && ProcessManager::probe_owner_uid(1) == Some(0) {
        let result = ProcessManager::kill(1);
        matches!(result, KillResult::PermissionDenied { .. });
    }
}

#[test]
fn test_kill_nonexistent_is_not_error() {
    // repeated calls give the same answer and have no side effect
    for _ in 0..2 {
        match ProcessManager::kill(999999999) {
            KillResult::ProcessNotFound { pid } => assert_eq!(pid, 999999999),
            other => panic!("expected ProcessNotFound, got {:?}", other),
        }
    }
}

#[test]
fn test_kill_precheck_cases() {
    match ProcessManager::kill_precheck(7, false, Some(0), 0) {
        Some(KillResult::ProcessNotFound { pid }) => assert_eq!(pid, 7),
        other => panic!("expected ProcessNotFound, got {:?}", other),
    }
    match ProcessManager::kill_precheck(7, true, Some(0), 1000) {
        Some(KillResult::PermissionDenied { pid }) => assert_eq!(pid, 7),
        other => panic!("expected PermissionDenied, got {:?}", other),
    }
    match ProcessManager::kill_precheck(7, true, None, 1000) {
        Some(KillResult::PermissionDenied { pid }) => assert_eq!(pid, 7),
        other => panic!("expected PermissionDenied, got {:?}", other),
    }
    assert!(ProcessManager::kill_precheck(7, true, Some(1000), 1000).is_none());
}

#[test]
fn test_uid_matches() {
    assert!(ProcessManager::uid_matches(Some(1000), 1000));
    assert!(!ProcessManager::uid_matches(Some(0), 1000));
    assert!(!ProcessManager::uid_matches(None, 1000));
}

#[test]
fn test_elevation_precheck() {
    match ProcessManager::elevation_precheck(7, false) {
        Some(KillResult::ProcessNotFound { pid }) => assert_eq!(pid, 7),
        other => panic!("expected ProcessNotFound, got {:?}", other),
    }
    assert!(ProcessManager::elevation_precheck(7, true).is_none());
}

#[test]
fn test_signal_result_cases() {
    matches!(
        ProcessManager::signal_result(5, SignalOutcome::Delivered),
        KillResult::Success
    );
    match ProcessManager::signal_result(5, SignalOutcome::NoPermission) {
        KillResult::PermissionDenied { pid } => assert_eq!(pid, 5),
        other => panic!("expected PermissionDenied, got {:?}", other),
    }
    match ProcessManager::signal_result(5, SignalOutcome::NoSuchProcess) {
        KillResult::ProcessNotFound { pid } => assert_eq!(pid, 5),
        other => panic!("expected ProcessNotFound, got {:?}", other),
    }
    match ProcessManager::signal_result(
        5,
        SignalOutcome::Failed { message: String::from("EINVAL") },
    ) {
        KillResult::Error { message } => {
            assert_eq!(message, "Failed to kill process 5: EINVAL")
        },
        other => panic!("expected Error, got {:?}", other),
    }
}

#[test]
fn test_interpret_elevation_success() {
    let run = HelperRun::Completed { success: true, code: Some(0) };
    matches!(
        ProcessManager::interpret_elevation(9, run, true),
        KillResult::Success
    );
}

#[test]
fn test_interpret_elevation_cancelled() {
    let run = HelperRun::Completed { success: false, code: Some(126) };
    match ProcessManager::interpret_elevation(9, run, true) {
        KillResult::Error { message } => assert_eq!(message, "Authentication cancelled"),
        other => panic!("expected Error, got {:?}", other),
    }
}

#[test]
fn test_interpret_elevation_helper_missing() {
    let run = HelperRun::Completed { success: false, code: Some(127) };
    match ProcessManager::interpret_elevation(9, run, true) {
        KillResult::Error { message } => {
            assert_eq!(message, "pkexec not found. Please install policykit-1")
        },
        other => panic!("expected Error, got {:?}", other),
    }
}

#[test]
fn test_interpret_elevation_ambiguous_code_one() {
    // target already gone: report success
    let run = HelperRun::Completed { success: false, code: Some(1) };
    match ProcessManager::interpret_elevation(9, run, false) {
        KillResult::Success => {},
        other => panic!("expected Success, got {:?}", other),
    }
    // target still present: a real failure
    let run = HelperRun::Completed { success: false, code: Some(1) };
    match ProcessManager::interpret_elevation(9, run, true) {
        KillResult::Error { message } => assert_eq!(message, "Failed to kill process 9"),
        other => panic!("expected Error, got {:?}", other),
    }
}

#[test]
fn test_interpret_elevation_other_code() {
    let run = HelperRun::Completed { success: false, code: Some(42) };
    match ProcessManager::interpret_elevation(9, run, true) {
        KillResult::Error { message } => assert_eq!(message, "pkexec exited with code: 42"),
        other => panic!("expected Error, got {:?}", other),
    }
    let run = HelperRun::Completed { success: false, code: None };
    match ProcessManager::interpret_elevation(9, run, true) {
        KillResult::Error { message } => assert_eq!(message, "pkexec exited with code: none"),
        other => panic!("expected Error, got {:?}", other),
    }
}

#[test]
fn test_interpret_elevation_launch_failed() {
    let run = HelperRun::LaunchFailed { message: String::from("No such file or directory") };
    match ProcessManager::interpret_elevation(9, run, true) {
        KillResult::Error { message } => {
            assert_eq!(message, "Failed to execute pkexec: No such file or directory")
        },
        other => panic!("expected Error, got {:?}", other),
    }
}
