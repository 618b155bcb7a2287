use launcher_core::messages::{classify_spawn_error, friendly_error_message};
use launcher_core::models::LaunchStage;
use launcher_core::supervisor::{
    loading_message, ErrorSlot, Phase, ProcessStatus, ProgressTracker, Supervisor, SupervisorConfig, Verdict,
};

fn failed(v: Verdict) -> String {
    match v {
        Verdict::Failed { message } => message,
        other => panic!("expected a failure, got {other:?}"),
    }
}

#[test]
fn clean_exit_after_one_second_is_an_error() {
    let mut s = Supervisor::new(SupervisorConfig::default());
    let m = failed(s.poll(&ProcessStatus::Exited { code: 0 }));
    assert_eq!(m, "Minecraft process ended unexpectedly but cleanly");
    assert_eq!(s.phase, Phase::Crashed);
}

#[test]
fn clean_exit_late_in_the_window_counts_as_started() {
    let mut s = Supervisor::new(SupervisorConfig::default());
    assert!(matches!(s.poll(&ProcessStatus::Running), Verdict::KeepWatching));
    assert!(matches!(s.poll(&ProcessStatus::Running), Verdict::KeepWatching));
    assert!(matches!(s.poll(&ProcessStatus::Exited { code: 0 }), Verdict::Confirmed));
    assert_eq!(s.phase, Phase::Confirmed);
}

#[test]
fn non_zero_exit_without_signature_is_generic() {
    let mut s = Supervisor::new(SupervisorConfig::default());
    assert!(matches!(s.observe_line("Picked up _JAVA_OPTIONS"), Verdict::KeepWatching));
    s.poll(&ProcessStatus::Running);
    s.poll(&ProcessStatus::Running);
    s.poll(&ProcessStatus::Running);
    let m = failed(s.poll(&ProcessStatus::Exited { code: 1 }));
    assert_eq!(m, "Game crashed during startup with code: 1");
    let mut t = Supervisor::new(SupervisorConfig::default());
    assert_eq!(failed(t.poll(&ProcessStatus::Exited { code: -1 })), "Game crashed during startup with code: -1");
}

#[test]
fn non_zero_exit_is_classified_from_captured_lines() {
    let mut s = Supervisor::new(SupervisorConfig { poll_steps: 7, clean_exit_steps: 2, max_stderr_lines: 10 });
    s.captured.push("Exception in thread \"main\" java.lang.UnsatisfiedLinkError: no lwjgl".to_string());
    let m = failed(s.poll(&ProcessStatus::Exited { code: 1 }));
    assert_eq!(m, "Error: Native libraries could not be loaded. Try launching the game again.");
}

#[test]
fn fatal_line_fails_at_once() {
    let mut s = Supervisor::new(SupervisorConfig::default());
    let m = failed(s.observe_line(
        "Error: Could not create the Java Virtual Machine.",
    ));
    assert_eq!(m, "Error: Java could not start. Check the extra Java arguments of the profile.");
    assert_eq!(s.phase, Phase::Crashed);
    assert_eq!(s.step, 0);
    let mut t = Supervisor::new(SupervisorConfig::default());
    let m = failed(t.observe_line("java.lang.UnsupportedClassVersionError: net/minecraft/client/main/Main"));
    assert_eq!(m, "Error: The game needs a newer Java version than the selected one.");
}

#[test]
fn only_the_first_lines_are_kept() {
    let mut s = Supervisor::new(SupervisorConfig { poll_steps: 3, clean_exit_steps: 1, max_stderr_lines: 2 });
    for line in ["one", "two", "three"] {
        s.observe_line(line);
    }
    assert_eq!(s.captured, vec!["one".to_string(), "two".to_string()]);
}

#[test]
fn surviving_the_window_confirms() {
    let mut s = Supervisor::new(SupervisorConfig::default());
    for _ in 0..6 {
        assert!(matches!(s.poll(&ProcessStatus::Running), Verdict::KeepWatching));
    }
    assert!(matches!(s.poll(&ProcessStatus::Running), Verdict::Confirmed));
    assert_eq!(s.step, 7);
}

#[test]
fn unreadable_status_fails() {
    let mut s = Supervisor::new(SupervisorConfig::default());
    let m = failed(s.poll(&ProcessStatus::Unreadable { error: "interrupted".to_string() }));
    assert_eq!(m, "Failed to check game process status: interrupted");
}

#[test]
fn loading_status_line() {
    assert_eq!(loading_message(3), "Minecraft is loading... (3s)");
}

#[test]
fn progress_stage_never_goes_back() {
    let mut p = ProgressTracker::new();
    let a = p.report(LaunchStage::DownloadingAssets, 1, 2, "a".to_string());
    assert_eq!(a.stage, LaunchStage::DownloadingAssets);
    let b = p.report(LaunchStage::PreparingLibraries, 0, 1, "b".to_string());
    assert_eq!(b.stage, LaunchStage::DownloadingAssets);
    assert_eq!(b.message, "b");
    let c = p.report(LaunchStage::Complete, 1, 1, "c".to_string());
    assert_eq!(c.stage, LaunchStage::Complete);
}

#[test]
fn friendly_messages_replace_known_failures() {
    assert_eq!(
        friendly_error_message("java.lang.OutOfMemoryError: Java heap space"),
        "Not enough memory to start Minecraft. Try closing other programs or increasing the memory allocation in the profile settings."
    );
    assert_eq!(
        friendly_error_message("Game crashed during startup with code: 1"),
        "Minecraft exited with an error when starting. This may be due to Java version incompatibility, insufficient system resources, or game file corruption."
    );
    assert_eq!(
        friendly_error_message("GLFW error: no valid OpenGL context"),
        "OpenGL error. Update your video card drivers or make sure your computer supports the required OpenGL version."
    );
    assert_eq!(friendly_error_message("Something else"), "Something else");
}

#[test]
fn spawn_errors_are_classified() {
    assert_eq!(
        classify_spawn_error("No such file or directory (os error 2)"),
        "Error: Java not found. Please install Java and try again."
    );
    assert_eq!(
        classify_spawn_error("Cannot allocate memory (os error 12)"),
        "Error: Not enough memory. Try closing other applications or allocate more memory."
    );
    assert_eq!(classify_spawn_error("weird"), "Failed to start game: weird");
}

fn final_report(message: &str) -> launcher_core::models::LaunchProgress {
    launcher_core::models::LaunchProgress {
        stage: LaunchStage::Complete,
        message: message.to_string(),
        current: 100,
        total: 100,
    }
}

#[test]
fn error_slot_keeps_the_last_failure_once() {
    let mut slot = ErrorSlot::new();
    slot.offer(&final_report("Game launched successfully!"));
    assert_eq!(slot.pending, None);
    slot.offer(&final_report("Game CRASHED during startup with code: 1"));
    slot.offer(&final_report("ERROR: Java not found"));
    assert_eq!(slot.take().as_deref(), Some("ERROR: Java not found"));
    assert_eq!(slot.take(), None);
}

#[test]
fn error_slot_ignores_reports_before_completion() {
    let mut slot = ErrorSlot::new();
    let mut p = final_report("Failed to fetch");
    p.stage = LaunchStage::DownloadingAssets;
    slot.offer(&p);
    assert_eq!(slot.pending, None);
    slot.set("explicit".to_string());
    assert_eq!(slot.take().as_deref(), Some("explicit"));
}
