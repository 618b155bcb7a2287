use launcher_core::models::{
    get_current_os, JavaVersion, LaunchProgress, LaunchStage, Library, Os, Platform, Rule,
};
use launcher_core::rules::{evaluate_rules, should_use_library};

fn rule(action: &str, os: Option<&str>) -> Rule {
    Rule {
        action: action.to_string(),
        os: os.map(|n| Os { name: Some(n.to_string()) }),
    }
}

fn library_with(rules: Vec<Rule>) -> Library {
    Library { downloads: None, rules, natives: None, extract: None }
}

#[test]
fn empty_rules_are_included_everywhere() {
    for p in [Platform::Windows, Platform::Linux, Platform::Osx] {
        assert!(should_use_library(&library_with(vec![]), p));
    }
}

#[test]
fn later_platform_deny_overrides_unconditional_allow() {
    let rules = vec![rule("allow", None), rule("deny", Some("linux"))];
    assert!(!evaluate_rules(&rules, Platform::Linux));
    assert!(evaluate_rules(&rules, Platform::Windows));
}

#[test]
fn later_unconditional_allow_overrides_platform_deny() {
    let rules = vec![rule("deny", Some("linux")), rule("allow", None)];
    assert!(evaluate_rules(&rules, Platform::Linux));
}

#[test]
fn platform_allow_only_applies_on_that_platform() {
    let rules = vec![rule("allow", Some("osx"))];
    assert!(evaluate_rules(&rules, Platform::Osx));
    assert!(!evaluate_rules(&rules, Platform::Linux));
}

#[test]
fn os_without_name_applies_everywhere() {
    let rules = vec![Rule { action: "allow".to_string(), os: Some(Os { name: None }) }];
    assert!(evaluate_rules(&rules, Platform::Windows));
}

#[test]
fn unknown_action_counts_as_deny() {
    let rules = vec![rule("allow", None), rule("disallow", None)];
    assert!(!evaluate_rules(&rules, Platform::Linux));
}

#[test]
fn platform_names() {
    assert_eq!(get_current_os(Platform::Windows), "windows");
    assert_eq!(get_current_os(Platform::Linux), "linux");
    assert_eq!(get_current_os(Platform::Osx), "osx");
}

#[test]
fn java_version_accessors() {
    let j = JavaVersion { component: "java-runtime-gamma".to_string(), major_version: 17 };
    assert_eq!(j.get_major_version(), 17);
}

fn progress(stage: LaunchStage, current: usize, total: usize) -> LaunchProgress {
    LaunchProgress { stage, message: String::new(), current, total }
}

#[test]
fn percentage_spans_the_stage_range() {
    assert_eq!(progress(LaunchStage::DownloadingLibraries, 0, 10).percentage(), 1000);
    assert_eq!(progress(LaunchStage::DownloadingLibraries, 5, 10).percentage(), 1500);
    assert_eq!(progress(LaunchStage::DownloadingLibraries, 10, 10).percentage(), 2000);
    assert_eq!(progress(LaunchStage::DownloadingLibraries, 1, 3).percentage(), 1333);
}

#[test]
fn percentage_clamps_current_to_total() {
    assert_eq!(progress(LaunchStage::ProcessStarted, 50, 10).percentage(), 9500);
    assert_eq!(progress(LaunchStage::Complete, 100, 100).percentage(), 10000);
}

#[test]
fn percentage_with_zero_total_is_complete() {
    assert_eq!(progress(LaunchStage::PreparingLibraries, 0, 0).percentage(), 10000);
}

#[test]
fn percentage_never_decreases_within_a_stage() {
    let mut last = 0;
    for c in 0..=40 {
        let p = progress(LaunchStage::DownloadingAssets, c, 37).percentage();
        assert!(p >= last);
        last = p;
    }
    assert_eq!(last, 5000);
}

#[test]
fn percentage_stage_boundaries_meet() {
    let stages = [
        LaunchStage::PreparingLibraries,
        LaunchStage::DownloadingLibraries,
        LaunchStage::ExtractingNatives,
        LaunchStage::PreparingAssets,
        LaunchStage::DownloadingAssets,
        LaunchStage::AssetLoadComplete,
        LaunchStage::ValidatingJava,
        LaunchStage::BuildingArguments,
        LaunchStage::StartingProcess,
        LaunchStage::ProcessStarted,
        LaunchStage::LaunchingGame,
        LaunchStage::Complete,
    ];
    for w in stages.windows(2) {
        assert_eq!(progress(w[0], 4, 4).percentage(), progress(w[1], 0, 4).percentage());
    }
    assert_eq!(progress(LaunchStage::LaunchingGame, 0, 1).percentage(), 9500);
}
