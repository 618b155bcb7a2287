use launcher_core::java::{
    find_all_java_installations, find_compatible_java, get_java_full_version, get_java_version,
    major_from_full_version, select_runtime, RuntimeCandidate,
};

#[test]
fn full_version_from_modern_output() {
    let out = "openjdk version \"17.0.8\" 2023-07-18\nOpenJDK Runtime Environment (build 17.0.8+7)\n";
    assert_eq!(get_java_full_version(out).as_deref(), Some("17.0.8"));
    assert_eq!(get_java_version(out), Some(17));
}

#[test]
fn full_version_from_legacy_output() {
    let out = "java version \"1.8.0_381\"\nJava(TM) SE Runtime Environment (build 1.8.0_381-b09)\n";
    assert_eq!(get_java_full_version(out).as_deref(), Some("1.8.0_381"));
    assert_eq!(get_java_version(out), Some(8));
}

#[test]
fn full_version_with_suffix_and_bare_major() {
    assert_eq!(get_java_full_version("openjdk version \"11.0.20-ea\" 2023").as_deref(), Some("11.0.20-ea"));
    assert_eq!(get_java_version("openjdk version \"21\" 2023-09-19 LTS"), Some(21));
}

#[test]
fn output_without_version_gives_nothing() {
    assert_eq!(get_java_full_version("bash: java: command not found"), None);
    assert_eq!(get_java_version(""), None);
}

#[test]
fn major_under_both_grammars() {
    assert_eq!(major_from_full_version("1.8.0_381"), Some(8));
    assert_eq!(major_from_full_version("1.7.0"), Some(7));
    assert_eq!(major_from_full_version("17.0.8"), Some(17));
    assert_eq!(major_from_full_version("9"), Some(9));
    assert_eq!(major_from_full_version("1.x"), None);
    assert_eq!(major_from_full_version("1."), None);
    assert_eq!(major_from_full_version("x"), None);
    assert_eq!(major_from_full_version(""), None);
}

fn cand(path: &str, major: u32) -> RuntimeCandidate {
    RuntimeCandidate { executable_path: path.to_string(), version_string: major.to_string(), major }
}

#[test]
fn all_installations_deduplicated_and_sorted() {
    let probes = vec![
        ("/a/bin/java".to_string(), "17.0.1".to_string()),
        ("/b/bin/java".to_string(), "1.8.0_291".to_string()),
        ("/a/bin/java".to_string(), "11".to_string()),
        ("/c/bin/java".to_string(), "11.0.2".to_string()),
        ("/d/bin/java".to_string(), "unknown".to_string()),
        ("/e/bin/java".to_string(), "8".to_string()),
    ];
    let all = find_all_java_installations(&probes);
    let got: Vec<(&str, u32)> = all.iter().map(|c| (c.executable_path.as_str(), c.major)).collect();
    assert_eq!(got, vec![("/b/bin/java", 8), ("/e/bin/java", 8), ("/c/bin/java", 11), ("/a/bin/java", 17)]);
    assert_eq!(all[3].version_string, "17.0.1");
}

#[test]
fn exact_major_is_chosen() {
    let c = vec![cand("/j8", 8), cand("/j11", 11), cand("/j17", 17)];
    assert_eq!(find_compatible_java(&c, 11, false).as_deref(), Some("/j11"));
}

#[test]
fn closest_higher_major_when_not_strict() {
    let c = vec![cand("/j8", 8), cand("/j17", 17), cand("/j11", 11)];
    assert_eq!(find_compatible_java(&c, 9, false).as_deref(), Some("/j11"));
}

#[test]
fn strict_rejects_higher_majors() {
    let c = vec![cand("/j8", 8), cand("/j11", 11), cand("/j17", 17)];
    assert_eq!(find_compatible_java(&c, 9, true), None);
    assert_eq!(find_compatible_java(&c, 8, true).as_deref(), Some("/j8"));
}

#[test]
fn nothing_at_or_above_gives_none() {
    let c = vec![cand("/j8", 8), cand("/j11", 11)];
    assert_eq!(find_compatible_java(&c, 21, false), None);
    assert_eq!(find_compatible_java(&vec![], 8, false), None);
}

#[test]
fn first_in_search_order_wins_ties() {
    let c = vec![cand("/first17", 17), cand("/x21", 21), cand("/second17", 17)];
    assert_eq!(select_runtime(&c, 17, true), Some(0));
    assert_eq!(select_runtime(&c, 12, false), Some(0));
}

#[test]
fn platform_tables() {
    use_platform_tables();
}

fn use_platform_tables() {
    use_tables_for(launcher_core::models::Platform::Linux, "java", "/usr/lib/jvm", 3);
    use_tables_for(launcher_core::models::Platform::Windows, "java.exe", r"C:\Program Files\Java", 10);
    use_tables_for(launcher_core::models::Platform::Osx, "java", "/Library/Java/JavaVirtualMachines", 3);
}

fn use_tables_for(p: launcher_core::models::Platform, exe: &str, first_root: &str, roots: usize) {
    assert_eq!(launcher_core::java::java_executable_name(p), exe);
    let r = launcher_core::java::runtime_search_roots(p);
    assert_eq!(r.len(), roots);
    assert_eq!(r[0], first_root);
}

#[test]
fn java8_home_names() {
    assert!(launcher_core::java::is_java8_home_name("jre1.8.0_381"));
    assert!(launcher_core::java::is_java8_home_name("zulu-jdk8"));
    assert!(!launcher_core::java::is_java8_home_name("jdk-17.0.2"));
}
