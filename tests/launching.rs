use launcher_core::launch::{
    build_launch_arguments, jvm_args_for, runtime_requirement, LaunchOptions, RuntimeRequirement,
};
use launcher_core::models::{AssetIndex, DownloadInfo, Downloads, JavaVersion, Profile, VersionData};

fn data(java: Option<u32>) -> VersionData {
    VersionData {
        downloads: Downloads { client: DownloadInfo { url: String::new() } },
        libraries: vec![],
        main_class: String::new(),
        asset_index: AssetIndex { id: "17".to_string(), url: String::new() },
        java_version: java.map(|m| JavaVersion { component: "jre".to_string(), major_version: m }),
    }
}

#[test]
fn runtime_from_descriptor_is_not_strict() {
    assert_eq!(
        runtime_requirement("1.20.1", &data(Some(17))),
        RuntimeRequirement { major: 17, strict: false }
    );
    assert_eq!(runtime_requirement("b1.7.3", &data(Some(21))).major, 21);
}

#[test]
fn legacy_ids_need_exactly_eight() {
    for id in ["a1.0.4", "b1.7.3", "1.8.9", "1.7.10", "1.0", "1.12.2"] {
        assert_eq!(runtime_requirement(id, &data(None)), RuntimeRequirement { major: 8, strict: true }, "{id}");
    }
}

#[test]
fn other_ids_default_to_seventeen() {
    for id in ["23w14a", "2.0", "rd-132211"] {
        assert_eq!(runtime_requirement(id, &data(None)), RuntimeRequirement { major: 17, strict: false }, "{id}");
    }
}

fn options(version_id: &str, index: &str, jvm: Option<Vec<&str>>) -> LaunchOptions {
    LaunchOptions {
        version_id: version_id.to_string(),
        username: "Steve".to_string(),
        main_class: String::new(),
        classpath: "/l/a.jar:/v/client.jar".to_string(),
        natives_dir: "/v/natives".to_string(),
        game_dir: "/g".to_string(),
        assets_dir: "/g/assets".to_string(),
        legacy_assets_dir: "/g/assets/legacy".to_string(),
        asset_index_id: index.to_string(),
        jvm_args: jvm.map(|v| v.into_iter().map(String::from).collect()),
    }
}

#[test]
fn modern_flag_form() {
    let args = build_launch_arguments(&options("1.20.1", "5", Some(vec!["-Xmx4G"])));
    assert_eq!(
        args,
        vec![
            "-Xmx4G",
            "-Djava.library.path=/v/natives",
            "-Dminecraft.launcher.brand=CustomLauncher",
            "-Dminecraft.launcher.version=1.0",
            "-cp",
            "/l/a.jar:/v/client.jar",
            "net.minecraft.client.main.Main",
            "--username",
            "Steve",
            "--version",
            "1.20.1",
            "--gameDir",
            "/g",
            "--assetsDir",
            "/g/assets",
            "--assetIndex",
            "5",
            "--accessToken",
            "0",
            "--uuid",
            "00000000-0000-0000-0000-000000000000",
            "--userProperties",
            "{}",
        ]
    );
}

#[test]
fn legacy_index_uses_legacy_assets_without_index_flag() {
    let mut o = options("1.5.2", "pre-1.6", None);
    o.main_class = "net.minecraft.launchwrapper.Launch".to_string();
    let args = build_launch_arguments(&o);
    assert_eq!(&args[..2], &["-Xms512M".to_string(), "-Xmx2G".to_string()]);
    assert_eq!(args[7], "net.minecraft.launchwrapper.Launch");
    assert_eq!(args[15], "/g/assets/legacy");
    assert!(!args.contains(&"--assetIndex".to_string()));
    assert_eq!(args.len(), 22);
}

#[test]
fn alpha_and_beta_use_positional_form() {
    let args = build_launch_arguments(&options("a1.2.6", "legacy", Some(vec![])));
    assert_eq!(
        args,
        vec![
            "-Djava.library.path=/v/natives",
            "-Dminecraft.launcher.brand=CustomLauncher",
            "-Dminecraft.launcher.version=1.0",
            "-cp",
            "/l/a.jar:/v/client.jar",
            "net.minecraft.client.Minecraft",
            "Steve",
            "token:0:0",
        ]
    );
}

fn profile(name: &str, args: Option<&str>) -> Profile {
    Profile { username: name.to_string(), jvm_args: args.map(String::from) }
}

#[test]
fn profile_arguments_are_split_on_white_space() {
    let profiles = vec![
        profile("alice", Some("  -Xmx4G \t-XX:+UseG1GC\n")),
        profile("bob", None),
        profile("alice", Some("-Xmx1G")),
    ];
    assert_eq!(
        jvm_args_for(&profiles, "alice"),
        Some(vec!["-Xmx4G".to_string(), "-XX:+UseG1GC".to_string()])
    );
    assert_eq!(jvm_args_for(&profiles, "bob"), None);
    assert_eq!(jvm_args_for(&profiles, "carol"), None);
    assert_eq!(jvm_args_for(&vec![profile("dan", Some("   "))], "dan"), Some(vec![]));
}
