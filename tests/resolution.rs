use launcher_core::models::{
    Artifact, AssetIndex, AssetIndexData, AssetObject, DownloadInfo, Downloads, Extract,
    Library, LibraryDownloads, Os, Platform, Rule, VersionData,
};
use launcher_core::resolver::{
    asset_index_task, asset_object_path, asset_object_url, mirror_mode, mirror_path,
    resolve_assets, resolve_libraries, resolve_natives, should_extract_entry, MirrorMode,
    ResolveError,
};

fn artifact(path: &str) -> Artifact {
    Artifact { path: path.to_string(), url: format!("https://libraries.example/{path}") }
}

fn plain_library(path: &str, rules: Vec<Rule>) -> Library {
    Library {
        downloads: Some(LibraryDownloads { artifact: Some(artifact(path)), classifiers: None }),
        rules,
        natives: None,
        extract: None,
    }
}

fn descriptor(libraries: Vec<Library>, index_id: &str) -> VersionData {
    VersionData {
        downloads: Downloads { client: DownloadInfo { url: "https://example/client.jar".to_string() } },
        libraries,
        main_class: "net.minecraft.client.main.Main".to_string(),
        asset_index: AssetIndex { id: index_id.to_string(), url: "https://example/index.json".to_string() },
        java_version: None,
    }
}

fn deny_all() -> Vec<Rule> {
    vec![Rule { action: "deny".to_string(), os: None }]
}

#[test]
fn included_libraries_become_tasks_in_order() {
    let v = descriptor(
        vec![
            plain_library("a/a.jar", vec![]),
            plain_library("b/b.jar", deny_all()),
            plain_library("c/c.jar", vec![Rule {
                action: "allow".to_string(),
                os: Some(Os { name: Some("windows".to_string()) }),
            }]),
        ],
        "17",
    );
    let linux = resolve_libraries(&v, Platform::Linux);
    assert_eq!(linux.len(), 1);
    assert_eq!(linux[0].destination_path, "libraries/a/a.jar");
    assert_eq!(linux[0].source_url, "https://libraries.example/a/a.jar");
    assert_eq!(linux[0].logical_name, "a/a.jar");
    let windows = resolve_libraries(&v, Platform::Windows);
    let paths: Vec<&str> = windows.iter().map(|t| t.destination_path.as_str()).collect();
    assert_eq!(paths, vec!["libraries/a/a.jar", "libraries/c/c.jar"]);
}

#[test]
fn library_without_primary_artifact_gives_no_task() {
    let lib = Library { downloads: None, rules: vec![], natives: None, extract: None };
    assert!(resolve_libraries(&descriptor(vec![lib], "17"), Platform::Linux).is_empty());
}

fn native_library() -> Library {
    Library {
        downloads: Some(LibraryDownloads {
            artifact: None,
            classifiers: Some(vec![
                ("natives-windows".to_string(), artifact("lwjgl/natives-windows.jar")),
                ("natives-linux".to_string(), artifact("lwjgl/natives-linux.jar")),
            ]),
        }),
        rules: vec![],
        natives: Some(vec![
            ("linux".to_string(), "natives-linux".to_string()),
            ("windows".to_string(), "natives-windows".to_string()),
            ("osx".to_string(), "natives-macos".to_string()),
        ]),
        extract: Some(Extract { exclude: Some(vec!["META-INF/".to_string()]) }),
    }
}

#[test]
fn natives_follow_the_platform_classifier() {
    let v = descriptor(vec![native_library()], "17");
    let linux = resolve_natives(&v, Platform::Linux);
    assert_eq!(linux.len(), 1);
    assert_eq!(linux[0].task.destination_path, "natives/lwjgl/natives-linux.jar");
    assert_eq!(linux[0].exclude, vec!["META-INF/".to_string()]);
    let windows = resolve_natives(&v, Platform::Windows);
    assert_eq!(windows[0].task.logical_name, "lwjgl/natives-windows.jar");
}

#[test]
fn native_classifier_missing_from_downloads_gives_no_task() {
    let v = descriptor(vec![native_library()], "17");
    assert!(resolve_natives(&v, Platform::Osx).is_empty());
}

#[test]
fn excluded_natives_library_gives_no_task() {
    let mut lib = native_library();
    lib.rules = deny_all();
    assert!(resolve_natives(&descriptor(vec![lib], "17"), Platform::Linux).is_empty());
}

#[test]
fn extraction_skips_excluded_prefixes() {
    let exclude = vec!["META-INF/".to_string()];
    assert!(!should_extract_entry("META-INF/MANIFEST.MF", &exclude));
    assert!(should_extract_entry("liblwjgl.so", &exclude));
    assert!(should_extract_entry("META-INF", &exclude));
    assert!(should_extract_entry("anything", &vec![]));
}

#[test]
fn asset_index_document_task() {
    let t = asset_index_task(&descriptor(vec![], "1.20"));
    assert_eq!(t.destination_path, "assets/indexes/1.20.json");
    assert_eq!(t.source_url, "https://example/index.json");
}

const HASH: &str = "bdf48ef6b5d0d23bbb02e17d04865216179f510a";

#[test]
fn storage_path_depends_on_the_hash_alone() {
    assert_eq!(
        asset_object_path(HASH),
        "assets/objects/bd/bdf48ef6b5d0d23bbb02e17d04865216179f510a"
    );
    assert_eq!(
        asset_object_url(HASH),
        "https://resources.download.minecraft.net/bd/bdf48ef6b5d0d23bbb02e17d04865216179f510a"
    );
    let index = AssetIndexData {
        objects: vec![
            ("minecraft/lang/en_us.json".to_string(), AssetObject { hash: HASH.to_string() }),
            ("icons/icon_16x16.png".to_string(), AssetObject { hash: HASH.to_string() }),
        ],
    };
    let tasks = resolve_assets(&index).unwrap();
    assert_eq!(tasks.len(), 2);
    assert_eq!(tasks[0].task.destination_path, tasks[1].task.destination_path);
    assert_eq!(tasks[1].virtual_path, "icons/icon_16x16.png");
}

#[test]
fn short_hash_is_a_resolution_error() {
    let index = AssetIndexData {
        objects: vec![
            ("ok".to_string(), AssetObject { hash: HASH.to_string() }),
            ("bad".to_string(), AssetObject { hash: "a".to_string() }),
        ],
    };
    assert_eq!(
        resolve_assets(&index).unwrap_err(),
        ResolveError::InvalidHash { virtual_path: "bad".to_string() }
    );
}

fn numeric_at_most_1_8(id: &str) -> bool {
    id.parse::<f32>().map_or(false, |v| v <= 1.8)
}

#[test]
fn legacy_index_mirrors_to_legacy() {
    let mode = mirror_mode("legacy", numeric_at_most_1_8("legacy"));
    assert_eq!(mode, MirrorMode::Legacy);
    assert_eq!(mirror_path(mode, "sound/step/grass1.ogg").unwrap(), "assets/legacy/sound/step/grass1.ogg");
    assert_eq!(mirror_mode("pre-1.6", false), MirrorMode::Legacy);
}

#[test]
fn index_1_7_10_mirrors_to_resources() {
    let mode = mirror_mode("1.7.10", numeric_at_most_1_8("1.7.10"));
    assert_eq!(mode, MirrorMode::Resources);
    assert_eq!(mirror_path(mode, "a/b.png").unwrap(), "assets/resources/a/b.png");
}

#[test]
fn unparseable_index_id_mirrors_nothing() {
    let mode = mirror_mode("abcd", numeric_at_most_1_8("abcd"));
    assert_eq!(mode, MirrorMode::Off);
    assert_eq!(mirror_path(mode, "a/b.png"), None);
}

#[test]
fn numeric_index_ids_mirror_by_value() {
    assert_eq!(mirror_mode("17", numeric_at_most_1_8("17")), MirrorMode::Off);
    assert_eq!(mirror_mode("1.8", numeric_at_most_1_8("1.8")), MirrorMode::Resources);
    assert_eq!(mirror_mode("5", numeric_at_most_1_8("5")), MirrorMode::Off);
}
