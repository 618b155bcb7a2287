use launcher_core::models::{
    AssetIndex, AssetIndexData, AssetObject, DownloadInfo, Downloads, Library, LibraryDownloads,
    Artifact, Platform, Rule, VersionData,
};
use launcher_core::resolver::{resolve_assets, resolve_libraries, AssetTask};
use launcher_core::rules::should_use_library;
use launcher_core::schedule::{build_classpath, is_required_asset, pending_tasks, split_assets};

fn object(vp: &str, hash: &str) -> (String, AssetObject) {
    (vp.to_string(), AssetObject { hash: hash.to_string() })
}

fn tasks_of(objects: Vec<(String, AssetObject)>) -> Vec<AssetTask> {
    resolve_assets(&AssetIndexData { objects }).unwrap()
}

#[test]
fn required_markers_select_menu_assets() {
    assert!(is_required_asset("minecraft/sounds/ui/button/click.ogg"));
    assert!(is_required_asset("minecraft/sounds/random/click.ogg"));
    assert!(is_required_asset("minecraft/lang/de_de.json"));
    assert!(is_required_asset("minecraft/textures/gui/title/minecraft.png"));
    assert!(is_required_asset("minecraft/font/default.json"));
    assert!(!is_required_asset("minecraft/sounds/mob/cow/say1.ogg"));
    assert!(!is_required_asset(""));
}

#[test]
fn split_keeps_index_order_in_both_phases() {
    let tasks = tasks_of(vec![
        object("minecraft/sounds/mob/a.ogg", "aa11"),
        object("minecraft/lang/en_us.json", "bb22"),
        object("minecraft/sounds/mob/b.ogg", "cc33"),
        object("minecraft/font/ascii.png", "dd44"),
    ]);
    let phases = split_assets(&tasks);
    let req: Vec<&str> = phases.required.iter().map(|t| t.virtual_path.as_str()).collect();
    let bg: Vec<&str> = phases.background.iter().map(|t| t.virtual_path.as_str()).collect();
    assert_eq!(req, vec!["minecraft/lang/en_us.json", "minecraft/font/ascii.png"]);
    assert_eq!(bg, vec!["minecraft/sounds/mob/a.ogg", "minecraft/sounds/mob/b.ogg"]);
}

#[test]
fn present_destinations_are_not_fetched_again() {
    let tasks = tasks_of(vec![object("x", "aa11"), object("y", "bb22"), object("z", "cc33")]);
    let pending = pending_tasks(&tasks, &vec![true, false, true]);
    assert_eq!(pending.len(), 1);
    assert_eq!(pending[0].virtual_path, "y");
    let second_run = pending_tasks(&tasks, &vec![true, true, true]);
    assert!(second_run.is_empty());
}

#[test]
fn classpath_joins_libraries_then_client() {
    let libs = vec!["/l/a.jar".to_string(), "/l/b.jar".to_string()];
    assert_eq!(build_classpath(&libs, "/v/client.jar", ":"), "/l/a.jar:/l/b.jar:/v/client.jar");
    assert_eq!(build_classpath(&vec![], "/v/client.jar", ";"), "/v/client.jar");
}

#[test]
fn end_to_end_required_assets_come_first() {
    let included = Library {
        downloads: Some(LibraryDownloads {
            artifact: Some(Artifact { path: "inc/inc.jar".to_string(), url: "https://l/inc.jar".to_string() }),
            classifiers: None,
        }),
        rules: vec![],
        natives: None,
        extract: None,
    };
    let excluded = Library {
        downloads: Some(LibraryDownloads {
            artifact: Some(Artifact { path: "exc/exc.jar".to_string(), url: "https://l/exc.jar".to_string() }),
            classifiers: None,
        }),
        rules: vec![Rule { action: "deny".to_string(), os: None }],
        natives: None,
        extract: None,
    };
    let v = VersionData {
        downloads: Downloads { client: DownloadInfo { url: "https://c/client.jar".to_string() } },
        libraries: vec![included, excluded],
        main_class: String::new(),
        asset_index: AssetIndex { id: "17".to_string(), url: "https://i/17.json".to_string() },
        java_version: None,
    };
    let libs = resolve_libraries(&v, Platform::Linux);
    assert_eq!(libs.len(), 1);
    assert!(should_use_library(&v.libraries[0], Platform::Linux));
    assert!(!should_use_library(&v.libraries[1], Platform::Linux));
    assert_eq!(libs[0].logical_name, "inc/inc.jar");

    let tasks = tasks_of(vec![
        object("minecraft/sounds/ambient/cave1.ogg", "0f1e2d"),
        object("minecraft/textures/gui/widgets.png", "a1b2c3"),
    ]);
    let phases = split_assets(&tasks);
    assert_eq!(phases.required.len(), 1);
    assert_eq!(phases.required[0].virtual_path, "minecraft/textures/gui/widgets.png");
    assert_eq!(phases.required[0].task.destination_path, "assets/objects/a1/a1b2c3");
    assert_eq!(phases.background.len(), 1);
    assert_eq!(phases.background[0].task.destination_path, "assets/objects/0f/0f1e2d");
    // After the required phase, only the background object is still missing.
    let after_phase_one = pending_tasks(&tasks, &vec![false, true]);
    assert_eq!(after_phase_one.len(), 1);
    assert_eq!(after_phase_one[0].virtual_path, "minecraft/sounds/ambient/cave1.ogg");
}
