use launcher_core::manifest::{get_version_ids, get_version_link};
use launcher_core::models::{VersionInfo, VersionManifest};

fn manifest() -> VersionManifest {
    VersionManifest {
        versions: vec![
            VersionInfo { id: "1.20.1".to_string(), release_type: "release".to_string(), url: "https://m/1.20.1.json".to_string() },
            VersionInfo { id: "b1.7.3".to_string(), release_type: "old_beta".to_string(), url: "https://m/b1.7.3.json".to_string() },
        ],
    }
}

#[test]
fn ids_are_listed_with_their_types() {
    assert_eq!(get_version_ids(&manifest()), "1.20.1|release|b1.7.3|old_beta|");
    assert_eq!(get_version_ids(&VersionManifest { versions: vec![] }), "");
}

#[test]
fn link_of_a_listed_version() {
    assert_eq!(get_version_link(&manifest(), "b1.7.3").as_deref(), Some("https://m/b1.7.3.json"));
    assert_eq!(get_version_link(&manifest(), "1.19"), None);
}
