//! From a version descriptor to the files that must exist locally.
//!
//! Destination paths are relative to the launcher's base directory and use
//! `/` as separator; native bundles are relative to the version's directory.
use vstd::prelude::*;

use crate::models::{
    lookup, platform_name, get_current_os, AssetIndexData, AssetObject, Artifact, Library,
    Platform, VersionData,
};
use crate::rules::{should_include, should_use_library};
use crate::text::{joined, seq_starts_with, text_eq, text_starts_with};

verus! {

/// One file to fetch: from where, to where, and under which name to report it.
#[derive(Clone, Debug)]
pub struct AcquisitionTask {
    pub source_url: String,
    pub destination_path: String,
    pub logical_name: String,
}

/// What an acquisition task says, as character sequences.
pub struct TaskView {
    pub source_url: Seq<char>,
    pub destination_path: Seq<char>,
    pub logical_name: Seq<char>,
}

impl View for AcquisitionTask {
    type V = TaskView;

    open spec fn view(&self) -> TaskView {
        TaskView {
            source_url: self.source_url@,
            destination_path: self.destination_path@,
            logical_name: self.logical_name@,
        }
    }
}

impl AcquisitionTask {
    /// A copy with the same fields.
    pub fn duplicate(&self) -> (r: Self)
        ensures
            r == *self,
    {
        AcquisitionTask {
            source_url: self.source_url.clone(),
            destination_path: self.destination_path.clone(),
            logical_name: self.logical_name.clone(),
        }
    }
}

/// A native bundle to fetch, with the entry-name prefixes to skip when it is
/// unpacked.
#[derive(Clone, Debug)]
pub struct NativeTask {
    pub task: AcquisitionTask,
    pub exclude: Vec<String>,
}

/// An asset object to fetch, with its virtual path (used only to mirror it).
#[derive(Clone, Debug)]
pub struct AssetTask {
    pub task: AcquisitionTask,
    pub virtual_path: String,
}

impl AssetTask {
    /// A copy with the same fields.
    pub fn duplicate(&self) -> (r: Self)
        ensures
            r == *self,
    {
        AssetTask { task: self.task.duplicate(), virtual_path: self.virtual_path.clone() }
    }
}

/// Why a descriptor could not be resolved.
#[derive(Clone, Debug, PartialEq, Eq)]
pub enum ResolveError {
    /// An asset object whose hash is too short to address it.
    InvalidHash { virtual_path: String },
}

/// The views of a sequence of strings.
pub open spec fn string_views(s: Seq<String>) -> Seq<Seq<char>> {
    s.map_values(|x: String| x@)
}

/// The task for a library's primary file.
pub open spec fn library_task(a: Artifact) -> TaskView {
    TaskView {
        source_url: a.url@,
        destination_path: "libraries/"@ + a.path@,
        logical_name: a.path@,
    }
}

/// The primary file of a library, if it has one.
pub open spec fn primary_artifact(lib: Library) -> Option<Artifact> {
    match lib.downloads {
        Some(d) => d.artifact,
        None => None,
    }
}

/// The library tasks of `libs` on `os`, in descriptor order.
pub open spec fn library_tasks(libs: Seq<Library>, os: Seq<char>) -> Seq<TaskView>
    decreases libs.len(),
{
    if libs.len() == 0 {
        Seq::empty()
    } else {
        let prev = library_tasks(libs.drop_last(), os);
        let lib = libs.last();
        if should_include(lib.rules@, os) && primary_artifact(lib) is Some {
            prev.push(library_task(primary_artifact(lib)->0))
        } else {
            prev
        }
    }
}

/// The task views of a sequence of tasks.
pub open spec fn task_views(s: Seq<AcquisitionTask>) -> Seq<TaskView> {
    s.map_values(|t: AcquisitionTask| t@)
}

fn copy_strings(v: &Vec<String>) -> (r: Vec<String>)
    ensures
        r@ == v@,
{
    let mut out: Vec<String> = Vec::new();
    let mut i: usize = 0;
    while i < v.len()
        invariant
            i <= v@.len(),
            out@ == v@.subrange(0, i as int),
        decreases v@.len() - i,
    {
        out.push(v[i].clone());
        i = i + 1;
        assert(out@ =~= v@.subrange(0, i as int));
    }
    out
}

/// The position of the first entry whose key is `key`.
pub fn find_key<V>(entries: &Vec<(String, V)>, key: &str) -> (r: Option<usize>)
    ensures
        match r {
            Some(i) => i < entries@.len() && lookup(entries@, key@) == Some(entries@[i as int].1),
            None => lookup(entries@, key@) is None,
        },
{
    let mut i: usize = 0;
    assert(entries@.subrange(0, entries@.len() as int) =~= entries@);
    while i < entries.len()
        invariant
            i <= entries@.len(),
            lookup(entries@, key@) == lookup(entries@.subrange(i as int, entries@.len() as int), key@),
        decreases entries@.len() - i,
    {
        let ghost rest = entries@.subrange(i as int, entries@.len() as int);
        assert(rest.drop_first() =~= entries@.subrange(i + 1, entries@.len() as int));
        assert(rest[0] == entries@[i as int]);
        if text_eq(entries[i].0.as_str(), key) {
            return Some(i);
        }
        i = i + 1;
    }
    None
}

fn library_task_exec(a: &Artifact) -> (r: AcquisitionTask)
    ensures
        r@ == library_task(*a),
{
    AcquisitionTask {
        source_url: a.url.clone(),
        destination_path: joined("libraries/", a.path.as_str()),
        logical_name: a.path.clone(),
    }
}

/// The primary files of the libraries that apply on `platform`, in
/// descriptor order, each to be stored at `libraries/<path>`.
pub fn resolve_libraries(version: &VersionData, platform: Platform) -> (r: Vec<AcquisitionTask>)
    ensures
        task_views(r@) == library_tasks(version.libraries@, platform_name(platform)),
{
    let libs = &version.libraries;
    let ghost os = platform_name(platform);
    let mut out: Vec<AcquisitionTask> = Vec::new();
    let mut i: usize = 0;
    while i < libs.len()
        invariant
            i <= libs@.len(),
            os == platform_name(platform),
            task_views(out@) == library_tasks(libs@.subrange(0, i as int), os),
        decreases libs@.len() - i,
    {
        let lib = &libs[i];
        let ghost prefix = libs@.subrange(0, i + 1);
        assert(prefix.drop_last() =~= libs@.subrange(0, i as int));
        assert(prefix.last() == libs@[i as int]);
        if should_use_library(lib, platform) {
            if let Some(d) = &lib.downloads {
                if let Some(a) = &d.artifact {
                    let t = library_task_exec(a);
                    let ghost before = out@;
                    out.push(t);
                    assert(task_views(out@) =~= task_views(before).push(t@));
                }
            }
        }
        i = i + 1;
    }
    assert(libs@.subrange(0, i as int) =~= libs@);
    out
}

/// What a native task says, as character sequences.
pub struct NativeView {
    pub task: TaskView,
    pub exclude: Seq<Seq<char>>,
}

/// The entry prefixes that a library's extraction policy excludes.
pub open spec fn excluded_prefixes(lib: Library) -> Seq<Seq<char>> {
    match lib.extract {
        Some(e) => match e.exclude {
            Some(v) => string_views(v@),
            None => Seq::empty(),
        },
        None => Seq::empty(),
    }
}

/// The native bundle of `lib` on `os`: the classifier that its native map
/// gives for `os`, looked up among its downloads' classifiers.
pub open spec fn native_artifact(lib: Library, os: Seq<char>) -> Option<Artifact> {
    match lib.natives {
        Some(natives) => match lookup(natives@, os) {
            Some(classifier) => match lib.downloads {
                Some(d) => match d.classifiers {
                    Some(cls) => lookup(cls@, classifier@),
                    None => None,
                },
                None => None,
            },
            None => None,
        },
        None => None,
    }
}

/// The task for a native bundle, stored at `natives/<path>`.
pub open spec fn native_task(a: Artifact, lib: Library) -> NativeView {
    NativeView {
        task: TaskView {
            source_url: a.url@,
            destination_path: "natives/"@ + a.path@,
            logical_name: a.path@,
        },
        exclude: excluded_prefixes(lib),
    }
}

/// The native tasks of `libs` on `os`, in descriptor order.
pub open spec fn native_tasks(libs: Seq<Library>, os: Seq<char>) -> Seq<NativeView>
    decreases libs.len(),
{
    if libs.len() == 0 {
        Seq::empty()
    } else {
        let prev = native_tasks(libs.drop_last(), os);
        let lib = libs.last();
        if should_include(lib.rules@, os) && native_artifact(lib, os) is Some {
            prev.push(native_task(native_artifact(lib, os)->0, lib))
        } else {
            prev
        }
    }
}

/// The native views of a sequence of native tasks.
pub open spec fn native_views(s: Seq<NativeTask>) -> Seq<NativeView> {
    s.map_values(|t: NativeTask| NativeView { task: t.task@, exclude: string_views(t.exclude@) })
}

fn native_artifact_exec<'a>(lib: &'a Library, os: &str) -> (r: Option<&'a Artifact>)
    ensures
        match r {
            Some(a) => native_artifact(*lib, os@) == Some(*a),
            None => native_artifact(*lib, os@) is None,
        },
{
    let natives = match &lib.natives {
        Some(n) => n,
        None => return None,
    };
    let k = match find_key(natives, os) {
        Some(k) => k,
        None => return None,
    };
    let classifier = &natives[k].1;
    let downloads = match &lib.downloads {
        Some(d) => d,
        None => return None,
    };
    let cls = match &downloads.classifiers {
        Some(c) => c,
        None => return None,
    };
    match find_key(cls, classifier.as_str()) {
        Some(j) => Some(&cls[j].1),
        None => None,
    }
}

fn native_task_exec(a: &Artifact, lib: &Library) -> (r: NativeTask)
    ensures
        native_views(seq![r]) == seq![native_task(*a, *lib)],
{
    let exclude = match &lib.extract {
        Some(e) => match &e.exclude {
            Some(v) => copy_strings(v),
            None => Vec::new(),
        },
        None => Vec::new(),
    };
    let r = NativeTask {
        task: AcquisitionTask {
            source_url: a.url.clone(),
            destination_path: joined("natives/", a.path.as_str()),
            logical_name: a.path.clone(),
        },
        exclude,
    };
    assert(string_views(r.exclude@) =~= excluded_prefixes(*lib));
    assert(native_views(seq![r]) =~= seq![native_task(*a, *lib)]);
    r
}

/// The native bundles of the libraries that apply on `platform`, in
/// descriptor order, each to be stored at `natives/<path>`.
pub fn resolve_natives(version: &VersionData, platform: Platform) -> (r: Vec<NativeTask>)
    ensures
        native_views(r@) == native_tasks(version.libraries@, platform_name(platform)),
{
    let libs = &version.libraries;
    let os = get_current_os(platform);
    let mut out: Vec<NativeTask> = Vec::new();
    let mut i: usize = 0;
    while i < libs.len()
        invariant
            i <= libs@.len(),
            os@ == platform_name(platform),
            native_views(out@) == native_tasks(libs@.subrange(0, i as int), os@),
        decreases libs@.len() - i,
    {
        let lib = &libs[i];
        let ghost prefix = libs@.subrange(0, i + 1);
        assert(prefix.drop_last() =~= libs@.subrange(0, i as int));
        assert(prefix.last() == libs@[i as int]);
        if should_use_library(lib, platform) {
            if let Some(a) = native_artifact_exec(lib, os) {
                let t = native_task_exec(a, lib);
                let ghost before = out@;
                out.push(t);
                assert(native_views(out@) =~= native_views(before) + native_views(seq![t]));
            }
        }
        i = i + 1;
    }
    assert(libs@.subrange(0, i as int) =~= libs@);
    out
}

/// Whether an archive entry called `name` is unpacked: no excluded prefix
/// begins it.
pub open spec fn entry_extracted(name: Seq<char>, exclude: Seq<Seq<char>>) -> bool {
    forall|i: int| 0 <= i < exclude.len() ==> !seq_starts_with(name, #[trigger] exclude[i])
}

/// Whether the archive entry `name` is unpacked under `exclude`.
pub fn should_extract_entry(name: &str, exclude: &Vec<String>) -> (r: bool)
    ensures
        r == entry_extracted(name@, string_views(exclude@)),
{
    let mut i: usize = 0;
    while i < exclude.len()
        invariant
            i <= exclude@.len(),
            forall|j: int| 0 <= j < i ==> !seq_starts_with(name@, #[trigger] exclude@[j]@),
        decreases exclude@.len() - i,
    {
        if text_starts_with(name, exclude[i].as_str()) {
            assert(string_views(exclude@)[i as int] == exclude@[i as int]@);
            return false;
        }
        i = i + 1;
    }
    assert forall|j: int| 0 <= j < string_views(exclude@).len() implies !seq_starts_with(
        name@,
        #[trigger] string_views(exclude@)[j],
    ) by {
        assert(string_views(exclude@)[j] == exclude@[j]@);
    }
    true
}

/// The asset index document itself: fetched to `assets/indexes/<id>.json`.
pub open spec fn index_task(version: VersionData) -> TaskView {
    TaskView {
        source_url: version.asset_index.url@,
        destination_path: "assets/indexes/"@ + version.asset_index.id@ + ".json"@,
        logical_name: version.asset_index.id@,
    }
}

/// The task that fetches the asset index document of `version`.
pub fn asset_index_task(version: &VersionData) -> (r: AcquisitionTask)
    ensures
        r@ == index_task(*version),
{
    let id = version.asset_index.id.as_str();
    let mut dest = joined("assets/indexes/", id);
    dest.append(".json");
    AcquisitionTask {
        source_url: version.asset_index.url.clone(),
        destination_path: dest,
        logical_name: version.asset_index.id.clone(),
    }
}

/// The store's base URL for asset objects.
pub open spec fn asset_base_url() -> Seq<char> {
    "https://resources.download.minecraft.net/"@
}

/// Where an object with this hash is stored: `assets/objects/<hash[0:2]>/<hash>`.
pub open spec fn object_path(hash: Seq<char>) -> Seq<char> {
    "assets/objects/"@ + hash.subrange(0, 2) + "/"@ + hash
}

/// Where an object with this hash is fetched from.
pub open spec fn object_url(hash: Seq<char>) -> Seq<char> {
    asset_base_url() + hash.subrange(0, 2) + "/"@ + hash
}

/// What the task of the asset object at `virtual_path` says.
pub struct AssetView {
    pub task: TaskView,
    pub virtual_path: Seq<char>,
}

/// The task of one asset object.
pub open spec fn asset_task(virtual_path: Seq<char>, object: AssetObject) -> AssetView {
    AssetView {
        task: TaskView {
            source_url: object_url(object.hash@),
            destination_path: object_path(object.hash@),
            logical_name: virtual_path,
        },
        virtual_path,
    }
}

/// The asset views of a sequence of asset tasks.
pub open spec fn asset_views(s: Seq<AssetTask>) -> Seq<AssetView> {
    s.map_values(|t: AssetTask| AssetView { task: t.task@, virtual_path: t.virtual_path@ })
}

/// The tasks of all objects of an index, in index order.
pub open spec fn asset_tasks(objects: Seq<(String, AssetObject)>) -> Seq<AssetView> {
    objects.map_values(|e: (String, AssetObject)| asset_task(e.0@, e.1))
}

/// Every object of the index has a hash of at least two characters.
pub open spec fn hashes_addressable(objects: Seq<(String, AssetObject)>) -> bool {
    forall|i: int| 0 <= i < objects.len() ==> (#[trigger] objects[i]).1.hash@.len() >= 2
}

/// The path at which the object with `hash` is stored.
pub fn asset_object_path(hash: &str) -> (r: String)
    requires
        hash@.len() >= 2,
    ensures
        r@ == object_path(hash@),
{
    let head = hash.substring_char(0, 2);
    let mut s = joined("assets/objects/", head);
    s.append("/");
    s.append(hash);
    s
}

/// The URL from which the object with `hash` is fetched.
pub fn asset_object_url(hash: &str) -> (r: String)
    requires
        hash@.len() >= 2,
    ensures
        r@ == object_url(hash@),
{
    let head = hash.substring_char(0, 2);
    let mut s = joined("https://resources.download.minecraft.net/", head);
    s.append("/");
    s.append(hash);
    s
}

/// One task per object of the index, in index order; an error names the
/// first object whose hash is shorter than two characters, if any is.
pub fn resolve_assets(index: &AssetIndexData) -> (r: Result<Vec<AssetTask>, ResolveError>)
    ensures
        r is Ok <==> hashes_addressable(index.objects@),
        r matches Ok(v) ==> asset_views(v@) == asset_tasks(index.objects@),
        r matches Err(ResolveError::InvalidHash { virtual_path }) ==> exists|i: int|
            0 <= i < index.objects@.len() && (#[trigger] index.objects@[i]).0 == virtual_path
                && index.objects@[i].1.hash@.len() < 2,
{
    let objects = &index.objects;
    let mut out: Vec<AssetTask> = Vec::new();
    let mut i: usize = 0;
    while i < objects.len()
        invariant
            i <= objects@.len(),
            objects@ == index.objects@,
            hashes_addressable(objects@.subrange(0, i as int)),
            asset_views(out@) == asset_tasks(objects@.subrange(0, i as int)),
        decreases objects@.len() - i,
    {
        let entry = &objects[i];
        let hash = entry.1.hash.as_str();
        if hash.unicode_len() < 2 {
            assert(objects@[i as int] == *entry);
            assert(!hashes_addressable(objects@)) by {
                assert(objects@[i as int].1.hash@.len() < 2);
            }
            return Err(ResolveError::InvalidHash { virtual_path: entry.0.clone() });
        }
        let t = AssetTask {
            task: AcquisitionTask {
                source_url: asset_object_url(hash),
                destination_path: asset_object_path(hash),
                logical_name: entry.0.clone(),
            },
            virtual_path: entry.0.clone(),
        };
        let ghost before = out@;
        out.push(t);
        assert(asset_views(out@) =~= asset_views(before).push(asset_task(entry.0@, entry.1)));
        i = i + 1;
        assert(objects@.subrange(0, i as int) =~= objects@.subrange(0, i - 1).push(*entry));
        assert(asset_tasks(objects@.subrange(0, i as int)) =~= asset_tasks(
            objects@.subrange(0, i - 1),
        ).push(asset_task(entry.0@, entry.1)));
        assert(hashes_addressable(objects@.subrange(0, i as int))) by {
            assert forall|j: int| 0 <= j < i implies (#[trigger] objects@.subrange(
                0,
                i as int,
            )[j]).1.hash@.len() >= 2 by {
                if j < i - 1 {
                    assert(objects@.subrange(0, i as int)[j] == objects@.subrange(0, i - 1)[j]);
                }
            }
        }
    }
    assert(objects@.subrange(0, i as int) =~= objects@);
    Ok(out)
}

/// Where an object's storage path comes from: its hash alone, whatever its
/// virtual path, in the two-level `<hash[0:2]>/<hash>` layout.
pub proof fn lemma_storage_path_ignores_virtual_path(
    vp1: Seq<char>,
    vp2: Seq<char>,
    object: AssetObject,
)
    requires
        object.hash@.len() >= 2,
    ensures
        asset_task(vp1, object).task.destination_path == asset_task(
            vp2,
            object,
        ).task.destination_path,
        asset_task(vp1, object).task.destination_path == "assets/objects/"@
            + object.hash@.subrange(0, 2) + "/"@ + object.hash@,
{
}

/// How fetched objects are mirrored for older asset layouts.
#[derive(Clone, Copy, Debug, PartialEq, Eq, Structural)]
pub enum MirrorMode {
    /// Copied to `assets/legacy/<virtual path>`.
    Legacy,
    /// Copied to `assets/resources/<virtual path>`.
    Resources,
    /// Not copied.
    Off,
}

/// The mirror mode for an asset index id. `numeric_id_at_most_1_8` says
/// whether the id reads as a floating-point number not above 1.8; an id that
/// does not read as a number passes `false`.
pub open spec fn mirror_mode_spec(id: Seq<char>, numeric_id_at_most_1_8: bool) -> MirrorMode {
    if id == "legacy"@ || id == "pre-1.6"@ {
        MirrorMode::Legacy
    } else if id == "1.7.10"@ || numeric_id_at_most_1_8 {
        MirrorMode::Resources
    } else {
        MirrorMode::Off
    }
}

/// Whether the index id names the legacy layout.
pub fn is_legacy_index(id: &str) -> (r: bool)
    ensures
        r == (id@ == "legacy"@ || id@ == "pre-1.6"@),
{
    text_eq(id, "legacy") || text_eq(id, "pre-1.6")
}

/// The mirror mode for the asset index `id`; see `mirror_mode_spec`.
pub fn mirror_mode(id: &str, numeric_id_at_most_1_8: bool) -> (r: MirrorMode)
    ensures
        r == mirror_mode_spec(id@, numeric_id_at_most_1_8),
{
    if is_legacy_index(id) {
        MirrorMode::Legacy
    } else if text_eq(id, "1.7.10") || numeric_id_at_most_1_8 {
        MirrorMode::Resources
    } else {
        MirrorMode::Off
    }
}

/// Mirroring by index id: a legacy id mirrors every object to
/// `assets/legacy/<virtual path>`, the id `1.7.10` mirrors to
/// `assets/resources/<virtual path>`, and any other id that does not read as
/// a number up to 1.8 mirrors nothing.
pub proof fn lemma_mirror_targets(id: Seq<char>, numeric_id_at_most_1_8: bool, virtual_path: Seq<char>)
    ensures
        id == "legacy"@ ==> mirror_path_spec(mirror_mode_spec(id, numeric_id_at_most_1_8), virtual_path)
            == Some("assets/legacy/"@ + virtual_path),
        id == "1.7.10"@ ==> mirror_path_spec(mirror_mode_spec(id, numeric_id_at_most_1_8), virtual_path)
            == Some("assets/resources/"@ + virtual_path),
        id != "legacy"@ && id != "pre-1.6"@ && id != "1.7.10"@ && !numeric_id_at_most_1_8
            ==> mirror_path_spec(mirror_mode_spec(id, numeric_id_at_most_1_8), virtual_path) is None,
{
    reveal_strlit("legacy");
    reveal_strlit("pre-1.6");
    reveal_strlit("1.7.10");
    if id == "1.7.10"@ {
        assert(id[0] != "legacy"@[0]);
        assert(id.len() != "pre-1.6"@.len());
    }
}

/// Where an object with this virtual path is mirrored under `mode`.
pub open spec fn mirror_path_spec(mode: MirrorMode, virtual_path: Seq<char>) -> Option<Seq<char>> {
    match mode {
        MirrorMode::Legacy => Some("assets/legacy/"@ + virtual_path),
        MirrorMode::Resources => Some("assets/resources/"@ + virtual_path),
        MirrorMode::Off => None,
    }
}

/// Where the object at `virtual_path` is mirrored under `mode`, if anywhere.
pub fn mirror_path(mode: MirrorMode, virtual_path: &str) -> (r: Option<String>)
    ensures
        match r {
            Some(p) => mirror_path_spec(mode, virtual_path@) == Some(p@),
            None => mirror_path_spec(mode, virtual_path@) is None,
        },
{
    match mode {
        MirrorMode::Legacy => Some(joined("assets/legacy/", virtual_path)),
        MirrorMode::Resources => Some(joined("assets/resources/", virtual_path)),
        MirrorMode::Off => None,
    }
}

} // verus!
