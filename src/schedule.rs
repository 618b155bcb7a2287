//! The acquisition plan: which assets are fetched before launch, which in the
//! background, which files are still missing, and the resulting classpath.
use vstd::prelude::*;

use crate::resolver::{asset_views, AssetTask, AssetView};
use crate::text::{seq_contains, text_contains};

verus! {

/// The virtual-path fragments of the assets that the main menu needs before
/// it can render: interface sounds, the click sound, language files, GUI
/// textures and fonts.
pub open spec fn required_markers() -> Seq<Seq<char>> {
    seq![
        "minecraft/sounds/ui/"@,
        "minecraft/sounds/random/click"@,
        "minecraft/lang/"@,
        "minecraft/textures/gui/"@,
        "minecraft/font/"@,
    ]
}

/// An asset is required before launch when its virtual path holds one of the
/// required markers.
pub open spec fn required_asset(virtual_path: Seq<char>) -> bool {
    exists|i: int| 0 <= i < 5 && seq_contains(virtual_path, #[trigger] required_markers()[i])
}

/// Whether the asset at `virtual_path` is fetched before launch.
pub fn is_required_asset(virtual_path: &str) -> (r: bool)
    ensures
        r == required_asset(virtual_path@),
{
    let a = text_contains(virtual_path, "minecraft/sounds/ui/");
    let b = text_contains(virtual_path, "minecraft/sounds/random/click");
    let c = text_contains(virtual_path, "minecraft/lang/");
    let d = text_contains(virtual_path, "minecraft/textures/gui/");
    let e = text_contains(virtual_path, "minecraft/font/");
    let r = a || b || c || d || e;
    assert(r == required_asset(virtual_path@)) by {
        let m = required_markers();
        assert(m[0] == "minecraft/sounds/ui/"@);
        assert(m[1] == "minecraft/sounds/random/click"@);
        assert(m[2] == "minecraft/lang/"@);
        assert(m[3] == "minecraft/textures/gui/"@);
        assert(m[4] == "minecraft/font/"@);
        if r {
            if a {
                assert(seq_contains(virtual_path@, m[0]));
            } else if b {
                assert(seq_contains(virtual_path@, m[1]));
            } else if c {
                assert(seq_contains(virtual_path@, m[2]));
            } else if d {
                assert(seq_contains(virtual_path@, m[3]));
            } else {
                assert(seq_contains(virtual_path@, m[4]));
            }
        }
    }
    r
}

/// Whether an asset task's object is needed before launch.
pub open spec fn required_task(t: AssetView) -> bool {
    required_asset(t.virtual_path)
}

/// The assets of an index split in two: those fetched before launch, with
/// progress, and the rest, fetched in the background. Each keeps index order.
pub struct AssetPhases {
    pub required: Vec<AssetTask>,
    pub background: Vec<AssetTask>,
}

/// Splits `tasks` into the required-now phase and the background phase.
pub fn split_assets(tasks: &Vec<AssetTask>) -> (r: AssetPhases)
    ensures
        asset_views(r.required@) == asset_views(tasks@).filter(|t: AssetView| required_task(t)),
        asset_views(r.background@) == asset_views(tasks@).filter(
            |t: AssetView| !required_task(t),
        ),
{
    let mut required: Vec<AssetTask> = Vec::new();
    let mut background: Vec<AssetTask> = Vec::new();
    let mut i: usize = 0;
    while i < tasks.len()
        invariant
            i <= tasks@.len(),
            asset_views(required@) == asset_views(tasks@.subrange(0, i as int)).filter(
                |t: AssetView| required_task(t),
            ),
            asset_views(background@) == asset_views(tasks@.subrange(0, i as int)).filter(
                |t: AssetView| !required_task(t),
            ),
        decreases tasks@.len() - i,
    {
        let t = tasks[i].duplicate();
        let ghost prev = asset_views(tasks@.subrange(0, i as int));
        let ghost next = asset_views(tasks@.subrange(0, i + 1));
        assert(next =~= prev.push(asset_views(seq![t])[0]));
        assert(next.drop_last() =~= prev);
        let ghost rq = required@;
        let ghost bg = background@;
        proof {
            reveal(Seq::filter);
        }
        if is_required_asset(t.virtual_path.as_str()) {
            required.push(t);
            assert(asset_views(required@) =~= asset_views(rq).push(next.last()));
        } else {
            background.push(t);
            assert(asset_views(background@) =~= asset_views(bg).push(next.last()));
        }
        i = i + 1;
    }
    assert(tasks@.subrange(0, i as int) =~= tasks@);
    AssetPhases { required, background }
}

/// The tasks of `tasks` whose destination is not yet present, in order:
/// `present[i]` says whether the destination of `tasks[i]` exists.
pub open spec fn pending_spec(tasks: Seq<AssetView>, present: Seq<bool>) -> Seq<AssetView>
    decreases tasks.len(),
{
    if tasks.len() == 0 {
        Seq::empty()
    } else {
        let prev = pending_spec(tasks.drop_last(), present);
        if present[tasks.len() - 1] {
            prev
        } else {
            prev.push(tasks.last())
        }
    }
}

/// The tasks whose destination is missing; `present[i]` says whether the
/// destination of `tasks[i]` exists.
pub fn pending_tasks(tasks: &Vec<AssetTask>, present: &Vec<bool>) -> (r: Vec<AssetTask>)
    requires
        present@.len() == tasks@.len(),
    ensures
        asset_views(r@) == pending_spec(asset_views(tasks@), present@),
{
    let mut out: Vec<AssetTask> = Vec::new();
    let mut i: usize = 0;
    while i < tasks.len()
        invariant
            i <= tasks@.len(),
            present@.len() == tasks@.len(),
            asset_views(out@) == pending_spec(asset_views(tasks@.subrange(0, i as int)), present@),
        decreases tasks@.len() - i,
    {
        let ghost prev = asset_views(tasks@.subrange(0, i as int));
        let ghost next = asset_views(tasks@.subrange(0, i + 1));
        assert(next.drop_last() =~= prev);
        assert(next.len() == i + 1);
        if !present[i] {
            let t = tasks[i].duplicate();
            let ghost before = out@;
            out.push(t);
            assert(asset_views(out@) =~= asset_views(before).push(next.last()));
        }
        i = i + 1;
    }
    assert(tasks@.subrange(0, i as int) =~= tasks@);
    out
}

/// `v` is the task at some position whose destination is missing.
pub open spec fn from_missing(tasks: Seq<AssetView>, present: Seq<bool>, v: AssetView) -> bool {
    exists|j: int| 0 <= j < tasks.len() && !present[j] && #[trigger] tasks[j] == v
}

proof fn lemma_pending_from_missing(tasks: Seq<AssetView>, present: Seq<bool>, k: int)
    requires
        present.len() >= tasks.len(),
        0 <= k < pending_spec(tasks, present).len(),
    ensures
        from_missing(tasks, present, pending_spec(tasks, present)[k]),
    decreases tasks.len(),
{
    let prev = pending_spec(tasks.drop_last(), present);
    if k < prev.len() {
        lemma_pending_from_missing(tasks.drop_last(), present, k);
        let j = choose|j: int|
            0 <= j < tasks.drop_last().len() && !present[j] && #[trigger] tasks.drop_last()[j]
                == prev[k];
        assert(tasks[j] == tasks.drop_last()[j]);
    } else {
        assert(tasks[tasks.len() - 1] == pending_spec(tasks, present)[k]);
    }
}

/// A file already present is never fetched again: every pending task comes
/// from a position whose destination is missing, so once all destinations
/// exist, re-running the acquisition fetches nothing.
pub proof fn lemma_present_files_not_fetched(tasks: Seq<AssetView>, present: Seq<bool>)
    requires
        present.len() == tasks.len(),
    ensures
        forall|k: int|
            0 <= k < pending_spec(tasks, present).len() ==> from_missing(
                tasks,
                present,
                #[trigger] pending_spec(tasks, present)[k],
            ),
        (forall|j: int| 0 <= j < present.len() ==> #[trigger] present[j]) ==> pending_spec(
            tasks,
            present,
        ).len() == 0,
{
    assert forall|k: int| 0 <= k < pending_spec(tasks, present).len() implies from_missing(
        tasks,
        present,
        #[trigger] pending_spec(tasks, present)[k],
    ) by {
        lemma_pending_from_missing(tasks, present, k);
    }
    if forall|j: int| 0 <= j < present.len() ==> #[trigger] present[j] {
        if pending_spec(tasks, present).len() > 0 {
            lemma_pending_from_missing(tasks, present, 0);
        }
    }
}

/// `parts` joined with `sep` between neighbours.
pub open spec fn join_spec(parts: Seq<Seq<char>>, sep: Seq<char>) -> Seq<char>
    decreases parts.len(),
{
    if parts.len() == 0 {
        Seq::empty()
    } else if parts.len() == 1 {
        parts[0]
    } else {
        join_spec(parts.drop_last(), sep) + sep + parts.last()
    }
}

/// The classpath: the library files in resolution order, then the main
/// archive, joined with the platform's path-list separator.
pub fn build_classpath(library_paths: &Vec<String>, client_jar: &str, separator: &str) -> (r:
    String)
    ensures
        r@ == join_spec(
            library_paths@.map_values(|p: String| p@).push(client_jar@),
            separator@,
        ),
{
    let ghost parts = library_paths@.map_values(|p: String| p@).push(client_jar@);
    let mut out = String::new();
    let mut i: usize = 0;
    while i < library_paths.len()
        invariant
            i <= library_paths@.len(),
            parts == library_paths@.map_values(|p: String| p@).push(client_jar@),
            out@ == join_spec(parts.subrange(0, i as int), separator@),
        decreases library_paths@.len() - i,
    {
        let ghost next = parts.subrange(0, i + 1);
        assert(next.drop_last() =~= parts.subrange(0, i as int));
        assert(next.last() == library_paths@[i as int]@);
        if i > 0 {
            out.append(separator);
        } else {
            assert(out@ =~= Seq::<char>::empty());
        }
        out.append(library_paths[i].as_str());
        i = i + 1;
        assert(out@ =~= join_spec(next, separator@));
    }
    let ghost all = parts.subrange(0, i as int + 1);
    assert(all =~= parts);
    assert(all.drop_last() =~= parts.subrange(0, i as int));
    if i > 0 {
        out.append(separator);
    }
    out.append(client_jar);
    assert(out@ =~= join_spec(parts, separator@));
    out
}

} // verus!
