//! Reading the version manifest: the list of ids, and a version's descriptor URL.
use vstd::prelude::*;

use crate::models::{VersionInfo, VersionManifest};
use crate::text::text_eq;

verus! {

/// The manifest as one string: `id|type|` for each version, in order.
pub open spec fn ids_text(versions: Seq<VersionInfo>) -> Seq<char>
    decreases versions.len(),
{
    if versions.len() == 0 {
        Seq::empty()
    } else {
        ids_text(versions.drop_last()) + versions.last().id@ + "|"@
            + versions.last().release_type@ + "|"@
    }
}

/// Every version of the manifest as `id|type|`, concatenated in order.
pub fn get_version_ids(manifest: &VersionManifest) -> (r: String)
    ensures
        r@ == ids_text(manifest.versions@),
{
    let vs = &manifest.versions;
    let mut out = String::new();
    let mut i: usize = 0;
    while i < vs.len()
        invariant
            i <= vs@.len(),
            vs@ == manifest.versions@,
            out@ == ids_text(vs@.subrange(0, i as int)),
        decreases vs@.len() - i,
    {
        let ghost prefix = vs@.subrange(0, i + 1);
        assert(prefix.drop_last() =~= vs@.subrange(0, i as int));
        assert(prefix.last() == vs@[i as int]);
        let ghost before = out@;
        out.append(vs[i].id.as_str());
        out.append("|");
        out.append(vs[i].release_type.as_str());
        out.append("|");
        assert(out@ =~= before + vs@[i as int].id@ + "|"@ + vs@[i as int].release_type@ + "|"@);
        i = i + 1;
    }
    assert(vs@.subrange(0, i as int) =~= vs@);
    out
}

/// The descriptor URL of the first version with id `id`.
pub open spec fn version_link(versions: Seq<VersionInfo>, id: Seq<char>) -> Option<Seq<char>>
    decreases versions.len(),
{
    if versions.len() == 0 {
        None
    } else if versions[0].id@ == id {
        Some(versions[0].url@)
    } else {
        version_link(versions.drop_first(), id)
    }
}

/// The descriptor URL of the version `version_id`, if the manifest lists it.
pub fn get_version_link(manifest: &VersionManifest, version_id: &str) -> (r: Option<String>)
    ensures
        match r {
            Some(u) => version_link(manifest.versions@, version_id@) == Some(u@),
            None => version_link(manifest.versions@, version_id@) is None,
        },
{
    let vs = &manifest.versions;
    let mut i: usize = 0;
    assert(vs@.subrange(0, vs@.len() as int) =~= vs@);
    while i < vs.len()
        invariant
            i <= vs@.len(),
            vs@ == manifest.versions@,
            version_link(vs@, version_id@) == version_link(
                vs@.subrange(i as int, vs@.len() as int),
                version_id@,
            ),
        decreases vs@.len() - i,
    {
        let ghost rest = vs@.subrange(i as int, vs@.len() as int);
        assert(rest.drop_first() =~= vs@.subrange(i + 1, vs@.len() as int));
        assert(rest[0] == vs@[i as int]);
        if text_eq(vs[i].id.as_str(), version_id) {
            return Some(vs[i].url.clone());
        }
        i = i + 1;
    }
    None
}

} // verus!
