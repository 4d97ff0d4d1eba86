//! Name-keyed definitions replicated through the control plane: custom save
//! locations and manifest overrides, published under the hash of a game's name
//! and adopted by every device's library entries that have none yet.

use vstd::prelude::*;
use crate::rclone::{entry_map, lookup};
use crate::text::{chars_of, concat3, ends_with, ends_with_exec, slice_vec, string_of};

verus! {

/// The schema of custom-save blobs this build reads.
pub const CUSTOM_SAVE_SCHEMA: u32 = 1;

/// The schema of manifest-override blobs this build reads.
pub const MANIFEST_OVERRIDE_SCHEMA: u32 = 1;

/// One entry of an `rclone lsjson` listing.
pub struct LsEntry {
    pub name: String,
    pub is_dir: bool,
}

/// `s` with `suffix` removed from its end for as long as it ends with it.
pub open spec fn trim_end_all(s: Seq<char>, suffix: Seq<char>) -> Seq<char>
    decreases s.len(),
{
    if suffix.len() > 0 && ends_with(s, suffix) {
        trim_end_all(s.subrange(0, s.len() - suffix.len()), suffix)
    } else {
        s
    }
}

/// A listed file holds a blob: not a directory, named `*.json`.
pub open spec fn is_blob_entry(e: LsEntry) -> bool {
    !e.is_dir && ends_with(e.name@, ".json"@)
}

/// The blobs of a listing of `dir`, in order: each file's key (its name with
/// every trailing `.json` removed) and its path `<dir>/<name>`.
pub open spec fn blob_targets(dir: Seq<char>, entries: Seq<LsEntry>) -> Seq<(Seq<char>, Seq<char>)>
    decreases entries.len(),
{
    if entries.len() == 0 {
        Seq::empty()
    } else {
        let prev = blob_targets(dir, entries.drop_last());
        let e = entries.last();
        if is_blob_entry(e) {
            prev.push((trim_end_all(e.name@, ".json"@), dir + "/"@ + e.name@))
        } else {
            prev
        }
    }
}

/// The views of key/path pairs.
pub open spec fn pair_views(v: Seq<(String, String)>) -> Seq<(Seq<char>, Seq<char>)> {
    v.map_values(|p: (String, String)| (p.0@, p.1@))
}

fn trim_json_suffix(name: &Vec<char>) -> (r: Vec<char>)
    ensures
        r@ == trim_end_all(name@, ".json"@),
{
    let suffix = chars_of(".json");
    let mut cur = slice_vec(name, 0, name.len());
    assert(cur@ =~= name@);
    while ends_with_exec(&cur, &suffix)
        invariant
            suffix@ == ".json"@,
            trim_end_all(cur@, suffix@) == trim_end_all(name@, ".json"@),
        decreases cur.len(),
    {
        proof {
            reveal_strlit(".json");
        }
        let n = cur.len() - suffix.len();
        cur = slice_vec(&cur, 0, n);
    }
    proof {
        reveal_strlit(".json");
    }
    cur
}

/// The blobs of a listing of `dir`: for each `*.json` file, its key and path.
pub fn blob_targets_exec(dir: &str, entries: &Vec<LsEntry>) -> (r: Vec<(String, String)>)
    ensures
        pair_views(r@) == blob_targets(dir@, entries@),
{
    let d = chars_of(dir);
    let json = chars_of(".json");
    let mut out: Vec<(String, String)> = Vec::new();
    let mut i: usize = 0;
    while i < entries.len()
        invariant
            i <= entries.len(),
            d@ == dir@,
            json@ == ".json"@,
            pair_views(out@) == blob_targets(dir@, entries@.take(i as int)),
        decreases entries.len() - i,
    {
        assert(entries@.take(i + 1).drop_last() =~= entries@.take(i as int));
        let e = &entries[i];
        let name = chars_of(e.name.as_str());
        if !e.is_dir && ends_with_exec(&name, &json) {
            let key = string_of(&trim_json_suffix(&name));
            let path = string_of(&concat3(&d, &chars_of("/"), &name));
            let ghost before = out@;
            out.push((key, path));
            assert(pair_views(out@) =~= pair_views(before).push((key@, path@)));
        }
        i += 1;
    }
    assert(entries@.take(entries.len() as int) =~= entries@);
    out
}

/// A custom-save blob as read from the control plane.
pub struct CustomSaveBlob {
    pub name: String,
    pub files: Vec<String>,
    pub registry: Vec<String>,
    pub updated_at: String,
    pub schema: u32,
}

/// A game's custom save locations: portable file and registry templates.
pub struct CustomSave {
    pub files: Vec<String>,
    pub registry: Vec<String>,
}

/// A manifest-override blob as read from the control plane.
pub struct ManifestOverrideBlob {
    pub name: String,
    pub excluded_tags: Vec<String>,
    pub excluded_paths: Vec<String>,
    pub updated_at: String,
    pub schema: u32,
}

/// The user's exclusions from a game's manifest entry.
pub struct ManifestOverride {
    pub excluded_tags: Vec<String>,
    pub excluded_paths: Vec<String>,
}

/// A custom-save blob this build adopts: not from a newer schema, named, and
/// with at least one file or registry template.
pub open spec fn custom_save_usable(b: CustomSaveBlob) -> bool {
    b.schema <= CUSTOM_SAVE_SCHEMA && b.name@.len() > 0 && (b.files@.len() > 0 || b.registry@.len() > 0)
}

/// The definition a custom-save blob offers: its name and templates, when it
/// is usable.
pub fn custom_save_def(b: CustomSaveBlob) -> (r: Option<(String, CustomSave)>)
    ensures
        r is Some <==> custom_save_usable(b),
        r matches Some(d) ==> d.0 == b.name && d.1.files == b.files && d.1.registry == b.registry,
{
    if b.schema <= CUSTOM_SAVE_SCHEMA && chars_of(b.name.as_str()).len() > 0 && (b.files.len() > 0
        || b.registry.len() > 0) {
        Some((b.name, CustomSave { files: b.files, registry: b.registry }))
    } else {
        None
    }
}

/// The custom save a single fetched blob gives a game: none when the blob is
/// from a newer schema or holds no template.
pub fn fetched_custom_save(b: CustomSaveBlob) -> (r: Option<CustomSave>)
    ensures
        r is Some <==> (b.schema <= CUSTOM_SAVE_SCHEMA && (b.files@.len() > 0 || b.registry@.len() > 0)),
        r matches Some(c) ==> c.files == b.files && c.registry == b.registry,
{
    if b.schema <= CUSTOM_SAVE_SCHEMA && (b.files.len() > 0 || b.registry.len() > 0) {
        Some(CustomSave { files: b.files, registry: b.registry })
    } else {
        None
    }
}

/// A manifest override excludes something.
pub open spec fn override_active(tags: Seq<String>, paths: Seq<String>) -> bool {
    tags.len() > 0 || paths.len() > 0
}

/// A manifest-override blob this build adopts: not from a newer schema,
/// named, and excluding something.
pub open spec fn manifest_override_usable(b: ManifestOverrideBlob) -> bool {
    b.schema <= MANIFEST_OVERRIDE_SCHEMA && b.name@.len() > 0 && override_active(b.excluded_tags@, b.excluded_paths@)
}

/// The definition a manifest-override blob offers, when it is usable.
pub fn manifest_override_def(b: ManifestOverrideBlob) -> (r: Option<(String, ManifestOverride)>)
    ensures
        r is Some <==> manifest_override_usable(b),
        r matches Some(d) ==> d.0 == b.name && d.1.excluded_tags == b.excluded_tags && d.1.excluded_paths
            == b.excluded_paths,
{
    if b.schema <= MANIFEST_OVERRIDE_SCHEMA && chars_of(b.name.as_str()).len() > 0 && (b.excluded_tags.len() > 0
        || b.excluded_paths.len() > 0) {
        Some((b.name, ManifestOverride { excluded_tags: b.excluded_tags, excluded_paths: b.excluded_paths }))
    } else {
        None
    }
}

/// The manifest override a single fetched blob gives a game: none when the
/// blob is from a newer schema or excludes nothing.
pub fn fetched_manifest_override(b: ManifestOverrideBlob) -> (r: Option<ManifestOverride>)
    ensures
        r is Some <==> (b.schema <= MANIFEST_OVERRIDE_SCHEMA && override_active(b.excluded_tags@, b.excluded_paths@)),
        r matches Some(o) ==> o.excluded_tags == b.excluded_tags && o.excluded_paths == b.excluded_paths,
{
    if b.schema <= MANIFEST_OVERRIDE_SCHEMA && (b.excluded_tags.len() > 0 || b.excluded_paths.len() > 0) {
        Some(ManifestOverride { excluded_tags: b.excluded_tags, excluded_paths: b.excluded_paths })
    } else {
        None
    }
}

/// A library entry as the name-keyed fold sees it: its game's name and
/// whether it already carries a definition of the kind being folded.
pub struct NamedEntry {
    pub game_name: String,
    pub has_definition: bool,
}

/// The entries a fold gives a definition, in order, each with the definition
/// of its game's name: only entries without one, and only names some blob
/// defines (the last blob for a name wins).
pub open spec fn fold_targets<D>(entries: Seq<NamedEntry>, defs: Map<Seq<char>, D>) -> Seq<(int, D)>
    decreases entries.len(),
{
    if entries.len() == 0 {
        Seq::empty()
    } else {
        let prev = fold_targets(entries.drop_last(), defs);
        let e = entries.last();
        if !e.has_definition && defs.dom().contains(e.game_name@) {
            prev.push((entries.len() - 1, defs[e.game_name@]))
        } else {
            prev
        }
    }
}

/// The views of (entry index, definition) pairs.
pub open spec fn target_views<'a, D>(v: Seq<(usize, &'a D)>) -> Seq<(int, D)> {
    v.map_values(|p: (usize, &'a D)| (p.0 as int, *p.1))
}

/// The entries a name-keyed fold fills, each with its definition (see
/// [`fold_targets`]); the definitions are `(name, definition)` pairs in the
/// order the blobs were read.
pub fn name_keyed_targets<'a, D>(defs: &'a Vec<(String, D)>, entries: &Vec<NamedEntry>) -> (r: Vec<(usize, &'a D)>)
    ensures
        target_views(r@) == fold_targets(entries@, entry_map(defs@)),
{
    let mut out: Vec<(usize, &'a D)> = Vec::new();
    let mut i: usize = 0;
    while i < entries.len()
        invariant
            i <= entries.len(),
            target_views(out@) == fold_targets(entries@.take(i as int), entry_map(defs@)),
        decreases entries.len() - i,
    {
        assert(entries@.take(i + 1).drop_last() =~= entries@.take(i as int));
        assert(entries@.take(i + 1).last() == entries@[i as int]);
        if !entries[i].has_definition {
            match lookup(defs, entries[i].game_name.as_str()) {
                Some(d) => {
                    let ghost before = out@;
                    out.push((i, d));
                    assert(target_views(out@) =~= target_views(before).push((i as int, *d)));
                },
                None => {},
            }
        }
        i += 1;
    }
    assert(entries@.take(entries.len() as int) =~= entries@);
    out
}

/// A name-keyed fold only fills entries that have no definition, each with
/// the definition published for its game's name; and it fills every such
/// entry whose name has one.
pub proof fn law_fold_only_fills_missing<D>(entries: Seq<NamedEntry>, defs: Map<Seq<char>, D>)
    ensures
        forall|k: int|
            0 <= k < fold_targets(entries, defs).len() ==> {
                let t = #[trigger] fold_targets(entries, defs)[k];
                &&& 0 <= t.0 < entries.len()
                &&& !entries[t.0].has_definition
                &&& defs.dom().contains(entries[t.0].game_name@)
                &&& t.1 == defs[entries[t.0].game_name@]
            },
        forall|i: int|
            0 <= i < entries.len() && !(#[trigger] entries[i]).has_definition && defs.dom().contains(
                entries[i].game_name@,
            ) ==> exists|k: int| 0 <= k < fold_targets(entries, defs).len() && (#[trigger] fold_targets(entries, defs)[k]).0 == i,
    decreases entries.len(),
{
    if entries.len() > 0 {
        let init = entries.drop_last();
        law_fold_only_fills_missing(init, defs);
        let prev = fold_targets(init, defs);
        let cur = fold_targets(entries, defs);
        assert forall|k: int| 0 <= k < cur.len() implies {
            let t = #[trigger] cur[k];
            &&& 0 <= t.0 < entries.len()
            &&& !entries[t.0].has_definition
            &&& defs.dom().contains(entries[t.0].game_name@)
            &&& t.1 == defs[entries[t.0].game_name@]
        } by {
            if k < prev.len() {
                assert(cur[k] == prev[k]);
                assert(entries[prev[k].0] == init[prev[k].0]);
            }
        }
        assert forall|i: int|
            0 <= i < entries.len() && !(#[trigger] entries[i]).has_definition && defs.dom().contains(
                entries[i].game_name@,
            ) implies exists|k: int| 0 <= k < cur.len() && (#[trigger] cur[k]).0 == i by {
            if i < entries.len() - 1 {
                assert(init[i] == entries[i]);
                let k = choose|k: int| 0 <= k < prev.len() && (#[trigger] prev[k]).0 == i;
                assert(cur[k] == prev[k]);
            } else {
                assert(cur[prev.len() as int].0 == i);
            }
        }
    }
}

} // verus!
