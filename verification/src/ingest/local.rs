//! Asset sources: JSON bundles and local game folders, and the checks on the
//! records they deliver.
use vstd::prelude::*;
use crate::domain::{AssetBundle, AssetMetadata, AssetRecord};
use crate::error::AppError;
use crate::fingerprint::{extension, file_stem, spec_extension, spec_file_stem};
use crate::order::{sort_strings, sorted};
use crate::scan::{split_chars, split_on};
use crate::text::{
    decimal, decimal_string, lower_seq, new_string, opt_view, push_str, str_eq,
    to_ascii_lowercase, trim, trim_seq, views, string_of,
};

verus! {

broadcast use vstd::seq_lib::group_seq_properties;

#[derive(Debug, Clone, Copy, PartialEq, Eq)]
pub enum BundleAssetSide {
    Old,
    New,
}

/// Where one side's assets come from: a side of a JSON bundle, or a local folder.
#[derive(Debug, Clone, PartialEq, Eq)]
pub enum AssetSourceSpec {
    JsonBundle { path: String, side: BundleAssetSide },
    LocalSnapshot { root: String },
}

/// Reads asset bundles from JSON files.
#[derive(Debug, Clone, Copy, PartialEq, Eq)]
pub struct JsonFileIngestSource {}

/// Reads assets from a local game folder.
#[derive(Debug, Clone, Copy, PartialEq, Eq)]
pub struct LocalSnapshotIngestSource {}

/// The assets of one side of a bundle.
pub fn bundle_side(bundle: AssetBundle, side: BundleAssetSide) -> (r: Vec<AssetRecord>)
    ensures
        r@ == match side {
            BundleAssetSide::Old => bundle.old_assets@,
            BundleAssetSide::New => bundle.new_assets@,
        },
{
    match side {
        BundleAssetSide::Old => bundle.old_assets,
        BundleAssetSide::New => bundle.new_assets,
    }
}

// ---------------------------------------------------------------------------
// Validation
// ---------------------------------------------------------------------------

/// The message for the first of the first `n` assets whose id or path is blank.
pub open spec fn first_blank(label: Seq<char>, assets: Seq<AssetRecord>, n: nat) -> Option<Seq<char>>
    decreases n,
{
    if n == 0 {
        None
    } else {
        match first_blank(label, assets, (n - 1) as nat) {
            Some(m) => Some(m),
            None => {
                let a = assets[n - 1];
                let head = label + "["@ + decimal((n - 1) as nat) + "]"@;
                if trim_seq(a.id@).len() == 0 {
                    Some(head + ".id must not be empty"@)
                } else if trim_seq(a.path@).len() == 0 {
                    Some(head + ".path must not be empty"@)
                } else {
                    None
                }
            },
        }
    }
}

/// Refuses the first asset whose id or path is empty after trimming.
pub fn validate_assets(label: &str, assets: &Vec<AssetRecord>) -> (r: Result<(), AppError>)
    ensures
        match first_blank(label@, assets@, assets@.len()) {
            Some(m) => r matches Err(AppError::InvalidInput(e)) && e@ == m,
            None => r is Ok,
        },
{
    let mut i: usize = 0;
    while i < assets.len()
        invariant
            i <= assets@.len(),
            first_blank(label@, assets@, i as nat) is None,
        decreases assets.len() - i,
    {
        let id = trim(assets[i].id.as_str());
        let path = trim(assets[i].path.as_str());
        if id.as_str().is_empty() || path.as_str().is_empty() {
            let mut m = new_string(label);
            push_str(&mut m, "[");
            let n = decimal_string(i);
            push_str(&mut m, n.as_str());
            push_str(&mut m, "]");
            if id.as_str().is_empty() {
                push_str(&mut m, ".id must not be empty");
            } else {
                push_str(&mut m, ".path must not be empty");
            }
            proof {
                lemma_first_blank_stays(label@, assets@, (i + 1) as nat, assets@.len());
            }
            return Err(AppError::InvalidInput(m));
        }
        i = i + 1;
    }
    Ok(())
}

proof fn lemma_first_blank_stays(label: Seq<char>, assets: Seq<AssetRecord>, n: nat, m: nat)
    requires
        n <= m,
        first_blank(label, assets, n) is Some,
    ensures
        first_blank(label, assets, m) == first_blank(label, assets, n),
    decreases m - n,
{
    if n < m {
        lemma_first_blank_stays(label, assets, n, (m - 1) as nat);
    }
}

/// Checks both sides of a bundle, the old side first.
pub fn validate_bundle(bundle: &AssetBundle) -> (r: Result<(), AppError>)
    ensures
        match first_blank("old_assets"@, bundle.old_assets@, bundle.old_assets@.len()) {
            Some(m) => r matches Err(AppError::InvalidInput(e)) && e@ == m,
            None => match first_blank("new_assets"@, bundle.new_assets@, bundle.new_assets@.len()) {
                Some(m) => r matches Err(AppError::InvalidInput(e)) && e@ == m,
                None => r is Ok,
            },
        },
{
    match validate_assets("old_assets", &bundle.old_assets) {
        Err(e) => return Err(e),
        Ok(()) => {},
    }
    validate_assets("new_assets", &bundle.new_assets)
}

// ---------------------------------------------------------------------------
// Local folders
// ---------------------------------------------------------------------------

pub open spec fn same_ignoring_ascii_case(a: Seq<char>, b: Seq<char>) -> bool {
    lower_seq(a) == lower_seq(b)
}

/// Text equality ignoring ASCII case (`str::eq_ignore_ascii_case`).
pub fn matches_ignore_ascii_case(value: &str, expected: &str) -> (r: bool)
    ensures
        r == same_ignoring_ascii_case(value@, expected@),
{
    let a = to_ascii_lowercase(value);
    let b = to_ascii_lowercase(expected);
    str_eq(a.as_str(), b.as_str())
}

pub open spec fn is_skipped_dir_name(c: Seq<char>) -> bool {
    same_ignoring_ascii_case(c, "saved"@) || same_ignoring_ascii_case(c, "launcherdownload"@)
        || same_ignoring_ascii_case(c, ".quality"@)
}

/// Some component of the relative directory path is `Saved`, `launcherDownload` or
/// `.quality`, in any ASCII case.
pub open spec fn spec_skip_dir(relative: Seq<char>) -> bool {
    exists|i: int|
        0 <= i < split_on(relative, '/').len() && is_skipped_dir_name(
            #[trigger] split_on(relative, '/')[i],
        )
}

pub fn should_skip_dir(relative: &str) -> (r: bool)
    ensures
        r == spec_skip_dir(relative@),
{
    let v = crate::text::chars_of(relative);
    let pieces = split_chars(&v, '/');
    let ghost ps = split_on(v@, '/');
    let mut i: usize = 0;
    while i < pieces.len()
        invariant
            i <= pieces@.len(),
            v@ == relative@,
            ps == split_on(v@, '/'),
            pieces@.len() == ps.len(),
            forall|k: int| 0 <= k < pieces@.len() ==> #[trigger] pieces@[k]@ == ps[k],
            forall|k: int| 0 <= k < i ==> !is_skipped_dir_name(#[trigger] ps[k]),
        decreases pieces.len() - i,
    {
        let c = string_of(&pieces[i]);
        if matches_ignore_ascii_case(c.as_str(), "saved") || matches_ignore_ascii_case(
            c.as_str(),
            "launcherdownload",
        ) || matches_ignore_ascii_case(c.as_str(), ".quality") {
            proof {
                assert(is_skipped_dir_name(ps[i as int]));
            }
            return true;
        }
        i = i + 1;
    }
    false
}

/// The file's extension is `log`, in any ASCII case.
pub open spec fn spec_skip_file(relative: Seq<char>) -> bool {
    match spec_extension(relative) {
        Some(e) => same_ignoring_ascii_case(e, "log"@),
        None => false,
    }
}

pub fn should_skip_file(relative: &str) -> (r: bool)
    ensures
        r == spec_skip_file(relative@),
{
    match extension(relative) {
        Some(e) => matches_ignore_ascii_case(e.as_str(), "log"),
        None => false,
    }
}

/// The record of a local file at `relative` (a `/`-separated path): the path is its
/// id, its extension in lowercase its kind, and its stem its logical name.
pub open spec fn local_record_is(r: AssetRecord, relative: Seq<char>) -> bool {
    &&& r.id@ == relative
    &&& r.path@ == relative
    &&& opt_view(r.kind) == match spec_extension(relative) {
        Some(e) => Some(lower_seq(e)),
        None => None,
    }
    &&& opt_view(r.metadata.logical_name) == spec_file_stem(relative)
    &&& r.metadata.vertex_count is None
    &&& r.metadata.index_count is None
    &&& r.metadata.material_slots is None
    &&& r.metadata.section_count is None
    &&& r.metadata.vertex_stride is None
    &&& r.metadata.vertex_buffer_count is None
    &&& r.metadata.index_format is None
    &&& r.metadata.primitive_topology is None
    &&& r.metadata.layout_markers@.len() == 0
    &&& r.metadata.internal_structure.is_empty()
    &&& r.metadata.tags@.len() == 0
}

pub fn build_local_asset(relative: &str) -> (r: AssetRecord)
    ensures
        local_record_is(r, relative@),
{
    let kind = match extension(relative) {
        Some(e) => Some(to_ascii_lowercase(e.as_str())),
        None => None,
    };
    let mut metadata = AssetMetadata::default();
    metadata.logical_name = file_stem(relative);
    AssetRecord { id: new_string(relative), path: new_string(relative), kind, metadata }
}

/// The records of the local files at the given relative paths, in ascending path order.
pub fn local_asset_records(relative_paths: Vec<String>) -> (r: Vec<AssetRecord>)
    ensures
        sorted(r@.map_values(|a: AssetRecord| a.path@)),
        r@.map_values(|a: AssetRecord| a.path@).to_multiset() == views(relative_paths@).to_multiset(),
        forall|i: int| 0 <= i < r@.len() ==> local_record_is(#[trigger] r@[i], r@[i].path@),
{
    let paths = sort_strings(relative_paths);
    let mut records: Vec<AssetRecord> = Vec::new();
    let mut i: usize = 0;
    while i < paths.len()
        invariant
            i <= paths@.len(),
            records@.len() == i,
            forall|k: int| 0 <= k < i ==> #[trigger] records@[k].path@ == paths@[k]@,
            forall|k: int| 0 <= k < i ==> local_record_is(#[trigger] records@[k], records@[k].path@),
        decreases paths.len() - i,
    {
        records.push(build_local_asset(paths[i].as_str()));
        i = i + 1;
    }
    proof {
        assert(records@.map_values(|a: AssetRecord| a.path@) =~= views(paths@));
    }
    records
}

} // verus!
