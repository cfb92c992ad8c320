//! Comparing two snapshots asset by asset: which paths were added, removed or
//! changed, and the counts of the compare summary.
use vstd::prelude::*;
use crate::compare::change::{
    build_added_asset_entry, build_changed_asset_entry, build_removed_asset_entry,
    is_added_entry, is_changed_entry, is_removed_entry, SnapshotAssetChange,
};
use crate::compare::fields::{
    breakdown_of, changed_fields, classify_changed_fields, group, spec_changed_fields,
    spec_container_movement, spec_cosmetic_only, spec_naming_only, FieldGroup,
};
use crate::compare::{AssetLineageKind, SnapshotCompareSummary};
use crate::order::{
    ascending, lemma_ascending_exists, lemma_ascending_is, lemma_singleton_of, sorted_set_of,
    sorted_strict,
};
use crate::snapshot::{GameSnapshot, SnapshotAsset};
use crate::text::{str_eq, views};

verus! {

broadcast use vstd::seq_lib::group_seq_properties;

/// Compares two snapshots.
#[derive(Debug, Clone, Copy, PartialEq, Eq)]
pub struct SnapshotComparer {}

// ---------------------------------------------------------------------------
// Assets by path
// ---------------------------------------------------------------------------

pub open spec fn paths_of(assets: Seq<SnapshotAsset>) -> Seq<Seq<char>> {
    assets.map_values(|a: SnapshotAsset| a.path@)
}

pub open spec fn path_set(assets: Seq<SnapshotAsset>) -> Set<Seq<char>> {
    paths_of(assets).to_set()
}

/// The position of the last asset at path `p`, or -1: when two assets share a path,
/// the later one stands for it.
pub open spec fn last_with_path(assets: Seq<SnapshotAsset>, p: Seq<char>) -> int
    decreases assets.len(),
{
    if assets.len() == 0 {
        -1
    } else if assets.last().path@ == p {
        assets.len() - 1
    } else {
        last_with_path(assets.drop_last(), p)
    }
}

/// The asset that stands for path `p`.
pub open spec fn at_path(assets: Seq<SnapshotAsset>, p: Seq<char>) -> SnapshotAsset {
    assets[last_with_path(assets, p)]
}

pub proof fn lemma_last_with_path(assets: Seq<SnapshotAsset>, p: Seq<char>)
    ensures
        -1 <= last_with_path(assets, p) < assets.len(),
        last_with_path(assets, p) >= 0 <==> path_set(assets).contains(p),
        last_with_path(assets, p) >= 0 ==> assets[last_with_path(assets, p)].path@ == p,
    decreases assets.len(),
{
    if assets.len() > 0 {
        lemma_last_with_path(assets.drop_last(), p);
        let ps = paths_of(assets);
        assert(paths_of(assets.drop_last()) =~= ps.drop_last());
        if assets.last().path@ == p {
            assert(ps[assets.len() - 1] == p);
        } else {
            if path_set(assets).contains(p) {
                let i = choose|i: int| 0 <= i < ps.len() && ps[i] == p;
                assert(i != assets.len() - 1);
                assert(ps.drop_last()[i] == p);
            }
            if path_set(assets.drop_last()).contains(p) {
                let i = choose|i: int| 0 <= i < ps.drop_last().len() && ps.drop_last()[i] == p;
                assert(ps[i] == p);
            }
        }
    }
}

/// The position of the last asset at path `p`.
pub fn last_index_of(assets: &Vec<SnapshotAsset>, p: &String) -> (r: Option<usize>)
    ensures
        match r {
            Some(i) => i == last_with_path(assets@, p@) && i < assets@.len(),
            None => last_with_path(assets@, p@) == -1,
        },
{
    let mut i: usize = assets.len();
    while i > 0
        invariant
            i <= assets@.len(),
            last_with_path(assets@, p@) == last_with_path(assets@.take(i as int), p@),
        decreases i,
    {
        proof {
            assert(assets@.take(i as int).drop_last() =~= assets@.take(i - 1));
            lemma_last_with_path(assets@.take(i as int), p@);
        }
        if str_eq(assets[i - 1].path.as_str(), p.as_str()) {
            return Some(i - 1);
        }
        i = i - 1;
    }
    None
}

/// The distinct asset paths, ascending.
pub fn distinct_paths(assets: &Vec<SnapshotAsset>) -> (r: Vec<String>)
    ensures
        views(r@) == ascending(path_set(assets@)),
        views(r@).to_set() == path_set(assets@),
{
    let mut all: Vec<String> = Vec::new();
    let mut i: usize = 0;
    while i < assets.len()
        invariant
            i <= assets@.len(),
            views(all@) == paths_of(assets@.take(i as int)),
        decreases assets.len() - i,
    {
        proof {
            assert(views(all@.push(assets@[i as int].path)) =~= views(all@).push(
                assets@[i as int].path@,
            ));
            assert(paths_of(assets@.take(i + 1)) =~= paths_of(assets@.take(i as int)).push(
                assets@[i as int].path@,
            ));
        }
        all.push(assets[i].path.clone());
        i = i + 1;
    }
    proof {
        assert(assets@.take(assets@.len() as int) =~= assets@);
    }
    let r = sorted_set_of(all);
    proof {
        lemma_ascending_is(views(r@), path_set(assets@));
    }
    r
}

// ---------------------------------------------------------------------------
// The asset delta
// ---------------------------------------------------------------------------

/// The old paths missing from the new snapshot, in the order of `ps`.
pub open spec fn removed_paths(ps: Seq<Seq<char>>, new: Seq<SnapshotAsset>) -> Seq<Seq<char>>
    decreases ps.len(),
{
    if ps.len() == 0 {
        Seq::empty()
    } else {
        let rest = removed_paths(ps.drop_last(), new);
        if !path_set(new).contains(ps.last()) {
            rest.push(ps.last())
        } else {
            rest
        }
    }
}

/// The paths of `ps` in both snapshots whose assets differ in some field.
pub open spec fn changed_paths(ps: Seq<Seq<char>>, old: Seq<SnapshotAsset>, new: Seq<SnapshotAsset>) -> Seq<
    Seq<char>,
>
    decreases ps.len(),
{
    if ps.len() == 0 {
        Seq::empty()
    } else {
        let rest = changed_paths(ps.drop_last(), old, new);
        let p = ps.last();
        if path_set(new).contains(p) && spec_changed_fields(at_path(old, p), at_path(new, p)).len()
            > 0 {
            rest.push(p)
        } else {
            rest
        }
    }
}

/// How many paths of `ps` are in both snapshots with no field changed.
pub open spec fn unchanged_count(ps: Seq<Seq<char>>, old: Seq<SnapshotAsset>, new: Seq<SnapshotAsset>) -> nat
    decreases ps.len(),
{
    if ps.len() == 0 {
        0
    } else {
        let p = ps.last();
        unchanged_count(ps.drop_last(), old, new) + if path_set(new).contains(p)
            && spec_changed_fields(at_path(old, p), at_path(new, p)).len() == 0 {
            1nat
        } else {
            0nat
        }
    }
}

/// The per-asset outcome of a compare.
#[derive(Debug, Clone)]
pub struct AssetDelta {
    pub added_assets: Vec<SnapshotAssetChange>,
    pub removed_assets: Vec<SnapshotAssetChange>,
    pub changed_assets: Vec<SnapshotAssetChange>,
    pub unchanged_assets: usize,
}

pub open spec fn removed_entries_are(es: Seq<SnapshotAssetChange>, ps: Seq<Seq<char>>, old: Seq<SnapshotAsset>) -> bool {
    es.len() == ps.len() && forall|i: int| 0 <= i < es.len() ==> is_removed_entry(#[trigger] es[i], at_path(old, ps[i]))
}

pub open spec fn added_entries_are(es: Seq<SnapshotAssetChange>, ps: Seq<Seq<char>>, new: Seq<SnapshotAsset>) -> bool {
    es.len() == ps.len() && forall|i: int| 0 <= i < es.len() ==> is_added_entry(#[trigger] es[i], at_path(new, ps[i]))
}

pub open spec fn changed_entries_are(
    es: Seq<SnapshotAssetChange>,
    ps: Seq<Seq<char>>,
    old: Seq<SnapshotAsset>,
    new: Seq<SnapshotAsset>,
) -> bool {
    es.len() == ps.len() && forall|i: int|
        0 <= i < es.len() ==> is_changed_entry(
            #[trigger] es[i],
            at_path(old, ps[i]),
            at_path(new, ps[i]),
            spec_changed_fields(at_path(old, ps[i]), at_path(new, ps[i])),
        )
}

impl SnapshotComparer {
    /// The asset delta of two snapshots, path by path in ascending order: an old path
    /// missing from the new snapshot is removed, a new path missing from the old one
    /// is added, and a path in both is changed when some field differs and unchanged
    /// otherwise; of several assets at one path the last stands for it.
    pub fn compare_assets(&self, old_snapshot: &GameSnapshot, new_snapshot: &GameSnapshot) -> (r:
        AssetDelta)
        ensures
            removed_entries_are(
                r.removed_assets@,
                removed_paths(ascending(path_set(old_snapshot.assets@)), new_snapshot.assets@),
                old_snapshot.assets@,
            ),
            added_entries_are(
                r.added_assets@,
                removed_paths(ascending(path_set(new_snapshot.assets@)), old_snapshot.assets@),
                new_snapshot.assets@,
            ),
            changed_entries_are(
                r.changed_assets@,
                changed_paths(
                    ascending(path_set(old_snapshot.assets@)),
                    old_snapshot.assets@,
                    new_snapshot.assets@,
                ),
                old_snapshot.assets@,
                new_snapshot.assets@,
            ),
            r.unchanged_assets == unchanged_count(
                ascending(path_set(old_snapshot.assets@)),
                old_snapshot.assets@,
                new_snapshot.assets@,
            ),
    {
        let old = &old_snapshot.assets;
        let new = &new_snapshot.assets;
        let old_paths = distinct_paths(old);
        let new_paths = distinct_paths(new);
        let ghost ops = views(old_paths@);
        let ghost nps = views(new_paths@);
        let mut removed: Vec<SnapshotAssetChange> = Vec::new();
        let mut changed: Vec<SnapshotAssetChange> = Vec::new();
        let mut unchanged: usize = 0;
        let mut i: usize = 0;
        proof {
            assert(ops.take(0) =~= Seq::<Seq<char>>::empty());
        }
        while i < old_paths.len()
            invariant
                i <= old_paths@.len(),
                ops == views(old_paths@),
                ops == ascending(path_set(old@)),
                ops.to_set() == path_set(old@),
                removed_entries_are(removed@, removed_paths(ops.take(i as int), new@), old@),
                changed_entries_are(changed@, changed_paths(ops.take(i as int), old@, new@), old@, new@),
                unchanged == unchanged_count(ops.take(i as int), old@, new@),
                unchanged <= i,
            decreases old_paths.len() - i,
        {
            let p = &old_paths[i];
            proof {
                assert(ops.take(i + 1).drop_last() =~= ops.take(i as int));
                assert(ops.take(i + 1).last() == p@);
                lemma_last_with_path(old@, p@);
                lemma_last_with_path(new@, p@);
                assert(ops[i as int] == p@);
                assert(path_set(old@).contains(p@));
            }
            match last_index_of(old, p) {
                Some(oi) => {
                    match last_index_of(new, p) {
                        Some(ni) => {
                            let fields = changed_fields(&old[oi], &new[ni]);
                            if fields.len() == 0 {
                                unchanged = unchanged + 1;
                            } else {
                                let e = build_changed_asset_entry(&old[oi], &new[ni], fields);
                                changed.push(e);
                            }
                        },
                        None => {
                            let e = build_removed_asset_entry(&old[oi]);
                            removed.push(e);
                        },
                    }
                },
                None => {
                    proof {
                        assert(false);
                    }
                },
            }
            i = i + 1;
        }
        proof {
            assert(ops.take(old_paths@.len() as int) =~= ops);
        }
        let mut added: Vec<SnapshotAssetChange> = Vec::new();
        let mut j: usize = 0;
        proof {
            assert(nps.take(0) =~= Seq::<Seq<char>>::empty());
        }
        while j < new_paths.len()
            invariant
                j <= new_paths@.len(),
                nps == views(new_paths@),
                nps == ascending(path_set(new@)),
                nps.to_set() == path_set(new@),
                added_entries_are(added@, removed_paths(nps.take(j as int), old@), new@),
            decreases new_paths.len() - j,
        {
            let p = &new_paths[j];
            proof {
                assert(nps.take(j + 1).drop_last() =~= nps.take(j as int));
                assert(nps.take(j + 1).last() == p@);
                lemma_last_with_path(old@, p@);
                lemma_last_with_path(new@, p@);
                assert(nps[j as int] == p@);
                assert(path_set(new@).contains(p@));
            }
            if last_index_of(old, p).is_none() {
                match last_index_of(new, p) {
                    Some(ni) => {
                        let e = build_added_asset_entry(&new[ni]);
                        added.push(e);
                    },
                    None => {
                        proof {
                            assert(false);
                        }
                    },
                }
            }
            j = j + 1;
        }
        proof {
            assert(nps.take(new_paths@.len() as int) =~= nps);
        }
        AssetDelta {
            added_assets: added,
            removed_assets: removed,
            changed_assets: changed,
            unchanged_assets: unchanged,
        }
    }
}

// ---------------------------------------------------------------------------
// The summary
// ---------------------------------------------------------------------------

/// A property of a changed asset's field list that the summary counts.
#[derive(Debug, Clone, Copy, PartialEq, Eq)]
pub enum ChangeMeasure {
    Identity,
    Layout,
    Shape,
    NamingOnly,
    CosmeticOnly,
    Provenance,
    ContainerMoved,
}

pub open spec fn measure_holds(fs: Seq<Seq<char>>, m: ChangeMeasure) -> bool {
    match m {
        ChangeMeasure::Identity => group(fs, FieldGroup::Identity).len() > 0,
        ChangeMeasure::Layout => group(fs, FieldGroup::Layout).len() > 0,
        ChangeMeasure::Shape => group(fs, FieldGroup::Shape).len() > 0,
        ChangeMeasure::NamingOnly => spec_naming_only(fs),
        ChangeMeasure::CosmeticOnly => spec_cosmetic_only(fs),
        ChangeMeasure::Provenance => group(fs, FieldGroup::Provenance).len() > 0,
        ChangeMeasure::ContainerMoved => spec_container_movement(fs),
    }
}

/// How many entries' changed fields have the property `m`.
pub open spec fn count_measure(es: Seq<SnapshotAssetChange>, m: ChangeMeasure) -> nat
    decreases es.len(),
{
    if es.len() == 0 {
        0
    } else {
        count_measure(es.drop_last(), m) + if measure_holds(views(es.last().changed_fields@), m) {
            1nat
        } else {
            0nat
        }
    }
}

/// How many entries have lineage `k`.
pub open spec fn count_entry_lineage(es: Seq<SnapshotAssetChange>, k: AssetLineageKind) -> nat
    decreases es.len(),
{
    if es.len() == 0 {
        0
    } else {
        count_entry_lineage(es.drop_last(), k) + if es.last().lineage == k {
            1nat
        } else {
            0nat
        }
    }
}

/// How many of the lineages are `k`.
pub open spec fn count_lineage(ls: Seq<AssetLineageKind>, k: AssetLineageKind) -> nat
    decreases ls.len(),
{
    if ls.len() == 0 {
        0
    } else {
        count_lineage(ls.drop_last(), k) + if ls.last() == k {
            1nat
        } else {
            0nat
        }
    }
}

fn same_lineage(a: &AssetLineageKind, b: &AssetLineageKind) -> (r: bool)
    ensures
        r == (*a == *b),
{
    match (a, b) {
        (AssetLineageKind::RenameOrRepath, AssetLineageKind::RenameOrRepath) => true,
        (AssetLineageKind::ContainerMovement, AssetLineageKind::ContainerMovement) => true,
        (AssetLineageKind::LayoutDrift, AssetLineageKind::LayoutDrift) => true,
        (AssetLineageKind::Replacement, AssetLineageKind::Replacement) => true,
        (AssetLineageKind::Ambiguous, AssetLineageKind::Ambiguous) => true,
        (AssetLineageKind::InsufficientEvidence, AssetLineageKind::InsufficientEvidence) => true,
        _ => false,
    }
}

fn measure_of(fields: &Vec<String>, m: ChangeMeasure) -> (r: bool)
    ensures
        r == measure_holds(views(fields@), m),
{
    let b = classify_changed_fields(fields);
    proof {
        assert(breakdown_of(b, views(fields@)));
    }
    match m {
        ChangeMeasure::Identity => b.identity_fields.len() > 0,
        ChangeMeasure::Layout => b.has_layout_change(),
        ChangeMeasure::Shape => b.structural_fields.len() > 0,
        ChangeMeasure::NamingOnly => b.is_naming_only(),
        ChangeMeasure::CosmeticOnly => b.is_cosmetic_only(),
        ChangeMeasure::Provenance => b.provenance_fields.len() > 0,
        ChangeMeasure::ContainerMoved => b.has_container_movement(),
    }
}

/// How many changed entries have property `m`.
pub fn count_changed(es: &Vec<SnapshotAssetChange>, m: ChangeMeasure) -> (r: usize)
    ensures
        r == count_measure(es@, m),
{
    let mut n: usize = 0;
    let mut i: usize = 0;
    while i < es.len()
        invariant
            i <= es@.len(),
            n == count_measure(es@.take(i as int), m),
            n <= i,
        decreases es.len() - i,
    {
        proof {
            assert(es@.take(i + 1).drop_last() =~= es@.take(i as int));
        }
        if measure_of(&es[i].changed_fields, m) {
            n = n + 1;
        }
        i = i + 1;
    }
    proof {
        assert(es@.take(es@.len() as int) =~= es@);
    }
    n
}

/// How many entries and candidates have lineage `k`.
pub fn lineage_count(
    es: &Vec<SnapshotAssetChange>,
    candidate_lineages: &Vec<AssetLineageKind>,
    k: AssetLineageKind,
) -> (r: usize)
    requires
        es@.len() + candidate_lineages@.len() <= usize::MAX,
    ensures
        r == count_entry_lineage(es@, k) + count_lineage(candidate_lineages@, k),
{
    let mut n: usize = 0;
    let mut i: usize = 0;
    while i < es.len()
        invariant
            i <= es@.len(),
            n == count_entry_lineage(es@.take(i as int), k),
            n <= i,
        decreases es.len() - i,
    {
        proof {
            assert(es@.take(i + 1).drop_last() =~= es@.take(i as int));
        }
        if same_lineage(&es[i].lineage, &k) {
            n = n + 1;
        }
        i = i + 1;
    }
    proof {
        assert(es@.take(es@.len() as int) =~= es@);
    }
    let mut j: usize = 0;
    let ghost base = n;
    while j < candidate_lineages.len()
        invariant
            j <= candidate_lineages@.len(),
            base == count_entry_lineage(es@, k),
            base <= es@.len(),
            es@.len() + candidate_lineages@.len() <= usize::MAX,
            n == base + count_lineage(candidate_lineages@.take(j as int), k),
            n <= base + j,
        decreases candidate_lineages.len() - j,
    {
        proof {
            assert(candidate_lineages@.take(j + 1).drop_last() =~= candidate_lineages@.take(j as int));
        }
        if same_lineage(&candidate_lineages[j], &k) {
            n = n + 1;
        }
        j = j + 1;
    }
    proof {
        assert(candidate_lineages@.take(candidate_lineages@.len() as int) =~= candidate_lineages@);
    }
    n
}

/// `r` is the compare summary of the asset delta and the candidate remaps (given by
/// their lineages, and the counts of ambiguous and high-confidence ones).
pub open spec fn summary_is(
    r: SnapshotCompareSummary,
    total_old_assets: usize,
    total_new_assets: usize,
    delta: AssetDelta,
    candidate_lineages: Seq<AssetLineageKind>,
    ambiguous_candidate_mapping_changes: usize,
    high_confidence_candidate_mapping_changes: usize,
) -> bool {
    &&& r.total_old_assets == total_old_assets
    &&& r.total_new_assets == total_new_assets
    &&& r.unchanged_assets == delta.unchanged_assets
    &&& r.added_assets == delta.added_assets@.len()
    &&& r.removed_assets == delta.removed_assets@.len()
    &&& r.changed_assets == delta.changed_assets@.len()
    &&& r.candidate_mapping_changes == candidate_lineages.len()
    &&& r.identity_changed_assets == count_measure(delta.changed_assets@, ChangeMeasure::Identity)
    &&& r.layout_changed_assets == count_measure(delta.changed_assets@, ChangeMeasure::Layout)
    &&& r.structural_changed_assets == count_measure(delta.changed_assets@, ChangeMeasure::Shape)
    &&& r.naming_only_changed_assets == count_measure(delta.changed_assets@, ChangeMeasure::NamingOnly)
    &&& r.cosmetic_only_changed_assets == count_measure(delta.changed_assets@, ChangeMeasure::CosmeticOnly)
    &&& r.provenance_changed_assets == count_measure(delta.changed_assets@, ChangeMeasure::Provenance)
    &&& r.container_moved_assets == count_measure(delta.changed_assets@, ChangeMeasure::ContainerMoved)
    &&& r.lineage_rename_or_repath_assets == count_entry_lineage(delta.changed_assets@, AssetLineageKind::RenameOrRepath)
        + count_lineage(candidate_lineages, AssetLineageKind::RenameOrRepath)
    &&& r.lineage_container_movement_assets == count_entry_lineage(delta.changed_assets@, AssetLineageKind::ContainerMovement)
        + count_lineage(candidate_lineages, AssetLineageKind::ContainerMovement)
    &&& r.lineage_layout_drift_assets == count_entry_lineage(delta.changed_assets@, AssetLineageKind::LayoutDrift)
        + count_lineage(candidate_lineages, AssetLineageKind::LayoutDrift)
    &&& r.lineage_replacement_assets == count_entry_lineage(delta.changed_assets@, AssetLineageKind::Replacement)
        + count_lineage(candidate_lineages, AssetLineageKind::Replacement)
    &&& r.lineage_ambiguous_assets == count_entry_lineage(delta.changed_assets@, AssetLineageKind::Ambiguous)
        + count_lineage(candidate_lineages, AssetLineageKind::Ambiguous)
    &&& r.lineage_insufficient_evidence_assets == count_entry_lineage(delta.changed_assets@, AssetLineageKind::InsufficientEvidence)
        + count_lineage(candidate_lineages, AssetLineageKind::InsufficientEvidence)
    &&& r.ambiguous_candidate_mapping_changes == ambiguous_candidate_mapping_changes
    &&& r.high_confidence_candidate_mapping_changes == high_confidence_candidate_mapping_changes
}

/// The compare summary of an asset delta and the candidate remaps found for it
/// (given by their lineages, and the counts of ambiguous and high-confidence ones).
pub fn summarize_compare(
    total_old_assets: usize,
    total_new_assets: usize,
    delta: &AssetDelta,
    candidate_lineages: &Vec<AssetLineageKind>,
    ambiguous_candidate_mapping_changes: usize,
    high_confidence_candidate_mapping_changes: usize,
) -> (r: SnapshotCompareSummary)
    requires
        delta.changed_assets@.len() + candidate_lineages@.len() <= usize::MAX,
    ensures
        summary_is(
            r,
            total_old_assets,
            total_new_assets,
            *delta,
            candidate_lineages@,
            ambiguous_candidate_mapping_changes,
            high_confidence_candidate_mapping_changes,
        ),
{
    let changed = &delta.changed_assets;
    SnapshotCompareSummary {
        total_old_assets,
        total_new_assets,
        unchanged_assets: delta.unchanged_assets,
        added_assets: delta.added_assets.len(),
        removed_assets: delta.removed_assets.len(),
        changed_assets: changed.len(),
        candidate_mapping_changes: candidate_lineages.len(),
        identity_changed_assets: count_changed(changed, ChangeMeasure::Identity),
        layout_changed_assets: count_changed(changed, ChangeMeasure::Layout),
        structural_changed_assets: count_changed(changed, ChangeMeasure::Shape),
        naming_only_changed_assets: count_changed(changed, ChangeMeasure::NamingOnly),
        cosmetic_only_changed_assets: count_changed(changed, ChangeMeasure::CosmeticOnly),
        provenance_changed_assets: count_changed(changed, ChangeMeasure::Provenance),
        container_moved_assets: count_changed(changed, ChangeMeasure::ContainerMoved),
        lineage_rename_or_repath_assets: lineage_count(
            changed,
            candidate_lineages,
            AssetLineageKind::RenameOrRepath,
        ),
        lineage_container_movement_assets: lineage_count(
            changed,
            candidate_lineages,
            AssetLineageKind::ContainerMovement,
        ),
        lineage_layout_drift_assets: lineage_count(
            changed,
            candidate_lineages,
            AssetLineageKind::LayoutDrift,
        ),
        lineage_replacement_assets: lineage_count(
            changed,
            candidate_lineages,
            AssetLineageKind::Replacement,
        ),
        lineage_ambiguous_assets: lineage_count(changed, candidate_lineages, AssetLineageKind::Ambiguous),
        lineage_insufficient_evidence_assets: lineage_count(
            changed,
            candidate_lineages,
            AssetLineageKind::InsufficientEvidence,
        ),
        ambiguous_candidate_mapping_changes,
        high_confidence_candidate_mapping_changes,
    }
}

// ---------------------------------------------------------------------------
// Laws
// ---------------------------------------------------------------------------

/// Each old path is exactly one of removed, changed or unchanged: the three counts
/// add up to the number of old paths.
pub proof fn old_paths_are_removed_changed_or_unchanged(
    ps: Seq<Seq<char>>,
    old: Seq<SnapshotAsset>,
    new: Seq<SnapshotAsset>,
)
    ensures
        removed_paths(ps, new).len() + changed_paths(ps, old, new).len() + unchanged_count(
            ps,
            old,
            new,
        ) == ps.len(),
    decreases ps.len(),
{
    if ps.len() > 0 {
        old_paths_are_removed_changed_or_unchanged(ps.drop_last(), old, new);
    }
}


proof fn lemma_same_paths_unchanged(ps: Seq<Seq<char>>, a: Seq<SnapshotAsset>)
    requires
        forall|i: int| 0 <= i < ps.len() ==> path_set(a).contains(#[trigger] ps[i]),
    ensures
        removed_paths(ps, a).len() == 0,
        changed_paths(ps, a, a).len() == 0,
        unchanged_count(ps, a, a) == ps.len(),
    decreases ps.len(),
{
    if ps.len() > 0 {
        let p = ps.last();
        assert(path_set(a).contains(ps[ps.len() - 1]));
        assert(spec_changed_fields(at_path(a, p), at_path(a, p)).len() == 0);
        lemma_same_paths_unchanged(ps.drop_last(), a);
    }
}

/// Comparing a snapshot with itself finds nothing removed, added or changed, and
/// counts every distinct path as unchanged.
pub proof fn comparing_a_snapshot_with_itself_finds_no_change(a: Seq<SnapshotAsset>)
    ensures
        removed_paths(ascending(path_set(a)), a).len() == 0,
        changed_paths(ascending(path_set(a)), a, a).len() == 0,
        unchanged_count(ascending(path_set(a)), a, a) == path_set(a).len(),
{
    let s = path_set(a);
    lemma_ascending_exists(s);
    let q = ascending(s);
    assert forall|i: int| 0 <= i < q.len() implies s.contains(#[trigger] q[i]) by {
        assert(q.to_set().contains(q[i]));
    }
    lemma_same_paths_unchanged(q, a);
    lemma_singleton_of(q, s);
}

} // verus!
