//! The entries a snapshot compare reports for added, removed and changed assets.
use vstd::prelude::*;
use crate::compare::fields::{
    breakdown_of, classify_changed_fields, group, spec_container_movement, spec_cosmetic_only,
    spec_hash_like_identity_change, spec_identity_only, spec_naming_only, spec_provenance_only,
    FieldChangeBreakdown, FieldGroup, in_group, spec_field_group,
};
use crate::compare::{
    lineage_reason, make_reason, reason_models, spec_lineage_reason, AssetLineageKind, ReasonModel,
    RiskLevel, SnapshotChangeType, SnapshotCompareReason,
};
use crate::domain::{AssetInternalStructure, AssetSourceContext};
use crate::snapshot::SnapshotAsset;
use crate::text::{
    clone_opt_string, clone_string, clone_strings, join, join_seq, new_string, opt_view, push_str,
    str_eq, views,
};

verus! {

/// What a compare report keeps of a snapshot asset.
#[derive(Debug, Clone, PartialEq, Eq)]
pub struct SnapshotAssetSummary {
    pub id: String,
    pub path: String,
    pub kind: Option<String>,
    pub logical_name: Option<String>,
    pub normalized_name: Option<String>,
    pub vertex_count: Option<u32>,
    pub index_count: Option<u32>,
    pub material_slots: Option<u32>,
    pub section_count: Option<u32>,
    pub vertex_stride: Option<u32>,
    pub vertex_buffer_count: Option<u32>,
    pub index_format: Option<String>,
    pub primitive_topology: Option<String>,
    pub layout_markers: Vec<String>,
    pub internal_structure: AssetInternalStructure,
    pub asset_hash: Option<String>,
    pub shader_hash: Option<String>,
    pub signature: Option<String>,
    pub tags: Vec<String>,
    pub source: AssetSourceContext,
}

impl SnapshotAssetSummary {
    /// `self` holds the identity, fingerprint, hashes and origin of `a`.
    pub open spec fn summarizes(&self, a: &SnapshotAsset) -> bool {
        &&& self.id@ == a.id@
        &&& self.path@ == a.path@
        &&& opt_view(self.kind) == opt_view(a.kind)
        &&& opt_view(self.logical_name) == opt_view(a.metadata.logical_name)
        &&& opt_view(self.normalized_name) == opt_view(a.fingerprint.normalized_name)
        &&& self.vertex_count == a.fingerprint.vertex_count
        &&& self.index_count == a.fingerprint.index_count
        &&& self.material_slots == a.fingerprint.material_slots
        &&& self.section_count == a.fingerprint.section_count
        &&& self.vertex_stride == a.fingerprint.vertex_stride
        &&& self.vertex_buffer_count == a.fingerprint.vertex_buffer_count
        &&& opt_view(self.index_format) == opt_view(a.fingerprint.index_format)
        &&& opt_view(self.primitive_topology) == opt_view(a.fingerprint.primitive_topology)
        &&& views(self.layout_markers@) == views(a.fingerprint.layout_markers@)
        &&& self.internal_structure.same_as(&a.fingerprint.internal_structure)
        &&& opt_view(self.asset_hash) == opt_view(a.hash_fields.asset_hash)
        &&& opt_view(self.shader_hash) == opt_view(a.hash_fields.shader_hash)
        &&& opt_view(self.signature) == opt_view(a.hash_fields.signature)
        &&& views(self.tags@) == views(a.fingerprint.tags@)
        &&& self.source.same_as(&a.source)
    }

    /// The summary of a snapshot asset.
    pub fn from_asset(value: &SnapshotAsset) -> (r: Self)
        ensures
            r.summarizes(value),
    {
        SnapshotAssetSummary {
            id: clone_string(&value.id),
            path: clone_string(&value.path),
            kind: clone_opt_string(&value.kind),
            logical_name: clone_opt_string(&value.metadata.logical_name),
            normalized_name: clone_opt_string(&value.fingerprint.normalized_name),
            vertex_count: value.fingerprint.vertex_count,
            index_count: value.fingerprint.index_count,
            material_slots: value.fingerprint.material_slots,
            section_count: value.fingerprint.section_count,
            vertex_stride: value.fingerprint.vertex_stride,
            vertex_buffer_count: value.fingerprint.vertex_buffer_count,
            index_format: clone_opt_string(&value.fingerprint.index_format),
            primitive_topology: clone_opt_string(&value.fingerprint.primitive_topology),
            layout_markers: clone_strings(&value.fingerprint.layout_markers),
            internal_structure: value.fingerprint.internal_structure.copy(),
            asset_hash: clone_opt_string(&value.hash_fields.asset_hash),
            shader_hash: clone_opt_string(&value.hash_fields.shader_hash),
            signature: clone_opt_string(&value.hash_fields.signature),
            tags: clone_strings(&value.fingerprint.tags),
            source: value.source.copy(),
        }
    }
}

/// One asset's entry in a snapshot compare.
#[derive(Debug, Clone)]
pub struct SnapshotAssetChange {
    pub change_type: SnapshotChangeType,
    pub old_asset: Option<SnapshotAssetSummary>,
    pub new_asset: Option<SnapshotAssetSummary>,
    pub changed_fields: Vec<String>,
    pub probable_impact: RiskLevel,
    pub crash_risk: RiskLevel,
    pub suspected_mapping_change: bool,
    pub lineage: AssetLineageKind,
    pub reasons: Vec<SnapshotCompareReason>,
}

// ---------------------------------------------------------------------------
// Messages
// ---------------------------------------------------------------------------

pub open spec fn is_count_field(f: Seq<char>) -> bool {
    f == "vertex_count"@ || f == "index_count"@ || f == "material_slots"@ || f == "section_count"@
}

pub open spec fn is_buffer_layout_field(f: Seq<char>) -> bool {
    ||| f == "vertex_stride"@
    ||| f == "vertex_buffer_count"@
    ||| f == "index_format"@
    ||| f == "primitive_topology"@
    ||| f == "layout_markers"@
    ||| f == "internal_structure.buffer_roles"@
    ||| f == "internal_structure.binding_targets"@
}

/// The sentence that explains one changed field.
pub open spec fn spec_field_change_message(field: Seq<char>, path: Seq<char>) -> Seq<char> {
    let head = field + " changed for asset path "@ + path;
    if field == "asset_hash"@ || field == "shader_hash"@ || field == "signature"@ {
        head + "; identity-based targeting may need review"@
    } else if is_count_field(field) {
        head + "; mod mappings that assume the previous layout may need review"@
    } else if is_buffer_layout_field(field) {
        head + "; buffer/layout assumptions should be validated before remapping"@
    } else if field == "internal_structure.section_labels"@ || field
        == "internal_structure.subresource_roles"@ {
        head + "; internal section/component layout likely drifted"@
    } else if field == "internal_structure.has_skeleton"@ || field
        == "internal_structure.has_shapekey_data"@ {
        head + "; component presence markers changed and may reflect internal structure drift"@
    } else if field == "normalized_name"@ || field == "logical_name"@ {
        head + "; this looks like a naming-level drift"@
    } else if field == "tags"@ {
        head
            + "; compare treats tag drift as low-signal metadata unless stronger evidence exists"@
    } else if field == "source_path"@ {
        head
            + "; container/package origin may have moved even if the logical asset stayed related"@
    } else if field == "container_path"@ {
        head + "; package origin moved across snapshots"@
    } else if field == "source_kind"@ {
        head + "; provenance classification changed"@
    } else {
        head
    }
}

fn text3(a: &str, b: &str, c: &str) -> (r: String)
    ensures
        r@ == a@ + b@ + c@,
{
    let mut s = new_string(a);
    push_str(&mut s, b);
    push_str(&mut s, c);
    s
}

pub fn field_change_message(field: &str, path: &str) -> (r: String)
    ensures
        r@ == spec_field_change_message(field@, path@),
{
    let mut s = text3(field, " changed for asset path ", path);
    if str_eq(field, "asset_hash") || str_eq(field, "shader_hash") || str_eq(field, "signature") {
        push_str(&mut s, "; identity-based targeting may need review");
    } else if str_eq(field, "vertex_count") || str_eq(field, "index_count") || str_eq(
        field,
        "material_slots",
    ) || str_eq(field, "section_count") {
        push_str(&mut s, "; mod mappings that assume the previous layout may need review");
    } else if str_eq(field, "vertex_stride") || str_eq(field, "vertex_buffer_count") || str_eq(
        field,
        "index_format",
    ) || str_eq(field, "primitive_topology") || str_eq(field, "layout_markers") || str_eq(
        field,
        "internal_structure.buffer_roles",
    ) || str_eq(field, "internal_structure.binding_targets") {
        push_str(&mut s, "; buffer/layout assumptions should be validated before remapping");
    } else if str_eq(field, "internal_structure.section_labels") || str_eq(
        field,
        "internal_structure.subresource_roles",
    ) {
        push_str(&mut s, "; internal section/component layout likely drifted");
    } else if str_eq(field, "internal_structure.has_skeleton") || str_eq(
        field,
        "internal_structure.has_shapekey_data",
    ) {
        push_str(
            &mut s,
            "; component presence markers changed and may reflect internal structure drift",
        );
    } else if str_eq(field, "normalized_name") || str_eq(field, "logical_name") {
        push_str(&mut s, "; this looks like a naming-level drift");
    } else if str_eq(field, "tags") {
        push_str(
            &mut s,
            "; compare treats tag drift as low-signal metadata unless stronger evidence exists",
        );
    } else if str_eq(field, "source_path") {
        push_str(
            &mut s,
            "; container/package origin may have moved even if the logical asset stayed related",
        );
    } else if str_eq(field, "container_path") {
        push_str(&mut s, "; package origin moved across snapshots");
    } else if str_eq(field, "source_kind") {
        push_str(&mut s, "; provenance classification changed");
    }
    s
}

// ---------------------------------------------------------------------------
// Lineage and risk of a changed asset
// ---------------------------------------------------------------------------

/// The lineage call for a changed asset, from its change flags.
pub open spec fn spec_lineage_call(
    has_provenance: bool,
    structural_change: bool,
    layout_change: bool,
    hash_like_identity_change: bool,
    identity_only_change: bool,
    naming_only_change: bool,
    provenance_only_change: bool,
) -> AssetLineageKind {
    if provenance_only_change {
        AssetLineageKind::ContainerMovement
    } else if identity_only_change || hash_like_identity_change {
        AssetLineageKind::Replacement
    } else if layout_change || structural_change {
        if has_provenance {
            AssetLineageKind::ContainerMovement
        } else {
            AssetLineageKind::LayoutDrift
        }
    } else if naming_only_change {
        AssetLineageKind::RenameOrRepath
    } else {
        AssetLineageKind::InsufficientEvidence
    }
}

/// Lineage of a changed asset: provenance-only changes are container movement,
/// identity changes replacement, layout or structure drift (container movement when
/// provenance moved too), naming-only changes a rename; anything else is not enough
/// evidence.
pub fn assess_changed_asset_lineage(
    breakdown: &FieldChangeBreakdown,
    structural_change: bool,
    layout_change: bool,
    hash_like_identity_change: bool,
    identity_only_change: bool,
    naming_only_change: bool,
    cosmetic_only_change: bool,
    provenance_only_change: bool,
) -> (r: AssetLineageKind)
    ensures
        r == spec_lineage_call(
            breakdown.provenance_fields@.len() > 0,
            structural_change,
            layout_change,
            hash_like_identity_change,
            identity_only_change,
            naming_only_change,
            provenance_only_change,
        ),
{
    if provenance_only_change {
        AssetLineageKind::ContainerMovement
    } else if identity_only_change || hash_like_identity_change {
        AssetLineageKind::Replacement
    } else if layout_change || structural_change {
        if !breakdown.provenance_fields.is_empty() {
            AssetLineageKind::ContainerMovement
        } else {
            AssetLineageKind::LayoutDrift
        }
    } else if naming_only_change {
        AssetLineageKind::RenameOrRepath
    } else if cosmetic_only_change {
        AssetLineageKind::InsufficientEvidence
    } else {
        AssetLineageKind::InsufficientEvidence
    }
}

pub open spec fn spec_structural_change(fs: Seq<Seq<char>>) -> bool {
    group(fs, FieldGroup::Shape).len() > 0
}

pub open spec fn spec_layout_change(fs: Seq<Seq<char>>) -> bool {
    group(fs, FieldGroup::Layout).len() > 0
}

/// The lineage of an asset whose fields `fs` changed.
pub open spec fn spec_changed_lineage(fs: Seq<Seq<char>>) -> AssetLineageKind {
    spec_lineage_call(
        group(fs, FieldGroup::Provenance).len() > 0,
        spec_structural_change(fs),
        spec_layout_change(fs),
        spec_hash_like_identity_change(fs),
        spec_identity_only(fs),
        spec_naming_only(fs),
        spec_provenance_only(fs),
    )
}

/// High when structure, layout or a hash-like identity changed; medium when only
/// identity fields (among the content signals) changed; low otherwise.
pub open spec fn spec_changed_risk(fs: Seq<Seq<char>>) -> RiskLevel {
    if spec_structural_change(fs) || spec_layout_change(fs) || spec_hash_like_identity_change(fs) {
        RiskLevel::High
    } else if spec_identity_only(fs) {
        RiskLevel::Medium
    } else {
        RiskLevel::Low
    }
}

pub open spec fn spec_suspected_mapping_change(fs: Seq<Seq<char>>) -> bool {
    spec_structural_change(fs) || spec_hash_like_identity_change(fs) || spec_identity_only(fs)
}

// ---------------------------------------------------------------------------
// Reasons of a changed asset
// ---------------------------------------------------------------------------

pub open spec fn rm(code: Seq<char>, message: Seq<char>) -> ReasonModel {
    ReasonModel { code, message }
}

/// `s` with `r` pushed when `c`.
pub open spec fn push_reason_if(s: Seq<ReasonModel>, c: bool, r: ReasonModel) -> Seq<ReasonModel> {
    if c {
        s.push(r)
    } else {
        s
    }
}

pub open spec fn listed(fs: Seq<Seq<char>>) -> Seq<char> {
    join_seq(fs, ", "@)
}

/// The reasons a changed asset gets from its field groups.
pub open spec fn spec_group_reasons(path: Seq<char>, fs: Seq<Seq<char>>) -> Seq<ReasonModel> {
    let identity = group(fs, FieldGroup::Identity);
    let layout = group(fs, FieldGroup::Layout);
    let shape = group(fs, FieldGroup::Shape);
    let naming = group(fs, FieldGroup::Naming);
    let cosmetic = group(fs, FieldGroup::Cosmetic);
    let provenance = group(fs, FieldGroup::Provenance);
    let s1 = push_reason_if(
        Seq::empty(),
        identity.len() > 0,
        rm(
            "identity_signal_changed"@,
            "identity signals changed for asset path "@ + path + ": "@ + listed(identity)
                + "; hash/signature/kind-based targeting may need review"@,
        ),
    );
    let s2 = push_reason_if(
        s1,
        layout.len() > 0,
        rm(
            "buffer_layout_changed"@,
            "buffer/layout signals changed for asset path "@ + path + ": "@ + listed(layout)
                + "; validate layout assumptions before remapping"@,
        ),
    );
    let s3 = push_reason_if(
        s2,
        shape.len() > 0,
        rm(
            "structural_layout_changed"@,
            "structural layout signals changed for asset path "@ + path + ": "@ + listed(shape)
                + "; validate buffer/layout assumptions before remapping"@,
        ),
    );
    let s4 = if spec_naming_only(fs) {
        s3.push(
            rm(
                "naming_only_change"@,
                "only naming fields changed for asset path "@ + path
                    + "; treat this as a rename/relabel signal, not layout evidence"@,
            ),
        )
    } else {
        push_reason_if(
            s3,
            naming.len() > 0,
            rm(
                "naming_signal_changed"@,
                "naming signals changed for asset path "@ + path + ": "@ + listed(naming),
            ),
        )
    };
    let s5 = if spec_cosmetic_only(fs) {
        s4.push(
            rm(
                "cosmetic_metadata_changed"@,
                "only cosmetic metadata changed for asset path "@ + path
                    + "; compare keeps this low-impact unless other signals disagree"@,
            ),
        )
    } else {
        push_reason_if(
            s4,
            cosmetic.len() > 0,
            rm(
                "cosmetic_metadata_changed"@,
                "cosmetic metadata changed for asset path "@ + path + ": "@ + listed(cosmetic),
            ),
        )
    };
    let s6 = if spec_provenance_only(fs) {
        s5.push(
            rm(
                "provenance_only_change"@,
                "only package/provenance metadata changed for asset path "@ + path
                    + "; treat this as a container-origin movement signal rather than a content identity change"@,
            ),
        )
    } else {
        push_reason_if(
            s5,
            provenance.len() > 0,
            rm(
                "provenance_signal_changed"@,
                "package/provenance metadata changed for asset path "@ + path + ": "@ + listed(
                    provenance,
                ),
            ),
        )
    };
    push_reason_if(
        s6,
        spec_container_movement(fs),
        rm(
            "container_package_movement_detected"@,
            "container/package origin changed for asset path "@ + path
                + "; remap review should consider package movement, not just path drift"@,
        ),
    )
}

/// The reason recorded for one changed field.
pub open spec fn spec_field_reason(path: Seq<char>, f: Seq<char>) -> ReasonModel {
    rm(f + "_changed"@, spec_field_change_message(f, path))
}

/// All reasons of a changed asset: the group reasons, one per changed field, and the lineage.
pub open spec fn spec_changed_reasons(path: Seq<char>, fs: Seq<Seq<char>>) -> Seq<ReasonModel> {
    (spec_group_reasons(path, fs) + fs.map_values(|f: Seq<char>| spec_field_reason(path, f))).push(
        spec_lineage_reason(spec_changed_lineage(fs)),
    )
}

/// `e` is the entry of an asset at the same path in both snapshots whose fields `fs` changed.
pub open spec fn is_changed_entry(
    e: SnapshotAssetChange,
    o: SnapshotAsset,
    n: SnapshotAsset,
    fs: Seq<Seq<char>>,
) -> bool {
    &&& e.change_type == SnapshotChangeType::Changed
    &&& e.old_asset is Some && e.old_asset->0.summarizes(&o)
    &&& e.new_asset is Some && e.new_asset->0.summarizes(&n)
    &&& views(e.changed_fields@) == fs
    &&& e.probable_impact == spec_changed_risk(fs)
    &&& e.crash_risk == spec_changed_risk(fs)
    &&& e.suspected_mapping_change == spec_suspected_mapping_change(fs)
    &&& e.lineage == spec_changed_lineage(fs)
    &&& reason_models(e.reasons@) == spec_changed_reasons(o.path@, fs)
}

/// `e` is the entry of an asset whose path is gone from the new snapshot.
pub open spec fn is_removed_entry(e: SnapshotAssetChange, o: SnapshotAsset) -> bool {
    &&& e.change_type == SnapshotChangeType::Removed
    &&& e.old_asset is Some && e.old_asset->0.summarizes(&o)
    &&& e.new_asset is None
    &&& views(e.changed_fields@) == seq!["path_presence"@]
    &&& e.probable_impact == RiskLevel::Medium
    &&& e.crash_risk == RiskLevel::Medium
    &&& e.suspected_mapping_change
    &&& e.lineage == AssetLineageKind::InsufficientEvidence
    &&& reason_models(e.reasons@) == seq![
        rm(
            "asset_removed"@,
            "asset path "@ + o.path@
                + " is missing in the new snapshot; mods targeting this path may fail until remapped"@,
        ),
    ]
}

/// `e` is the entry of an asset whose path is new in the new snapshot.
pub open spec fn is_added_entry(e: SnapshotAssetChange, n: SnapshotAsset) -> bool {
    &&& e.change_type == SnapshotChangeType::Added
    &&& e.old_asset is None
    &&& e.new_asset is Some && e.new_asset->0.summarizes(&n)
    &&& views(e.changed_fields@) == seq!["path_presence"@]
    &&& e.probable_impact == RiskLevel::Low
    &&& e.crash_risk == RiskLevel::Low
    &&& !e.suspected_mapping_change
    &&& e.lineage == AssetLineageKind::InsufficientEvidence
    &&& reason_models(e.reasons@) == seq![
        rm("asset_added"@, "asset path "@ + n.path@ + " is new in the current snapshot"@),
    ]
}

fn listed_message(head: &str, path: &str, fields: &Vec<String>, tail: &str) -> (r: String)
    ensures
        r@ == head@ + path@ + ": "@ + listed(views(fields@)) + tail@,
{
    let mut s = text3(head, path, ": ");
    let l = join(fields, ", ");
    push_str(&mut s, l.as_str());
    push_str(&mut s, tail);
    s
}

fn push_reason(v: &mut Vec<SnapshotCompareReason>, r: SnapshotCompareReason)
    ensures
        reason_models(final(v)@) == reason_models(old(v)@).push(r@),
{
    proof {
        assert(reason_models(v@.push(r)) =~= reason_models(v@).push(r@));
    }
    v.push(r);
}

fn group_reasons(path: &str, b: &FieldChangeBreakdown, fields: &Vec<String>) -> (r: Vec<
    SnapshotCompareReason,
>)
    requires
        breakdown_of(*b, views(fields@)),
    ensures
        reason_models(r@) == spec_group_reasons(path@, views(fields@)),
{
    let ghost fs = views(fields@);
    let mut reasons: Vec<SnapshotCompareReason> = Vec::new();
    proof {
        assert(reason_models(reasons@) =~= Seq::<ReasonModel>::empty());
    }
    if !b.identity_fields.is_empty() {
        push_reason(
            &mut reasons,
            make_reason(
                new_string("identity_signal_changed"),
                listed_message(
                    "identity signals changed for asset path ",
                    path,
                    &b.identity_fields,
                    "; hash/signature/kind-based targeting may need review",
                ),
            ),
        );
    }
    if b.has_layout_change() {
        push_reason(
            &mut reasons,
            make_reason(
                new_string("buffer_layout_changed"),
                listed_message(
                    "buffer/layout signals changed for asset path ",
                    path,
                    &b.layout_fields,
                    "; validate layout assumptions before remapping",
                ),
            ),
        );
    }
    if !b.structural_fields.is_empty() {
        push_reason(
            &mut reasons,
            make_reason(
                new_string("structural_layout_changed"),
                listed_message(
                    "structural layout signals changed for asset path ",
                    path,
                    &b.structural_fields,
                    "; validate buffer/layout assumptions before remapping",
                ),
            ),
        );
    }
    if b.is_naming_only() {
        push_reason(
            &mut reasons,
            make_reason(
                new_string("naming_only_change"),
                text3(
                    "only naming fields changed for asset path ",
                    path,
                    "; treat this as a rename/relabel signal, not layout evidence",
                ),
            ),
        );
    } else if !b.naming_fields.is_empty() {
        push_reason(
            &mut reasons,
            make_reason(
                new_string("naming_signal_changed"),
                listed_message("naming signals changed for asset path ", path, &b.naming_fields, ""),
            ),
        );
        proof {
            assert("naming signals changed for asset path "@ + path@ + ": "@ + listed(
                views(b.naming_fields@),
            ) + ""@ =~= "naming signals changed for asset path "@ + path@ + ": "@ + listed(
                views(b.naming_fields@),
            )) by {
                reveal_strlit("");
            }
        }
    }
    if b.is_cosmetic_only() {
        push_reason(
            &mut reasons,
            make_reason(
                new_string("cosmetic_metadata_changed"),
                text3(
                    "only cosmetic metadata changed for asset path ",
                    path,
                    "; compare keeps this low-impact unless other signals disagree",
                ),
            ),
        );
    } else if !b.cosmetic_fields.is_empty() {
        push_reason(
            &mut reasons,
            make_reason(
                new_string("cosmetic_metadata_changed"),
                listed_message(
                    "cosmetic metadata changed for asset path ",
                    path,
                    &b.cosmetic_fields,
                    "",
                ),
            ),
        );
        proof {
            assert("cosmetic metadata changed for asset path "@ + path@ + ": "@ + listed(
                views(b.cosmetic_fields@),
            ) + ""@ =~= "cosmetic metadata changed for asset path "@ + path@ + ": "@ + listed(
                views(b.cosmetic_fields@),
            )) by {
                reveal_strlit("");
            }
        }
    }
    if b.is_provenance_only() {
        push_reason(
            &mut reasons,
            make_reason(
                new_string("provenance_only_change"),
                text3(
                    "only package/provenance metadata changed for asset path ",
                    path,
                    "; treat this as a container-origin movement signal rather than a content identity change",
                ),
            ),
        );
    } else if !b.provenance_fields.is_empty() {
        push_reason(
            &mut reasons,
            make_reason(
                new_string("provenance_signal_changed"),
                listed_message(
                    "package/provenance metadata changed for asset path ",
                    path,
                    &b.provenance_fields,
                    "",
                ),
            ),
        );
        proof {
            assert("package/provenance metadata changed for asset path "@ + path@ + ": "@ + listed(
                views(b.provenance_fields@),
            ) + ""@ =~= "package/provenance metadata changed for asset path "@ + path@ + ": "@
                + listed(views(b.provenance_fields@))) by {
                reveal_strlit("");
            }
        }
    }
    if b.has_container_movement() {
        push_reason(
            &mut reasons,
            make_reason(
                new_string("container_package_movement_detected"),
                text3(
                    "container/package origin changed for asset path ",
                    path,
                    "; remap review should consider package movement, not just path drift",
                ),
            ),
        );
    }
    reasons
}

/// The entry for an asset found at the same path in both snapshots with `changed_fields` differing.
pub fn build_changed_asset_entry(
    old_asset: &SnapshotAsset,
    new_asset: &SnapshotAsset,
    changed_fields: Vec<String>,
) -> (r: SnapshotAssetChange)
    ensures
        is_changed_entry(r, *old_asset, *new_asset, views(changed_fields@)),
{
    let ghost fs = views(changed_fields@);
    let breakdown = classify_changed_fields(&changed_fields);
    let structural_change = !breakdown.structural_fields.is_empty();
    let layout_change = breakdown.has_layout_change();
    let hash_like_identity_change = breakdown.has_hash_like_identity_change();
    proof {
        assert(hash_like_identity_change == spec_hash_like_identity_change(fs)) by {
            if hash_like_identity_change {
                let i = choose|i: int|
                    0 <= i < breakdown.identity_fields@.len()
                        && crate::compare::fields::is_hash_like(
                        #[trigger] breakdown.identity_fields@[i]@,
                    );
                assert(views(breakdown.identity_fields@)[i] == breakdown.identity_fields@[i]@);
            }
            if spec_hash_like_identity_change(fs) {
                let i = choose|i: int|
                    0 <= i < group(fs, FieldGroup::Identity).len()
                        && crate::compare::fields::is_hash_like(
                        #[trigger] group(fs, FieldGroup::Identity)[i],
                    );
                assert(views(breakdown.identity_fields@)[i] == breakdown.identity_fields@[i]@);
            }
        }
    }
    let identity_only_change = !breakdown.identity_fields.is_empty()
        && breakdown.layout_fields.is_empty() && breakdown.structural_fields.is_empty()
        && breakdown.naming_fields.is_empty() && breakdown.cosmetic_fields.is_empty();
    let naming_only_change = breakdown.is_naming_only();
    let cosmetic_only_change = breakdown.is_cosmetic_only();
    let provenance_only_change = breakdown.is_provenance_only();
    let lineage = assess_changed_asset_lineage(
        &breakdown,
        structural_change,
        layout_change,
        hash_like_identity_change,
        identity_only_change,
        naming_only_change,
        cosmetic_only_change,
        provenance_only_change,
    );
    let probable_impact = if structural_change || layout_change || hash_like_identity_change {
        RiskLevel::High
    } else if identity_only_change {
        RiskLevel::Medium
    } else {
        RiskLevel::Low
    };
    let crash_risk = if structural_change || layout_change || hash_like_identity_change {
        RiskLevel::High
    } else if identity_only_change {
        RiskLevel::Medium
    } else {
        RiskLevel::Low
    };
    let path = old_asset.path.as_str();
    let mut reasons = group_reasons(path, &breakdown, &changed_fields);
    let ghost base = reason_models(reasons@);
    let mut i: usize = 0;
    while i < changed_fields.len()
        invariant
            i <= changed_fields@.len(),
            fs == views(changed_fields@),
            path@ == old_asset.path@,
            reason_models(reasons@) == base + fs.take(i as int).map_values(
                |f: Seq<char>| spec_field_reason(path@, f),
            ),
        decreases changed_fields.len() - i,
    {
        let field = changed_fields[i].as_str();
        let mut code = new_string(field);
        push_str(&mut code, "_changed");
        let reason = make_reason(code, field_change_message(field, path));
        push_reason(&mut reasons, reason);
        proof {
            assert(fs.take(i + 1).map_values(|f: Seq<char>| spec_field_reason(path@, f))
                =~= fs.take(i as int).map_values(|f: Seq<char>| spec_field_reason(path@, f)).push(
                spec_field_reason(path@, fs[i as int]),
            ));
        }
        i = i + 1;
    }
    proof {
        assert(fs.take(changed_fields@.len() as int) =~= fs);
    }
    push_reason(&mut reasons, lineage_reason(&lineage));
    SnapshotAssetChange {
        change_type: SnapshotChangeType::Changed,
        old_asset: Some(SnapshotAssetSummary::from_asset(old_asset)),
        new_asset: Some(SnapshotAssetSummary::from_asset(new_asset)),
        changed_fields,
        probable_impact,
        crash_risk,
        suspected_mapping_change: structural_change || hash_like_identity_change
            || identity_only_change,
        lineage,
        reasons,
    }
}

/// The entry for an asset whose path is missing in the new snapshot.
pub fn build_removed_asset_entry(old_asset: &SnapshotAsset) -> (r: SnapshotAssetChange)
    ensures
        is_removed_entry(r, *old_asset),
{
    let mut changed_fields: Vec<String> = Vec::new();
    changed_fields.push(new_string("path_presence"));
    let mut reasons: Vec<SnapshotCompareReason> = Vec::new();
    reasons.push(
        make_reason(
            new_string("asset_removed"),
            text3(
                "asset path ",
                old_asset.path.as_str(),
                " is missing in the new snapshot; mods targeting this path may fail until remapped",
            ),
        ),
    );
    proof {
        assert(views(changed_fields@) =~= seq!["path_presence"@]);
        assert(reason_models(reasons@) =~= seq![
            rm(
                "asset_removed"@,
                "asset path "@ + old_asset.path@
                    + " is missing in the new snapshot; mods targeting this path may fail until remapped"@,
            ),
        ]);
    }
    SnapshotAssetChange {
        change_type: SnapshotChangeType::Removed,
        old_asset: Some(SnapshotAssetSummary::from_asset(old_asset)),
        new_asset: None,
        changed_fields,
        probable_impact: RiskLevel::Medium,
        crash_risk: RiskLevel::Medium,
        suspected_mapping_change: true,
        lineage: AssetLineageKind::InsufficientEvidence,
        reasons,
    }
}

/// The entry for an asset whose path is new in the current snapshot.
pub fn build_added_asset_entry(new_asset: &SnapshotAsset) -> (r: SnapshotAssetChange)
    ensures
        is_added_entry(r, *new_asset),
{
    let mut changed_fields: Vec<String> = Vec::new();
    changed_fields.push(new_string("path_presence"));
    let mut reasons: Vec<SnapshotCompareReason> = Vec::new();
    reasons.push(
        make_reason(
            new_string("asset_added"),
            text3("asset path ", new_asset.path.as_str(), " is new in the current snapshot"),
        ),
    );
    proof {
        assert(views(changed_fields@) =~= seq!["path_presence"@]);
        assert(reason_models(reasons@) =~= seq![
            rm(
                "asset_added"@,
                "asset path "@ + new_asset.path@ + " is new in the current snapshot"@,
            ),
        ]);
    }
    SnapshotAssetChange {
        change_type: SnapshotChangeType::Added,
        old_asset: None,
        new_asset: Some(SnapshotAssetSummary::from_asset(new_asset)),
        changed_fields,
        probable_impact: RiskLevel::Low,
        crash_risk: RiskLevel::Low,
        suspected_mapping_change: false,
        lineage: AssetLineageKind::InsufficientEvidence,
        reasons,
    }
}

// ---------------------------------------------------------------------------
// Laws
// ---------------------------------------------------------------------------

/// A change of naming fields alone (provenance may move too) is a low-risk rename
/// that does not suggest the mod's mapping changed.
pub proof fn naming_only_change_is_a_low_risk_rename(fs: Seq<Seq<char>>)
    requires
        spec_naming_only(fs),
    ensures
        spec_changed_risk(fs) == RiskLevel::Low,
        !spec_suspected_mapping_change(fs),
        spec_changed_lineage(fs) == AssetLineageKind::RenameOrRepath,
{
}

/// A change of cosmetic fields alone is low risk, not a suspected mapping change,
/// and not evidence of any movement.
pub proof fn cosmetic_only_change_is_low_risk(fs: Seq<Seq<char>>)
    requires
        spec_cosmetic_only(fs),
    ensures
        spec_changed_risk(fs) == RiskLevel::Low,
        !spec_suspected_mapping_change(fs),
        spec_changed_lineage(fs) == AssetLineageKind::InsufficientEvidence,
{
}

/// A change of provenance fields alone is a low-risk container movement.
pub proof fn provenance_only_change_is_container_movement(fs: Seq<Seq<char>>)
    requires
        spec_provenance_only(fs),
    ensures
        spec_changed_risk(fs) == RiskLevel::Low,
        !spec_suspected_mapping_change(fs),
        spec_changed_lineage(fs) == AssetLineageKind::ContainerMovement,
{
}

/// A change of structural fields is high risk and a suspected mapping change.
pub proof fn structural_change_is_high_risk(fs: Seq<Seq<char>>)
    requires
        group(fs, FieldGroup::Shape).len() > 0,
    ensures
        spec_changed_risk(fs) == RiskLevel::High,
        spec_suspected_mapping_change(fs),
{
}


// ---------------------------------------------------------------------------
// Identity changes are replacements
// ---------------------------------------------------------------------------

proof fn lemma_in_group(fs: Seq<Seq<char>>, g: FieldGroup, i: int)
    requires
        0 <= i < fs.len(),
        spec_field_group(fs[i]) == g,
    ensures
        group(fs, g).contains(fs[i]),
        group(fs, g).len() > 0,
{
    fs.filter_lemma(in_group(g));
    assert((in_group(g))(fs[i]));
}

proof fn lemma_group_empty(fs: Seq<Seq<char>>, g: FieldGroup)
    requires
        forall|i: int| 0 <= i < fs.len() ==> spec_field_group(#[trigger] fs[i]) != g,
    ensures
        group(fs, g).len() == 0,
{
    fs.filter_lemma(in_group(g));
    if group(fs, g).len() > 0 {
        let x = group(fs, g)[0];
        assert((in_group(g))(x));
        assert(group(fs, g).contains(x));
        fs.lemma_filter_contains_rev(in_group(g), x);
        let i = choose|i: int| 0 <= i < fs.len() && fs[i] == x;
        assert(spec_field_group(fs[i]) != g);
    }
}

/// A changed asset whose asset hash, shader hash or signature changed is a
/// replacement, whatever else changed with it: never a rename, a container move
/// or layout drift.
pub proof fn hash_like_identity_changes_are_replacements(fs: Seq<Seq<char>>, i: int)
    requires
        0 <= i < fs.len(),
        fs[i] == "asset_hash"@ || fs[i] == "shader_hash"@ || fs[i] == "signature"@,
    ensures
        spec_changed_lineage(fs) == AssetLineageKind::Replacement,
{
    assert(spec_field_group(fs[i]) == FieldGroup::Identity);
    lemma_in_group(fs, FieldGroup::Identity, i);
    let ids = group(fs, FieldGroup::Identity);
    let k = choose|k: int| 0 <= k < ids.len() && ids[k] == fs[i];
    assert(crate::compare::fields::is_hash_like(ids[k]));
    assert(spec_hash_like_identity_change(fs));
    assert(!spec_provenance_only(fs));
}

pub open spec fn identity_label(f: Seq<char>) -> bool {
    f == "kind"@ || f == "asset_hash"@ || f == "shader_hash"@ || f == "signature"@
}

/// A changed asset whose only changes are identity fields (its kind, hashes or
/// signature) is a replacement.
pub proof fn identity_only_changes_are_replacements(fs: Seq<Seq<char>>)
    requires
        fs.len() > 0,
        forall|j: int| 0 <= j < fs.len() ==> identity_label(#[trigger] fs[j]),
    ensures
        spec_changed_lineage(fs) == AssetLineageKind::Replacement,
{
    assert(identity_label(fs[0]));
    assert(spec_field_group(fs[0]) == FieldGroup::Identity);
    lemma_in_group(fs, FieldGroup::Identity, 0);
    assert forall|j: int| 0 <= j < fs.len() implies spec_field_group(#[trigger] fs[j]) == FieldGroup::Identity by {
        assert(identity_label(fs[j]));
    }
    lemma_group_empty(fs, FieldGroup::Layout);
    lemma_group_empty(fs, FieldGroup::Shape);
    lemma_group_empty(fs, FieldGroup::Naming);
    lemma_group_empty(fs, FieldGroup::Cosmetic);
    assert(spec_identity_only(fs));
    assert(!spec_provenance_only(fs));
}

} // verus!
