//! Which fields of an asset changed between two snapshots, and what kind of
//! signal each changed field is.
use vstd::prelude::*;
use crate::snapshot::SnapshotAsset;
use crate::text::{new_string, opt_str_eq, opt_view, str_eq, strings_eq, views};

verus! {

// ---------------------------------------------------------------------------
// Field groups
// ---------------------------------------------------------------------------

pub open spec fn spec_is_identity_field(f: Seq<char>) -> bool {
    f == "kind"@ || f == "asset_hash"@ || f == "shader_hash"@ || f == "signature"@
}

pub open spec fn spec_is_structural_field(f: Seq<char>) -> bool {
    ||| f == "vertex_count"@
    ||| f == "index_count"@
    ||| f == "material_slots"@
    ||| f == "section_count"@
    ||| f == "internal_structure.section_labels"@
    ||| f == "internal_structure.subresource_roles"@
    ||| f == "internal_structure.has_skeleton"@
    ||| f == "internal_structure.has_shapekey_data"@
}

pub open spec fn spec_is_layout_field(f: Seq<char>) -> bool {
    ||| f == "vertex_stride"@
    ||| f == "vertex_buffer_count"@
    ||| f == "index_format"@
    ||| f == "primitive_topology"@
    ||| f == "layout_markers"@
    ||| f == "internal_structure.buffer_roles"@
    ||| f == "internal_structure.binding_targets"@
}

pub open spec fn spec_is_naming_field(f: Seq<char>) -> bool {
    f == "normalized_name"@ || f == "logical_name"@
}

pub open spec fn spec_is_cosmetic_field(f: Seq<char>) -> bool {
    f == "tags"@
}

pub open spec fn spec_is_provenance_field(f: Seq<char>) -> bool {
    f == "source_path"@ || f == "container_path"@ || f == "source_kind"@
}

/// The kind of signal a changed field carries.
#[derive(Debug, Clone, Copy, PartialEq, Eq)]
pub enum FieldGroup {
    Identity,
    Layout,
    Shape,
    Naming,
    Cosmetic,
    Provenance,
    Unclassified,
}

/// A field's group; the groups are tried in the order identity, layout,
/// structural, naming, cosmetic, provenance.
pub open spec fn spec_field_group(f: Seq<char>) -> FieldGroup {
    if spec_is_identity_field(f) {
        FieldGroup::Identity
    } else if spec_is_layout_field(f) {
        FieldGroup::Layout
    } else if spec_is_structural_field(f) {
        FieldGroup::Shape
    } else if spec_is_naming_field(f) {
        FieldGroup::Naming
    } else if spec_is_cosmetic_field(f) {
        FieldGroup::Cosmetic
    } else if spec_is_provenance_field(f) {
        FieldGroup::Provenance
    } else {
        FieldGroup::Unclassified
    }
}

pub open spec fn in_group(g: FieldGroup) -> spec_fn(Seq<char>) -> bool {
    |f: Seq<char>| spec_field_group(f) == g
}

/// The fields of `fs` in group `g`, in their order.
pub open spec fn group(fs: Seq<Seq<char>>, g: FieldGroup) -> Seq<Seq<char>> {
    fs.filter(in_group(g))
}

pub fn is_identity_field(field: &str) -> (r: bool)
    ensures
        r == spec_is_identity_field(field@),
{
    str_eq(field, "kind") || str_eq(field, "asset_hash") || str_eq(field, "shader_hash")
        || str_eq(field, "signature")
}

pub fn is_structural_field(field: &str) -> (r: bool)
    ensures
        r == spec_is_structural_field(field@),
{
    str_eq(field, "vertex_count") || str_eq(field, "index_count") || str_eq(
        field,
        "material_slots",
    ) || str_eq(field, "section_count") || str_eq(field, "internal_structure.section_labels")
        || str_eq(field, "internal_structure.subresource_roles") || str_eq(
        field,
        "internal_structure.has_skeleton",
    ) || str_eq(field, "internal_structure.has_shapekey_data")
}

pub fn is_layout_field(field: &str) -> (r: bool)
    ensures
        r == spec_is_layout_field(field@),
{
    str_eq(field, "vertex_stride") || str_eq(field, "vertex_buffer_count") || str_eq(
        field,
        "index_format",
    ) || str_eq(field, "primitive_topology") || str_eq(field, "layout_markers") || str_eq(
        field,
        "internal_structure.buffer_roles",
    ) || str_eq(field, "internal_structure.binding_targets")
}

pub fn is_naming_field(field: &str) -> (r: bool)
    ensures
        r == spec_is_naming_field(field@),
{
    str_eq(field, "normalized_name") || str_eq(field, "logical_name")
}

pub fn is_cosmetic_field(field: &str) -> (r: bool)
    ensures
        r == spec_is_cosmetic_field(field@),
{
    str_eq(field, "tags")
}

pub fn is_provenance_field(field: &str) -> (r: bool)
    ensures
        r == spec_is_provenance_field(field@),
{
    str_eq(field, "source_path") || str_eq(field, "container_path") || str_eq(
        field,
        "source_kind",
    )
}

// ---------------------------------------------------------------------------
// The breakdown of a changed-field list
// ---------------------------------------------------------------------------

/// Changed fields sorted into their groups; unclassified fields are dropped.
#[derive(Debug, Clone)]
pub struct FieldChangeBreakdown {
    pub identity_fields: Vec<String>,
    pub layout_fields: Vec<String>,
    pub structural_fields: Vec<String>,
    pub naming_fields: Vec<String>,
    pub cosmetic_fields: Vec<String>,
    pub provenance_fields: Vec<String>,
}

/// `b` holds exactly the fields of `fs`, each in its group, in order.
pub open spec fn breakdown_of(b: FieldChangeBreakdown, fs: Seq<Seq<char>>) -> bool {
    &&& views(b.identity_fields@) == group(fs, FieldGroup::Identity)
    &&& views(b.layout_fields@) == group(fs, FieldGroup::Layout)
    &&& views(b.structural_fields@) == group(fs, FieldGroup::Shape)
    &&& views(b.naming_fields@) == group(fs, FieldGroup::Naming)
    &&& views(b.cosmetic_fields@) == group(fs, FieldGroup::Cosmetic)
    &&& views(b.provenance_fields@) == group(fs, FieldGroup::Provenance)
}

pub open spec fn spec_naming_only(fs: Seq<Seq<char>>) -> bool {
    &&& group(fs, FieldGroup::Naming).len() > 0
    &&& group(fs, FieldGroup::Identity).len() == 0
    &&& group(fs, FieldGroup::Layout).len() == 0
    &&& group(fs, FieldGroup::Shape).len() == 0
    &&& group(fs, FieldGroup::Cosmetic).len() == 0
}

pub open spec fn spec_cosmetic_only(fs: Seq<Seq<char>>) -> bool {
    &&& group(fs, FieldGroup::Cosmetic).len() > 0
    &&& group(fs, FieldGroup::Identity).len() == 0
    &&& group(fs, FieldGroup::Layout).len() == 0
    &&& group(fs, FieldGroup::Shape).len() == 0
    &&& group(fs, FieldGroup::Naming).len() == 0
    &&& group(fs, FieldGroup::Provenance).len() == 0
}

pub open spec fn spec_provenance_only(fs: Seq<Seq<char>>) -> bool {
    &&& group(fs, FieldGroup::Provenance).len() > 0
    &&& group(fs, FieldGroup::Identity).len() == 0
    &&& group(fs, FieldGroup::Layout).len() == 0
    &&& group(fs, FieldGroup::Shape).len() == 0
    &&& group(fs, FieldGroup::Naming).len() == 0
    &&& group(fs, FieldGroup::Cosmetic).len() == 0
}

pub open spec fn spec_identity_only(fs: Seq<Seq<char>>) -> bool {
    &&& group(fs, FieldGroup::Identity).len() > 0
    &&& group(fs, FieldGroup::Layout).len() == 0
    &&& group(fs, FieldGroup::Shape).len() == 0
    &&& group(fs, FieldGroup::Naming).len() == 0
    &&& group(fs, FieldGroup::Cosmetic).len() == 0
}

pub open spec fn is_hash_like(f: Seq<char>) -> bool {
    f == "asset_hash"@ || f == "shader_hash"@ || f == "signature"@
}

pub open spec fn spec_hash_like_identity_change(fs: Seq<Seq<char>>) -> bool {
    exists|i: int|
        0 <= i < group(fs, FieldGroup::Identity).len() && is_hash_like(
            #[trigger] group(fs, FieldGroup::Identity)[i],
        )
}

pub open spec fn spec_container_movement(fs: Seq<Seq<char>>) -> bool {
    group(fs, FieldGroup::Provenance).contains("container_path"@)
}

impl FieldChangeBreakdown {
    pub fn is_naming_only(&self) -> (r: bool)
        ensures
            r == (self.naming_fields@.len() > 0 && self.identity_fields@.len() == 0
                && self.layout_fields@.len() == 0 && self.structural_fields@.len() == 0
                && self.cosmetic_fields@.len() == 0),
    {
        !self.naming_fields.is_empty() && self.identity_fields.is_empty()
            && self.layout_fields.is_empty() && self.structural_fields.is_empty()
            && self.cosmetic_fields.is_empty()
    }

    pub fn is_cosmetic_only(&self) -> (r: bool)
        ensures
            r == (self.cosmetic_fields@.len() > 0 && self.identity_fields@.len() == 0
                && self.layout_fields@.len() == 0 && self.structural_fields@.len() == 0
                && self.naming_fields@.len() == 0 && self.provenance_fields@.len() == 0),
    {
        !self.cosmetic_fields.is_empty() && self.identity_fields.is_empty()
            && self.layout_fields.is_empty() && self.structural_fields.is_empty()
            && self.naming_fields.is_empty() && self.provenance_fields.is_empty()
    }

    pub fn is_provenance_only(&self) -> (r: bool)
        ensures
            r == (self.provenance_fields@.len() > 0 && self.identity_fields@.len() == 0
                && self.layout_fields@.len() == 0 && self.structural_fields@.len() == 0
                && self.naming_fields@.len() == 0 && self.cosmetic_fields@.len() == 0),
    {
        !self.provenance_fields.is_empty() && self.identity_fields.is_empty()
            && self.layout_fields.is_empty() && self.structural_fields.is_empty()
            && self.naming_fields.is_empty() && self.cosmetic_fields.is_empty()
    }

    /// Some provenance field is the container path.
    pub fn has_container_movement(&self) -> (r: bool)
        ensures
            r == views(self.provenance_fields@).contains("container_path"@),
    {
        let mut i: usize = 0;
        while i < self.provenance_fields.len()
            invariant
                i <= self.provenance_fields@.len(),
                forall|j: int| 0 <= j < i ==> #[trigger] self.provenance_fields@[j]@ != "container_path"@,
            decreases self.provenance_fields.len() - i,
        {
            if str_eq(self.provenance_fields[i].as_str(), "container_path") {
                proof {
                    assert(views(self.provenance_fields@)[i as int] == "container_path"@);
                }
                return true;
            }
            i = i + 1;
        }
        proof {
            assert forall|j: int| 0 <= j < views(self.provenance_fields@).len() implies
                #[trigger] views(self.provenance_fields@)[j] != "container_path"@ by {
                assert(self.provenance_fields@[j]@ != "container_path"@);
            }
        }
        false
    }

    /// Some identity field is a hash or the signature.
    pub fn has_hash_like_identity_change(&self) -> (r: bool)
        ensures
            r == exists|i: int|
                0 <= i < self.identity_fields@.len() && is_hash_like(
                    #[trigger] self.identity_fields@[i]@,
                ),
    {
        let mut i: usize = 0;
        while i < self.identity_fields.len()
            invariant
                i <= self.identity_fields@.len(),
                forall|j: int| 0 <= j < i ==> !is_hash_like(#[trigger] self.identity_fields@[j]@),
            decreases self.identity_fields.len() - i,
        {
            let f = self.identity_fields[i].as_str();
            if str_eq(f, "asset_hash") || str_eq(f, "shader_hash") || str_eq(f, "signature") {
                return true;
            }
            i = i + 1;
        }
        false
    }

    pub fn has_layout_change(&self) -> (r: bool)
        ensures
            r == (self.layout_fields@.len() > 0),
    {
        !self.layout_fields.is_empty()
    }
}

proof fn lemma_group_step(fs: Seq<Seq<char>>, i: int, g: FieldGroup)
    requires
        0 <= i < fs.len(),
    ensures
        group(fs.take(i + 1), g) == if spec_field_group(fs[i]) == g {
            group(fs.take(i), g).push(fs[i])
        } else {
            group(fs.take(i), g)
        },
{
    reveal(Seq::filter);
    assert(fs.take(i + 1).drop_last() =~= fs.take(i));
    assert(fs.take(i + 1).last() == fs[i]);
}

proof fn lemma_push_view(v: Seq<String>, s: String)
    ensures
        views(v.push(s)) == views(v).push(s@),
{
    assert(views(v.push(s)) =~= views(v).push(s@));
}

/// Sorts the changed fields into their groups, keeping their order.
pub fn classify_changed_fields(fields: &Vec<String>) -> (r: FieldChangeBreakdown)
    ensures
        breakdown_of(r, views(fields@)),
{
    let mut b = FieldChangeBreakdown {
        identity_fields: Vec::new(),
        layout_fields: Vec::new(),
        structural_fields: Vec::new(),
        naming_fields: Vec::new(),
        cosmetic_fields: Vec::new(),
        provenance_fields: Vec::new(),
    };
    let ghost fs = views(fields@);
    proof {
        reveal(Seq::filter);
        assert forall|g: FieldGroup| #[trigger] group(fs.take(0), g) == Seq::<Seq<char>>::empty() by {
            assert(fs.take(0) =~= Seq::<Seq<char>>::empty());
        }
        assert(views(b.identity_fields@) =~= Seq::<Seq<char>>::empty());
        assert(views(b.layout_fields@) =~= Seq::<Seq<char>>::empty());
        assert(views(b.structural_fields@) =~= Seq::<Seq<char>>::empty());
        assert(views(b.naming_fields@) =~= Seq::<Seq<char>>::empty());
        assert(views(b.cosmetic_fields@) =~= Seq::<Seq<char>>::empty());
        assert(views(b.provenance_fields@) =~= Seq::<Seq<char>>::empty());
    }
    let mut i: usize = 0;
    while i < fields.len()
        invariant
            i <= fields@.len(),
            fs == views(fields@),
            breakdown_of(b, fs.take(i as int)),
        decreases fields.len() - i,
    {
        let f = fields[i].as_str();
        let ghost fv = fs[i as int];
        proof {
            assert(fv == fields@[i as int]@);
            lemma_group_step(fs, i as int, FieldGroup::Identity);
            lemma_group_step(fs, i as int, FieldGroup::Layout);
            lemma_group_step(fs, i as int, FieldGroup::Shape);
            lemma_group_step(fs, i as int, FieldGroup::Naming);
            lemma_group_step(fs, i as int, FieldGroup::Cosmetic);
            lemma_group_step(fs, i as int, FieldGroup::Provenance);
        }
        if is_identity_field(f) {
            proof { lemma_push_view(b.identity_fields@, fields@[i as int]); }
            b.identity_fields.push(fields[i].clone());
        } else if is_layout_field(f) {
            proof { lemma_push_view(b.layout_fields@, fields@[i as int]); }
            b.layout_fields.push(fields[i].clone());
        } else if is_structural_field(f) {
            proof { lemma_push_view(b.structural_fields@, fields@[i as int]); }
            b.structural_fields.push(fields[i].clone());
        } else if is_naming_field(f) {
            proof { lemma_push_view(b.naming_fields@, fields@[i as int]); }
            b.naming_fields.push(fields[i].clone());
        } else if is_cosmetic_field(f) {
            proof { lemma_push_view(b.cosmetic_fields@, fields@[i as int]); }
            b.cosmetic_fields.push(fields[i].clone());
        } else if is_provenance_field(f) {
            proof { lemma_push_view(b.provenance_fields@, fields@[i as int]); }
            b.provenance_fields.push(fields[i].clone());
        }
        i = i + 1;
    }
    proof {
        assert(fs.take(fields@.len() as int) =~= fs);
    }
    b
}

// ---------------------------------------------------------------------------
// Which fields changed
// ---------------------------------------------------------------------------

/// `s` with `label` pushed when `changed`.
pub open spec fn push_if(s: Seq<Seq<char>>, changed: bool, label: Seq<char>) -> Seq<Seq<char>> {
    if changed {
        s.push(label)
    } else {
        s
    }
}

pub open spec fn opt_text_differs(a: Option<String>, b: Option<String>) -> bool {
    opt_view(a) != opt_view(b)
}

pub open spec fn texts_differ(a: Vec<String>, b: Vec<String>) -> bool {
    views(a@) != views(b@)
}

/// `s` followed by the labels of the naming, count and vertex-layout fields that differ.
pub open spec fn spec_changed_fields_head(
    s: Seq<Seq<char>>,
    o: SnapshotAsset,
    n: SnapshotAsset,
) -> Seq<Seq<char>> {
    let of = o.fingerprint;
    let nf = n.fingerprint;
    let s1 = push_if(s, opt_text_differs(o.kind, n.kind), "kind"@);
    let s2 = push_if(
        s1,
        opt_text_differs(of.normalized_name, nf.normalized_name),
        "normalized_name"@,
    );
    let s3 = push_if(
        s2,
        opt_text_differs(o.metadata.logical_name, n.metadata.logical_name),
        "logical_name"@,
    );
    let s4 = push_if(s3, o.metadata.vertex_count != n.metadata.vertex_count, "vertex_count"@);
    let s5 = push_if(s4, o.metadata.index_count != n.metadata.index_count, "index_count"@);
    let s6 = push_if(
        s5,
        o.metadata.material_slots != n.metadata.material_slots,
        "material_slots"@,
    );
    let s7 = push_if(s6, o.metadata.section_count != n.metadata.section_count, "section_count"@);
    let s8 = push_if(s7, of.vertex_stride != nf.vertex_stride, "vertex_stride"@);
    push_if(s8, of.vertex_buffer_count != nf.vertex_buffer_count, "vertex_buffer_count"@)
}

/// `s` followed by the labels of the buffer-layout and internal-structure fields that differ.
pub open spec fn spec_changed_fields_layout(
    s: Seq<Seq<char>>,
    o: SnapshotAsset,
    n: SnapshotAsset,
) -> Seq<Seq<char>> {
    let of = o.fingerprint;
    let nf = n.fingerprint;
    let os = of.internal_structure;
    let ns = nf.internal_structure;
    let s1 = push_if(s, opt_text_differs(of.index_format, nf.index_format), "index_format"@);
    let s2 = push_if(
        s1,
        opt_text_differs(of.primitive_topology, nf.primitive_topology),
        "primitive_topology"@,
    );
    let s3 = push_if(s2, texts_differ(of.layout_markers, nf.layout_markers), "layout_markers"@);
    let s4 = push_if(
        s3,
        texts_differ(os.section_labels, ns.section_labels),
        "internal_structure.section_labels"@,
    );
    let s5 = push_if(
        s4,
        texts_differ(os.buffer_roles, ns.buffer_roles),
        "internal_structure.buffer_roles"@,
    );
    let s6 = push_if(
        s5,
        texts_differ(os.binding_targets, ns.binding_targets),
        "internal_structure.binding_targets"@,
    );
    let s7 = push_if(
        s6,
        texts_differ(os.subresource_roles, ns.subresource_roles),
        "internal_structure.subresource_roles"@,
    );
    let s8 = push_if(s7, os.has_skeleton != ns.has_skeleton, "internal_structure.has_skeleton"@);
    push_if(
        s8,
        os.has_shapekey_data != ns.has_shapekey_data,
        "internal_structure.has_shapekey_data"@,
    )
}

/// `s` followed by the labels of the tag, hash and provenance fields that differ.
pub open spec fn spec_changed_fields_tail(
    s: Seq<Seq<char>>,
    o: SnapshotAsset,
    n: SnapshotAsset,
) -> Seq<Seq<char>> {
    let s1 = push_if(s, texts_differ(o.fingerprint.tags, n.fingerprint.tags), "tags"@);
    let s2 = push_if(
        s1,
        opt_text_differs(o.hash_fields.asset_hash, n.hash_fields.asset_hash),
        "asset_hash"@,
    );
    let s3 = push_if(
        s2,
        opt_text_differs(o.hash_fields.shader_hash, n.hash_fields.shader_hash),
        "shader_hash"@,
    );
    let s4 = push_if(
        s3,
        opt_text_differs(o.hash_fields.signature, n.hash_fields.signature),
        "signature"@,
    );
    let s5 = push_if(
        s4,
        opt_text_differs(o.source.source_path, n.source.source_path),
        "source_path"@,
    );
    let s6 = push_if(
        s5,
        opt_text_differs(o.source.container_path, n.source.container_path),
        "container_path"@,
    );
    push_if(s6, opt_text_differs(o.source.source_kind, n.source.source_kind), "source_kind"@)
}

/// The labels of the fields that differ between two snapshot assets, in a fixed order.
pub open spec fn spec_changed_fields(o: SnapshotAsset, n: SnapshotAsset) -> Seq<Seq<char>> {
    spec_changed_fields_tail(
        spec_changed_fields_layout(spec_changed_fields_head(Seq::empty(), o, n), o, n),
        o,
        n,
    )
}

fn push_changed_field(fields: &mut Vec<String>, label: &str, changed: bool)
    ensures
        views(final(fields)@) == push_if(views(old(fields)@), changed, label@),
{
    if changed {
        let s = new_string(label);
        proof {
            lemma_push_view(fields@, s);
        }
        fields.push(s);
    }
}

fn opt_u32_differs(a: Option<u32>, b: Option<u32>) -> (r: bool)
    ensures
        r == (a != b),
{
    match (a, b) {
        (Some(x), Some(y)) => x != y,
        (None, None) => false,
        _ => true,
    }
}

fn opt_bool_differs(a: Option<bool>, b: Option<bool>) -> (r: bool)
    ensures
        r == (a != b),
{
    match (a, b) {
        (Some(x), Some(y)) => x != y,
        (None, None) => false,
        _ => true,
    }
}

fn push_changed_head(fields: &mut Vec<String>, old_asset: &SnapshotAsset, new_asset: &SnapshotAsset)
    ensures
        views(final(fields)@) == spec_changed_fields_head(views(old(fields)@), *old_asset, *new_asset),
{
    let of = &old_asset.fingerprint;
    let nf = &new_asset.fingerprint;
    let kind_changed = !opt_str_eq(&old_asset.kind, &new_asset.kind);
    push_changed_field(fields, "kind", kind_changed);
    push_changed_field(
        fields,
        "normalized_name",
        !opt_str_eq(&of.normalized_name, &nf.normalized_name),
    );
    push_changed_field(
        fields,
        "logical_name",
        !opt_str_eq(&old_asset.metadata.logical_name, &new_asset.metadata.logical_name),
    );
    push_changed_field(
        fields,
        "vertex_count",
        opt_u32_differs(old_asset.metadata.vertex_count, new_asset.metadata.vertex_count),
    );
    push_changed_field(
        fields,
        "index_count",
        opt_u32_differs(old_asset.metadata.index_count, new_asset.metadata.index_count),
    );
    push_changed_field(
        fields,
        "material_slots",
        opt_u32_differs(old_asset.metadata.material_slots, new_asset.metadata.material_slots),
    );
    push_changed_field(
        fields,
        "section_count",
        opt_u32_differs(old_asset.metadata.section_count, new_asset.metadata.section_count),
    );
    push_changed_field(fields, "vertex_stride", opt_u32_differs(of.vertex_stride, nf.vertex_stride));
    push_changed_field(
        fields,
        "vertex_buffer_count",
        opt_u32_differs(of.vertex_buffer_count, nf.vertex_buffer_count),
    );
}

fn push_changed_layout(fields: &mut Vec<String>, old_asset: &SnapshotAsset, new_asset: &SnapshotAsset)
    ensures
        views(final(fields)@) == spec_changed_fields_layout(views(old(fields)@), *old_asset, *new_asset),
{
    let of = &old_asset.fingerprint;
    let nf = &new_asset.fingerprint;
    let os = &of.internal_structure;
    let ns = &nf.internal_structure;
    push_changed_field(fields, "index_format", !opt_str_eq(&of.index_format, &nf.index_format));
    push_changed_field(
        fields,
        "primitive_topology",
        !opt_str_eq(&of.primitive_topology, &nf.primitive_topology),
    );
    push_changed_field(
        fields,
        "layout_markers",
        !strings_eq(&of.layout_markers, &nf.layout_markers),
    );
    push_changed_field(
        fields,
        "internal_structure.section_labels",
        !strings_eq(&os.section_labels, &ns.section_labels),
    );
    push_changed_field(
        fields,
        "internal_structure.buffer_roles",
        !strings_eq(&os.buffer_roles, &ns.buffer_roles),
    );
    push_changed_field(
        fields,
        "internal_structure.binding_targets",
        !strings_eq(&os.binding_targets, &ns.binding_targets),
    );
    push_changed_field(
        fields,
        "internal_structure.subresource_roles",
        !strings_eq(&os.subresource_roles, &ns.subresource_roles),
    );
    push_changed_field(
        fields,
        "internal_structure.has_skeleton",
        opt_bool_differs(os.has_skeleton, ns.has_skeleton),
    );
    push_changed_field(
        fields,
        "internal_structure.has_shapekey_data",
        opt_bool_differs(os.has_shapekey_data, ns.has_shapekey_data),
    );
}

fn push_changed_tail(fields: &mut Vec<String>, old_asset: &SnapshotAsset, new_asset: &SnapshotAsset)
    ensures
        views(final(fields)@) == spec_changed_fields_tail(views(old(fields)@), *old_asset, *new_asset),
{
    push_changed_field(
        fields,
        "tags",
        !strings_eq(&old_asset.fingerprint.tags, &new_asset.fingerprint.tags),
    );
    push_changed_field(
        fields,
        "asset_hash",
        !opt_str_eq(&old_asset.hash_fields.asset_hash, &new_asset.hash_fields.asset_hash),
    );
    push_changed_field(
        fields,
        "shader_hash",
        !opt_str_eq(&old_asset.hash_fields.shader_hash, &new_asset.hash_fields.shader_hash),
    );
    push_changed_field(
        fields,
        "signature",
        !opt_str_eq(&old_asset.hash_fields.signature, &new_asset.hash_fields.signature),
    );
    push_changed_field(
        fields,
        "source_path",
        !opt_str_eq(&old_asset.source.source_path, &new_asset.source.source_path),
    );
    push_changed_field(
        fields,
        "container_path",
        !opt_str_eq(&old_asset.source.container_path, &new_asset.source.container_path),
    );
    push_changed_field(
        fields,
        "source_kind",
        !opt_str_eq(&old_asset.source.source_kind, &new_asset.source.source_kind),
    );
}

/// The labels of the fields that differ between the old and the new asset.
pub fn changed_fields(old_asset: &SnapshotAsset, new_asset: &SnapshotAsset) -> (r: Vec<String>)
    ensures
        views(r@) == spec_changed_fields(*old_asset, *new_asset),
{
    let mut fields: Vec<String> = Vec::new();
    proof {
        assert(views(fields@) =~= Seq::<Seq<char>>::empty());
    }
    push_changed_head(&mut fields, old_asset, new_asset);
    push_changed_layout(&mut fields, old_asset, new_asset);
    push_changed_tail(&mut fields, old_asset, new_asset);
    fields
}

// ---------------------------------------------------------------------------
// Laws
// ---------------------------------------------------------------------------

/// Every changed field lands in exactly one group: the group lengths, the
/// unclassified ones included, add up to the number of fields.
pub proof fn field_groups_partition(fs: Seq<Seq<char>>)
    ensures
        group(fs, FieldGroup::Identity).len() + group(fs, FieldGroup::Layout).len() + group(
            fs,
            FieldGroup::Shape,
        ).len() + group(fs, FieldGroup::Naming).len() + group(fs, FieldGroup::Cosmetic).len()
            + group(fs, FieldGroup::Provenance).len() + group(fs, FieldGroup::Unclassified).len()
            == fs.len(),
    decreases fs.len(),
{
    reveal(Seq::filter);
    if fs.len() > 0 {
        field_groups_partition(fs.drop_last());
    }
}

} // verus!
