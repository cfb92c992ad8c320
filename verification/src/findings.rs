//! What fix inference reads off a compare report and the WWMI fix history: the
//! probable crash causes and the fixes they suggest. Confidences are thousandths;
//! a blend of a base value and weighted pattern supports is rounded down and capped
//! at 1000, and a low-signal compare scales it by 850/1000.
use vstd::prelude::*;
use crate::compare::change::SnapshotAssetChange;
use crate::compare::outcome::{CandidateMappingChange, SnapshotCompareReport};
use crate::compare::{RemapCompatibility, RiskLevel, SnapshotChangeType, SnapshotCompareReason};
use crate::inference::{is_structural_change, is_structural_field_label, ProbableCrashCause, SuggestedFix};
use crate::order::picked;
use crate::text::{
    decimal, decimal_string, fixed3, fixed3_string, join, join_seq, new_string, push_str, push_text,
    str_eq, views,
};

verus! {

// ---------------------------------------------------------------------------
// The WWMI fix history
// ---------------------------------------------------------------------------

/// A kind of fix that recurs in the WWMI history.
#[derive(Debug, Clone, Copy, PartialEq, Eq, Structural)]
pub enum WwmiPatternKind {
    MappingOrHashUpdate,
    BufferLayoutOrCapacityFix,
    RuntimeConfigChange,
    ShaderLogicChange,
    StartupTimingAdjustment,
}

/// How often a fix kind was seen, how likely it fixed a crash (thousandths), and
/// example commits.
#[derive(Debug, Clone, PartialEq, Eq)]
pub struct WwmiFixPattern {
    pub kind: WwmiPatternKind,
    pub frequency: usize,
    pub average_fix_likelihood_milli: u32,
    pub example_commits: Vec<String>,
}

/// The fix patterns mined from a WWMI repository.
#[derive(Debug, Clone, PartialEq, Eq)]
pub struct WwmiKnowledgeBase {
    pub repo: String,
    pub analyzed_commits: usize,
    pub fix_like_commits: usize,
    pub discovered_patterns: usize,
    pub patterns: Vec<WwmiFixPattern>,
}

pub open spec fn kind_name(k: WwmiPatternKind) -> Seq<char> {
    match k {
        WwmiPatternKind::MappingOrHashUpdate => "MappingOrHashUpdate"@,
        WwmiPatternKind::BufferLayoutOrCapacityFix => "BufferLayoutOrCapacityFix"@,
        WwmiPatternKind::RuntimeConfigChange => "RuntimeConfigChange"@,
        WwmiPatternKind::ShaderLogicChange => "ShaderLogicChange"@,
        WwmiPatternKind::StartupTimingAdjustment => "StartupTimingAdjustment"@,
    }
}

fn kind_str(k: WwmiPatternKind) -> (r: &'static str)
    ensures
        r@ == kind_name(k),
{
    match k {
        WwmiPatternKind::MappingOrHashUpdate => "MappingOrHashUpdate",
        WwmiPatternKind::BufferLayoutOrCapacityFix => "BufferLayoutOrCapacityFix",
        WwmiPatternKind::RuntimeConfigChange => "RuntimeConfigChange",
        WwmiPatternKind::ShaderLogicChange => "ShaderLogicChange",
        WwmiPatternKind::StartupTimingAdjustment => "StartupTimingAdjustment",
    }
}

/// The first pattern of a kind.
pub open spec fn find_pattern(ps: Seq<WwmiFixPattern>, k: WwmiPatternKind) -> Option<WwmiFixPattern>
    decreases ps.len(),
{
    if ps.len() == 0 {
        None
    } else if ps[0].kind == k {
        Some(ps[0])
    } else {
        find_pattern(ps.drop_first(), k)
    }
}

/// How strongly the history supports a fix kind, in thousandths (at most 1000).
pub open spec fn pattern_support(kb: WwmiKnowledgeBase, k: WwmiPatternKind) -> nat {
    match find_pattern(kb.patterns@, k) {
        Some(p) => if p.average_fix_likelihood_milli > 1000 {
            1000
        } else {
            p.average_fix_likelihood_milli as nat
        },
        None => 0,
    }
}

pub open spec fn pattern_line(p: WwmiFixPattern) -> Seq<char> {
    "WWMI pattern "@ + kind_name(p.kind) + " seen "@ + decimal(p.frequency as nat)
        + " times with average fix likelihood "@ + fixed3(p.average_fix_likelihood_milli as nat)
        + "; example commits: "@ + join_seq(views(p.example_commits@), ", "@)
}

/// One evidence line for each kind that the history holds.
pub open spec fn pattern_evidence(kb: WwmiKnowledgeBase, kinds: Seq<WwmiPatternKind>) -> Seq<
    Seq<char>,
>
    decreases kinds.len(),
{
    if kinds.len() == 0 {
        Seq::empty()
    } else {
        pattern_evidence(kb, kinds.drop_last()) + match find_pattern(kb.patterns@, kinds.last()) {
            Some(p) => seq![pattern_line(p)],
            None => Seq::empty(),
        }
    }
}

fn find_pattern_exec(kb: &WwmiKnowledgeBase, k: WwmiPatternKind) -> (r: Option<usize>)
    ensures
        match r {
            Some(i) => i < kb.patterns@.len() && find_pattern(kb.patterns@, k) == Some(
                kb.patterns@[i as int],
            ),
            None => find_pattern(kb.patterns@, k) is None,
        },
{
    let ghost all = kb.patterns@;
    let mut i: usize = 0;
    proof {
        assert(all.subrange(0, all.len() as int) =~= all);
    }
    while i < kb.patterns.len()
        invariant
            i <= all.len(),
            all == kb.patterns@,
            find_pattern(all, k) == find_pattern(all.subrange(i as int, all.len() as int), k),
        decreases kb.patterns.len() - i,
    {
        let ghost rest = all.subrange(i as int, all.len() as int);
        proof {
            assert(rest[0] == all[i as int]);
            assert(rest.drop_first() =~= all.subrange(i + 1, all.len() as int));
        }
        if kb.patterns[i].kind == k {
            return Some(i);
        }
        i = i + 1;
    }
    proof {
        assert(all.subrange(all.len() as int, all.len() as int) =~= Seq::<WwmiFixPattern>::empty());
    }
    None
}

/// How strongly the history supports a fix kind, in thousandths.
pub fn support_of(kb: &WwmiKnowledgeBase, k: WwmiPatternKind) -> (r: u32)
    ensures
        r == pattern_support(*kb, k),
{
    match find_pattern_exec(kb, k) {
        Some(i) => {
            let v = kb.patterns[i].average_fix_likelihood_milli;
            if v > 1000 {
                1000
            } else {
                v
            }
        },
        None => 0,
    }
}

/// The history's evidence lines for the kinds, in their order.
pub fn evidence_of(kb: &WwmiKnowledgeBase, kinds: &Vec<WwmiPatternKind>) -> (r: Vec<String>)
    ensures
        views(r@) == pattern_evidence(*kb, kinds@),
{
    let mut out: Vec<String> = Vec::new();
    let mut i: usize = 0;
    proof {
        assert(kinds@.take(0) =~= Seq::<WwmiPatternKind>::empty());
    }
    while i < kinds.len()
        invariant
            i <= kinds@.len(),
            views(out@) == pattern_evidence(*kb, kinds@.take(i as int)),
        decreases kinds.len() - i,
    {
        proof {
            assert(kinds@.take(i + 1).drop_last() =~= kinds@.take(i as int));
        }
        match find_pattern_exec(kb, kinds[i]) {
            Some(j) => {
                let p = &kb.patterns[j];
                let mut l = new_string("WWMI pattern ");
                push_str(&mut l, kind_str(p.kind));
                push_str(&mut l, " seen ");
                let f = decimal_string(p.frequency);
                push_str(&mut l, f.as_str());
                push_str(&mut l, " times with average fix likelihood ");
                let a = fixed3_string(p.average_fix_likelihood_milli);
                push_str(&mut l, a.as_str());
                push_str(&mut l, "; example commits: ");
                let c = join(&p.example_commits, ", ");
                push_str(&mut l, c.as_str());
                push_text(&mut out, l);
            },
            None => {},
        }
        i = i + 1;
    }
    proof {
        assert(kinds@.take(kinds@.len() as int) =~= kinds@);
    }
    out
}

// ---------------------------------------------------------------------------
// Confidence
// ---------------------------------------------------------------------------

/// `base` plus weighted supports (each weight and support in thousandths), rounded
/// down and capped at 1000.
pub open spec fn blend(base: nat, weighted: nat) -> nat {
    let v = (base * 1000 + weighted) / 1000;
    if v > 1000 {
        1000
    } else {
        v
    }
}

/// A low-signal compare keeps 850/1000 of a confidence.
pub open spec fn scaled(x: nat, low_signal: bool) -> nat {
    if low_signal {
        x * 850 / 1000
    } else {
        x
    }
}

pub(crate) fn blend_exec(base: u64, weighted: u64, low_signal: bool) -> (r: u32)
    requires
        base <= 1000,
        weighted <= 10_000_000,
    ensures
        r == scaled(blend(base as nat, weighted as nat), low_signal),
{
    let v = (base * 1000 + weighted) / 1000;
    let c = if v > 1000 {
        1000
    } else {
        v
    };
    let s = if low_signal {
        c * 850 / 1000
    } else {
        c
    };
    s as u32
}

// ---------------------------------------------------------------------------
// Selections
// ---------------------------------------------------------------------------

/// The items of `s` that `p` keeps, in order.
pub open spec fn keep<T>(s: Seq<T>, p: spec_fn(T) -> bool) -> Seq<T>
    decreases s.len(),
{
    if s.len() == 0 {
        Seq::empty()
    } else if p(s.last()) {
        keep(s.drop_last(), p).push(s.last())
    } else {
        keep(s.drop_last(), p)
    }
}

/// The lines that `f` gives for each item, one item after another.
pub open spec fn flat<T>(s: Seq<T>, f: spec_fn(T) -> Seq<Seq<char>>) -> Seq<Seq<char>>
    decreases s.len(),
{
    if s.len() == 0 {
        Seq::empty()
    } else {
        flat(s.drop_last(), f) + f(s.last())
    }
}

pub open spec fn is_structural(c: SnapshotAssetChange) -> bool {
    exists|i: int|
        0 <= i < c.changed_fields@.len() && is_structural_field_label(#[trigger] c.changed_fields@[i]@)
}

pub open spec fn is_removed(c: SnapshotAssetChange) -> bool {
    c.change_type == SnapshotChangeType::Removed
}

pub open spec fn is_identity_field_label(f: Seq<char>) -> bool {
    ||| f == "normalized_name"@
    ||| f == "logical_name"@
    ||| f == "asset_hash"@
    ||| f == "shader_hash"@
    ||| f == "signature"@
    ||| f == "kind"@
}

pub open spec fn is_name_or_hash(c: SnapshotAssetChange) -> bool {
    exists|i: int|
        0 <= i < c.changed_fields@.len() && is_identity_field_label(#[trigger] c.changed_fields@[i]@)
}

/// Candidate classes: plausible repairs (likely compatible, with caution, or
/// structurally risky), structurally risky, blocked, or short of evidence.
pub open spec fn compat_in(c: RemapCompatibility, class: u8) -> bool {
    match class {
        0 => c == RemapCompatibility::LikelyCompatible || c == RemapCompatibility::CompatibleWithCaution
            || c == RemapCompatibility::StructurallyRisky,
        1 => c == RemapCompatibility::StructurallyRisky,
        2 => c == RemapCompatibility::IncompatibleBlocked,
        _ => c == RemapCompatibility::InsufficientEvidence,
    }
}

fn compat_in_exec(c: &RemapCompatibility, class: u8) -> (r: bool)
    ensures
        r == compat_in(*c, class),
{
    match c {
        RemapCompatibility::LikelyCompatible => class == 0,
        RemapCompatibility::CompatibleWithCaution => class == 0,
        RemapCompatibility::StructurallyRisky => class == 0 || class == 1,
        RemapCompatibility::IncompatibleBlocked => class == 2,
        RemapCompatibility::InsufficientEvidence => class != 0 && class != 1 && class != 2,
    }
}

fn identity_field_text(f: &str) -> (r: bool)
    ensures
        r == is_identity_field_label(f@),
{
    str_eq(f, "normalized_name") || str_eq(f, "logical_name") || str_eq(f, "asset_hash") || str_eq(
        f,
        "shader_hash",
    ) || str_eq(f, "signature") || str_eq(f, "kind")
}

fn name_or_hash_exec(c: &SnapshotAssetChange) -> (r: bool)
    ensures
        r == is_name_or_hash(*c),
{
    let mut i: usize = 0;
    while i < c.changed_fields.len()
        invariant
            i <= c.changed_fields@.len(),
            forall|k: int| 0 <= k < i ==> !is_identity_field_label(#[trigger] c.changed_fields@[k]@),
        decreases c.changed_fields.len() - i,
    {
        if identity_field_text(c.changed_fields[i].as_str()) {
            return true;
        }
        i = i + 1;
    }
    false
}

fn removed_exec(c: &SnapshotAssetChange) -> (r: bool)
    ensures
        r == is_removed(*c),
{
    match c.change_type {
        SnapshotChangeType::Removed => true,
        _ => false,
    }
}

/// Changes of a kind: 0 structural, 1 removed, otherwise name or hash.
pub open spec fn change_pred(which: u8) -> spec_fn(SnapshotAssetChange) -> bool {
    if which == 0 {
        |c: SnapshotAssetChange| is_structural(c)
    } else if which == 1 {
        |c: SnapshotAssetChange| is_removed(c)
    } else {
        |c: SnapshotAssetChange| is_name_or_hash(c)
    }
}

/// Candidates of a compatibility class.
pub open spec fn candidate_pred(class: u8) -> spec_fn(CandidateMappingChange) -> bool {
    |c: CandidateMappingChange| compat_in(c.compatibility, class)
}

/// Positions of the changes of a kind: 0 structural, 1 removed, 2 name or hash.
fn change_positions(cs: &Vec<SnapshotAssetChange>, which: u8) -> (r: Vec<usize>)
    ensures
        forall|k: int| 0 <= k < r@.len() ==> #[trigger] r@[k] < cs@.len(),
        picked(cs@, r@) == keep(cs@, change_pred(which)),
{
    let ghost p = change_pred(which);
    let mut out: Vec<usize> = Vec::new();
    let mut i: usize = 0;
    proof {
        assert(cs@.take(0) =~= Seq::<SnapshotAssetChange>::empty());
        assert(picked(cs@, out@) =~= Seq::<SnapshotAssetChange>::empty());
    }
    while i < cs.len()
        invariant
            i <= cs@.len(),
            forall|k: int| 0 <= k < out@.len() ==> #[trigger] out@[k] < cs@.len(),
            picked(cs@, out@) == keep(cs@.take(i as int), p),
            which == 0 ==> p == (|c: SnapshotAssetChange| is_structural(c)),
            which == 1 ==> p == (|c: SnapshotAssetChange| is_removed(c)),
            which != 0 && which != 1 ==> p == (|c: SnapshotAssetChange| is_name_or_hash(c)),
        decreases cs.len() - i,
    {
        proof {
            assert(cs@.take(i + 1).drop_last() =~= cs@.take(i as int));
            assert(cs@.take(i + 1).last() == cs@[i as int]);
        }
        let yes = if which == 0 {
            is_structural_change(&cs[i])
        } else if which == 1 {
            removed_exec(&cs[i])
        } else {
            name_or_hash_exec(&cs[i])
        };
        if yes {
            let ghost prev = picked(cs@, out@);
            out.push(i);
            proof {
                assert(picked(cs@, out@) =~= prev.push(cs@[i as int]));
            }
        }
        i = i + 1;
    }
    proof {
        assert(cs@.take(cs@.len() as int) =~= cs@);
    }
    out
}

/// Positions of the candidates of a compatibility class.
fn candidate_positions(cs: &Vec<CandidateMappingChange>, class: u8) -> (r: Vec<usize>)
    ensures
        forall|k: int| 0 <= k < r@.len() ==> #[trigger] r@[k] < cs@.len(),
        picked(cs@, r@) == keep(cs@, candidate_pred(class)),
{
    let ghost p = candidate_pred(class);
    let mut out: Vec<usize> = Vec::new();
    let mut i: usize = 0;
    proof {
        assert(cs@.take(0) =~= Seq::<CandidateMappingChange>::empty());
        assert(picked(cs@, out@) =~= Seq::<CandidateMappingChange>::empty());
    }
    while i < cs.len()
        invariant
            i <= cs@.len(),
            forall|k: int| 0 <= k < out@.len() ==> #[trigger] out@[k] < cs@.len(),
            picked(cs@, out@) == keep(cs@.take(i as int), p),
            p == (|c: CandidateMappingChange| compat_in(c.compatibility, class)),
        decreases cs.len() - i,
    {
        proof {
            assert(cs@.take(i + 1).drop_last() =~= cs@.take(i as int));
            assert(cs@.take(i + 1).last() == cs@[i as int]);
        }
        proof {
            assert(p(cs@[i as int]) == compat_in(cs@[i as int].compatibility, class));
        }
        if compat_in_exec(&cs[i].compatibility, class) {
            let ghost prev = picked(cs@, out@);
            out.push(i);
            proof {
                assert(picked(cs@, out@) =~= prev.push(cs@[i as int]));
            }
        }
        i = i + 1;
    }
    proof {
        assert(cs@.take(cs@.len() as int) =~= cs@);
    }
    out
}

// ---------------------------------------------------------------------------
// Lines drawn from the selected changes and candidates
// ---------------------------------------------------------------------------

/// The path a change is known by: its new asset's, else its old asset's.
pub open spec fn change_path_lines(c: SnapshotAssetChange) -> Seq<Seq<char>> {
    match c.new_asset {
        Some(a) => seq![a.path@],
        None => match c.old_asset {
            Some(a) => seq![a.path@],
            None => Seq::empty(),
        },
    }
}

pub open spec fn old_path_lines(c: SnapshotAssetChange) -> Seq<Seq<char>> {
    match c.old_asset {
        Some(a) => seq![a.path@],
        None => Seq::empty(),
    }
}

/// Lines of a change: 0 its path, 1 its changed fields, otherwise its old path.
pub open spec fn change_line_fn(kind: u8) -> spec_fn(SnapshotAssetChange) -> Seq<Seq<char>> {
    if kind == 0 {
        |c: SnapshotAssetChange| change_path_lines(c)
    } else if kind == 1 {
        |c: SnapshotAssetChange| views(c.changed_fields@)
    } else {
        |c: SnapshotAssetChange| old_path_lines(c)
    }
}

fn change_item_lines(c: &SnapshotAssetChange, kind: u8) -> (r: Vec<String>)
    ensures
        views(r@) == (change_line_fn(kind))(*c),
{
    let mut out: Vec<String> = Vec::new();
    if kind == 0 {
        match &c.new_asset {
            Some(a) => push_text(&mut out, a.path.clone()),
            None => match &c.old_asset {
                Some(a) => push_text(&mut out, a.path.clone()),
                None => {},
            },
        }
    } else if kind == 1 {
        out = crate::text::clone_strings(&c.changed_fields);
    } else {
        match &c.old_asset {
            Some(a) => push_text(&mut out, a.path.clone()),
            None => {},
        }
    }
    proof {
        assert(views(out@) =~= (change_line_fn(kind))(*c));
    }
    out
}

fn change_lines(cs: &Vec<SnapshotAssetChange>, sel: &Vec<usize>, kind: u8) -> (r: Vec<String>)
    requires
        forall|k: int| 0 <= k < sel@.len() ==> #[trigger] sel@[k] < cs@.len(),
    ensures
        views(r@) == flat(picked(cs@, sel@), change_line_fn(kind)),
{
    let ghost s = picked(cs@, sel@);
    let mut out: Vec<String> = Vec::new();
    let mut i: usize = 0;
    proof {
        assert(s.take(0) =~= Seq::<SnapshotAssetChange>::empty());
    }
    while i < sel.len()
        invariant
            i <= sel@.len(),
            s == picked(cs@, sel@),
            forall|k: int| 0 <= k < sel@.len() ==> #[trigger] sel@[k] < cs@.len(),
            views(out@) == flat(s.take(i as int), change_line_fn(kind)),
        decreases sel.len() - i,
    {
        proof {
            assert(s.take(i + 1).drop_last() =~= s.take(i as int));
            assert(s.take(i + 1).last() == cs@[sel@[i as int] as int]);
        }
        crate::text::append_texts(&mut out, change_item_lines(&cs[sel[i]], kind));
        i = i + 1;
    }
    proof {
        assert(s.take(sel@.len() as int) =~= s);
    }
    out
}

/// The reason codes kept as evidence: 0 structural drift, 1 identity conflict,
/// otherwise weak evidence.
pub open spec fn code_in(code: Seq<char>, set: u8) -> bool {
    if set == 0 {
        ||| code == "same_asset_but_structural_drift"@
        ||| code == "buffer_layout_validation_needed"@
        ||| code == "vertex_count_mismatch"@
        ||| code == "index_count_mismatch"@
        ||| code == "material_slots_mismatch"@
        ||| code == "section_count_mismatch"@
        ||| code == "vertex_stride_mismatch"@
        ||| code == "vertex_buffer_count_mismatch"@
        ||| code == "index_format_mismatch"@
        ||| code == "primitive_topology_mismatch"@
        ||| code == "layout_markers_mismatch"@
    } else if set == 1 {
        ||| code == "identity_conflict_detected"@
        ||| code == "kind_mismatch"@
        ||| code == "signature_mismatch"@
    } else {
        ||| code == "weak_identity_evidence"@
        ||| code == "ambiguous_runner_up"@
        ||| code == "compatibility_insufficient_evidence"@
    }
}

fn code_in_exec(code: &str, set: u8) -> (r: bool)
    ensures
        r == code_in(code@, set),
{
    if set == 0 {
        str_eq(code, "same_asset_but_structural_drift") || str_eq(code, "buffer_layout_validation_needed")
            || str_eq(code, "vertex_count_mismatch") || str_eq(code, "index_count_mismatch")
            || str_eq(code, "material_slots_mismatch") || str_eq(code, "section_count_mismatch")
            || str_eq(code, "vertex_stride_mismatch") || str_eq(code, "vertex_buffer_count_mismatch")
            || str_eq(code, "index_format_mismatch") || str_eq(code, "primitive_topology_mismatch")
            || str_eq(code, "layout_markers_mismatch")
    } else if set == 1 {
        str_eq(code, "identity_conflict_detected") || str_eq(code, "kind_mismatch") || str_eq(
            code,
            "signature_mismatch",
        )
    } else {
        str_eq(code, "weak_identity_evidence") || str_eq(code, "ambiguous_runner_up") || str_eq(
            code,
            "compatibility_insufficient_evidence",
        )
    }
}

/// The reasons whose code is in the set, as `code: message`.
pub open spec fn coded_reasons(rs: Seq<SnapshotCompareReason>, set: u8) -> Seq<Seq<char>>
    decreases rs.len(),
{
    if rs.len() == 0 {
        Seq::empty()
    } else if code_in(rs.last().code@, set) {
        coded_reasons(rs.drop_last(), set).push(rs.last().code@ + ": "@ + rs.last().message@)
    } else {
        coded_reasons(rs.drop_last(), set)
    }
}

/// Lines of a candidate: 0 `old -> new`, 1 its old and new paths, 2 to 4 its
/// reasons of the code sets 0 to 2.
pub open spec fn candidate_line_fn(kind: u8) -> spec_fn(CandidateMappingChange) -> Seq<Seq<char>> {
    if kind == 0 {
        |c: CandidateMappingChange| seq![c.old_asset.path@ + " -> "@ + c.new_asset.path@]
    } else if kind == 1 {
        |c: CandidateMappingChange| seq![c.old_asset.path@, c.new_asset.path@]
    } else if kind == 2 {
        |c: CandidateMappingChange| coded_reasons(c.reasons@, 0)
    } else if kind == 3 {
        |c: CandidateMappingChange| coded_reasons(c.reasons@, 1)
    } else {
        |c: CandidateMappingChange| coded_reasons(c.reasons@, 2)
    }
}

fn candidate_item_lines(c: &CandidateMappingChange, kind: u8) -> (r: Vec<String>)
    ensures
        views(r@) == (candidate_line_fn(kind))(*c),
{
    let mut out: Vec<String> = Vec::new();
    if kind == 0 {
        let mut l = c.old_asset.path.clone();
        push_str(&mut l, " -> ");
        push_str(&mut l, c.new_asset.path.as_str());
        push_text(&mut out, l);
        proof {
            assert(views(out@) =~= (candidate_line_fn(kind))(*c));
        }
    } else if kind == 1 {
        push_text(&mut out, c.old_asset.path.clone());
        push_text(&mut out, c.new_asset.path.clone());
        proof {
            assert(views(out@) =~= (candidate_line_fn(kind))(*c));
        }
    } else {
        let set: u8 = if kind == 2 {
            0
        } else if kind == 3 {
            1
        } else {
            2
        };
        let rs = &c.reasons;
        let mut i: usize = 0;
        proof {
            assert(rs@.take(0) =~= Seq::<SnapshotCompareReason>::empty());
        }
        while i < rs.len()
            invariant
                i <= rs@.len(),
                views(out@) == coded_reasons(rs@.take(i as int), set),
            decreases rs.len() - i,
        {
            proof {
                assert(rs@.take(i + 1).drop_last() =~= rs@.take(i as int));
                assert(rs@.take(i + 1).last() == rs@[i as int]);
            }
            if code_in_exec(rs[i].code.as_str(), set) {
                push_text(&mut out, crate::inference::reason_to_string(&rs[i]));
            }
            i = i + 1;
        }
        proof {
            assert(rs@.take(rs@.len() as int) =~= rs@);
            assert(views(out@) =~= (candidate_line_fn(kind))(*c));
        }
    }
    out
}

fn candidate_lines(cs: &Vec<CandidateMappingChange>, sel: &Vec<usize>, kind: u8) -> (r: Vec<String>)
    requires
        forall|k: int| 0 <= k < sel@.len() ==> #[trigger] sel@[k] < cs@.len(),
    ensures
        views(r@) == flat(picked(cs@, sel@), candidate_line_fn(kind)),
{
    let ghost s = picked(cs@, sel@);
    let mut out: Vec<String> = Vec::new();
    let mut i: usize = 0;
    proof {
        assert(s.take(0) =~= Seq::<CandidateMappingChange>::empty());
    }
    while i < sel.len()
        invariant
            i <= sel@.len(),
            s == picked(cs@, sel@),
            forall|k: int| 0 <= k < sel@.len() ==> #[trigger] sel@[k] < cs@.len(),
            views(out@) == flat(s.take(i as int), candidate_line_fn(kind)),
        decreases sel.len() - i,
    {
        proof {
            assert(s.take(i + 1).drop_last() =~= s.take(i as int));
            assert(s.take(i + 1).last() == cs@[sel@[i as int] as int]);
        }
        crate::text::append_texts(&mut out, candidate_item_lines(&cs[sel[i]], kind));
        i = i + 1;
    }
    proof {
        assert(s.take(sel@.len() as int) =~= s);
    }
    out
}

/// Some selected change carries a high crash risk.
pub open spec fn any_high_crash_risk(cs: Seq<SnapshotAssetChange>) -> bool {
    exists|i: int| 0 <= i < cs.len() && (#[trigger] cs[i]).crash_risk == RiskLevel::High
}

fn any_high_crash_risk_exec(cs: &Vec<SnapshotAssetChange>, sel: &Vec<usize>) -> (r: bool)
    requires
        forall|k: int| 0 <= k < sel@.len() ==> #[trigger] sel@[k] < cs@.len(),
    ensures
        r == any_high_crash_risk(picked(cs@, sel@)),
{
    let ghost s = picked(cs@, sel@);
    let mut i: usize = 0;
    while i < sel.len()
        invariant
            i <= sel@.len(),
            s == picked(cs@, sel@),
            forall|k: int| 0 <= k < sel@.len() ==> #[trigger] sel@[k] < cs@.len(),
            forall|k: int| 0 <= k < i ==> (#[trigger] s[k]).crash_risk != RiskLevel::High,
        decreases sel.len() - i,
    {
        let high = match cs[sel[i]].crash_risk {
            RiskLevel::High => true,
            _ => false,
        };
        proof {
            assert(s[i as int] == cs@[sel@[i as int] as int]);
        }
        if high {
            return true;
        }
        i = i + 1;
    }
    false
}

// ---------------------------------------------------------------------------
// Causes and fixes as plain values
// ---------------------------------------------------------------------------

/// A crash cause by the views of its fields.
pub struct CauseModel {
    pub code: Seq<char>,
    pub summary: Seq<char>,
    pub confidence_milli: nat,
    pub risk: RiskLevel,
    pub affected: Seq<Seq<char>>,
    pub reasons: Seq<Seq<char>>,
    pub evidence: Seq<Seq<char>>,
}

/// A suggested fix by the views of its fields.
pub struct FixModel {
    pub code: Seq<char>,
    pub summary: Seq<char>,
    pub confidence_milli: nat,
    pub priority: RiskLevel,
    pub actions: Seq<Seq<char>>,
    pub reasons: Seq<Seq<char>>,
    pub evidence: Seq<Seq<char>>,
}

pub open spec fn cause_model(c: ProbableCrashCause) -> CauseModel {
    CauseModel {
        code: c.code@,
        summary: c.summary@,
        confidence_milli: c.confidence_milli as nat,
        risk: c.risk,
        affected: views(c.affected_assets@),
        reasons: views(c.reasons@),
        evidence: views(c.evidence@),
    }
}

pub open spec fn fix_model(f: SuggestedFix) -> FixModel {
    FixModel {
        code: f.code@,
        summary: f.summary@,
        confidence_milli: f.confidence_milli as nat,
        priority: f.priority,
        actions: views(f.actions@),
        reasons: views(f.reasons@),
        evidence: views(f.evidence@),
    }
}

pub open spec fn opt_cause_model(o: Option<ProbableCrashCause>) -> Option<CauseModel> {
    match o {
        Some(c) => Some(cause_model(c)),
        None => None,
    }
}

pub open spec fn opt_fix_model(o: Option<SuggestedFix>) -> Option<FixModel> {
    match o {
        Some(f) => Some(fix_model(f)),
        None => None,
    }
}

fn make_cause(
    code: &str,
    summary: &str,
    confidence_milli: u32,
    risk: RiskLevel,
    affected: Vec<String>,
    reasons: Vec<String>,
    evidence: Vec<String>,
) -> (r: ProbableCrashCause)
    ensures
        cause_model(r) == (CauseModel {
            code: code@,
            summary: summary@,
            confidence_milli: confidence_milli as nat,
            risk,
            affected: views(affected@),
            reasons: views(reasons@),
            evidence: views(evidence@),
        }),
{
    ProbableCrashCause {
        code: new_string(code),
        summary: new_string(summary),
        confidence_milli,
        risk,
        affected_assets: affected,
        reasons,
        evidence,
    }
}

fn make_fix(
    code: &str,
    summary: &str,
    confidence_milli: u32,
    priority: RiskLevel,
    actions: Vec<String>,
    reasons: Vec<String>,
    evidence: Vec<String>,
) -> (r: SuggestedFix)
    ensures
        fix_model(r) == (FixModel {
            code: code@,
            summary: summary@,
            confidence_milli: confidence_milli as nat,
            priority,
            actions: views(actions@),
            reasons: views(reasons@),
            evidence: views(evidence@),
        }),
{
    SuggestedFix {
        code: new_string(code),
        summary: new_string(summary),
        confidence_milli,
        priority,
        actions,
        reasons,
        evidence,
    }
}

/// A cause's or fix's confidence: `base` blended with up to three weighted pattern
/// supports, scaled for a low-signal compare.
pub open spec fn conf_spec(
    kb: WwmiKnowledgeBase,
    base: nat,
    w1: nat,
    k1: WwmiPatternKind,
    w2: nat,
    k2: WwmiPatternKind,
    w3: nat,
    k3: WwmiPatternKind,
    low_signal: bool,
) -> nat {
    scaled(
        blend(
            base,
            w1 * pattern_support(kb, k1) + w2 * pattern_support(kb, k2) + w3 * pattern_support(kb, k3),
        ),
        low_signal,
    )
}

fn conf_exec(
    kb: &WwmiKnowledgeBase,
    base: u64,
    w1: u64,
    k1: WwmiPatternKind,
    w2: u64,
    k2: WwmiPatternKind,
    w3: u64,
    k3: WwmiPatternKind,
    low_signal: bool,
) -> (r: u32)
    requires
        base <= 1000,
        w1 <= 1000,
        w2 <= 1000,
        w3 <= 1000,
    ensures
        r == conf_spec(*kb, base as nat, w1 as nat, k1, w2 as nat, k2, w3 as nat, k3, low_signal),
{
    let a = support_of(kb, k1) as u64;
    let b = support_of(kb, k2) as u64;
    let c = support_of(kb, k3) as u64;
    proof {
        assert(w1 * a <= 1_000_000) by (nonlinear_arith)
            requires
                w1 <= 1000,
                a <= 1000,
        ;
        assert(w2 * b <= 1_000_000) by (nonlinear_arith)
            requires
                w2 <= 1000,
                b <= 1000,
        ;
        assert(w3 * c <= 1_000_000) by (nonlinear_arith)
            requires
                w3 <= 1000,
                c <= 1000,
        ;
    }
    blend_exec(base, w1 * a + w2 * b + w3 * c, low_signal)
}

pub open spec fn spec_b3_cause(cr: SnapshotCompareReport, kb: WwmiKnowledgeBase) -> Option<CauseModel> {
    let sel = keep(cr.candidate_mapping_changes@, candidate_pred(1));
    if sel.len() > 0 {
        Some(
            CauseModel {
                code: "candidate_remap_structural_drift"@,
                summary: "Some remap candidates look logically related, but their structural metadata drifted; a path remap alone may still break the mod."@,
                confidence_milli: conf_spec(kb, 520, 220, WwmiPatternKind::BufferLayoutOrCapacityFix, 180, WwmiPatternKind::MappingOrHashUpdate, 0, WwmiPatternKind::MappingOrHashUpdate, cr.scope.low_signal_compare),
                risk: RiskLevel::High,
                affected: flat(sel, candidate_line_fn(1)),
                reasons: seq!["compare found candidate remaps that still carry structural drift"@, "same logical asset does not automatically mean layout-compatible replacement"@],
                evidence: flat(sel, candidate_line_fn(2)) + pattern_evidence(kb, seq![WwmiPatternKind::BufferLayoutOrCapacityFix, WwmiPatternKind::MappingOrHashUpdate]),
            },
        )
    } else {
        None
    }
}

pub open spec fn spec_b3_fix(cr: SnapshotCompareReport, kb: WwmiKnowledgeBase) -> Option<FixModel> {
    let sel = keep(cr.candidate_mapping_changes@, candidate_pred(1));
    if sel.len() > 0 {
        Some(
            FixModel {
                code: "validate_candidate_remaps_against_layout"@,
                summary: "Validate remap candidates against the new mesh/buffer layout before applying path updates."@,
                confidence_milli: conf_spec(kb, 520, 220, WwmiPatternKind::BufferLayoutOrCapacityFix, 180, WwmiPatternKind::MappingOrHashUpdate, 0, WwmiPatternKind::MappingOrHashUpdate, cr.scope.low_signal_compare),
                priority: RiskLevel::High,
                actions: seq!["Review candidate remaps that report structural drift and compare their vertex/index/material/section metadata."@, "Keep these mappings in review state until the replacement asset is proven layout-compatible."@],
                reasons: seq!["compare surfaced remap candidates with structural drift"@],
                evidence: pattern_evidence(kb, seq![WwmiPatternKind::BufferLayoutOrCapacityFix, WwmiPatternKind::MappingOrHashUpdate]),
            },
        )
    } else {
        None
    }
}

fn block_b3(cr: &SnapshotCompareReport, kb: &WwmiKnowledgeBase) -> (r: (
    Option<ProbableCrashCause>,
    Option<SuggestedFix>,
))
    ensures
        opt_cause_model(r.0) == spec_b3_cause(*cr, *kb),
        opt_fix_model(r.1) == spec_b3_fix(*cr, *kb),
{
    let cs = &cr.candidate_mapping_changes;
    let sel = candidate_positions(cs, 1);
    if sel.len() == 0 {
        return (None, None);
    }
    let conf = conf_exec(kb, 520, 220, WwmiPatternKind::BufferLayoutOrCapacityFix, 180, WwmiPatternKind::MappingOrHashUpdate, 0, WwmiPatternKind::MappingOrHashUpdate, cr.scope.low_signal_compare);
    let affected = candidate_lines(cs, &sel, 1);
    let mut reasons: Vec<String> = Vec::new();
push_text(&mut reasons, new_string("compare found candidate remaps that still carry structural drift"));
push_text(&mut reasons, new_string("same logical asset does not automatically mean layout-compatible replacement"));
    let mut evidence = candidate_lines(cs, &sel, 2);
    let mut kinds: Vec<WwmiPatternKind> = Vec::new();
kinds.push(WwmiPatternKind::BufferLayoutOrCapacityFix);
kinds.push(WwmiPatternKind::MappingOrHashUpdate);
    crate::text::append_texts(&mut evidence, evidence_of(kb, &kinds));
    let mut actions: Vec<String> = Vec::new();
push_text(&mut actions, new_string("Review candidate remaps that report structural drift and compare their vertex/index/material/section metadata."));
push_text(&mut actions, new_string("Keep these mappings in review state until the replacement asset is proven layout-compatible."));
    let mut freasons: Vec<String> = Vec::new();
push_text(&mut freasons, new_string("compare surfaced remap candidates with structural drift"));
    let mut fkinds: Vec<WwmiPatternKind> = Vec::new();
fkinds.push(WwmiPatternKind::BufferLayoutOrCapacityFix);
fkinds.push(WwmiPatternKind::MappingOrHashUpdate);
    let fevidence = evidence_of(kb, &fkinds);
    proof {
        assert(views(reasons@) =~= seq!["compare found candidate remaps that still carry structural drift"@, "same logical asset does not automatically mean layout-compatible replacement"@]);
        assert(kinds@ =~= seq![WwmiPatternKind::BufferLayoutOrCapacityFix, WwmiPatternKind::MappingOrHashUpdate]);
        assert(views(actions@) =~= seq!["Review candidate remaps that report structural drift and compare their vertex/index/material/section metadata."@, "Keep these mappings in review state until the replacement asset is proven layout-compatible."@]);
        assert(views(freasons@) =~= seq!["compare surfaced remap candidates with structural drift"@]);
        assert(fkinds@ =~= seq![WwmiPatternKind::BufferLayoutOrCapacityFix, WwmiPatternKind::MappingOrHashUpdate]);
    }
    let cause = make_cause("candidate_remap_structural_drift", "Some remap candidates look logically related, but their structural metadata drifted; a path remap alone may still break the mod.", conf, RiskLevel::High, affected, reasons, evidence);
    let fix = make_fix("validate_candidate_remaps_against_layout", "Validate remap candidates against the new mesh/buffer layout before applying path updates.", conf, RiskLevel::High, actions, freasons, fevidence);
    (Some(cause), Some(fix))
}


pub open spec fn spec_b4_cause(cr: SnapshotCompareReport, kb: WwmiKnowledgeBase) -> Option<CauseModel> {
    let sel = keep(cr.candidate_mapping_changes@, candidate_pred(2));
    if sel.len() > 0 {
        Some(
            CauseModel {
                code: "candidate_remap_identity_conflict"@,
                summary: "Some high-similarity remap candidates are blocked by identity conflicts; the next step is manual inspection, not auto-remap."@,
                confidence_milli: conf_spec(kb, 480, 240, WwmiPatternKind::MappingOrHashUpdate, 120, WwmiPatternKind::ShaderLogicChange, 0, WwmiPatternKind::MappingOrHashUpdate, cr.scope.low_signal_compare),
                risk: RiskLevel::High,
                affected: flat(sel, candidate_line_fn(1)),
                reasons: seq!["candidate remaps contain explicit identity conflicts"@],
                evidence: flat(sel, candidate_line_fn(3)) + pattern_evidence(kb, seq![WwmiPatternKind::MappingOrHashUpdate, WwmiPatternKind::ShaderLogicChange]),
            },
        )
    } else {
        None
    }
}

pub open spec fn spec_b4_fix(cr: SnapshotCompareReport, kb: WwmiKnowledgeBase) -> Option<FixModel> {
    let sel = keep(cr.candidate_mapping_changes@, candidate_pred(2));
    if sel.len() > 0 {
        Some(
            FixModel {
                code: "inspect_identity_conflicts_before_remap"@,
                summary: "Inspect candidates with blocked identity signals before attempting any remap update."@,
                confidence_milli: conf_spec(kb, 480, 240, WwmiPatternKind::MappingOrHashUpdate, 120, WwmiPatternKind::ShaderLogicChange, 0, WwmiPatternKind::MappingOrHashUpdate, cr.scope.low_signal_compare),
                priority: RiskLevel::High,
                actions: seq!["Review conflicting kind/signature/hash signals on blocked candidates."@, "Do not auto-apply these remaps until a human confirms the replacement asset."@],
                reasons: seq!["candidate compatibility is blocked by conflicting identity evidence"@],
                evidence: pattern_evidence(kb, seq![WwmiPatternKind::MappingOrHashUpdate, WwmiPatternKind::ShaderLogicChange]),
            },
        )
    } else {
        None
    }
}

fn block_b4(cr: &SnapshotCompareReport, kb: &WwmiKnowledgeBase) -> (r: (
    Option<ProbableCrashCause>,
    Option<SuggestedFix>,
))
    ensures
        opt_cause_model(r.0) == spec_b4_cause(*cr, *kb),
        opt_fix_model(r.1) == spec_b4_fix(*cr, *kb),
{
    let cs = &cr.candidate_mapping_changes;
    let sel = candidate_positions(cs, 2);
    if sel.len() == 0 {
        return (None, None);
    }
    let conf = conf_exec(kb, 480, 240, WwmiPatternKind::MappingOrHashUpdate, 120, WwmiPatternKind::ShaderLogicChange, 0, WwmiPatternKind::MappingOrHashUpdate, cr.scope.low_signal_compare);
    let affected = candidate_lines(cs, &sel, 1);
    let mut reasons: Vec<String> = Vec::new();
push_text(&mut reasons, new_string("candidate remaps contain explicit identity conflicts"));
    let mut evidence = candidate_lines(cs, &sel, 3);
    let mut kinds: Vec<WwmiPatternKind> = Vec::new();
kinds.push(WwmiPatternKind::MappingOrHashUpdate);
kinds.push(WwmiPatternKind::ShaderLogicChange);
    crate::text::append_texts(&mut evidence, evidence_of(kb, &kinds));
    let mut actions: Vec<String> = Vec::new();
push_text(&mut actions, new_string("Review conflicting kind/signature/hash signals on blocked candidates."));
push_text(&mut actions, new_string("Do not auto-apply these remaps until a human confirms the replacement asset."));
    let mut freasons: Vec<String> = Vec::new();
push_text(&mut freasons, new_string("candidate compatibility is blocked by conflicting identity evidence"));
    let mut fkinds: Vec<WwmiPatternKind> = Vec::new();
fkinds.push(WwmiPatternKind::MappingOrHashUpdate);
fkinds.push(WwmiPatternKind::ShaderLogicChange);
    let fevidence = evidence_of(kb, &fkinds);
    proof {
        assert(views(reasons@) =~= seq!["candidate remaps contain explicit identity conflicts"@]);
        assert(kinds@ =~= seq![WwmiPatternKind::MappingOrHashUpdate, WwmiPatternKind::ShaderLogicChange]);
        assert(views(actions@) =~= seq!["Review conflicting kind/signature/hash signals on blocked candidates."@, "Do not auto-apply these remaps until a human confirms the replacement asset."@]);
        assert(views(freasons@) =~= seq!["candidate compatibility is blocked by conflicting identity evidence"@]);
        assert(fkinds@ =~= seq![WwmiPatternKind::MappingOrHashUpdate, WwmiPatternKind::ShaderLogicChange]);
    }
    let cause = make_cause("candidate_remap_identity_conflict", "Some high-similarity remap candidates are blocked by identity conflicts; the next step is manual inspection, not auto-remap.", conf, RiskLevel::High, affected, reasons, evidence);
    let fix = make_fix("inspect_identity_conflicts_before_remap", "Inspect candidates with blocked identity signals before attempting any remap update.", conf, RiskLevel::High, actions, freasons, fevidence);
    (Some(cause), Some(fix))
}


pub open spec fn spec_b5_cause(cr: SnapshotCompareReport, kb: WwmiKnowledgeBase) -> Option<CauseModel> {
    let sel = keep(cr.candidate_mapping_changes@, candidate_pred(3));
    if sel.len() > 0 {
        Some(
            CauseModel {
                code: "candidate_remap_insufficient_evidence"@,
                summary: "Some remap candidates lack enough asset-level evidence to recommend a safe repair path yet."@,
                confidence_milli: conf_spec(kb, 320, 180, WwmiPatternKind::MappingOrHashUpdate, 0, WwmiPatternKind::MappingOrHashUpdate, 0, WwmiPatternKind::MappingOrHashUpdate, cr.scope.low_signal_compare),
                risk: RiskLevel::Medium,
                affected: flat(sel, candidate_line_fn(1)),
                reasons: seq!["candidate compatibility remained in insufficient-evidence state"@],
                evidence: flat(sel, candidate_line_fn(4)) + pattern_evidence(kb, seq![WwmiPatternKind::MappingOrHashUpdate]),
            },
        )
    } else {
        None
    }
}

pub open spec fn spec_b5_fix(cr: SnapshotCompareReport, kb: WwmiKnowledgeBase) -> Option<FixModel> {
    let sel = keep(cr.candidate_mapping_changes@, candidate_pred(3));
    if sel.len() > 0 {
        Some(
            FixModel {
                code: "gather_stronger_asset_evidence"@,
                summary: "Gather stronger asset-level evidence before treating low-evidence remap candidates as repair-safe."@,
                confidence_milli: conf_spec(kb, 320, 180, WwmiPatternKind::MappingOrHashUpdate, 0, WwmiPatternKind::MappingOrHashUpdate, 0, WwmiPatternKind::MappingOrHashUpdate, cr.scope.low_signal_compare),
                priority: RiskLevel::Medium,
                actions: seq!["Prefer prepared asset-level snapshots with richer identity or structural metadata."@, "Keep low-evidence remap candidates in manual review until stronger evidence appears."@],
                reasons: seq!["snapshot evidence is insufficient to classify some remaps as repair-safe"@],
                evidence: pattern_evidence(kb, seq![WwmiPatternKind::MappingOrHashUpdate]),
            },
        )
    } else {
        None
    }
}

fn block_b5(cr: &SnapshotCompareReport, kb: &WwmiKnowledgeBase) -> (r: (
    Option<ProbableCrashCause>,
    Option<SuggestedFix>,
))
    ensures
        opt_cause_model(r.0) == spec_b5_cause(*cr, *kb),
        opt_fix_model(r.1) == spec_b5_fix(*cr, *kb),
{
    let cs = &cr.candidate_mapping_changes;
    let sel = candidate_positions(cs, 3);
    if sel.len() == 0 {
        return (None, None);
    }
    let conf = conf_exec(kb, 320, 180, WwmiPatternKind::MappingOrHashUpdate, 0, WwmiPatternKind::MappingOrHashUpdate, 0, WwmiPatternKind::MappingOrHashUpdate, cr.scope.low_signal_compare);
    let affected = candidate_lines(cs, &sel, 1);
    let mut reasons: Vec<String> = Vec::new();
push_text(&mut reasons, new_string("candidate compatibility remained in insufficient-evidence state"));
    let mut evidence = candidate_lines(cs, &sel, 4);
    let mut kinds: Vec<WwmiPatternKind> = Vec::new();
kinds.push(WwmiPatternKind::MappingOrHashUpdate);
    crate::text::append_texts(&mut evidence, evidence_of(kb, &kinds));
    let mut actions: Vec<String> = Vec::new();
push_text(&mut actions, new_string("Prefer prepared asset-level snapshots with richer identity or structural metadata."));
push_text(&mut actions, new_string("Keep low-evidence remap candidates in manual review until stronger evidence appears."));
    let mut freasons: Vec<String> = Vec::new();
push_text(&mut freasons, new_string("snapshot evidence is insufficient to classify some remaps as repair-safe"));
    let mut fkinds: Vec<WwmiPatternKind> = Vec::new();
fkinds.push(WwmiPatternKind::MappingOrHashUpdate);
    let fevidence = evidence_of(kb, &fkinds);
    proof {
        assert(views(reasons@) =~= seq!["candidate compatibility remained in insufficient-evidence state"@]);
        assert(kinds@ =~= seq![WwmiPatternKind::MappingOrHashUpdate]);
        assert(views(actions@) =~= seq!["Prefer prepared asset-level snapshots with richer identity or structural metadata."@, "Keep low-evidence remap candidates in manual review until stronger evidence appears."@]);
        assert(views(freasons@) =~= seq!["snapshot evidence is insufficient to classify some remaps as repair-safe"@]);
        assert(fkinds@ =~= seq![WwmiPatternKind::MappingOrHashUpdate]);
    }
    let cause = make_cause("candidate_remap_insufficient_evidence", "Some remap candidates lack enough asset-level evidence to recommend a safe repair path yet.", conf, RiskLevel::Medium, affected, reasons, evidence);
    let fix = make_fix("gather_stronger_asset_evidence", "Gather stronger asset-level evidence before treating low-evidence remap candidates as repair-safe.", conf, RiskLevel::Medium, actions, freasons, fevidence);
    (Some(cause), Some(fix))
}


pub open spec fn spec_b1_cause(cr: SnapshotCompareReport, kb: WwmiKnowledgeBase) -> Option<CauseModel> {
    let sel = keep(cr.changed_assets@, change_pred(0));
    if sel.len() > 0 {
        Some(
            CauseModel {
                code: "buffer_layout_changed"@,
                summary: "Structural asset metadata changed between game versions; mods may be reading outdated buffer/layout assumptions."@,
                confidence_milli: conf_spec(kb, 600, 200, WwmiPatternKind::BufferLayoutOrCapacityFix, 100, WwmiPatternKind::RuntimeConfigChange, 100, WwmiPatternKind::ShaderLogicChange, cr.scope.low_signal_compare),
                risk: RiskLevel::High,
                affected: flat(sel, change_line_fn(0)),
                reasons: seq![
                    "changed structural fields: "@ + join_seq(flat(sel, change_line_fn(1)), ", "@),
                    "compare report marks these assets as changed with structural differences"@,
                ],
                evidence: pattern_evidence(kb, seq![WwmiPatternKind::BufferLayoutOrCapacityFix, WwmiPatternKind::RuntimeConfigChange, WwmiPatternKind::ShaderLogicChange]),
            },
        )
    } else {
        None
    }
}

pub open spec fn spec_b1_fix(cr: SnapshotCompareReport, kb: WwmiKnowledgeBase) -> Option<FixModel> {
    let sel = keep(cr.changed_assets@, change_pred(0));
    if sel.len() > 0 {
        Some(
            FixModel {
                code: "review_buffer_layout_and_runtime_guards"@,
                summary: "Review mappings and runtime assumptions for buffer size/layout changes before re-enabling the mod."@,
                confidence_milli: conf_spec(kb, 600, 200, WwmiPatternKind::BufferLayoutOrCapacityFix, 100, WwmiPatternKind::RuntimeConfigChange, 100, WwmiPatternKind::ShaderLogicChange, cr.scope.low_signal_compare),
                priority: RiskLevel::High,
                actions: seq!["Compare vertex_count/index_count/material_slots/section_count and any internal section/binding signals against the previous version."@, "Check whether the mod needs a new mapping or a larger buffer/layout-aware path similar to WWMI buffer-capacity fixes."@, "Avoid auto-applying mappings for these assets until the new layout is validated."@],
                reasons: seq!["WWMI history shows recurring fixes around buffer/layout/capacity changes."@, "The snapshot diff shows structure-level metadata drift on affected assets."@],
                evidence: pattern_evidence(kb, seq![WwmiPatternKind::BufferLayoutOrCapacityFix, WwmiPatternKind::RuntimeConfigChange]),
            },
        )
    } else {
        None
    }
}

fn block_b1(cr: &SnapshotCompareReport, kb: &WwmiKnowledgeBase) -> (r: (
    Option<ProbableCrashCause>,
    Option<SuggestedFix>,
))
    ensures
        opt_cause_model(r.0) == spec_b1_cause(*cr, *kb),
        opt_fix_model(r.1) == spec_b1_fix(*cr, *kb),
{
    let cs = &cr.changed_assets;
    let sel = change_positions(cs, 0);
    if sel.len() == 0 {
        return (None, None);
    }
    let conf = conf_exec(kb, 600, 200, WwmiPatternKind::BufferLayoutOrCapacityFix, 100, WwmiPatternKind::RuntimeConfigChange, 100, WwmiPatternKind::ShaderLogicChange, cr.scope.low_signal_compare);
    let affected = change_lines(cs, &sel, 0);
    let fields = change_lines(cs, &sel, 1);
    let mut first = new_string("changed structural fields: ");
    let joined = join(&fields, ", ");
    push_str(&mut first, joined.as_str());
    let mut reasons: Vec<String> = Vec::new();
    push_text(&mut reasons, first);
    push_text(&mut reasons, new_string("compare report marks these assets as changed with structural differences"));
    let mut kinds: Vec<WwmiPatternKind> = Vec::new();
kinds.push(WwmiPatternKind::BufferLayoutOrCapacityFix);
kinds.push(WwmiPatternKind::RuntimeConfigChange);
kinds.push(WwmiPatternKind::ShaderLogicChange);
    let evidence = evidence_of(kb, &kinds);
    let mut actions: Vec<String> = Vec::new();
push_text(&mut actions, new_string("Compare vertex_count/index_count/material_slots/section_count and any internal section/binding signals against the previous version."));
push_text(&mut actions, new_string("Check whether the mod needs a new mapping or a larger buffer/layout-aware path similar to WWMI buffer-capacity fixes."));
push_text(&mut actions, new_string("Avoid auto-applying mappings for these assets until the new layout is validated."));
    let mut freasons: Vec<String> = Vec::new();
push_text(&mut freasons, new_string("WWMI history shows recurring fixes around buffer/layout/capacity changes."));
push_text(&mut freasons, new_string("The snapshot diff shows structure-level metadata drift on affected assets."));
    let mut fkinds: Vec<WwmiPatternKind> = Vec::new();
fkinds.push(WwmiPatternKind::BufferLayoutOrCapacityFix);
fkinds.push(WwmiPatternKind::RuntimeConfigChange);
    let fevidence = evidence_of(kb, &fkinds);
    proof {
        assert(views(reasons@) =~= seq![
            "changed structural fields: "@ + join_seq(flat(picked(cs@, sel@), change_line_fn(1)), ", "@),
            "compare report marks these assets as changed with structural differences"@,
        ]);
        assert(kinds@ =~= seq![WwmiPatternKind::BufferLayoutOrCapacityFix, WwmiPatternKind::RuntimeConfigChange, WwmiPatternKind::ShaderLogicChange]);
        assert(views(actions@) =~= seq!["Compare vertex_count/index_count/material_slots/section_count and any internal section/binding signals against the previous version."@, "Check whether the mod needs a new mapping or a larger buffer/layout-aware path similar to WWMI buffer-capacity fixes."@, "Avoid auto-applying mappings for these assets until the new layout is validated."@]);
        assert(views(freasons@) =~= seq!["WWMI history shows recurring fixes around buffer/layout/capacity changes."@, "The snapshot diff shows structure-level metadata drift on affected assets."@]);
        assert(fkinds@ =~= seq![WwmiPatternKind::BufferLayoutOrCapacityFix, WwmiPatternKind::RuntimeConfigChange]);
    }
    let cause = make_cause("buffer_layout_changed", "Structural asset metadata changed between game versions; mods may be reading outdated buffer/layout assumptions.", conf, RiskLevel::High, affected, reasons, evidence);
    let fix = make_fix("review_buffer_layout_and_runtime_guards", "Review mappings and runtime assumptions for buffer size/layout changes before re-enabling the mod.", conf, RiskLevel::High, actions, freasons, fevidence);
    (Some(cause), Some(fix))
}

pub open spec fn spec_b2_cause(cr: SnapshotCompareReport, kb: WwmiKnowledgeBase) -> Option<CauseModel> {
    let removed = keep(cr.removed_assets@, change_pred(1));
    let plausible = keep(cr.candidate_mapping_changes@, candidate_pred(0));
    if cr.scope.scope_induced_removals_likely && removed.len() > 0 {
        None
    } else if removed.len() > 0 && plausible.len() > 0 {
        Some(
            CauseModel {
                code: "asset_paths_or_mapping_shifted"@,
                summary: "Assets disappeared from their old paths but plausible replacements exist in the new snapshot; the mod likely needs remapping."@,
                confidence_milli: conf_spec(kb, 600, 250, WwmiPatternKind::MappingOrHashUpdate, 100, WwmiPatternKind::ShaderLogicChange, 0, WwmiPatternKind::MappingOrHashUpdate, cr.scope.low_signal_compare),
                risk: RiskLevel::High,
                affected: flat(plausible, candidate_line_fn(0)),
                reasons: seq![
                    decimal(plausible.len()) + " removed assets have candidate replacements"@,
                    "compare heuristics found plausible old->new asset remap candidates"@,
                ],
                evidence: pattern_evidence(kb, seq![WwmiPatternKind::MappingOrHashUpdate, WwmiPatternKind::ShaderLogicChange]),
            },
        )
    } else if removed.len() > 0 {
        Some(
            CauseModel {
                code: "asset_removed_without_clear_replacement"@,
                summary: "Some old asset paths disappeared and the tool could not find strong replacements; the mod may target stale assets."@,
                confidence_milli: conf_spec(kb, 450, 200, WwmiPatternKind::MappingOrHashUpdate, 0, WwmiPatternKind::MappingOrHashUpdate, 0, WwmiPatternKind::MappingOrHashUpdate, cr.scope.low_signal_compare),
                risk: RiskLevel::Medium,
                affected: flat(removed, change_line_fn(2)),
                reasons: seq!["removed assets exist without strong compare-level remap candidates"@],
                evidence: pattern_evidence(kb, seq![WwmiPatternKind::MappingOrHashUpdate]),
            },
        )
    } else {
        None
    }
}

pub open spec fn spec_b2_fix(cr: SnapshotCompareReport, kb: WwmiKnowledgeBase) -> Option<FixModel> {
    let removed = keep(cr.removed_assets@, change_pred(1));
    let plausible = keep(cr.candidate_mapping_changes@, candidate_pred(0));
    if !(cr.scope.scope_induced_removals_likely && removed.len() > 0) && removed.len() > 0
        && plausible.len() > 0 {
        Some(
            FixModel {
                code: "review_candidate_asset_remaps"@,
                summary: "Review the inferred old->new asset remap candidates and update mappings for removed paths."@,
                confidence_milli: conf_spec(kb, 600, 250, WwmiPatternKind::MappingOrHashUpdate, 100, WwmiPatternKind::ShaderLogicChange, 0, WwmiPatternKind::MappingOrHashUpdate, cr.scope.low_signal_compare),
                priority: RiskLevel::High,
                actions: seq!["Inspect candidate_mapping_hints and verify that the replacement asset is semantically equivalent."@, "If validated, prepare a mapping proposal instead of patching blindly."@],
                reasons: seq!["WWMI history frequently resolves update breakage through mapping/hash updates."@, "The compare report shows removed assets with plausible replacements."@],
                evidence: pattern_evidence(kb, seq![WwmiPatternKind::MappingOrHashUpdate]),
            },
        )
    } else {
        None
    }
}

fn block_b2(cr: &SnapshotCompareReport, kb: &WwmiKnowledgeBase) -> (r: (
    Option<ProbableCrashCause>,
    Option<SuggestedFix>,
))
    ensures
        opt_cause_model(r.0) == spec_b2_cause(*cr, *kb),
        opt_fix_model(r.1) == spec_b2_fix(*cr, *kb),
{
    let removed = change_positions(&cr.removed_assets, 1);
    let plausible = candidate_positions(&cr.candidate_mapping_changes, 0);
    if cr.scope.scope_induced_removals_likely && removed.len() > 0 {
        return (None, None);
    }
    if removed.len() > 0 && plausible.len() > 0 {
        let conf = conf_exec(kb, 600, 250, WwmiPatternKind::MappingOrHashUpdate, 100, WwmiPatternKind::ShaderLogicChange, 0, WwmiPatternKind::MappingOrHashUpdate, cr.scope.low_signal_compare);
        let affected = candidate_lines(&cr.candidate_mapping_changes, &plausible, 0);
        let mut first = decimal_string(plausible.len());
        push_str(&mut first, " removed assets have candidate replacements");
        let mut reasons: Vec<String> = Vec::new();
        push_text(&mut reasons, first);
        push_text(&mut reasons, new_string("compare heuristics found plausible old->new asset remap candidates"));
        let mut kinds: Vec<WwmiPatternKind> = Vec::new();
kinds.push(WwmiPatternKind::MappingOrHashUpdate);
kinds.push(WwmiPatternKind::ShaderLogicChange);
        let evidence = evidence_of(kb, &kinds);
        let mut actions: Vec<String> = Vec::new();
push_text(&mut actions, new_string("Inspect candidate_mapping_hints and verify that the replacement asset is semantically equivalent."));
push_text(&mut actions, new_string("If validated, prepare a mapping proposal instead of patching blindly."));
        let mut freasons: Vec<String> = Vec::new();
push_text(&mut freasons, new_string("WWMI history frequently resolves update breakage through mapping/hash updates."));
push_text(&mut freasons, new_string("The compare report shows removed assets with plausible replacements."));
        let mut fkinds: Vec<WwmiPatternKind> = Vec::new();
fkinds.push(WwmiPatternKind::MappingOrHashUpdate);
        let fevidence = evidence_of(kb, &fkinds);
        proof {
            assert(picked(cr.candidate_mapping_changes@, plausible@).len() == plausible@.len());
            assert(views(reasons@) =~= seq![
                decimal(plausible@.len() as nat) + " removed assets have candidate replacements"@,
                "compare heuristics found plausible old->new asset remap candidates"@,
            ]);
            assert(kinds@ =~= seq![WwmiPatternKind::MappingOrHashUpdate, WwmiPatternKind::ShaderLogicChange]);
            assert(views(actions@) =~= seq!["Inspect candidate_mapping_hints and verify that the replacement asset is semantically equivalent."@, "If validated, prepare a mapping proposal instead of patching blindly."@]);
            assert(views(freasons@) =~= seq!["WWMI history frequently resolves update breakage through mapping/hash updates."@, "The compare report shows removed assets with plausible replacements."@]);
            assert(fkinds@ =~= seq![WwmiPatternKind::MappingOrHashUpdate]);
        }
        let cause = make_cause("asset_paths_or_mapping_shifted", "Assets disappeared from their old paths but plausible replacements exist in the new snapshot; the mod likely needs remapping.", conf, RiskLevel::High, affected, reasons, evidence);
        let fix = make_fix("review_candidate_asset_remaps", "Review the inferred old->new asset remap candidates and update mappings for removed paths.", conf, RiskLevel::High, actions, freasons, fevidence);
        return (Some(cause), Some(fix));
    }
    if removed.len() > 0 {
        let conf = conf_exec(kb, 450, 200, WwmiPatternKind::MappingOrHashUpdate, 0, WwmiPatternKind::MappingOrHashUpdate, 0, WwmiPatternKind::MappingOrHashUpdate, cr.scope.low_signal_compare);
        let affected = change_lines(&cr.removed_assets, &removed, 2);
        let mut reasons: Vec<String> = Vec::new();
push_text(&mut reasons, new_string("removed assets exist without strong compare-level remap candidates"));
        let mut kinds: Vec<WwmiPatternKind> = Vec::new();
kinds.push(WwmiPatternKind::MappingOrHashUpdate);
        let evidence = evidence_of(kb, &kinds);
        proof {
            assert(kinds@ =~= seq![WwmiPatternKind::MappingOrHashUpdate]);
            assert(views(reasons@) =~= seq!["removed assets exist without strong compare-level remap candidates"@]);
        }
        let cause = make_cause("asset_removed_without_clear_replacement", "Some old asset paths disappeared and the tool could not find strong replacements; the mod may target stale assets.", conf, RiskLevel::Medium, affected, reasons, evidence);
        return (Some(cause), None);
    }
    (None, None)
}

pub open spec fn spec_b6_cause(cr: SnapshotCompareReport, kb: WwmiKnowledgeBase) -> Option<CauseModel> {
    let sel = keep(cr.changed_assets@, change_pred(2));
    if sel.len() > 0 {
        Some(
            CauseModel {
                code: "asset_signature_or_hash_changed"@,
                summary: "Asset identity signals changed across versions; shader or hash-based targeting may no longer match."@,
                confidence_milli: conf_spec(kb, 450, 200, WwmiPatternKind::MappingOrHashUpdate, 100, WwmiPatternKind::ShaderLogicChange, 0, WwmiPatternKind::MappingOrHashUpdate, cr.scope.low_signal_compare),
                risk: if any_high_crash_risk(sel) {
                    RiskLevel::High
                } else {
                    RiskLevel::Medium
                },
                affected: flat(sel, change_line_fn(0)),
                reasons: seq!["changed assets include name/hash/signature fields"@],
                evidence: pattern_evidence(kb, seq![WwmiPatternKind::MappingOrHashUpdate, WwmiPatternKind::ShaderLogicChange]),
            },
        )
    } else {
        None
    }
}

fn block_b6(cr: &SnapshotCompareReport, kb: &WwmiKnowledgeBase) -> (r: Option<ProbableCrashCause>)
    ensures
        opt_cause_model(r) == spec_b6_cause(*cr, *kb),
{
    let cs = &cr.changed_assets;
    let sel = change_positions(cs, 2);
    if sel.len() == 0 {
        return None;
    }
    let conf = conf_exec(kb, 450, 200, WwmiPatternKind::MappingOrHashUpdate, 100, WwmiPatternKind::ShaderLogicChange, 0, WwmiPatternKind::MappingOrHashUpdate, cr.scope.low_signal_compare);
    let risk = if any_high_crash_risk_exec(cs, &sel) {
        RiskLevel::High
    } else {
        RiskLevel::Medium
    };
    let affected = change_lines(cs, &sel, 0);
    let mut reasons: Vec<String> = Vec::new();
push_text(&mut reasons, new_string("changed assets include name/hash/signature fields"));
    let mut kinds: Vec<WwmiPatternKind> = Vec::new();
kinds.push(WwmiPatternKind::MappingOrHashUpdate);
kinds.push(WwmiPatternKind::ShaderLogicChange);
    let evidence = evidence_of(kb, &kinds);
    proof {
        assert(kinds@ =~= seq![WwmiPatternKind::MappingOrHashUpdate, WwmiPatternKind::ShaderLogicChange]);
        assert(views(reasons@) =~= seq!["changed assets include name/hash/signature fields"@]);
    }
    Some(make_cause("asset_signature_or_hash_changed", "Asset identity signals changed across versions; shader or hash-based targeting may no longer match.", conf, risk, affected, reasons, evidence))
}

pub open spec fn spec_b7_cause(kb: WwmiKnowledgeBase, low_signal: bool) -> CauseModel {
    CauseModel {
        code: "possible_runtime_initialization_issue"@,
        summary: "The snapshot diff alone is inconclusive; WWMI history suggests some crashes are caused by timing/init-order issues rather than asset inventory drift."@,
        confidence_milli: scaled(blend(250, 250 * pattern_support(kb, WwmiPatternKind::StartupTimingAdjustment)), low_signal),
        risk: RiskLevel::Low,
        affected: Seq::empty(),
        reasons: seq!["compare report did not surface strong asset-diff evidence"@, "WWMI history contains startup/timing-related fixes"@],
        evidence: pattern_evidence(kb, seq![WwmiPatternKind::StartupTimingAdjustment]),
    }
}

pub open spec fn spec_b7_fix(kb: WwmiKnowledgeBase, low_signal: bool) -> FixModel {
    FixModel {
        code: "review_runtime_init_path"@,
        summary: "If asset diffs do not explain the crash, review startup/init ordering and runtime guards before patching mappings."@,
        confidence_milli: scaled(blend(250, 250 * pattern_support(kb, WwmiPatternKind::StartupTimingAdjustment)), low_signal),
        priority: RiskLevel::Low,
        actions: seq!["Compare current runtime config against known-working WWMI timing-related fixes."@, "Check whether the crash happens before mod data is actually consumed."@],
        reasons: seq!["WWMI history shows timing/init changes as a recurring crash-fix pattern."@],
        evidence: pattern_evidence(kb, seq![WwmiPatternKind::StartupTimingAdjustment]),
    }
}

fn block_b7(kb: &WwmiKnowledgeBase, low_signal: bool) -> (r: (ProbableCrashCause, SuggestedFix))
    ensures
        cause_model(r.0) == spec_b7_cause(*kb, low_signal),
        fix_model(r.1) == spec_b7_fix(*kb, low_signal),
{
    let conf = conf_exec(kb, 250, 250, WwmiPatternKind::StartupTimingAdjustment, 0, WwmiPatternKind::MappingOrHashUpdate, 0, WwmiPatternKind::MappingOrHashUpdate, low_signal);
    let mut reasons: Vec<String> = Vec::new();
push_text(&mut reasons, new_string("compare report did not surface strong asset-diff evidence"));
push_text(&mut reasons, new_string("WWMI history contains startup/timing-related fixes"));
    let mut kinds: Vec<WwmiPatternKind> = Vec::new();
kinds.push(WwmiPatternKind::StartupTimingAdjustment);
    let evidence = evidence_of(kb, &kinds);
    let mut actions: Vec<String> = Vec::new();
push_text(&mut actions, new_string("Compare current runtime config against known-working WWMI timing-related fixes."));
push_text(&mut actions, new_string("Check whether the crash happens before mod data is actually consumed."));
    let mut freasons: Vec<String> = Vec::new();
push_text(&mut freasons, new_string("WWMI history shows timing/init changes as a recurring crash-fix pattern."));
    let fevidence = evidence_of(kb, &kinds);
    proof {
        assert(kinds@ =~= seq![WwmiPatternKind::StartupTimingAdjustment]);
        assert(views(reasons@) =~= seq!["compare report did not surface strong asset-diff evidence"@, "WWMI history contains startup/timing-related fixes"@]);
        assert(views(actions@) =~= seq!["Compare current runtime config against known-working WWMI timing-related fixes."@, "Check whether the crash happens before mod data is actually consumed."@]);
        assert(views(freasons@) =~= seq!["WWMI history shows timing/init changes as a recurring crash-fix pattern."@]);
    }
    let none: Vec<String> = Vec::new();
    proof {
        assert(views(none@) =~= Seq::<Seq<char>>::empty());
    }
    let cause = make_cause("possible_runtime_initialization_issue", "The snapshot diff alone is inconclusive; WWMI history suggests some crashes are caused by timing/init-order issues rather than asset inventory drift.", conf, RiskLevel::Low, none, reasons, evidence);
    let fix = make_fix("review_runtime_init_path", "If asset diffs do not explain the crash, review startup/init ordering and runtime guards before patching mappings.", conf, RiskLevel::Low, actions, freasons, fevidence);
    (cause, fix)
}

// ---------------------------------------------------------------------------
// All findings
// ---------------------------------------------------------------------------

pub open spec fn opt_seq<T>(o: Option<T>) -> Seq<T> {
    match o {
        Some(x) => seq![x],
        None => Seq::empty(),
    }
}

/// The causes read off the compare report, in the order they are looked for:
/// structural drift, removals, structurally risky, blocked and weakly evidenced
/// candidates, and identity changes.
pub open spec fn spec_compare_causes(cr: SnapshotCompareReport, kb: WwmiKnowledgeBase) -> Seq<CauseModel> {
    opt_seq(spec_b1_cause(cr, kb)) + opt_seq(spec_b2_cause(cr, kb)) + opt_seq(spec_b3_cause(cr, kb))
        + opt_seq(spec_b4_cause(cr, kb)) + opt_seq(spec_b5_cause(cr, kb)) + opt_seq(
        spec_b6_cause(cr, kb),
    )
}

/// When the compare report shows no cause and the history supports timing fixes at
/// 500 thousandths or more, a possible runtime-initialization issue is reported.
pub open spec fn spec_timing_fallback(cr: SnapshotCompareReport, kb: WwmiKnowledgeBase) -> bool {
    spec_compare_causes(cr, kb).len() == 0 && pattern_support(
        kb,
        WwmiPatternKind::StartupTimingAdjustment,
    ) >= 500
}

pub open spec fn spec_causes(cr: SnapshotCompareReport, kb: WwmiKnowledgeBase) -> Seq<CauseModel> {
    if spec_timing_fallback(cr, kb) {
        seq![spec_b7_cause(kb, cr.scope.low_signal_compare)]
    } else {
        spec_compare_causes(cr, kb)
    }
}

pub open spec fn spec_fixes(cr: SnapshotCompareReport, kb: WwmiKnowledgeBase) -> Seq<FixModel> {
    opt_seq(spec_b1_fix(cr, kb)) + opt_seq(spec_b2_fix(cr, kb)) + opt_seq(spec_b3_fix(cr, kb))
        + opt_seq(spec_b4_fix(cr, kb)) + opt_seq(spec_b5_fix(cr, kb)) + if spec_timing_fallback(
        cr,
        kb,
    ) {
        seq![spec_b7_fix(kb, cr.scope.low_signal_compare)]
    } else {
        Seq::empty()
    }
}

fn push_cause(v: &mut Vec<ProbableCrashCause>, o: Option<ProbableCrashCause>)
    ensures
        final(v)@.map_values(|c: ProbableCrashCause| cause_model(c)) == old(v)@.map_values(
            |c: ProbableCrashCause| cause_model(c),
        ) + opt_seq(opt_cause_model(o)),
{
    match o {
        Some(c) => {
            let ghost before = v@;
            v.push(c);
            proof {
                assert(v@.map_values(|c: ProbableCrashCause| cause_model(c)) =~= before.map_values(
                    |c: ProbableCrashCause| cause_model(c),
                ).push(cause_model(c)));
            }
        },
        None => {
            proof {
                assert(v@.map_values(|c: ProbableCrashCause| cause_model(c)) + opt_seq(
                    opt_cause_model(o),
                ) =~= v@.map_values(|c: ProbableCrashCause| cause_model(c)));
            }
        },
    }
}

fn push_fix(v: &mut Vec<SuggestedFix>, o: Option<SuggestedFix>)
    ensures
        final(v)@.map_values(|f: SuggestedFix| fix_model(f)) == old(v)@.map_values(
            |f: SuggestedFix| fix_model(f),
        ) + opt_seq(opt_fix_model(o)),
{
    match o {
        Some(f) => {
            let ghost before = v@;
            v.push(f);
            proof {
                assert(v@.map_values(|f: SuggestedFix| fix_model(f)) =~= before.map_values(
                    |f: SuggestedFix| fix_model(f),
                ).push(fix_model(f)));
            }
        },
        None => {
            proof {
                assert(v@.map_values(|f: SuggestedFix| fix_model(f)) + opt_seq(opt_fix_model(o))
                    =~= v@.map_values(|f: SuggestedFix| fix_model(f)));
            }
        },
    }
}

impl crate::inference::FixInferenceEngine {
    /// The probable crash causes and the fixes they suggest that a compare report
    /// and the WWMI fix history give, before continuity, low-signal and mod-side
    /// adjustments and before ordering.
    pub fn probable_causes_and_fixes(
        &self,
        compare_report: &SnapshotCompareReport,
        knowledge: &WwmiKnowledgeBase,
    ) -> (r: (Vec<ProbableCrashCause>, Vec<SuggestedFix>))
        ensures
            r.0@.map_values(|c: ProbableCrashCause| cause_model(c)) == spec_causes(
                *compare_report,
                *knowledge,
            ),
            r.1@.map_values(|f: SuggestedFix| fix_model(f)) == spec_fixes(
                *compare_report,
                *knowledge,
            ),
    {
        let cr = compare_report;
        let kb = knowledge;
        let mut causes: Vec<ProbableCrashCause> = Vec::new();
        let mut fixes: Vec<SuggestedFix> = Vec::new();
        proof {
            assert(causes@.map_values(|c: ProbableCrashCause| cause_model(c)) =~= Seq::<
                CauseModel,
            >::empty());
            assert(fixes@.map_values(|f: SuggestedFix| fix_model(f)) =~= Seq::<FixModel>::empty());
        }
        let (c1, f1) = block_b1(cr, kb);
        push_cause(&mut causes, c1);
        push_fix(&mut fixes, f1);
        let (c2, f2) = block_b2(cr, kb);
        push_cause(&mut causes, c2);
        push_fix(&mut fixes, f2);
        let (c3, f3) = block_b3(cr, kb);
        push_cause(&mut causes, c3);
        push_fix(&mut fixes, f3);
        let (c4, f4) = block_b4(cr, kb);
        push_cause(&mut causes, c4);
        push_fix(&mut fixes, f4);
        let (c5, f5) = block_b5(cr, kb);
        push_cause(&mut causes, c5);
        push_fix(&mut fixes, f5);
        let c6 = block_b6(cr, kb);
        push_cause(&mut causes, c6);
        proof {
            assert(causes@.map_values(|c: ProbableCrashCause| cause_model(c)) =~= spec_compare_causes(
                *cr,
                *kb,
            ));
        }
        if causes.len() == 0 && support_of(kb, WwmiPatternKind::StartupTimingAdjustment) >= 500 {
            let (c7, f7) = block_b7(kb, cr.scope.low_signal_compare);
            let ghost before = fixes@;
            causes.push(c7);
            fixes.push(f7);
            proof {
                assert(causes@.map_values(|c: ProbableCrashCause| cause_model(c)) =~= seq![
                    cause_model(c7),
                ]);
                assert(fixes@.map_values(|f: SuggestedFix| fix_model(f)) =~= before.map_values(
                    |f: SuggestedFix| fix_model(f),
                ).push(fix_model(f7)));
            }
        }
        proof {
            assert(fixes@.map_values(|f: SuggestedFix| fix_model(f)) =~= spec_fixes(*cr, *kb));
        }
        (causes, fixes)
    }
}


// ---------------------------------------------------------------------------
// Identity changes always surface
// ---------------------------------------------------------------------------

proof fn lemma_keep_contains<T>(s: Seq<T>, p: spec_fn(T) -> bool, j: int)
    requires
        0 <= j < s.len(),
        p(s[j]),
    ensures
        keep(s, p).contains(s[j]),
    decreases s.len(),
{
    if j == s.len() - 1 {
        assert(keep(s, p).last() == s[j]);
    } else {
        assert(s.drop_last()[j] == s[j]);
        lemma_keep_contains(s.drop_last(), p, j);
        let k = choose|k: int| 0 <= k < keep(s.drop_last(), p).len() && keep(s.drop_last(), p)[k] == s[j];
        if p(s.last()) {
            assert(keep(s, p)[k] == s[j]);
        }
    }
}

proof fn lemma_flat_contains<T>(s: Seq<T>, f: spec_fn(T) -> Seq<Seq<char>>, x: T, y: Seq<char>)
    requires
        s.contains(x),
        f(x).contains(y),
    ensures
        flat(s, f).contains(y),
    decreases s.len(),
{
    let k = choose|k: int| 0 <= k < s.len() && s[k] == x;
    let fx = f(x);
    let m = choose|m: int| 0 <= m < fx.len() && fx[m] == y;
    if k == s.len() - 1 {
        let base = flat(s.drop_last(), f);
        assert(flat(s, f) == base + fx);
        assert(flat(s, f)[base.len() + m] == y);
    } else {
        assert(s.drop_last()[k] == x);
        lemma_flat_contains(s.drop_last(), f, x, y);
        let i = choose|i: int| 0 <= i < flat(s.drop_last(), f).len() && flat(s.drop_last(), f)[i] == y;
        assert(flat(s, f)[i] == y);
    }
}

/// A changed asset whose name, hash, signature or kind changed always yields the
/// `asset_signature_or_hash_changed` cause, and that cause names the asset's path
/// (its new path, else its old one).
pub proof fn identity_changes_raise_the_signature_cause(
    cr: SnapshotCompareReport,
    kb: WwmiKnowledgeBase,
    j: int,
    f: int,
)
    requires
        0 <= j < cr.changed_assets@.len(),
        0 <= f < cr.changed_assets@[j].changed_fields@.len(),
        ({
            let field = cr.changed_assets@[j].changed_fields@[f]@;
            field == "asset_hash"@ || field == "shader_hash"@ || field == "signature"@ || field
                == "normalized_name"@ || field == "logical_name"@ || field == "kind"@
        }),
        cr.changed_assets@[j].new_asset is Some || cr.changed_assets@[j].old_asset is Some,
    ensures
        exists|k: int|
            0 <= k < spec_causes(cr, kb).len() && (#[trigger] spec_causes(cr, kb)[k]).code
                == "asset_signature_or_hash_changed"@ && spec_causes(cr, kb)[k].affected.contains(
                match cr.changed_assets@[j].new_asset {
                    Some(a) => a.path@,
                    None => cr.changed_assets@[j].old_asset->0.path@,
                },
            ),
{
    let c = cr.changed_assets@[j];
    let path = match c.new_asset {
        Some(a) => a.path@,
        None => c.old_asset->0.path@,
    };
    assert(is_identity_field_label(c.changed_fields@[f]@));
    assert(is_name_or_hash(c));
    assert((change_pred(2))(c));
    lemma_keep_contains(cr.changed_assets@, change_pred(2), j);
    let sel = keep(cr.changed_assets@, change_pred(2));
    assert(sel.len() > 0);
    assert(change_path_lines(c)[0] == path);
    assert((change_line_fn(0))(c).contains(path));
    lemma_flat_contains(sel, change_line_fn(0), c, path);
    let cause = spec_b6_cause(cr, kb)->0;
    let all = spec_compare_causes(cr, kb);
    assert(all.len() > 0);
    assert(all.last() == cause);
    assert(spec_causes(cr, kb) == all);
    assert(spec_causes(cr, kb)[all.len() - 1] == cause);
}

proof fn lemma_keep_members<T>(s: Seq<T>, p: spec_fn(T) -> bool, k: int)
    requires
        0 <= k < keep(s, p).len(),
    ensures
        p(keep(s, p)[k]),
        s.contains(keep(s, p)[k]),
    decreases s.len(),
{
    let d = s.drop_last();
    if p(s.last()) && k == keep(d, p).len() {
        assert(keep(s, p)[k] == s.last());
        assert(s[s.len() - 1] == s.last());
    } else {
        assert(keep(s, p)[k] == keep(d, p)[k]);
        lemma_keep_members(d, p, k);
        let m = choose|m: int| 0 <= m < d.len() && d[m] == keep(d, p)[k];
        assert(s[m] == d[m]);
    }
}

/// The identity cause is high risk exactly when some asset whose name, hash,
/// signature or kind changed carries a high crash risk, and medium otherwise.
pub proof fn signature_cause_risk_follows_the_riskiest_identity_change(cr: SnapshotCompareReport, kb: WwmiKnowledgeBase)
    requires
        spec_b6_cause(cr, kb) is Some,
    ensures
        spec_b6_cause(cr, kb)->0.risk == RiskLevel::High <==> exists|j: int|
            0 <= j < cr.changed_assets@.len() && is_name_or_hash(#[trigger] cr.changed_assets@[j])
                && cr.changed_assets@[j].crash_risk == RiskLevel::High,
        spec_b6_cause(cr, kb)->0.risk == RiskLevel::High || spec_b6_cause(cr, kb)->0.risk == RiskLevel::Medium,
{
    let cs = cr.changed_assets@;
    let sel = keep(cs, change_pred(2));
    if exists|j: int| 0 <= j < cs.len() && is_name_or_hash(#[trigger] cs[j]) && cs[j].crash_risk == RiskLevel::High {
        let j = choose|j: int| 0 <= j < cs.len() && is_name_or_hash(#[trigger] cs[j]) && cs[j].crash_risk == RiskLevel::High;
        assert((change_pred(2))(cs[j]));
        lemma_keep_contains(cs, change_pred(2), j);
        let k = choose|k: int| 0 <= k < sel.len() && sel[k] == cs[j];
        assert(any_high_crash_risk(sel));
    }
    if any_high_crash_risk(sel) {
        let k = choose|k: int| 0 <= k < sel.len() && (#[trigger] sel[k]).crash_risk == RiskLevel::High;
        lemma_keep_members(cs, change_pred(2), k);
        let j = choose|j: int| 0 <= j < cs.len() && cs[j] == sel[k];
        assert(is_name_or_hash(cs[j]));
    }
}

} // verus!
