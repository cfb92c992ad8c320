//! One remap hint per compare candidate: its confidence blended with the WWMI
//! mapping support, its compatibility tempered by a low-signal scope and by the
//! thread's continuity history, and the reasons and evidence behind it. Confidences
//! are thousandths; a blend is rounded down and capped at 1000, and a penalty never
//! takes a confidence below 0.
use vstd::prelude::*;
use crate::compare::outcome::CandidateMappingChange;
use crate::compare::{has_reason_code, RemapCompatibility, SnapshotCompareReason};
use crate::continuity::{
    build_mapping_hint_continuity_context, continuity_signal_evidence,
    downgrade_compatibility_for_layout_history, downgrade_compatibility_for_terminal_history,
    spec_downgrade_layout, spec_downgrade_terminal, spec_signal_details, ContinuitySignal,
};
use crate::human_summary::{continuity_relation_label, spec_relation_label};
use crate::inference::{
    compatibility_phrase, reason_to_string, spec_compatibility_phrase, InferenceScopeContext,
    InferredMappingContinuityContext, InferredMappingHint, ProbableCrashCause, SuggestedFix,
};
use crate::report::VersionContinuityRelation;
use crate::text::{
    decimal, decimal_string, fixed3, fixed3_string, join_seq, new_string, push_str, push_text,
    views,
};

verus! {

pub open spec fn has_code(c: CandidateMappingChange, code: Seq<char>) -> bool {
    exists|i: int| 0 <= i < c.reasons@.len() && #[trigger] c.reasons@[i].code@ == code
}

/// A low-signal scope still trusts a likely-compatible remap when the name and
/// folder match, the structure stayed compatible, nothing conflicts, the
/// confidence is at least 900 and any runner-up trails by at least 120.
pub open spec fn spec_structural_anchor(c: CandidateMappingChange) -> bool {
    &&& has_code(c, "normalized_name_exact"@) && has_code(c, "same_parent_directory"@)
    &&& has_code(c, "structural_layout_compatible"@) || has_code(c, "buffer_layout_compatible"@)
    &&& !(has_code(c, "identity_conflict_detected"@) || has_code(c, "same_asset_but_structural_drift"@)
        || has_code(c, "buffer_layout_validation_needed"@) || has_code(c, "weak_identity_evidence"@)
        || has_code(c, "signature_mismatch"@) || has_code(c, "kind_mismatch"@))
    &&& c.confidence_milli >= 900
    &&& match c.confidence_gap_milli {
        Some(g) => g >= 120,
        None => true,
    }
}

pub fn has_low_signal_structural_remap_anchor(c: &CandidateMappingChange) -> (r: bool)
    ensures
        r == spec_structural_anchor(*c),
{
    let rs = &c.reasons;
    let name = has_reason_code(rs, "normalized_name_exact") && has_reason_code(
        rs,
        "same_parent_directory",
    );
    let structural = has_reason_code(rs, "structural_layout_compatible") || has_reason_code(
        rs,
        "buffer_layout_compatible",
    );
    let conflict = has_reason_code(rs, "identity_conflict_detected") || has_reason_code(
        rs,
        "same_asset_but_structural_drift",
    ) || has_reason_code(rs, "buffer_layout_validation_needed") || has_reason_code(
        rs,
        "weak_identity_evidence",
    ) || has_reason_code(rs, "signature_mismatch") || has_reason_code(rs, "kind_mismatch");
    let gap_ok = match c.confidence_gap_milli {
        Some(g) => g >= 120,
        None => true,
    };
    name && structural && !conflict && c.confidence_milli >= 900 && gap_ok
}

/// A low-signal scope tempers a candidate's compatibility: a likely-compatible
/// remap with an exact signature or asset hash keeps only caution, one with a
/// structural anchor stays, any other falls to insufficient evidence; a cautious
/// one falls to insufficient evidence.
pub open spec fn spec_adjust(c: CandidateMappingChange, low_signal: bool) -> RemapCompatibility {
    if !low_signal {
        c.compatibility
    } else {
        match c.compatibility {
            RemapCompatibility::LikelyCompatible => if has_code(c, "signature_exact"@) || has_code(
                c,
                "asset_hash_exact"@,
            ) {
                RemapCompatibility::CompatibleWithCaution
            } else if spec_structural_anchor(c) {
                RemapCompatibility::LikelyCompatible
            } else {
                RemapCompatibility::InsufficientEvidence
            },
            RemapCompatibility::CompatibleWithCaution => RemapCompatibility::InsufficientEvidence,
            other => other,
        }
    }
}

pub fn adjust_hint_compatibility(c: &CandidateMappingChange, scope: &InferenceScopeContext) -> (r:
    RemapCompatibility)
    ensures
        r == spec_adjust(*c, scope.low_signal_compare),
{
    if !scope.low_signal_compare {
        return c.compatibility;
    }
    match c.compatibility {
        RemapCompatibility::LikelyCompatible => {
            if has_reason_code(&c.reasons, "signature_exact") || has_reason_code(
                &c.reasons,
                "asset_hash_exact",
            ) {
                RemapCompatibility::CompatibleWithCaution
            } else if has_low_signal_structural_remap_anchor(c) {
                RemapCompatibility::LikelyCompatible
            } else {
                RemapCompatibility::InsufficientEvidence
            }
        },
        RemapCompatibility::CompatibleWithCaution => RemapCompatibility::InsufficientEvidence,
        other => other,
    }
}

// ---------------------------------------------------------------------------
// Confidence arithmetic in thousandths
// ---------------------------------------------------------------------------

pub open spec fn sat_sub(x: nat, y: nat) -> nat {
    if x >= y {
        (x - y) as nat
    } else {
        0
    }
}

pub open spec fn capped_add(x: nat, y: nat) -> nat {
    if x + y > 1000 {
        1000
    } else {
        x + y
    }
}

/// 70% of the candidate's confidence and 30% of the mapping support, less 120 for
/// an ambiguous candidate and 30 for a low-signal scope.
pub open spec fn spec_hint_base_confidence(c: CandidateMappingChange, support: nat, low_signal: bool) -> nat {
    let v = (700 * (c.confidence_milli as nat) + 300 * support) / 1000;
    let base = if v > 1000 {
        1000
    } else {
        v
    };
    let a = if c.ambiguous {
        sat_sub(base, 120)
    } else {
        base
    };
    if low_signal {
        sat_sub(a, 30)
    } else {
        a
    }
}

fn hint_base_confidence(c: &CandidateMappingChange, support: u32, low_signal: bool) -> (r: u32)
    requires
        support <= 1000,
    ensures
        r == spec_hint_base_confidence(*c, support as nat, low_signal),
        r <= 1000,
{
    let cm = c.confidence_milli as u64;
    let sm = support as u64;
    proof {
        assert(700 * cm <= 700 * 0xffff_ffffu64) by (nonlinear_arith)
            requires
                cm <= 0xffff_ffffu64,
        ;
    }
    let v = (700 * cm + 300 * sm) / 1000;
    let base: u64 = if v > 1000 {
        1000
    } else {
        v
    };
    let a: u64 = if c.ambiguous {
        if base >= 120 {
            base - 120
        } else {
            0
        }
    } else {
        base
    };
    let b: u64 = if low_signal {
        if a >= 30 {
            a - 30
        } else {
            0
        }
    } else {
        a
    };
    b as u32
}

// ---------------------------------------------------------------------------
// Continuity history
// ---------------------------------------------------------------------------

/// How much a terminal state of the thread costs: 120 for an ambiguous or
/// unproven end, 100 for a replacement or removal, nothing otherwise.
pub open spec fn terminal_penalty(rel: VersionContinuityRelation) -> nat {
    match rel {
        VersionContinuityRelation::Ambiguous | VersionContinuityRelation::InsufficientEvidence => 120,
        VersionContinuityRelation::Replacement | VersionContinuityRelation::Removed => 100,
        _ => 0,
    }
}

pub open spec fn spec_continuity_confidence(s: ContinuitySignal, conf: nat) -> nat {
    let c1 = if s.spec_stable_before() {
        capped_add(conf, 30)
    } else {
        conf
    };
    let c2 = if s.spec_layout_steps() >= 2 {
        sat_sub(c1, 80)
    } else {
        c1
    };
    let c3 = if s.review_required {
        sat_sub(c2, 50)
    } else {
        c2
    };
    match s.terminal_relation {
        Some(rel) => sat_sub(c3, terminal_penalty(rel)),
        None => c3,
    }
}

pub open spec fn spec_continuity_compatibility(s: ContinuitySignal, comp: RemapCompatibility) -> RemapCompatibility {
    let c2 = if s.spec_layout_steps() >= 2 {
        spec_downgrade_layout(comp)
    } else {
        comp
    };
    match s.terminal_relation {
        Some(rel) => spec_downgrade_terminal(c2, rel),
        None => c2,
    }
}

pub open spec fn when(b: bool, line: Seq<char>) -> Seq<Seq<char>> {
    if b {
        seq![line]
    } else {
        Seq::empty()
    }
}

pub open spec fn spec_continuity_reasons(s: ContinuitySignal, current_new_version: Seq<char>) -> Seq<
    Seq<char>,
> {
    when(
        s.spec_stable_before(),
        "continuity kept this thread stable for "@ + decimal(s.prior_persisted_steps as nat)
            + " earlier step(s) before the current "@ + spec_relation_label(s.current_relation),
    ) + when(
        s.spec_rename_steps() >= 2,
        "continuity shows "@ + decimal(s.spec_rename_steps())
            + " rename/repath steps on this thread; path movement recurs across versions, so keep the remap review-first"@,
    ) + when(
        s.spec_container_steps() >= 2,
        "continuity shows "@ + decimal(s.spec_container_steps())
            + " container/package movement steps on this thread; verify package context as well as path equivalence"@,
    ) + when(
        s.spec_layout_steps() >= 2,
        "continuity records repeated layout drift on this thread; remap-only repair is risky"@,
    ) + when(
        s.review_required,
        "continuity already marked this thread review-required elsewhere in the broader chain"@,
    ) + match s.terminal_relation {
        Some(rel) => seq![
            "continuity "@ + (if s.spec_terminal_after(current_new_version) {
                "later marks"@
            } else {
                "marks"@
            }) + " this thread as "@ + spec_relation_label(rel) + " in "@ + match s.terminal_version {
                Some(v) => v@,
                None => s.latest_observed_version@,
            },
        ],
        None => Seq::empty(),
    }
}

fn push_when(v: &mut Vec<String>, b: bool, line: String)
    ensures
        views(final(v)@) == views(old(v)@) + when(b, line@),
{
    if b {
        push_text(v, line);
    } else {
        proof {
            assert(views(v@) + when(b, line@) =~= views(v@));
        }
    }
}

fn continuity_reasons(s: &ContinuitySignal, current_new_version: &str) -> (r: Vec<String>)
    requires
        s.counts_fit(),
    ensures
        views(r@) == spec_continuity_reasons(*s, current_new_version@),
{
    let mut out: Vec<String> = Vec::new();
    let mut l = new_string("continuity kept this thread stable for ");
    let n = decimal_string(s.prior_persisted_steps);
    push_str(&mut l, n.as_str());
    push_str(&mut l, " earlier step(s) before the current ");
    push_str(&mut l, continuity_relation_label(&s.current_relation));
    push_when(&mut out, s.stable_before_current_change(), l);
    let rename = s.total_rename_steps();
    let mut l = new_string("continuity shows ");
    let n = decimal_string(rename);
    push_str(&mut l, n.as_str());
    push_str(
        &mut l,
        " rename/repath steps on this thread; path movement recurs across versions, so keep the remap review-first",
    );
    push_when(&mut out, rename >= 2, l);
    let container = s.total_container_movement_steps();
    let mut l = new_string("continuity shows ");
    let n = decimal_string(container);
    push_str(&mut l, n.as_str());
    push_str(
        &mut l,
        " container/package movement steps on this thread; verify package context as well as path equivalence",
    );
    push_when(&mut out, container >= 2, l);
    push_when(
        &mut out,
        s.total_layout_drift_steps() >= 2,
        new_string("continuity records repeated layout drift on this thread; remap-only repair is risky"),
    );
    push_when(
        &mut out,
        s.review_required,
        new_string(
            "continuity already marked this thread review-required elsewhere in the broader chain",
        ),
    );
    let ghost before = views(out@);
    match &s.terminal_relation {
        Some(rel) => {
            let mut l = new_string("continuity ");
            push_str(
                &mut l,
                if s.terminal_after_current(current_new_version) {
                    "later marks"
                } else {
                    "marks"
                },
            );
            push_str(&mut l, " this thread as ");
            push_str(&mut l, continuity_relation_label(rel));
            push_str(&mut l, " in ");
            match &s.terminal_version {
                Some(v) => push_str(&mut l, v.as_str()),
                None => push_str(&mut l, s.latest_observed_version.as_str()),
            }
            push_text(&mut out, l);
        },
        None => {},
    }
    proof {
        assert(views(out@) =~= spec_continuity_reasons(*s, current_new_version@));
    }
    out
}

fn continuity_confidence(s: &ContinuitySignal, conf: u32) -> (r: u32)
    requires
        s.counts_fit(),
        conf <= 1000,
    ensures
        r == spec_continuity_confidence(*s, conf as nat),
        r <= 1000,
{
    let c1: u32 = if s.stable_before_current_change() {
        if conf + 30 > 1000 {
            1000
        } else {
            conf + 30
        }
    } else {
        conf
    };
    let c2: u32 = if s.total_layout_drift_steps() >= 2 {
        if c1 >= 80 {
            c1 - 80
        } else {
            0
        }
    } else {
        c1
    };
    let c3: u32 = if s.review_required {
        if c2 >= 50 {
            c2 - 50
        } else {
            0
        }
    } else {
        c2
    };
    match &s.terminal_relation {
        Some(rel) => {
            let p: u32 = match rel {
                VersionContinuityRelation::Ambiguous => 120,
                VersionContinuityRelation::InsufficientEvidence => 120,
                VersionContinuityRelation::Replacement => 100,
                VersionContinuityRelation::Removed => 100,
                _ => 0,
            };
            if c3 >= p {
                c3 - p
            } else {
                0
            }
        },
        None => c3,
    }
}

fn continuity_compatibility(s: &ContinuitySignal, comp: RemapCompatibility) -> (r: RemapCompatibility)
    requires
        s.counts_fit(),
    ensures
        r == spec_continuity_compatibility(*s, comp),
{
    let c2 = if s.total_layout_drift_steps() >= 2 {
        downgrade_compatibility_for_layout_history(comp)
    } else {
        comp
    };
    match &s.terminal_relation {
        Some(rel) => downgrade_compatibility_for_terminal_history(c2, rel),
        None => c2,
    }
}

// ---------------------------------------------------------------------------
// Reasons and evidence
// ---------------------------------------------------------------------------

pub open spec fn reason_texts(rs: Seq<SnapshotCompareReason>) -> Seq<Seq<char>> {
    rs.map_values(|r: SnapshotCompareReason| r.code@ + ": "@ + r.message@)
}

fn reason_texts_exec(rs: &Vec<SnapshotCompareReason>) -> (r: Vec<String>)
    ensures
        views(r@) == reason_texts(rs@),
{
    let mut out: Vec<String> = Vec::new();
    let mut i: usize = 0;
    while i < rs.len()
        invariant
            i <= rs@.len(),
            views(out@) == reason_texts(rs@.take(i as int)),
        decreases rs.len() - i,
    {
        push_text(&mut out, reason_to_string(&rs[i]));
        proof {
            assert(reason_texts(rs@.take(i + 1)) =~= reason_texts(rs@.take(i as int)).push(
                rs@[i as int].code@ + ": "@ + rs@[i as int].message@,
            ));
        }
        i = i + 1;
    }
    proof {
        assert(rs@.take(rs@.len() as int) =~= rs@);
    }
    out
}

pub open spec fn is_hint_code(code: Seq<char>) -> bool {
    ||| code == "likely_same_asset_repathed"@
    ||| code == "same_asset_but_structural_drift"@
    ||| code == "identity_conflict_detected"@
    ||| code == "weak_identity_evidence"@
}

/// The candidate reasons a hint cites as evidence.
pub open spec fn hint_code_texts(rs: Seq<SnapshotCompareReason>) -> Seq<Seq<char>>
    decreases rs.len(),
{
    if rs.len() == 0 {
        Seq::empty()
    } else if is_hint_code(rs.last().code@) {
        hint_code_texts(rs.drop_last()).push(rs.last().code@ + ": "@ + rs.last().message@)
    } else {
        hint_code_texts(rs.drop_last())
    }
}

fn hint_code_texts_exec(rs: &Vec<SnapshotCompareReason>) -> (r: Vec<String>)
    ensures
        views(r@) == hint_code_texts(rs@),
{
    let mut out: Vec<String> = Vec::new();
    let mut i: usize = 0;
    proof {
        assert(rs@.take(0) =~= Seq::<SnapshotCompareReason>::empty());
    }
    while i < rs.len()
        invariant
            i <= rs@.len(),
            views(out@) == hint_code_texts(rs@.take(i as int)),
        decreases rs.len() - i,
    {
        proof {
            assert(rs@.take(i + 1).drop_last() =~= rs@.take(i as int));
            assert(rs@.take(i + 1).last() == rs@[i as int]);
        }
        let code = rs[i].code.as_str();
        if crate::text::str_eq(code, "likely_same_asset_repathed") || crate::text::str_eq(
            code,
            "same_asset_but_structural_drift",
        ) || crate::text::str_eq(code, "identity_conflict_detected") || crate::text::str_eq(
            code,
            "weak_identity_evidence",
        ) {
            push_text(&mut out, reason_to_string(&rs[i]));
        }
        i = i + 1;
    }
    proof {
        assert(rs@.take(rs@.len() as int) =~= rs@);
    }
    out
}

pub open spec fn spec_base_reasons(c: CandidateMappingChange, compat: RemapCompatibility, low_signal: bool) -> Seq<
    Seq<char>,
> {
    reason_texts(c.reasons@) + seq!["compatibility: "@ + spec_compatibility_phrase(compat)] + when(
        has_code(c, "likely_same_asset_repathed"@),
        "compare suggests this is a likely same-asset rename/repath candidate"@,
    ) + when(
        has_code(c, "same_asset_but_structural_drift"@),
        "compare also detected structural drift on this candidate, so remap-only fixes may be unsafe"@,
    ) + when(
        c.ambiguous,
        "compare detected a near-tie runner-up candidate; confidence was penalized to keep this mapping under review"@,
    ) + when(
        low_signal,
        "snapshot scope is install/package-level or low-coverage; treat remap confidence as low-signal and require conservative review"@,
    )
}

fn base_reasons(c: &CandidateMappingChange, compat: RemapCompatibility, low_signal: bool) -> (r: Vec<
    String,
>)
    ensures
        views(r@) == spec_base_reasons(*c, compat, low_signal),
{
    let mut out = reason_texts_exec(&c.reasons);
    let mut l = new_string("compatibility: ");
    push_str(&mut l, compatibility_phrase(&compat));
    push_text(&mut out, l);
    push_when(
        &mut out,
        has_reason_code(&c.reasons, "likely_same_asset_repathed"),
        new_string("compare suggests this is a likely same-asset rename/repath candidate"),
    );
    push_when(
        &mut out,
        has_reason_code(&c.reasons, "same_asset_but_structural_drift"),
        new_string(
            "compare also detected structural drift on this candidate, so remap-only fixes may be unsafe",
        ),
    );
    push_when(
        &mut out,
        c.ambiguous,
        new_string(
            "compare detected a near-tie runner-up candidate; confidence was penalized to keep this mapping under review",
        ),
    );
    push_when(
        &mut out,
        low_signal,
        new_string(
            "snapshot scope is install/package-level or low-coverage; treat remap confidence as low-signal and require conservative review",
        ),
    );
    proof {
        assert(views(out@) =~= spec_base_reasons(*c, compat, low_signal));
    }
    out
}

/// The first three scope notes, each as `scope context: note`.
pub open spec fn scope_note_lines(notes: Seq<Seq<char>>) -> Seq<Seq<char>> {
    (if notes.len() <= 3 {
        notes
    } else {
        notes.take(3)
    }).map_values(|n: Seq<char>| "scope context: "@ + n)
}

pub fn scope_note_lines_exec(notes: &Vec<String>) -> (r: Vec<String>)
    ensures
        views(r@) == scope_note_lines(views(notes@)),
{
    let n: usize = if notes.len() <= 3 {
        notes.len()
    } else {
        3
    };
    let ghost nv = views(notes@);
    let mut out: Vec<String> = Vec::new();
    let mut i: usize = 0;
    while i < n
        invariant
            i <= n <= notes@.len(),
            nv == views(notes@),
            views(out@) == nv.take(i as int).map_values(|x: Seq<char>| "scope context: "@ + x),
        decreases n - i,
    {
        let mut l = new_string("scope context: ");
        push_str(&mut l, notes[i].as_str());
        push_text(&mut out, l);
        proof {
            assert(nv.take(i + 1).map_values(|x: Seq<char>| "scope context: "@ + x) =~= nv.take(
                i as int,
            ).map_values(|x: Seq<char>| "scope context: "@ + x).push("scope context: "@ + nv[i as int]));
        }
        i = i + 1;
    }
    proof {
        if nv.len() <= 3 {
            assert(nv.take(n as int) =~= nv);
        }
    }
    out
}

pub open spec fn spec_base_evidence(
    c: CandidateMappingChange,
    support: nat,
    low_signal: bool,
    notes: Seq<Seq<char>>,
) -> Seq<Seq<char>> {
    seq![
        "compare candidate confidence "@ + fixed3(c.confidence_milli as nat)
            + " adjusted with WWMI mapping-pattern support "@ + fixed3(support),
    ] + match c.runner_up_confidence_milli {
        Some(r) => seq![
            "runner-up candidate confidence "@ + fixed3(r as nat) + " with gap "@ + match c.confidence_gap_milli {
                Some(g) => fixed3(g as nat),
                None => "unknown"@,
            },
        ],
        None => Seq::empty(),
    } + when(
        c.ambiguous,
        "mapping hint confidence penalized by 0.120 because the runner-up candidate was too close"@,
    ) + hint_code_texts(c.reasons@) + if low_signal {
        scope_note_lines(notes)
    } else {
        Seq::empty()
    }
}

fn base_evidence(c: &CandidateMappingChange, support: u32, low_signal: bool, notes: &Vec<String>) -> (r:
    Vec<String>)
    ensures
        views(r@) == spec_base_evidence(*c, support as nat, low_signal, views(notes@)),
{
    let mut out: Vec<String> = Vec::new();
    let mut l = new_string("compare candidate confidence ");
    let a = fixed3_string(c.confidence_milli);
    push_str(&mut l, a.as_str());
    push_str(&mut l, " adjusted with WWMI mapping-pattern support ");
    let b = fixed3_string(support);
    push_str(&mut l, b.as_str());
    push_text(&mut out, l);
    let ghost first = views(out@);
    match c.runner_up_confidence_milli {
        Some(r) => {
            let mut l = new_string("runner-up candidate confidence ");
            let x = fixed3_string(r);
            push_str(&mut l, x.as_str());
            push_str(&mut l, " with gap ");
            match c.confidence_gap_milli {
                Some(g) => {
                    let y = fixed3_string(g);
                    push_str(&mut l, y.as_str());
                },
                None => push_str(&mut l, "unknown"),
            }
            push_text(&mut out, l);
        },
        None => {},
    }
    push_when(
        &mut out,
        c.ambiguous,
        new_string(
            "mapping hint confidence penalized by 0.120 because the runner-up candidate was too close",
        ),
    );
    crate::text::append_texts(&mut out, hint_code_texts_exec(&c.reasons));
    if low_signal {
        crate::text::append_texts(&mut out, scope_note_lines_exec(notes));
    }
    proof {
        assert(views(out@) =~= spec_base_evidence(*c, support as nat, low_signal, views(notes@)));
    }
    out
}

// ---------------------------------------------------------------------------
// The hint
// ---------------------------------------------------------------------------

/// A mapping hint by the views of its fields (its continuity context aside).
pub struct HintModel {
    pub old_asset_path: Seq<char>,
    pub new_asset_path: Seq<char>,
    pub confidence_milli: nat,
    pub compatibility: RemapCompatibility,
    pub needs_review: bool,
    pub ambiguous: bool,
    pub confidence_gap_milli: Option<u32>,
    pub reasons: Seq<Seq<char>>,
    pub evidence: Seq<Seq<char>>,
}

pub open spec fn hint_model(h: InferredMappingHint) -> HintModel {
    HintModel {
        old_asset_path: h.old_asset_path@,
        new_asset_path: h.new_asset_path@,
        confidence_milli: h.confidence_milli as nat,
        compatibility: h.compatibility,
        needs_review: h.needs_review,
        ambiguous: h.ambiguous,
        confidence_gap_milli: h.confidence_gap_milli,
        reasons: views(h.reasons@),
        evidence: views(h.evidence@),
    }
}

/// The hint for a candidate, given the mapping support, the scope, the thread's
/// continuity signal (if the thread is known) and the current new version.
pub open spec fn spec_hint(
    c: CandidateMappingChange,
    support: nat,
    low_signal: bool,
    notes: Seq<Seq<char>>,
    signal: Option<ContinuitySignal>,
    current_new_version: Seq<char>,
) -> HintModel {
    let conf0 = spec_hint_base_confidence(c, support, low_signal);
    let comp0 = spec_adjust(c, low_signal);
    let r0 = spec_base_reasons(c, comp0, low_signal);
    let e0 = spec_base_evidence(c, support, low_signal, notes);
    let (conf, comp, rs, ev) = match signal {
        Some(s) => (
            spec_continuity_confidence(s, conf0),
            spec_continuity_compatibility(s, comp0),
            r0 + spec_continuity_reasons(s, current_new_version),
            e0 + seq![join_seq(spec_signal_details(s, current_new_version), "; "@)],
        ),
        None => (conf0, comp0, r0, e0),
    };
    HintModel {
        old_asset_path: c.old_asset.path@,
        new_asset_path: c.new_asset.path@,
        confidence_milli: conf,
        compatibility: comp,
        needs_review: true,
        ambiguous: c.ambiguous,
        confidence_gap_milli: c.confidence_gap_milli,
        reasons: rs + seq!["continuity-aware compatibility: "@ + spec_compatibility_phrase(comp)],
        evidence: ev,
    }
}

/// The continuity context a hint carries matches the thread's signal, or is absent
/// when the thread is unknown.
pub open spec fn hint_continuity_is(
    ctx: Option<InferredMappingContinuityContext>,
    signal: Option<ContinuitySignal>,
    current_new_version: Seq<char>,
) -> bool {
    match (ctx, signal) {
        (None, None) => true,
        (Some(x), Some(s)) => {
            &&& x.thread_id is Some && x.thread_id->0@ == s.thread_id@
            &&& x.first_seen_version is Some && x.first_seen_version->0@ == s.first_seen_version@
            &&& x.latest_observed_version is Some && x.latest_observed_version->0@
                == s.latest_observed_version@
            &&& crate::text::opt_view(x.latest_live_version) == crate::text::opt_view(
                s.latest_live_version,
            )
            &&& x.stable_before_current_change == s.spec_stable_before()
            &&& x.total_rename_steps == s.spec_rename_steps()
            &&& x.total_container_movement_steps == s.spec_container_steps()
            &&& x.total_layout_drift_steps == s.spec_layout_steps()
            &&& x.review_required_history == s.review_required
            &&& x.terminal_relation == s.terminal_relation
            &&& crate::text::opt_view(x.terminal_version) == crate::text::opt_view(s.terminal_version)
            &&& x.terminal_after_current == s.spec_terminal_after(current_new_version)
            &&& x.instability_detected == (s.spec_layout_steps() >= 2 || s.review_required
                || s.terminal_relation is Some)
        },
        _ => false,
    }
}

/// The remap hint for one compare candidate.
pub fn infer_mapping_hint(
    candidate: &CandidateMappingChange,
    mapping_support: u32,
    scope: &InferenceScopeContext,
    continuity_signal: Option<&ContinuitySignal>,
    current_new_version: &str,
) -> (r: InferredMappingHint)
    requires
        mapping_support <= 1000,
        match continuity_signal {
            Some(s) => s.counts_fit(),
            None => true,
        },
    ensures
        hint_model(r) == spec_hint(
            *candidate,
            mapping_support as nat,
            scope.low_signal_compare,
            views(scope.notes@),
            match continuity_signal {
                Some(s) => Some(*s),
                None => None,
            },
            current_new_version@,
        ),
        hint_continuity_is(
            r.continuity,
            match continuity_signal {
                Some(s) => Some(*s),
                None => None,
            },
            current_new_version@,
        ),
{
    let low = scope.low_signal_compare;
    let conf0 = hint_base_confidence(candidate, mapping_support, low);
    let comp0 = adjust_hint_compatibility(candidate, scope);
    let mut reasons = base_reasons(candidate, comp0, low);
    let mut evidence = base_evidence(candidate, mapping_support, low, &scope.notes);
    let ghost r0 = views(reasons@);
    let ghost e0 = views(evidence@);
    let (conf, comp, continuity) = match continuity_signal {
        Some(s) => {
            let c = continuity_confidence(s, conf0);
            let m = continuity_compatibility(s, comp0);
            crate::text::append_texts(&mut reasons, continuity_reasons(s, current_new_version));
            push_text(&mut evidence, continuity_signal_evidence(s, current_new_version));
            proof {
                assert(views(reasons@) =~= r0 + spec_continuity_reasons(*s, current_new_version@));
                assert(views(evidence@) =~= e0 + seq![
                    join_seq(spec_signal_details(*s, current_new_version@), "; "@),
                ]);
            }
            (c, m, Some(build_mapping_hint_continuity_context(s, current_new_version)))
        },
        None => (conf0, comp0, None),
    };
    let mut l = new_string("continuity-aware compatibility: ");
    push_str(&mut l, compatibility_phrase(&comp));
    let ghost r1 = views(reasons@);
    push_text(&mut reasons, l);
    proof {
        assert(views(reasons@) =~= r1 + seq![
            "continuity-aware compatibility: "@ + spec_compatibility_phrase(comp),
        ]);
    }
    InferredMappingHint {
        old_asset_path: candidate.old_asset.path.clone(),
        new_asset_path: candidate.new_asset.path.clone(),
        confidence_milli: conf,
        compatibility: comp,
        needs_review: true,
        ambiguous: candidate.ambiguous,
        confidence_gap_milli: candidate.confidence_gap_milli,
        continuity,
        reasons,
        evidence,
    }
}

} // verus!
