//! The inference report for a compare: its probable crash causes, suggested fixes
//! and remap hints, tempered for a low-signal scope and ranked by confidence.
use vstd::prelude::*;
use crate::compare::outcome::{CandidateMappingChange, SnapshotCompareReport};
use crate::compare::scope::SnapshotCompareScopeInfo;
use crate::continuity::{continuity_signal_for_candidate, ContinuitySignal, InferenceContinuityContext};
use crate::findings::{
    cause_model, fix_model, pattern_support, spec_causes, spec_fixes, support_of, CauseModel,
    FixModel, WwmiKnowledgeBase, WwmiPatternKind,
};
use crate::inference::{
    join_dependency_kind_labels, spec_dependency_kind_label, FixInferenceEngine, InferenceCompareInput,
    InferenceModDependencyInput, WwmiModDependencyKind, WwmiModDependencySurfaceClass, InferenceKnowledgeInput, InferenceReport,
    InferenceScopeContext, InferenceSummary, InferenceSurfaceIntersection, InferredMappingHint,
    ProbableCrashCause, SuggestedFix,
};
use crate::continuity_adjust::{
    apply_continuity_inference_adjustments, continuity_adjusted_causes, continuity_adjusted_fixes,
    continuity_signal_sets, sets_for,
};
use crate::mod_adjust::{
    active, apply_mod_dependency_inference_adjustments, mod_adjusted_causes, mod_adjusted_fixes,
    spec_mod_hint, ModDependencyInsights,
};
use crate::mapping_hints::{
    hint_continuity_is, hint_model, infer_mapping_hint, scope_note_lines, scope_note_lines_exec,
    spec_hint, HintModel,
};
use crate::order::{
    lemma_lt_irreflexive, lemma_lt_transitive, lemma_sort_by_map, lemma_sort_by_ordered, rank_rel,
    lemma_sort_by_members, rank_sort, sort_by, string_lt, text_lt, RankOrder,
};
use crate::text::{
    append_texts, clone_string, clone_strings, decimal, decimal_string, join_seq, new_string, push_str,
    push_text, views,
};

verus! {

// ---------------------------------------------------------------------------
// Ranking: most confident first, then by code or old path
// ---------------------------------------------------------------------------

impl RankOrder for ProbableCrashCause {
    open spec fn ranks_before(self, other: Self) -> bool {
        self.confidence_milli > other.confidence_milli || (self.confidence_milli
            == other.confidence_milli && text_lt(self.code@, other.code@))
    }

    fn ranks_first(&self, other: &Self) -> (r: bool) {
        self.confidence_milli > other.confidence_milli || (self.confidence_milli
            == other.confidence_milli && string_lt(&self.code, &other.code))
    }
}

impl RankOrder for SuggestedFix {
    open spec fn ranks_before(self, other: Self) -> bool {
        self.confidence_milli > other.confidence_milli || (self.confidence_milli
            == other.confidence_milli && text_lt(self.code@, other.code@))
    }

    fn ranks_first(&self, other: &Self) -> (r: bool) {
        self.confidence_milli > other.confidence_milli || (self.confidence_milli
            == other.confidence_milli && string_lt(&self.code, &other.code))
    }
}

impl RankOrder for InferredMappingHint {
    open spec fn ranks_before(self, other: Self) -> bool {
        self.confidence_milli > other.confidence_milli || (self.confidence_milli
            == other.confidence_milli && text_lt(self.old_asset_path@, other.old_asset_path@))
    }

    fn ranks_first(&self, other: &Self) -> (r: bool) {
        self.confidence_milli > other.confidence_milli || (self.confidence_milli
            == other.confidence_milli && string_lt(&self.old_asset_path, &other.old_asset_path))
    }
}

pub open spec fn cause_ranks() -> spec_fn(CauseModel, CauseModel) -> bool {
    |a: CauseModel, b: CauseModel|
        a.confidence_milli > b.confidence_milli || (a.confidence_milli == b.confidence_milli
            && text_lt(a.code, b.code))
}

pub open spec fn fix_ranks() -> spec_fn(FixModel, FixModel) -> bool {
    |a: FixModel, b: FixModel|
        a.confidence_milli > b.confidence_milli || (a.confidence_milli == b.confidence_milli
            && text_lt(a.code, b.code))
}

pub open spec fn hint_ranks() -> spec_fn(HintModel, HintModel) -> bool {
    |a: HintModel, b: HintModel|
        a.confidence_milli > b.confidence_milli || (a.confidence_milli == b.confidence_milli
            && text_lt(a.old_asset_path, b.old_asset_path))
}

pub open spec fn cause_models(v: Seq<ProbableCrashCause>) -> Seq<CauseModel> {
    v.map_values(|c: ProbableCrashCause| cause_model(c))
}

pub open spec fn fix_models(v: Seq<SuggestedFix>) -> Seq<FixModel> {
    v.map_values(|f: SuggestedFix| fix_model(f))
}

pub open spec fn hint_models(v: Seq<InferredMappingHint>) -> Seq<HintModel> {
    v.map_values(|h: InferredMappingHint| hint_model(h))
}

fn rank_causes(v: Vec<ProbableCrashCause>) -> (r: Vec<ProbableCrashCause>)
    ensures
        cause_models(r@) == sort_by(cause_models(v@), cause_ranks()),
{
    let r = rank_sort(v);
    proof {
        lemma_sort_by_map(
            v@,
            |c: ProbableCrashCause| cause_model(c),
            rank_rel::<ProbableCrashCause>(),
            cause_ranks(),
        );
    }
    r
}

fn rank_fixes(v: Vec<SuggestedFix>) -> (r: Vec<SuggestedFix>)
    ensures
        fix_models(r@) == sort_by(fix_models(v@), fix_ranks()),
{
    let r = rank_sort(v);
    proof {
        lemma_sort_by_map(v@, |f: SuggestedFix| fix_model(f), rank_rel::<SuggestedFix>(), fix_ranks());
    }
    r
}

fn rank_hints(v: Vec<InferredMappingHint>) -> (r: Vec<InferredMappingHint>)
    ensures
        hint_models(r@) == sort_by(hint_models(v@), hint_ranks()),
{
    let r = rank_sort(v);
    proof {
        lemma_sort_by_map(
            v@,
            |h: InferredMappingHint| hint_model(h),
            rank_rel::<InferredMappingHint>(),
            hint_ranks(),
        );
    }
    r
}


/// A report lists its findings most confident first: in the ranked causes, fixes
/// and hints, no item ranks above one listed ahead of it (at equal confidence,
/// causes and fixes go by code and hints by old path).
pub proof fn ranked_findings_are_ordered(c: Seq<CauseModel>, f: Seq<FixModel>, h: Seq<HintModel>)
    ensures
        forall|i: int, j: int|
            0 <= i < j < sort_by(c, cause_ranks()).len() ==> !(cause_ranks())(
                #[trigger] sort_by(c, cause_ranks())[j],
                #[trigger] sort_by(c, cause_ranks())[i],
            ),
        forall|i: int, j: int|
            0 <= i < j < sort_by(f, fix_ranks()).len() ==> !(fix_ranks())(
                #[trigger] sort_by(f, fix_ranks())[j],
                #[trigger] sort_by(f, fix_ranks())[i],
            ),
        forall|i: int, j: int|
            0 <= i < j < sort_by(h, hint_ranks()).len() ==> !(hint_ranks())(
                #[trigger] sort_by(h, hint_ranks())[j],
                #[trigger] sort_by(h, hint_ranks())[i],
            ),
{
    assert forall|a: CauseModel| !#[trigger] (cause_ranks())(a, a) by {
        lemma_lt_irreflexive(a.code);
    }
    assert forall|a: CauseModel, b: CauseModel, d: CauseModel|
        #[trigger] (cause_ranks())(a, b) && #[trigger] (cause_ranks())(b, d) implies (cause_ranks())(a, d) by {
        if a.confidence_milli == b.confidence_milli && b.confidence_milli == d.confidence_milli {
            lemma_lt_transitive(a.code, b.code, d.code);
        }
    }
    lemma_sort_by_ordered(c, cause_ranks());
    assert forall|a: FixModel| !#[trigger] (fix_ranks())(a, a) by {
        lemma_lt_irreflexive(a.code);
    }
    assert forall|a: FixModel, b: FixModel, d: FixModel|
        #[trigger] (fix_ranks())(a, b) && #[trigger] (fix_ranks())(b, d) implies (fix_ranks())(a, d) by {
        if a.confidence_milli == b.confidence_milli && b.confidence_milli == d.confidence_milli {
            lemma_lt_transitive(a.code, b.code, d.code);
        }
    }
    lemma_sort_by_ordered(f, fix_ranks());
    assert forall|a: HintModel| !#[trigger] (hint_ranks())(a, a) by {
        lemma_lt_irreflexive(a.old_asset_path);
    }
    assert forall|a: HintModel, b: HintModel, d: HintModel|
        #[trigger] (hint_ranks())(a, b) && #[trigger] (hint_ranks())(b, d) implies (hint_ranks())(a, d) by {
        if a.confidence_milli == b.confidence_milli && b.confidence_milli == d.confidence_milli {
            lemma_lt_transitive(a.old_asset_path, b.old_asset_path, d.old_asset_path);
        }
    }
    lemma_sort_by_ordered(h, hint_ranks());
}

// ---------------------------------------------------------------------------
// Low-signal guardrails
// ---------------------------------------------------------------------------

pub open spec fn low_signal_cause_reason() -> Seq<char> {
    "low-signal compare scope limits semantic certainty; confidence should be interpreted conservatively"@
}

pub open spec fn low_signal_fix_reason() -> Seq<char> {
    "low-signal compare scope limits semantic certainty; validate fixes manually before applying changes"@
}

pub open spec fn low_signal_hint_reason() -> Seq<char> {
    "low-signal compare scope keeps this mapping hint in review-first mode"@
}

/// A cause under a low-signal scope: one more reason, and the first three scope
/// notes as evidence.
pub open spec fn guard_cause(m: CauseModel, notes: Seq<Seq<char>>) -> CauseModel {
    CauseModel {
        code: m.code,
        summary: m.summary,
        confidence_milli: m.confidence_milli,
        risk: m.risk,
        affected: m.affected,
        reasons: m.reasons.push(low_signal_cause_reason()),
        evidence: m.evidence + scope_note_lines(notes),
    }
}

pub open spec fn guard_fix(m: FixModel, notes: Seq<Seq<char>>) -> FixModel {
    FixModel {
        code: m.code,
        summary: m.summary,
        confidence_milli: m.confidence_milli,
        priority: m.priority,
        actions: m.actions,
        reasons: m.reasons.push(low_signal_fix_reason()),
        evidence: m.evidence + scope_note_lines(notes),
    }
}

/// A hint under a low-signal scope stays in review, with one more reason.
pub open spec fn guard_hint(m: HintModel) -> HintModel {
    HintModel {
        old_asset_path: m.old_asset_path,
        new_asset_path: m.new_asset_path,
        confidence_milli: m.confidence_milli,
        compatibility: m.compatibility,
        needs_review: true,
        ambiguous: m.ambiguous,
        confidence_gap_milli: m.confidence_gap_milli,
        reasons: m.reasons.push(low_signal_hint_reason()),
        evidence: m.evidence,
    }
}

pub open spec fn guarded_causes(s: Seq<CauseModel>, low: bool, notes: Seq<Seq<char>>) -> Seq<CauseModel> {
    if low {
        s.map_values(|m: CauseModel| guard_cause(m, notes))
    } else {
        s
    }
}

pub open spec fn guarded_fixes(s: Seq<FixModel>, low: bool, notes: Seq<Seq<char>>) -> Seq<FixModel> {
    if low {
        s.map_values(|m: FixModel| guard_fix(m, notes))
    } else {
        s
    }
}

pub open spec fn guarded_hints(s: Seq<HintModel>, low: bool) -> Seq<HintModel> {
    if low {
        s.map_values(|m: HintModel| guard_hint(m))
    } else {
        s
    }
}

/// Marks every cause, fix and hint as found under a low-signal compare scope.
pub fn apply_low_signal_inference_guardrails(
    causes: &mut Vec<ProbableCrashCause>,
    fixes: &mut Vec<SuggestedFix>,
    hints: &mut Vec<InferredMappingHint>,
    scope: &InferenceScopeContext,
)
    ensures
        cause_models(final(causes)@) == cause_models(old(causes)@).map_values(
            |m: CauseModel| guard_cause(m, views(scope.notes@)),
        ),
        fix_models(final(fixes)@) == fix_models(old(fixes)@).map_values(
            |m: FixModel| guard_fix(m, views(scope.notes@)),
        ),
        hint_models(final(hints)@) == hint_models(old(hints)@).map_values(|m: HintModel| guard_hint(m)),
{
    let ghost ns = views(scope.notes@);
    let mut taken: Vec<ProbableCrashCause> = Vec::new();
    std::mem::swap(causes, &mut taken);
    let ghost orig = taken@;
    let mut i: usize = 0;
    proof {
        assert(taken@ =~= orig.skip(0));
        assert(orig.len() == taken.len());
        assert(cause_models(causes@) =~= cause_models(orig.take(0)).map_values(
            |m: CauseModel| guard_cause(m, ns),
        ));
    }
    while taken.len() > 0
        invariant
            i <= orig.len(),
            orig.len() <= usize::MAX,
            taken@ == orig.skip(i as int),
            ns == views(scope.notes@),
            cause_models(causes@) == cause_models(orig.take(i as int)).map_values(
                |m: CauseModel| guard_cause(m, ns),
            ),
        decreases taken.len(),
    {
        let ghost before = causes@;
        let mut c = taken.remove(0);
        let ghost c0 = c;
        push_text(&mut c.reasons, new_string(
            "low-signal compare scope limits semantic certainty; confidence should be interpreted conservatively",
        ));
        append_texts(&mut c.evidence, scope_note_lines_exec(&scope.notes));
        causes.push(c);
        proof {
            assert(c0 == orig[i as int]);
            assert(cause_model(c) == guard_cause(cause_model(c0), ns));
            assert(orig.take(i + 1) =~= orig.take(i as int).push(c0));
            assert(cause_models(causes@) =~= cause_models(before).push(cause_model(c)));
            assert(cause_models(orig.take(i + 1)).map_values(|m: CauseModel| guard_cause(m, ns))
                =~= cause_models(orig.take(i as int)).map_values(|m: CauseModel| guard_cause(m, ns)).push(
                guard_cause(cause_model(c0), ns),
            ));
            assert(taken@ =~= orig.skip(i + 1));
        }
        i = i + 1;
    }
    proof {
        assert(orig.take(i as int) =~= orig);
    }
    let mut taken_f: Vec<SuggestedFix> = Vec::new();
    std::mem::swap(fixes, &mut taken_f);
    let ghost orig_f = taken_f@;
    let mut j: usize = 0;
    proof {
        assert(taken_f@ =~= orig_f.skip(0));
        assert(orig_f.len() == taken_f.len());
        assert(fix_models(fixes@) =~= fix_models(orig_f.take(0)).map_values(
            |m: FixModel| guard_fix(m, ns),
        ));
    }
    while taken_f.len() > 0
        invariant
            j <= orig_f.len(),
            orig_f.len() <= usize::MAX,
            taken_f@ == orig_f.skip(j as int),
            ns == views(scope.notes@),
            fix_models(fixes@) == fix_models(orig_f.take(j as int)).map_values(
                |m: FixModel| guard_fix(m, ns),
            ),
        decreases taken_f.len(),
    {
        let ghost before = fixes@;
        let mut f = taken_f.remove(0);
        let ghost f0 = f;
        push_text(&mut f.reasons, new_string(
            "low-signal compare scope limits semantic certainty; validate fixes manually before applying changes",
        ));
        append_texts(&mut f.evidence, scope_note_lines_exec(&scope.notes));
        fixes.push(f);
        proof {
            assert(f0 == orig_f[j as int]);
            assert(fix_model(f) == guard_fix(fix_model(f0), ns));
            assert(orig_f.take(j + 1) =~= orig_f.take(j as int).push(f0));
            assert(fix_models(fixes@) =~= fix_models(before).push(fix_model(f)));
            assert(fix_models(orig_f.take(j + 1)).map_values(|m: FixModel| guard_fix(m, ns))
                =~= fix_models(orig_f.take(j as int)).map_values(|m: FixModel| guard_fix(m, ns)).push(
                guard_fix(fix_model(f0), ns),
            ));
            assert(taken_f@ =~= orig_f.skip(j + 1));
        }
        j = j + 1;
    }
    proof {
        assert(orig_f.take(j as int) =~= orig_f);
    }
    let mut taken_h: Vec<InferredMappingHint> = Vec::new();
    std::mem::swap(hints, &mut taken_h);
    let ghost orig_h = taken_h@;
    let mut k: usize = 0;
    proof {
        assert(taken_h@ =~= orig_h.skip(0));
        assert(orig_h.len() == taken_h.len());
        assert(hint_models(hints@) =~= hint_models(orig_h.take(0)).map_values(|m: HintModel| guard_hint(m)));
    }
    while taken_h.len() > 0
        invariant
            k <= orig_h.len(),
            orig_h.len() <= usize::MAX,
            taken_h@ == orig_h.skip(k as int),
            hint_models(hints@) == hint_models(orig_h.take(k as int)).map_values(
                |m: HintModel| guard_hint(m),
            ),
        decreases taken_h.len(),
    {
        let ghost before = hints@;
        let mut h = taken_h.remove(0);
        let ghost h0 = h;
        h.needs_review = true;
        push_text(&mut h.reasons, new_string(
            "low-signal compare scope keeps this mapping hint in review-first mode",
        ));
        hints.push(h);
        proof {
            assert(h0 == orig_h[k as int]);
            assert(hint_model(h) == guard_hint(hint_model(h0)));
            assert(orig_h.take(k + 1) =~= orig_h.take(k as int).push(h0));
            assert(hint_models(hints@) =~= hint_models(before).push(hint_model(h)));
            assert(hint_models(orig_h.take(k + 1)).map_values(|m: HintModel| guard_hint(m))
                =~= hint_models(orig_h.take(k as int)).map_values(|m: HintModel| guard_hint(m)).push(
                guard_hint(hint_model(h0)),
            ));
            assert(taken_h@ =~= orig_h.skip(k + 1));
        }
        k = k + 1;
    }
    proof {
        assert(orig_h.take(k as int) =~= orig_h);
    }
}


// ---------------------------------------------------------------------------
// One remap hint per candidate
// ---------------------------------------------------------------------------

pub open spec fn entry_matches(x: InferenceContinuityContext, i: int, c: CandidateMappingChange) -> bool {
    x.mapping_signals@[i].old_path@ == c.old_asset.path@ && x.mapping_signals@[i].new_path@
        == c.new_asset.path@
}

/// `sig` is what the context recorded for the candidate's old and new path.
pub open spec fn recorded(x: InferenceContinuityContext, c: CandidateMappingChange, sig: ContinuitySignal) -> bool {
    exists|i: int|
        0 <= i < x.mapping_signals@.len() && #[trigger] entry_matches(x, i, c)
            && sig.same_as(&x.mapping_signals@[i].signal)
}

pub open spec fn unrecorded(x: InferenceContinuityContext, c: CandidateMappingChange) -> bool {
    forall|i: int| 0 <= i < x.mapping_signals@.len() ==> !#[trigger] entry_matches(x, i, c)
}

pub open spec fn plain_hint(
    h: InferredMappingHint,
    c: CandidateMappingChange,
    support: nat,
    scope: InferenceScopeContext,
    ver: Seq<char>,
) -> bool {
    &&& hint_model(h) == spec_hint(c, support, scope.low_signal_compare, views(scope.notes@), None, ver)
    &&& h.continuity is None
}

/// `h` is the hint for candidate `c`: made with the thread's signal where the
/// context recorded one for the candidate's paths (and its step counts fit a
/// `usize`), else without continuity.
pub open spec fn hint_for(
    h: InferredMappingHint,
    c: CandidateMappingChange,
    support: nat,
    scope: InferenceScopeContext,
    ctx: Option<InferenceContinuityContext>,
    ver: Seq<char>,
) -> bool {
    match ctx {
        None => plain_hint(h, c, support, scope, ver),
        Some(x) => if unrecorded(x, c) {
            plain_hint(h, c, support, scope, ver)
        } else {
            exists|sig: ContinuitySignal|
                #[trigger] recorded(x, c, sig) && if sig.counts_fit() {
                    &&& hint_model(h) == spec_hint(
                        c,
                        support,
                        scope.low_signal_compare,
                        views(scope.notes@),
                        Some(sig),
                        ver,
                    )
                    &&& hint_continuity_is(h.continuity, Some(sig), ver)
                } else {
                    plain_hint(h, c, support, scope, ver)
                }
        },
    }
}

pub open spec fn opt_ctx(c: Option<&InferenceContinuityContext>) -> Option<InferenceContinuityContext> {
    match c {
        Some(x) => Some(*x),
        None => None,
    }
}

fn signal_counts_fit(s: &ContinuitySignal) -> (r: bool)
    ensures
        r == s.counts_fit(),
{
    let a = match s.prior_rename_steps.checked_add(1) {
        Some(x) => x.checked_add(s.later_rename_steps).is_some(),
        None => false,
    };
    let b = match s.prior_container_movement_steps.checked_add(1) {
        Some(x) => x.checked_add(s.later_container_movement_steps).is_some(),
        None => false,
    };
    let c = match s.prior_layout_drift_steps.checked_add(1) {
        Some(x) => x.checked_add(s.later_layout_drift_steps).is_some(),
        None => false,
    };
    a && b && c
}

/// The remap hints of a compare, one per candidate in the candidates' order.
pub fn infer_candidate_hints(
    compare_report: &SnapshotCompareReport,
    mapping_support: u32,
    scope: &InferenceScopeContext,
    continuity: Option<&InferenceContinuityContext>,
) -> (r: Vec<InferredMappingHint>)
    requires
        mapping_support <= 1000,
    ensures
        r@.len() == compare_report.candidate_mapping_changes@.len(),
        forall|i: int|
            0 <= i < r@.len() ==> hint_for(
                #[trigger] r@[i],
                compare_report.candidate_mapping_changes@[i],
                mapping_support as nat,
                *scope,
                opt_ctx(continuity),
                compare_report.new_snapshot.version_id@,
            ),
{
    let cands = &compare_report.candidate_mapping_changes;
    let ver = compare_report.new_snapshot.version_id.as_str();
    let mut out: Vec<InferredMappingHint> = Vec::new();
    let mut i: usize = 0;
    while i < cands.len()
        invariant
            i <= cands@.len(),
            mapping_support <= 1000,
            cands == &compare_report.candidate_mapping_changes,
            ver@ == compare_report.new_snapshot.version_id@,
            out@.len() == i,
            forall|k: int|
                0 <= k < i ==> hint_for(
                    #[trigger] out@[k],
                    cands@[k],
                    mapping_support as nat,
                    *scope,
                    opt_ctx(continuity),
                    ver@,
                ),
        decreases cands.len() - i,
    {
        let c = &cands[i];
        let sig: Option<ContinuitySignal> = match continuity {
            Some(ctx) => continuity_signal_for_candidate(ctx, c),
            None => None,
        };
        let h = match &sig {
            Some(s) => {
                if signal_counts_fit(s) {
                    infer_mapping_hint(c, mapping_support, scope, Some(s), ver)
                } else {
                    infer_mapping_hint(c, mapping_support, scope, None, ver)
                }
            },
            None => infer_mapping_hint(c, mapping_support, scope, None, ver),
        };
        proof {
            match continuity {
                Some(ctx) => {
                    match sig {
                        Some(s) => {
                            let w = choose|j: int|
                                0 <= j < ctx.mapping_signals@.len()
                                    && (#[trigger] ctx.mapping_signals@[j]).old_path@
                                    == c.old_asset.path@ && ctx.mapping_signals@[j].new_path@
                                    == c.new_asset.path@ && s.same_as(
                                    &ctx.mapping_signals@[j].signal,
                                );
                            assert(entry_matches(*ctx, w, *c));
                            assert(recorded(*ctx, *c, s));
                            assert(!unrecorded(*ctx, *c));
                        },
                        None => {
                            assert forall|j: int| 0 <= j < ctx.mapping_signals@.len() implies !#[trigger] entry_matches(
                                *ctx,
                                j,
                                *c,
                            ) by {
                                assert(!(ctx.mapping_signals@[j].old_path@ == c.old_asset.path@
                                    && ctx.mapping_signals@[j].new_path@ == c.new_asset.path@));
                            }
                        },
                    }
                },
                None => {},
            }
            assert(hint_for(h, *c, mapping_support as nat, *scope, opt_ctx(continuity), ver@));
        }
        out.push(h);
        i = i + 1;
    }
    out
}


// ---------------------------------------------------------------------------
// The scope notes a compare gives
// ---------------------------------------------------------------------------

pub open spec fn low_signal_scope_note() -> Seq<char> {
    "inference confidence is conservative because compare scope is low-signal for deep character-level analysis"@
}

pub open spec fn scope_induced_note() -> Seq<char> {
    "removed-only compare deltas flagged as scope-induced were kept out of crash-cause promotion; review snapshot scope before treating missing paths as real version drift"@
}

pub open spec fn shallow_capture_note() -> Seq<char> {
    "manifest/hash coverage is present, but that remains shallow evidence and should not be treated as rich asset-level enrichment"@
}

pub open spec fn one_if(b: bool, line: Seq<char>) -> Seq<Seq<char>> {
    if b {
        seq![line]
    } else {
        Seq::empty()
    }
}

/// Hash or manifest coverage without meaningful enrichment is only shallow evidence.
pub open spec fn shallow_capture(info: SnapshotCompareScopeInfo) -> bool {
    (info.manifest_resource_count > 0 || info.assets_with_asset_hash > 0 || info.assets_with_any_hash > 0
        || info.assets_with_signature > 0) && !info.meaningful_asset_record_enrichment
}

/// The compare's own scope notes, then what its low-signal flag, its scope-induced
/// removals and each side's shallow capture add.
pub open spec fn spec_base_scope_notes(cr: SnapshotCompareReport) -> Seq<Seq<char>> {
    views(cr.scope.notes@) + one_if(cr.scope.low_signal_compare, low_signal_scope_note()) + one_if(
        cr.scope.scope_induced_removals_likely,
        scope_induced_note(),
    ) + one_if(shallow_capture(cr.scope.old_snapshot), shallow_capture_note()) + one_if(
        shallow_capture(cr.scope.new_snapshot),
        shallow_capture_note(),
    )
}

fn shallow_capture_exec(info: &SnapshotCompareScopeInfo) -> (r: bool)
    ensures
        r == shallow_capture(*info),
{
    (info.manifest_resource_count > 0 || info.assets_with_asset_hash > 0 || info.assets_with_any_hash
        > 0 || info.assets_with_signature > 0) && !info.meaningful_asset_record_enrichment
}

fn push_if(v: &mut Vec<String>, b: bool, line: &str)
    ensures
        views(final(v)@) == views(old(v)@) + one_if(b, line@),
{
    if b {
        push_text(v, new_string(line));
    }
    proof {
        if !b {
            assert(views(v@) =~= views(v@) + one_if(b, line@));
        }
    }
}

/// The scope notes that a compare report gives inference.
pub fn base_scope_notes(compare_report: &SnapshotCompareReport) -> (r: Vec<String>)
    ensures
        views(r@) == spec_base_scope_notes(*compare_report),
{
    let sc = &compare_report.scope;
    let mut notes = clone_strings(&sc.notes);
    push_if(
        &mut notes,
        sc.low_signal_compare,
        "inference confidence is conservative because compare scope is low-signal for deep character-level analysis",
    );
    push_if(
        &mut notes,
        sc.scope_induced_removals_likely,
        "removed-only compare deltas flagged as scope-induced were kept out of crash-cause promotion; review snapshot scope before treating missing paths as real version drift",
    );
    let note = "manifest/hash coverage is present, but that remains shallow evidence and should not be treated as rich asset-level enrichment";
    push_if(&mut notes, shallow_capture_exec(&sc.old_snapshot), note);
    push_if(&mut notes, shallow_capture_exec(&sc.new_snapshot), note);
    notes
}

/// The note a mod's dependency profile adds to the scope: the mod (by name, else by
/// root), its ini files, signals and dependency kinds.
pub open spec fn mod_profile_note(input: InferenceModDependencyInput) -> Seq<char> {
    "mod dependency profile "@ + match input.mod_name {
        Some(n) => n@,
        None => input.mod_root@,
    } + " scanned "@ + decimal(input.ini_file_count as nat) + " ini file(s), "@ + decimal(
        input.signal_count as nat,
    ) + " signal(s), dependency kinds="@ + join_seq(
        input.dependency_kinds@.map_values(|k: WwmiModDependencyKind| spec_dependency_kind_label(k)),
        ", "@,
    )
}

fn mod_profile_note_exec(input: &InferenceModDependencyInput) -> (r: String)
    ensures
        r@ == mod_profile_note(*input),
{
    let mut l = new_string("mod dependency profile ");
    match &input.mod_name {
        Some(n) => push_str(&mut l, n.as_str()),
        None => push_str(&mut l, input.mod_root.as_str()),
    }
    push_str(&mut l, " scanned ");
    let a = decimal_string(input.ini_file_count);
    push_str(&mut l, a.as_str());
    push_str(&mut l, " ini file(s), ");
    let b = decimal_string(input.signal_count);
    push_str(&mut l, b.as_str());
    push_str(&mut l, " signal(s), dependency kinds=");
    let k = join_dependency_kind_labels(&input.dependency_kinds);
    push_str(&mut l, k.as_str());
    l
}

pub open spec fn opt_mod_note(m: Option<&ModDependencyInsights>) -> Seq<Seq<char>> {
    match m {
        Some(x) => seq![mod_profile_note(x.input)],
        None => Seq::empty(),
    }
}

// ---------------------------------------------------------------------------
// The highest confidence of a report
// ---------------------------------------------------------------------------

/// The largest of the values, 0 for none.
pub open spec fn max_of(s: Seq<u32>) -> nat
    decreases s.len(),
{
    if s.len() == 0 {
        0
    } else {
        let m = max_of(s.drop_last());
        if s.last() > m {
            s.last() as nat
        } else {
            m
        }
    }
}

/// The confidences of the causes, then of the fixes, then of the hints.
pub open spec fn confidences(
    c: Seq<ProbableCrashCause>,
    f: Seq<SuggestedFix>,
    h: Seq<InferredMappingHint>,
) -> Seq<u32> {
    c.map_values(|x: ProbableCrashCause| x.confidence_milli) + f.map_values(
        |x: SuggestedFix| x.confidence_milli,
    ) + h.map_values(|x: InferredMappingHint| x.confidence_milli)
}

fn max_step(acc: u32, v: u32, Ghost(s): Ghost<Seq<u32>>) -> (r: u32)
    requires
        s.len() > 0,
        s.last() == v,
        acc == max_of(s.drop_last()),
    ensures
        r == max_of(s),
{
    if v > acc {
        v
    } else {
        acc
    }
}

fn highest_confidence(
    c: &Vec<ProbableCrashCause>,
    f: &Vec<SuggestedFix>,
    h: &Vec<InferredMappingHint>,
) -> (r: u32)
    ensures
        r == max_of(confidences(c@, f@, h@)),
{
    let ghost all = confidences(c@, f@, h@);
    let ghost n1 = c@.len();
    let ghost n2 = c@.len() + f@.len();
    let mut acc: u32 = 0;
    let mut i: usize = 0;
    proof {
        assert(all.take(0) =~= Seq::<u32>::empty());
    }
    while i < c.len()
        invariant
            i <= c@.len(),
            all == confidences(c@, f@, h@),
            n1 == c@.len(),
            acc == max_of(all.take(i as int)),
        decreases c.len() - i,
    {
        proof {
            assert(all.take(i + 1).drop_last() =~= all.take(i as int));
            assert(all[i as int] == c@[i as int].confidence_milli);
        }
        acc = max_step(acc, c[i].confidence_milli, Ghost(all.take(i + 1)));
        i = i + 1;
    }
    let mut j: usize = 0;
    while j < f.len()
        invariant
            j <= f@.len(),
            all == confidences(c@, f@, h@),
            n1 == c@.len(),
            acc == max_of(all.take(n1 + j)),
        decreases f.len() - j,
    {
        proof {
            assert(all.take(n1 + j + 1).drop_last() =~= all.take(n1 + j));
            assert(all[n1 + j] == f@[j as int].confidence_milli);
        }
        acc = max_step(acc, f[j].confidence_milli, Ghost(all.take(n1 + j + 1)));
        j = j + 1;
    }
    let mut k: usize = 0;
    while k < h.len()
        invariant
            k <= h@.len(),
            all == confidences(c@, f@, h@),
            n2 == c@.len() + f@.len(),
            acc == max_of(all.take(n2 + k)),
        decreases h.len() - k,
    {
        proof {
            assert(all.take(n2 + k + 1).drop_last() =~= all.take(n2 + k));
            assert(all[n2 + k] == h@[k as int].confidence_milli);
        }
        acc = max_step(acc, h[k].confidence_milli, Ghost(all.take(n2 + k + 1)));
        k = k + 1;
    }
    proof {
        assert(all.take(n2 + k) =~= all);
    }
    acc
}


// ---------------------------------------------------------------------------
// The report
// ---------------------------------------------------------------------------

/// The causes and fixes before ranking: those the compare and the history give,
/// adjusted by the threads behind them where a continuity context is given, then
/// marked for a low-signal scope.
pub open spec fn causes_before_ranking(
    cr: SnapshotCompareReport,
    kb: WwmiKnowledgeBase,
    ctx: Option<InferenceContinuityContext>,
    st: Seq<ContinuitySignal>,
    rm: Seq<ContinuitySignal>,
    cd: Seq<ContinuitySignal>,
    dr: Seq<ContinuitySignal>,
    scope: InferenceScopeContext,
    md: Option<ModDependencyInsights>,
    ix: InferenceSurfaceIntersection,
    hints: Seq<HintModel>,
) -> Seq<CauseModel> {
    let base = spec_causes(cr, kb);
    let adjusted = match ctx {
        Some(_) => continuity_adjusted_causes(
            base,
            st,
            rm,
            cd,
            dr,
            cr.new_snapshot.version_id@,
            pattern_support(kb, WwmiPatternKind::MappingOrHashUpdate),
            pattern_support(kb, WwmiPatternKind::BufferLayoutOrCapacityFix),
            scope.low_signal_compare,
        ),
        None => base,
    };
    let guarded = guarded_causes(adjusted, scope.low_signal_compare, views(scope.notes@));
    match md {
        Some(ins) => mod_adjusted_causes(
            guarded,
            ins,
            ix,
            cr,
            hints,
            pattern_support(kb, WwmiPatternKind::BufferLayoutOrCapacityFix),
            pattern_support(kb, WwmiPatternKind::RuntimeConfigChange),
            pattern_support(kb, WwmiPatternKind::MappingOrHashUpdate),
            scope.low_signal_compare,
        ),
        None => guarded,
    }
}

pub open spec fn fixes_before_ranking(
    cr: SnapshotCompareReport,
    kb: WwmiKnowledgeBase,
    ctx: Option<InferenceContinuityContext>,
    st: Seq<ContinuitySignal>,
    rm: Seq<ContinuitySignal>,
    cd: Seq<ContinuitySignal>,
    dr: Seq<ContinuitySignal>,
    scope: InferenceScopeContext,
    md: Option<ModDependencyInsights>,
    ix: InferenceSurfaceIntersection,
) -> Seq<FixModel> {
    let base = spec_fixes(cr, kb);
    let adjusted = match ctx {
        Some(_) => continuity_adjusted_fixes(
            base,
            st,
            rm,
            cd,
            dr,
            cr.new_snapshot.version_id@,
            pattern_support(kb, WwmiPatternKind::MappingOrHashUpdate),
            pattern_support(kb, WwmiPatternKind::BufferLayoutOrCapacityFix),
            scope.low_signal_compare,
        ),
        None => base,
    };
    let guarded = guarded_fixes(adjusted, scope.low_signal_compare, views(scope.notes@));
    match md {
        Some(ins) => mod_adjusted_fixes(
            guarded,
            ins,
            ix,
            cr,
            pattern_support(kb, WwmiPatternKind::BufferLayoutOrCapacityFix),
            pattern_support(kb, WwmiPatternKind::MappingOrHashUpdate),
            scope.low_signal_compare,
        ),
        None => guarded,
    }
}

/// The hints before ranking: as first made, marked for a low-signal scope, then
/// tempered by the mod's dependency surfaces where a profile is given.
pub open spec fn hints_before_ranking(
    pre: Seq<HintModel>,
    low: bool,
    md: Option<ModDependencyInsights>,
    ix: InferenceSurfaceIntersection,
) -> Seq<HintModel> {
    let guarded = guarded_hints(pre, low);
    match md {
        Some(ins) => guarded.map_values(
            |h: HintModel|
                spec_mod_hint(
                    h,
                    active(ins.mapping_hash, ix, WwmiModDependencySurfaceClass::MappingHash),
                    active(ins.buffer_layout, ix, WwmiModDependencySurfaceClass::BufferLayout),
                    active(ins.resource_or_skeleton, ix, WwmiModDependencySurfaceClass::ResourceSkeleton),
                    active(ins.hook_targeting, ix, WwmiModDependencySurfaceClass::DrawCallFilterHook),
                ),
        ),
        None => guarded,
    }
}

/// The report's findings: the thread sets behind the compare's findings (where a
/// continuity context is given), the hints as first made (`pre`, one per
/// candidate), and each list ranked after the adjustments and guardrails.
pub open spec fn findings_from(
    r: InferenceReport,
    cr: SnapshotCompareReport,
    kb: WwmiKnowledgeBase,
    ctx: Option<InferenceContinuityContext>,
    md: Option<ModDependencyInsights>,
    st: Seq<ContinuitySignal>,
    rm: Seq<ContinuitySignal>,
    cd: Seq<ContinuitySignal>,
    dr: Seq<ContinuitySignal>,
    pre: Seq<InferredMappingHint>,
) -> bool {
    &&& match ctx {
        Some(x) => sets_for(cr, x, st, rm, cd, dr),
        None => true,
    }
    &&& cause_models(r.probable_crash_causes@) == sort_by(
        causes_before_ranking(
            cr,
            kb,
            ctx,
            st,
            rm,
            cd,
            dr,
            r.scope,
            md,
            r.surface_intersection,
            guarded_hints(hint_models(pre), r.scope.low_signal_compare),
        ),
        cause_ranks(),
    )
    &&& fix_models(r.suggested_fixes@) == sort_by(
        fixes_before_ranking(cr, kb, ctx, st, rm, cd, dr, r.scope, md, r.surface_intersection),
        fix_ranks(),
    )
    &&& pre.len() == cr.candidate_mapping_changes@.len()
    &&& forall|i: int|
        0 <= i < pre.len() ==> hint_for(
            #[trigger] pre[i],
            cr.candidate_mapping_changes@[i],
            pattern_support(kb, WwmiPatternKind::MappingOrHashUpdate),
            r.scope,
            ctx,
            cr.new_snapshot.version_id@,
        )
    &&& hint_models(r.candidate_mapping_hints@) == sort_by(
        hints_before_ranking(hint_models(pre), r.scope.low_signal_compare, md, r.surface_intersection),
        hint_ranks(),
    )
}

pub open spec fn opt_insights(m: Option<&ModDependencyInsights>) -> Option<ModDependencyInsights> {
    match m {
        Some(x) => Some(*x),
        None => None,
    }
}

/// Two mod inputs with the same values.
pub open spec fn input_same(a: InferenceModDependencyInput, b: InferenceModDependencyInput) -> bool {
    &&& crate::text::opt_view(a.mod_name) == crate::text::opt_view(b.mod_name)
    &&& a.mod_root@ == b.mod_root@
    &&& a.ini_file_count == b.ini_file_count
    &&& a.signal_count == b.signal_count
    &&& a.dependency_kinds@ == b.dependency_kinds@
}

fn copy_input(x: &InferenceModDependencyInput) -> (r: InferenceModDependencyInput)
    ensures
        input_same(r, *x),
{
    let mut kinds: Vec<crate::inference::WwmiModDependencyKind> = Vec::new();
    let mut i: usize = 0;
    while i < x.dependency_kinds.len()
        invariant
            i <= x.dependency_kinds@.len(),
            kinds@ == x.dependency_kinds@.take(i as int),
        decreases x.dependency_kinds.len() - i,
    {
        kinds.push(x.dependency_kinds[i]);
        proof {
            assert(x.dependency_kinds@.take(i + 1) =~= x.dependency_kinds@.take(i as int).push(
                x.dependency_kinds@[i as int],
            ));
        }
        i = i + 1;
    }
    proof {
        assert(x.dependency_kinds@.take(i as int) =~= x.dependency_kinds@);
    }
    InferenceModDependencyInput {
        mod_name: crate::text::clone_opt_string(&x.mod_name),
        mod_root: clone_string(&x.mod_root),
        ini_file_count: x.ini_file_count,
        signal_count: x.signal_count,
        dependency_kinds: kinds,
    }
}

proof fn lemma_hint_for_review(
    h: InferredMappingHint,
    c: CandidateMappingChange,
    support: nat,
    scope: InferenceScopeContext,
    ctx: Option<InferenceContinuityContext>,
    ver: Seq<char>,
)
    requires
        hint_for(h, c, support, scope, ctx, ver),
    ensures
        hint_model(h).needs_review,
{
    match ctx {
        Some(x) => {
            if !unrecorded(x, c) {
                let sig = choose|sig: ContinuitySignal|
                    #[trigger] recorded(x, c, sig) && if sig.counts_fit() {
                        &&& hint_model(h) == spec_hint(
                            c,
                            support,
                            scope.low_signal_compare,
                            views(scope.notes@),
                            Some(sig),
                            ver,
                        )
                        &&& hint_continuity_is(h.continuity, Some(sig), ver)
                    } else {
                        plain_hint(h, c, support, scope, ver)
                    };
            }
        },
        None => {},
    }
}

proof fn lemma_before_ranking_review(
    pm: Seq<HintModel>,
    low: bool,
    md: Option<ModDependencyInsights>,
    ix: InferenceSurfaceIntersection,
)
    requires
        forall|k: int| 0 <= k < pm.len() ==> (#[trigger] pm[k]).needs_review,
    ensures
        forall|k: int|
            0 <= k < hints_before_ranking(pm, low, md, ix).len() ==> (#[trigger] hints_before_ranking(
                pm,
                low,
                md,
                ix,
            )[k]).needs_review,
{
    let g = guarded_hints(pm, low);
    assert forall|k: int| 0 <= k < g.len() implies (#[trigger] g[k]).needs_review by {
        if !low {
            assert(g[k] == pm[k]);
        }
    }
    let hb = hints_before_ranking(pm, low, md, ix);
    assert forall|k: int| 0 <= k < hb.len() implies (#[trigger] hb[k]).needs_review by {
        assert(g[k].needs_review);
    }
}

/// Every remap hint of a report stays in review, whatever the scope, the thread
/// history or the mod's surfaces.
pub proof fn report_hints_stay_in_review(
    r: InferenceReport,
    cr: SnapshotCompareReport,
    kb: WwmiKnowledgeBase,
    ctx: Option<InferenceContinuityContext>,
    md: Option<ModDependencyInsights>,
    st: Seq<ContinuitySignal>,
    rm: Seq<ContinuitySignal>,
    cd: Seq<ContinuitySignal>,
    dr: Seq<ContinuitySignal>,
    pre: Seq<InferredMappingHint>,
)
    requires
        findings_from(r, cr, kb, ctx, md, st, rm, cd, dr, pre),
    ensures
        forall|i: int| 0 <= i < r.candidate_mapping_hints@.len() ==> (#[trigger] r.candidate_mapping_hints@[i]).needs_review,
{
    let support = pattern_support(kb, WwmiPatternKind::MappingOrHashUpdate);
    let ver = cr.new_snapshot.version_id@;
    let pm = hint_models(pre);
    assert(pre.len() == cr.candidate_mapping_changes@.len());
    assert forall|k: int| 0 <= k < pm.len() implies (#[trigger] pm[k]).needs_review by {
        assert(hint_for(pre[k], cr.candidate_mapping_changes@[k], support, r.scope, ctx, ver));
        lemma_hint_for_review(pre[k], cr.candidate_mapping_changes@[k], support, r.scope, ctx, ver);
    }
    let hb = hints_before_ranking(pm, r.scope.low_signal_compare, md, r.surface_intersection);
    lemma_before_ranking_review(pm, r.scope.low_signal_compare, md, r.surface_intersection);
    lemma_sort_by_members(hb, hint_ranks());
    let hm = hint_models(r.candidate_mapping_hints@);
    assert(hm == sort_by(hb, hint_ranks()));
    assert forall|i: int| 0 <= i < r.candidate_mapping_hints@.len() implies (#[trigger] r.candidate_mapping_hints@[i]).needs_review by {
        assert(hm[i] == hint_model(r.candidate_mapping_hints@[i]));
        let j = choose|j: int| 0 <= j < hb.len() && sort_by(hb, hint_ranks())[i] == hb[j];
        assert(hb[j].needs_review);
    }
}

impl FixInferenceEngine {
    /// The inference report for a compare and the WWMI fix history.
    ///
    /// The scope carries the compare's low-signal flags, the notes the compare
    /// gives, the note of the mod's profile where one is given, then
    /// `surface_notes`; the surface intersection is carried as given.
    /// Each candidate gets a remap hint, made with the thread's continuity signal
    /// where `continuity` records one. Where a continuity context is given, the
    /// threads behind the causes and fixes adjust them. Under a low-signal scope
    /// every cause, fix and hint gets its guardrail. Where a mod's dependency
    /// insights are given, the surfaces the compare overlaps adjust the findings and
    /// the mod's input is recorded. Then each list is ranked, most confident first
    /// and ties by code (hints by old path), equal ones keeping their order.
    pub fn infer_with_context(
        &self,
        compare_report: &SnapshotCompareReport,
        knowledge: &WwmiKnowledgeBase,
        continuity: Option<&InferenceContinuityContext>,
        mod_dependency: Option<&ModDependencyInsights>,
        surface_notes: Vec<String>,
        surface_intersection: InferenceSurfaceIntersection,
        generated_at_unix_ms: u64,
    ) -> (r: InferenceReport)
        ensures
            r.schema_version@ == "whashreonator.inference.v1"@,
            r.generated_at_unix_ms == generated_at_unix_ms,
            r.compare_input.old_version_id@ == compare_report.old_snapshot.version_id@,
            r.compare_input.new_version_id@ == compare_report.new_snapshot.version_id@,
            r.compare_input.changed_assets == compare_report.summary.changed_assets,
            r.compare_input.added_assets == compare_report.summary.added_assets,
            r.compare_input.removed_assets == compare_report.summary.removed_assets,
            r.compare_input.candidate_mapping_changes
                == compare_report.summary.candidate_mapping_changes,
            r.knowledge_input.repo@ == knowledge.repo@,
            r.knowledge_input.analyzed_commits == knowledge.analyzed_commits,
            r.knowledge_input.fix_like_commits == knowledge.fix_like_commits,
            r.knowledge_input.discovered_patterns == knowledge.discovered_patterns,
            match mod_dependency {
                Some(md) => r.mod_dependency_input is Some && input_same(
                    r.mod_dependency_input->0,
                    md.input,
                ),
                None => r.mod_dependency_input is None,
            },
            r.scope.low_signal_compare == compare_report.scope.low_signal_compare,
            r.scope.old_snapshot_low_signal
                == compare_report.scope.old_snapshot.low_signal_for_character_analysis,
            r.scope.new_snapshot_low_signal
                == compare_report.scope.new_snapshot.low_signal_for_character_analysis,
            views(r.scope.notes@) == spec_base_scope_notes(*compare_report) + opt_mod_note(mod_dependency)
                + views(surface_notes@),
            r.surface_intersection == surface_intersection,
            exists|st: Seq<ContinuitySignal>, rm: Seq<ContinuitySignal>, cd: Seq<ContinuitySignal>, dr: Seq<
                ContinuitySignal,
            >, pre: Seq<InferredMappingHint>|
                #[trigger] findings_from(
                    r,
                    *compare_report,
                    *knowledge,
                    opt_ctx(continuity),
                    opt_insights(mod_dependency),
                    st,
                    rm,
                    cd,
                    dr,
                    pre,
                ),
            r.summary.probable_crash_causes == r.probable_crash_causes@.len(),
            r.summary.suggested_fixes == r.suggested_fixes@.len(),
            r.summary.candidate_mapping_hints == r.candidate_mapping_hints@.len(),
            r.summary.highest_confidence_milli == max_of(
                confidences(
                    r.probable_crash_causes@,
                    r.suggested_fixes@,
                    r.candidate_mapping_hints@,
                ),
            ),
    {
        let cr = compare_report;
        let mut notes = base_scope_notes(cr);
        let ghost n0 = views(notes@);
        match mod_dependency {
            Some(md) => push_text(&mut notes, mod_profile_note_exec(&md.input)),
            None => {},
        }
        proof {
            assert(views(notes@) =~= n0 + opt_mod_note(mod_dependency));
        }
        append_texts(&mut notes, surface_notes);
        let scope = InferenceScopeContext {
            low_signal_compare: cr.scope.low_signal_compare,
            old_snapshot_low_signal: cr.scope.old_snapshot.low_signal_for_character_analysis,
            new_snapshot_low_signal: cr.scope.new_snapshot.low_signal_for_character_analysis,
            notes,
        };
        let (mut causes, mut fixes) = self.probable_causes_and_fixes(cr, knowledge);
        let mapping_support = support_of(knowledge, WwmiPatternKind::MappingOrHashUpdate);
        let mut hints = infer_candidate_hints(cr, mapping_support, &scope, continuity);
        let ghost pre = hints@;
        let ghost mut gst: Seq<ContinuitySignal> = Seq::empty();
        let ghost mut grm: Seq<ContinuitySignal> = Seq::empty();
        let ghost mut gcd: Seq<ContinuitySignal> = Seq::empty();
        let ghost mut gdr: Seq<ContinuitySignal> = Seq::empty();
        match continuity {
            Some(ctx) => {
                let sets = continuity_signal_sets(cr, ctx);
                proof {
                    gst = sets.structural@;
                    grm = sets.removed@;
                    gcd = sets.candidates@;
                    gdr = sets.drifted@;
                }
                let buffer_support = support_of(knowledge, WwmiPatternKind::BufferLayoutOrCapacityFix);
                apply_continuity_inference_adjustments(
                    &mut causes,
                    &mut fixes,
                    sets,
                    cr.new_snapshot.version_id.as_str(),
                    mapping_support,
                    buffer_support,
                    scope.low_signal_compare,
                );
            },
            None => {},
        }
        let ghost adjusted_causes = cause_models(causes@);
        let ghost adjusted_fixes = fix_models(fixes@);
        let ghost ns = views(scope.notes@);
        let ghost sc = scope;
        if scope.low_signal_compare {
            apply_low_signal_inference_guardrails(&mut causes, &mut fixes, &mut hints, &scope);
        }
        proof {
            assert(cause_models(causes@) == guarded_causes(adjusted_causes, scope.low_signal_compare, ns));
            assert(fix_models(fixes@) == guarded_fixes(adjusted_fixes, scope.low_signal_compare, ns));
            assert(hint_models(hints@) == guarded_hints(hint_models(pre), scope.low_signal_compare));
        }
        let mod_dependency_input = match mod_dependency {
            Some(md) => {
                apply_mod_dependency_inference_adjustments(
                    &mut causes,
                    &mut fixes,
                    &mut hints,
                    cr,
                    md,
                    &surface_intersection,
                    mapping_support,
                    support_of(knowledge, WwmiPatternKind::BufferLayoutOrCapacityFix),
                    support_of(knowledge, WwmiPatternKind::RuntimeConfigChange),
                    scope.low_signal_compare,
                );
                Some(copy_input(&md.input))
            },
            None => None,
        };
        let causes = rank_causes(causes);
        let fixes = rank_fixes(fixes);
        let hints = rank_hints(hints);
        let highest = highest_confidence(&causes, &fixes, &hints);
        let summary = InferenceSummary {
            probable_crash_causes: causes.len(),
            suggested_fixes: fixes.len(),
            candidate_mapping_hints: hints.len(),
            highest_confidence_milli: highest,
        };
        let compare_input = InferenceCompareInput {
            old_version_id: clone_string(&cr.old_snapshot.version_id),
            new_version_id: clone_string(&cr.new_snapshot.version_id),
            changed_assets: cr.summary.changed_assets,
            added_assets: cr.summary.added_assets,
            removed_assets: cr.summary.removed_assets,
            candidate_mapping_changes: cr.summary.candidate_mapping_changes,
        };
        let knowledge_input = InferenceKnowledgeInput {
            repo: clone_string(&knowledge.repo),
            analyzed_commits: knowledge.analyzed_commits,
            fix_like_commits: knowledge.fix_like_commits,
            discovered_patterns: knowledge.discovered_patterns,
        };
        let r = InferenceReport {
            schema_version: new_string("whashreonator.inference.v1"),
            generated_at_unix_ms,
            compare_input,
            knowledge_input,
            mod_dependency_input,
            scope,
            summary,
            probable_crash_causes: causes,
            suggested_fixes: fixes,
            candidate_mapping_hints: hints,
            surface_intersection,
        };
        proof {
            assert(r.scope == sc);
            assert(pre.len() == cr.candidate_mapping_changes@.len());
            assert forall|i: int| 0 <= i < pre.len() implies hint_for(
                #[trigger] pre[i],
                cr.candidate_mapping_changes@[i],
                pattern_support(*knowledge, WwmiPatternKind::MappingOrHashUpdate),
                r.scope,
                opt_ctx(continuity),
                cr.new_snapshot.version_id@,
            ) by {}
            assert(findings_from(
                r,
                *cr,
                *knowledge,
                opt_ctx(continuity),
                opt_insights(mod_dependency),
                gst,
                grm,
                gcd,
                gdr,
                pre,
            ));
        }
        r
    }
}

} // verus!
