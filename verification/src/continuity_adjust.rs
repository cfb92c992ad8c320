//! What a compare's continuity history changes in its causes and fixes: the
//! threads behind each finding are named in its reasons and evidence, unstable
//! threads raise or lower its confidence, and threads that drift repeatedly or end
//! badly add a cause and a fix of their own. Confidences are thousandths.
use vstd::prelude::*;
use crate::compare::{RemapCompatibility, RiskLevel, SnapshotChangeType};
use crate::compare::change::SnapshotAssetChange;
use crate::compare::outcome::{CandidateMappingChange, SnapshotCompareReport};
use crate::continuity::{continuity_signal_for_candidate, continuity_signal_for_change, key_new, key_old, InferenceContinuityContext};
use crate::findings::is_structural;
use crate::inference::is_structural_change;
use crate::text::opt_view;
use crate::continuity::{
    all_counts_fit, append_continuity_signal_context, collect_continuity_affected_assets,
    continuity_signal_evidence, count_stable, dedup_continuity_signals, first_four,
    first_occurrences, first_per_thread, signal_paths, spec_signal_details, spec_thread_reasons,
    ContinuitySignal,
};
use crate::findings::{blend, blend_exec, cause_model, fix_model, keep, scaled, CauseModel, FixModel};
use crate::inference::{ProbableCrashCause, SuggestedFix};
use crate::inference_engine::{cause_models, fix_models};
use crate::text::{
    clone_strings,
    decimal, decimal_string, fixed3, fixed3_string, join_seq, new_string, push_str, push_text,
    str_eq, views,
};

verus! {

// ---------------------------------------------------------------------------
// Threads
// ---------------------------------------------------------------------------

/// A thread that drifted in layout at least twice, needs review, or ended.
pub open spec fn unstable(s: ContinuitySignal) -> bool {
    s.spec_layout_steps() >= 2 || s.review_required || s.terminal_relation is Some
}

pub open spec fn history(s: ContinuitySignal) -> bool {
    s.review_required || s.terminal_relation is Some
}

pub open spec fn layout2(s: ContinuitySignal) -> bool {
    s.spec_layout_steps() >= 2
}

pub open spec fn any_unstable(s: Seq<ContinuitySignal>) -> bool {
    exists|i: int| 0 <= i < s.len() && unstable(#[trigger] s[i])
}

pub open spec fn any_layout2(s: Seq<ContinuitySignal>) -> bool {
    exists|i: int| 0 <= i < s.len() && layout2(#[trigger] s[i])
}

pub open spec fn any_history(s: Seq<ContinuitySignal>) -> bool {
    exists|i: int| 0 <= i < s.len() && history(#[trigger] s[i])
}

pub open spec fn count_unstable(s: Seq<ContinuitySignal>) -> nat
    decreases s.len(),
{
    if s.len() == 0 {
        0
    } else {
        count_unstable(s.drop_last()) + if unstable(s.last()) {
            1nat
        } else {
            0nat
        }
    }
}

/// The unstable threads of `s`, in order.
pub open spec fn unstable_only(s: Seq<ContinuitySignal>) -> Seq<ContinuitySignal>
    decreases s.len(),
{
    if s.len() == 0 {
        s
    } else if unstable(s.last()) {
        unstable_only(s.drop_last()).push(s.last())
    } else {
        unstable_only(s.drop_last())
    }
}

/// The unstable threads among the structural, candidate and removed ones, each once.
pub open spec fn instability_signals(
    st: Seq<ContinuitySignal>,
    cd: Seq<ContinuitySignal>,
    rm: Seq<ContinuitySignal>,
) -> Seq<ContinuitySignal> {
    first_per_thread(unstable_only(st + cd + rm))
}

// ---------------------------------------------------------------------------
// Findings
// ---------------------------------------------------------------------------

pub open spec fn cap_add(x: nat, y: nat) -> nat {
    if x + y > 1000 {
        1000
    } else {
        x + y
    }
}

pub open spec fn clamp_milli(x: int) -> nat {
    if x < 0 {
        0
    } else if x > 1000 {
        1000
    } else {
        x as nat
    }
}

/// One evidence line for each of the first four threads.
pub open spec fn signal_lines(sigs: Seq<ContinuitySignal>, ver: Seq<char>) -> Seq<Seq<char>> {
    sigs.take(first_four(sigs.len())).map_values(
        |s: ContinuitySignal| join_seq(spec_signal_details(s, ver), "; "@),
    )
}

/// A cause that names the threads behind it, at a new confidence.
pub open spec fn ctx_cause(
    m: CauseModel,
    sigs: Seq<ContinuitySignal>,
    ver: Seq<char>,
    subject: Seq<char>,
    conf: nat,
) -> CauseModel {
    CauseModel {
        code: m.code,
        summary: m.summary,
        confidence_milli: conf,
        risk: m.risk,
        affected: m.affected,
        reasons: m.reasons + spec_thread_reasons(sigs, subject),
        evidence: m.evidence + signal_lines(sigs, ver),
    }
}

/// A fix that names the threads behind it and gets one more action.
pub open spec fn ctx_fix(
    m: FixModel,
    sigs: Seq<ContinuitySignal>,
    ver: Seq<char>,
    subject: Seq<char>,
    action: Seq<char>,
    conf: nat,
) -> FixModel {
    FixModel {
        code: m.code,
        summary: m.summary,
        confidence_milli: conf,
        priority: m.priority,
        actions: m.actions.push(action),
        reasons: m.reasons + spec_thread_reasons(sigs, subject),
        evidence: m.evidence + signal_lines(sigs, ver),
    }
}

/// The first cause with the code changed by `f`; all unchanged if none has it.
pub open spec fn update_first_cause(
    s: Seq<CauseModel>,
    code: Seq<char>,
    f: spec_fn(CauseModel) -> CauseModel,
) -> Seq<CauseModel>
    decreases s.len(),
{
    if s.len() == 0 {
        s
    } else if s[0].code == code {
        s.update(0, f(s[0]))
    } else {
        seq![s[0]] + update_first_cause(s.drop_first(), code, f)
    }
}

pub open spec fn update_first_fix(s: Seq<FixModel>, code: Seq<char>, f: spec_fn(FixModel) -> FixModel) -> Seq<
    FixModel,
>
    decreases s.len(),
{
    if s.len() == 0 {
        s
    } else if s[0].code == code {
        s.update(0, f(s[0]))
    } else {
        seq![s[0]] + update_first_fix(s.drop_first(), code, f)
    }
}

pub open spec fn buffer_fix_action() -> Seq<char> {
    "Inspect continuity milestones for repeated layout drift or later terminal states before promoting any repair path."@
}

pub open spec fn remap_fix_action() -> Seq<char> {
    "Cross-check continuity history for recent stability, recurring renames, and any later terminal state before approving a mapping."@
}

pub open spec fn layout_fix_action() -> Seq<char> {
    "Escalate to manual validation if continuity shows repeated layout drift or a later ambiguous/replacement/removed state."@
}

/// 0.42, plus 0.08 for each unstable thread up to three, plus a tenth of the buffer
/// support and 8% of the mapping support; scaled for a low-signal compare.
pub open spec fn instability_confidence(n: nat, mapping: nat, buffer: nat, low: bool) -> nat {
    scaled(blend(420 + 80 * (if n < 3 { n } else { 3 }), 100 * buffer + 80 * mapping), low)
}

pub open spec fn instability_risk(inst: Seq<ContinuitySignal>) -> RiskLevel {
    if any_layout2(inst) {
        RiskLevel::High
    } else {
        RiskLevel::Medium
    }
}

pub open spec fn instability_reasons(n: nat) -> Seq<Seq<char>> {
    seq![
        "continuity surfaces "@ + decimal(n)
            + " relevant thread(s) with repeated drift or terminal/review history"@,
        "broader version history suggests one-shot remap assumptions may not hold for every affected asset thread"@,
    ]
}

pub open spec fn instability_evidence(
    inst: Seq<ContinuitySignal>,
    ver: Seq<char>,
    mapping: nat,
    buffer: nat,
) -> Seq<Seq<char>> {
    signal_lines(inst, ver).push(
        "continuity-informed confidence blended instability count with WWMI buffer "@ + fixed3(buffer)
            + " and mapping "@ + fixed3(mapping) + " support"@,
    )
}

pub open spec fn instability_cause(
    inst: Seq<ContinuitySignal>,
    ver: Seq<char>,
    mapping: nat,
    buffer: nat,
    low: bool,
) -> CauseModel {
    CauseModel {
        code: "continuity_thread_instability"@,
        summary: "Broader continuity history shows some affected asset threads drift repeatedly or terminate ambiguously, so remap-only repair may not stay safe across versions."@,
        confidence_milli: instability_confidence(inst.len(), mapping, buffer, low),
        risk: instability_risk(inst),
        affected: first_occurrences(signal_paths(inst)),
        reasons: instability_reasons(inst.len()),
        evidence: instability_evidence(inst, ver, mapping, buffer),
    }
}

pub open spec fn instability_fix(
    inst: Seq<ContinuitySignal>,
    ver: Seq<char>,
    mapping: nat,
    buffer: nat,
    low: bool,
) -> FixModel {
    FixModel {
        code: "review_continuity_thread_history_before_repair"@,
        summary: "Review continuity milestones for unstable asset threads before trusting remap-only repair decisions."@,
        confidence_milli: instability_confidence(inst.len(), mapping, buffer, low),
        priority: instability_risk(inst),
        actions: seq![
            "Inspect the full continuity thread for each flagged asset and note any repeated layout drift, recurring rename/repath, or terminal state."@,
            "Downgrade repair confidence when the broader chain later becomes ambiguous, replacement-like, or removed."@,
            "Keep continuity-unstable mappings in review until a human validates both the current pair and the broader version history."@,
        ],
        reasons: instability_reasons(inst.len()).push(
            "continuity should be treated as supporting evidence; keep fixes review-oriented when the thread later degrades or terminates"@,
        ),
        evidence: instability_evidence(inst, ver, mapping, buffer).push(
            "use continuity milestones to decide whether repair should stay manual rather than auto-promoted"@,
        ),
    }
}

pub open spec fn step_buffer_cause(st: Seq<ContinuitySignal>, ver: Seq<char>) -> spec_fn(CauseModel) -> CauseModel {
    |m: CauseModel|
        ctx_cause(
            m,
            st,
            ver,
            "structurally changed"@,
            if any_unstable(st) {
                cap_add(m.confidence_milli, 50)
            } else {
                m.confidence_milli
            },
        )
}

pub open spec fn step_mapping_cause(cd: Seq<ContinuitySignal>, ver: Seq<char>) -> spec_fn(CauseModel) -> CauseModel {
    |m: CauseModel|
        ctx_cause(
            m,
            cd,
            ver,
            "mapping-candidate"@,
            clamp_milli(m.confidence_milli + 20 * count_stable(cd) - 60 * count_unstable(cd)),
        )
}

pub open spec fn step_drift_cause(dr: Seq<ContinuitySignal>, ver: Seq<char>) -> spec_fn(CauseModel) -> CauseModel {
    |m: CauseModel|
        ctx_cause(
            m,
            dr,
            ver,
            "structurally drifted remap"@,
            if any_unstable(dr) {
                cap_add(m.confidence_milli, 60)
            } else {
                m.confidence_milli
            },
        )
}

pub open spec fn step_removed_cause(rm: Seq<ContinuitySignal>, ver: Seq<char>) -> spec_fn(CauseModel) -> CauseModel {
    |m: CauseModel|
        ctx_cause(
            m,
            rm,
            ver,
            "removed"@,
            if any_history(rm) {
                cap_add(m.confidence_milli, 40)
            } else {
                m.confidence_milli
            },
        )
}

/// A fix that names its threads and gets `action`; with `bump`, repeated layout
/// drift on a thread raises its confidence by 40.
pub open spec fn fix_step_fn(
    sigs: Seq<ContinuitySignal>,
    ver: Seq<char>,
    subject: Seq<char>,
    action: Seq<char>,
    bump: bool,
) -> spec_fn(FixModel) -> FixModel {
    |m: FixModel|
        ctx_fix(
            m,
            sigs,
            ver,
            subject,
            action,
            if bump && any_layout2(sigs) {
                cap_add(m.confidence_milli, 40)
            } else {
                m.confidence_milli
            },
        )
}

pub open spec fn step_buffer_fix(st: Seq<ContinuitySignal>, ver: Seq<char>) -> spec_fn(FixModel) -> FixModel {
    fix_step_fn(st, ver, "layout-sensitive"@, buffer_fix_action(), true)
}

pub open spec fn step_remap_fix(cd: Seq<ContinuitySignal>, ver: Seq<char>) -> spec_fn(FixModel) -> FixModel {
    fix_step_fn(cd, ver, "remap-candidate"@, remap_fix_action(), false)
}

pub open spec fn step_layout_fix(dr: Seq<ContinuitySignal>, ver: Seq<char>) -> spec_fn(FixModel) -> FixModel {
    fix_step_fn(dr, ver, "layout-risk remap"@, layout_fix_action(), false)
}

pub open spec fn when_some<T>(nonempty: bool, s: Seq<T>, t: Seq<T>) -> Seq<T> {
    if nonempty {
        t
    } else {
        s
    }
}

/// The causes after the continuity history of the structural (`st`), removed
/// (`rm`), candidate (`cd`) and structurally drifted candidate (`dr`) threads.
pub open spec fn continuity_adjusted_causes(
    s: Seq<CauseModel>,
    st: Seq<ContinuitySignal>,
    rm: Seq<ContinuitySignal>,
    cd: Seq<ContinuitySignal>,
    dr: Seq<ContinuitySignal>,
    ver: Seq<char>,
    mapping: nat,
    buffer: nat,
    low: bool,
) -> Seq<CauseModel> {
    let s1 = update_first_cause(s, "buffer_layout_changed"@, step_buffer_cause(st, ver));
    let s2 = when_some(
        cd.len() > 0,
        s1,
        update_first_cause(s1, "asset_paths_or_mapping_shifted"@, step_mapping_cause(cd, ver)),
    );
    let s3 = when_some(
        dr.len() > 0,
        s2,
        update_first_cause(s2, "candidate_remap_structural_drift"@, step_drift_cause(dr, ver)),
    );
    let s4 = when_some(
        rm.len() > 0,
        s3,
        update_first_cause(s3, "asset_removed_without_clear_replacement"@, step_removed_cause(rm, ver)),
    );
    let inst = instability_signals(st, cd, rm);
    when_some(inst.len() > 0, s4, s4.push(instability_cause(inst, ver, mapping, buffer, low)))
}

/// The fixes after the same continuity history.
pub open spec fn continuity_adjusted_fixes(
    f: Seq<FixModel>,
    st: Seq<ContinuitySignal>,
    rm: Seq<ContinuitySignal>,
    cd: Seq<ContinuitySignal>,
    dr: Seq<ContinuitySignal>,
    ver: Seq<char>,
    mapping: nat,
    buffer: nat,
    low: bool,
) -> Seq<FixModel> {
    let f1 = when_some(
        st.len() > 0,
        f,
        update_first_fix(f, "review_buffer_layout_and_runtime_guards"@, step_buffer_fix(st, ver)),
    );
    let f2 = when_some(
        cd.len() > 0,
        f1,
        update_first_fix(f1, "review_candidate_asset_remaps"@, step_remap_fix(cd, ver)),
    );
    let f3 = when_some(
        dr.len() > 0,
        f2,
        update_first_fix(f2, "validate_candidate_remaps_against_layout"@, step_layout_fix(dr, ver)),
    );
    let inst = instability_signals(st, cd, rm);
    when_some(inst.len() > 0, f3, f3.push(instability_fix(inst, ver, mapping, buffer, low)))
}


/// Where no thread stands behind any finding, the continuity history changes no
/// cause and no fix.
pub proof fn no_threads_change_no_finding(
    s: Seq<CauseModel>,
    f: Seq<FixModel>,
    ver: Seq<char>,
    mapping: nat,
    buffer: nat,
    low: bool,
)
    ensures
        continuity_adjusted_causes(s, Seq::empty(), Seq::empty(), Seq::empty(), Seq::empty(), ver, mapping, buffer, low)
            == s,
        continuity_adjusted_fixes(f, Seq::empty(), Seq::empty(), Seq::empty(), Seq::empty(), ver, mapping, buffer, low)
            == f,
{
    let e = Seq::<ContinuitySignal>::empty();
    let step = step_buffer_cause(e, ver);
    assert(spec_thread_reasons(e, "structurally changed"@) =~= Seq::<Seq<char>>::empty());
    assert(signal_lines(e, ver) =~= Seq::<Seq<char>>::empty());
    assert forall|m: CauseModel| #[trigger] step(m) == m by {
        assert(!any_unstable(e));
        assert(step(m).reasons =~= m.reasons);
        assert(step(m).evidence =~= m.evidence);
    }
    lemma_update_identity(s, "buffer_layout_changed"@, step);
    assert(e + e + e =~= e);
    assert(unstable_only(e) =~= e);
    assert(first_per_thread(e) =~= e);
}

proof fn lemma_update_identity(s: Seq<CauseModel>, code: Seq<char>, f: spec_fn(CauseModel) -> CauseModel)
    requires
        forall|m: CauseModel| #[trigger] f(m) == m,
    ensures
        update_first_cause(s, code, f) == s,
    decreases s.len(),
{
    if s.len() > 0 {
        if s[0].code == code {
            assert(s.update(0, f(s[0])) =~= s);
        } else {
            lemma_update_identity(s.drop_first(), code, f);
            assert(seq![s[0]] + s.drop_first() =~= s);
        }
    }
}

// ---------------------------------------------------------------------------
// Lemmas
// ---------------------------------------------------------------------------

pub(crate) proof fn lemma_update_first_cause(s: Seq<CauseModel>, code: Seq<char>, f: spec_fn(CauseModel) -> CauseModel, k: int)
    requires
        0 <= k < s.len(),
        s[k].code == code,
        forall|j: int| 0 <= j < k ==> (#[trigger] s[j]).code != code,
    ensures
        update_first_cause(s, code, f) == s.update(k, f(s[k])),
    decreases k,
{
    if k > 0 {
        assert(s[0].code != code);
        let d = s.drop_first();
        assert forall|j: int| 0 <= j < k - 1 implies (#[trigger] d[j]).code != code by {
            assert(d[j] == s[j + 1]);
        }
        lemma_update_first_cause(d, code, f, k - 1);
        assert(seq![s[0]] + d.update(k - 1, f(s[k])) =~= s.update(k, f(s[k])));
    }
}

pub(crate) proof fn lemma_no_cause(s: Seq<CauseModel>, code: Seq<char>, f: spec_fn(CauseModel) -> CauseModel)
    requires
        forall|j: int| 0 <= j < s.len() ==> (#[trigger] s[j]).code != code,
    ensures
        update_first_cause(s, code, f) == s,
    decreases s.len(),
{
    if s.len() > 0 {
        assert(s[0].code != code);
        let d = s.drop_first();
        assert forall|j: int| 0 <= j < d.len() implies (#[trigger] d[j]).code != code by {
            assert(d[j] == s[j + 1]);
        }
        lemma_no_cause(d, code, f);
        assert(seq![s[0]] + d =~= s);
    }
}

pub(crate) proof fn lemma_update_first_fix(s: Seq<FixModel>, code: Seq<char>, f: spec_fn(FixModel) -> FixModel, k: int)
    requires
        0 <= k < s.len(),
        s[k].code == code,
        forall|j: int| 0 <= j < k ==> (#[trigger] s[j]).code != code,
    ensures
        update_first_fix(s, code, f) == s.update(k, f(s[k])),
    decreases k,
{
    if k > 0 {
        assert(s[0].code != code);
        let d = s.drop_first();
        assert forall|j: int| 0 <= j < k - 1 implies (#[trigger] d[j]).code != code by {
            assert(d[j] == s[j + 1]);
        }
        lemma_update_first_fix(d, code, f, k - 1);
        assert(seq![s[0]] + d.update(k - 1, f(s[k])) =~= s.update(k, f(s[k])));
    }
}

pub(crate) proof fn lemma_no_fix(s: Seq<FixModel>, code: Seq<char>, f: spec_fn(FixModel) -> FixModel)
    requires
        forall|j: int| 0 <= j < s.len() ==> (#[trigger] s[j]).code != code,
    ensures
        update_first_fix(s, code, f) == s,
    decreases s.len(),
{
    if s.len() > 0 {
        assert(s[0].code != code);
        let d = s.drop_first();
        assert forall|j: int| 0 <= j < d.len() implies (#[trigger] d[j]).code != code by {
            assert(d[j] == s[j + 1]);
        }
        lemma_no_fix(d, code, f);
        assert(seq![s[0]] + d =~= s);
    }
}

proof fn lemma_unstable_only_concat(a: Seq<ContinuitySignal>, b: Seq<ContinuitySignal>)
    ensures
        unstable_only(a + b) == unstable_only(a) + unstable_only(b),
    decreases b.len(),
{
    if b.len() == 0 {
        assert(a + b =~= a);
        assert(unstable_only(a) + unstable_only(b) =~= unstable_only(a));
    } else {
        lemma_unstable_only_concat(a, b.drop_last());
        assert((a + b).drop_last() =~= a + b.drop_last());
        assert((a + b).last() == b.last());
        if unstable(b.last()) {
            assert(unstable_only(a) + unstable_only(b.drop_last()).push(b.last()) =~= (unstable_only(a)
                + unstable_only(b.drop_last())).push(b.last()));
        }
    }
}

proof fn lemma_unstable_only_fits(s: Seq<ContinuitySignal>)
    requires
        all_counts_fit(s),
    ensures
        all_counts_fit(unstable_only(s)),
    decreases s.len(),
{
    if s.len() > 0 {
        assert(all_counts_fit(s.drop_last())) by {
            assert forall|i: int| 0 <= i < s.drop_last().len() implies (#[trigger] s.drop_last()[i]).counts_fit() by {
                assert(s.drop_last()[i] == s[i]);
            }
        }
        lemma_unstable_only_fits(s.drop_last());
        assert(s.last() == s[s.len() - 1]);
    }
}

proof fn lemma_first_per_thread_fits(s: Seq<ContinuitySignal>)
    requires
        all_counts_fit(s),
    ensures
        all_counts_fit(first_per_thread(s)),
    decreases s.len(),
{
    if s.len() > 0 {
        assert(all_counts_fit(s.drop_last())) by {
            assert forall|i: int| 0 <= i < s.drop_last().len() implies (#[trigger] s.drop_last()[i]).counts_fit() by {
                assert(s.drop_last()[i] == s[i]);
            }
        }
        lemma_first_per_thread_fits(s.drop_last());
        assert(s.last() == s[s.len() - 1]);
    }
}

// ---------------------------------------------------------------------------
// Executable pieces
// ---------------------------------------------------------------------------

fn layout2_exec(s: &ContinuitySignal) -> (r: bool)
    ensures
        r == layout2(*s),
{
    let cur: u128 = if matches!(s.current_relation, crate::report::VersionContinuityRelation::LayoutDrift) {
        1
    } else {
        0
    };
    (s.prior_layout_drift_steps as u128) + cur + (s.later_layout_drift_steps as u128) >= 2
}

fn unstable_exec(s: &ContinuitySignal) -> (r: bool)
    ensures
        r == unstable(*s),
{
    layout2_exec(s) || s.review_required || s.terminal_relation.is_some()
}

fn any_unstable_exec(v: &Vec<ContinuitySignal>) -> (r: bool)
    ensures
        r == any_unstable(v@),
{
    let mut i: usize = 0;
    while i < v.len()
        invariant
            i <= v@.len(),
            forall|j: int| 0 <= j < i ==> !unstable(#[trigger] v@[j]),
        decreases v.len() - i,
    {
        if unstable_exec(&v[i]) {
            return true;
        }
        i = i + 1;
    }
    false
}

fn any_layout2_exec(v: &Vec<ContinuitySignal>) -> (r: bool)
    ensures
        r == any_layout2(v@),
{
    let mut i: usize = 0;
    while i < v.len()
        invariant
            i <= v@.len(),
            forall|j: int| 0 <= j < i ==> !layout2(#[trigger] v@[j]),
        decreases v.len() - i,
    {
        if layout2_exec(&v[i]) {
            return true;
        }
        i = i + 1;
    }
    false
}

fn any_history_exec(v: &Vec<ContinuitySignal>) -> (r: bool)
    ensures
        r == any_history(v@),
{
    let mut i: usize = 0;
    while i < v.len()
        invariant
            i <= v@.len(),
            forall|j: int| 0 <= j < i ==> !history(#[trigger] v@[j]),
        decreases v.len() - i,
    {
        if v[i].review_required || v[i].terminal_relation.is_some() {
            return true;
        }
        i = i + 1;
    }
    false
}

fn counts_exec(v: &Vec<ContinuitySignal>) -> (r: (usize, usize))
    ensures
        r.0 == count_stable(v@),
        r.1 == count_unstable(v@),
{
    let mut a: usize = 0;
    let mut b: usize = 0;
    let mut i: usize = 0;
    while i < v.len()
        invariant
            i <= v@.len(),
            a == count_stable(v@.take(i as int)),
            b == count_unstable(v@.take(i as int)),
            a <= i,
            b <= i,
        decreases v.len() - i,
    {
        proof {
            assert(v@.take(i + 1).drop_last() =~= v@.take(i as int));
            assert(v@.take(i + 1).last() == v@[i as int]);
        }
        if v[i].stable_before_current_change() {
            a = a + 1;
        }
        if unstable_exec(&v[i]) {
            b = b + 1;
        }
        i = i + 1;
    }
    proof {
        assert(v@.take(i as int) =~= v@);
    }
    (a, b)
}

pub(crate) fn find_cause(v: &Vec<ProbableCrashCause>, code: &str) -> (r: Option<usize>)
    ensures
        match r {
            Some(k) => k < v@.len() && v@[k as int].code@ == code@ && forall|j: int|
                0 <= j < k ==> (#[trigger] v@[j]).code@ != code@,
            None => forall|j: int| 0 <= j < v@.len() ==> (#[trigger] v@[j]).code@ != code@,
        },
{
    let mut i: usize = 0;
    while i < v.len()
        invariant
            i <= v@.len(),
            forall|j: int| 0 <= j < i ==> (#[trigger] v@[j]).code@ != code@,
        decreases v.len() - i,
    {
        if str_eq(v[i].code.as_str(), code) {
            return Some(i);
        }
        i = i + 1;
    }
    None
}

pub(crate) fn find_fix(v: &Vec<SuggestedFix>, code: &str) -> (r: Option<usize>)
    ensures
        match r {
            Some(k) => k < v@.len() && v@[k as int].code@ == code@ && forall|j: int|
                0 <= j < k ==> (#[trigger] v@[j]).code@ != code@,
            None => forall|j: int| 0 <= j < v@.len() ==> (#[trigger] v@[j]).code@ != code@,
        },
{
    let mut i: usize = 0;
    while i < v.len()
        invariant
            i <= v@.len(),
            forall|j: int| 0 <= j < i ==> (#[trigger] v@[j]).code@ != code@,
        decreases v.len() - i,
    {
        if str_eq(v[i].code.as_str(), code) {
            return Some(i);
        }
        i = i + 1;
    }
    None
}

pub(crate) fn cap_add_exec(x: u32, y: u32) -> (r: u32)
    requires
        y <= 1000,
    ensures
        r == cap_add(x as nat, y as nat),
{
    if x as u64 + y as u64 > 1000 {
        1000
    } else {
        x + y
    }
}

fn contextualize_cause(
    c: ProbableCrashCause,
    sigs: &Vec<ContinuitySignal>,
    ver: &str,
    subject: &str,
    conf: u32,
) -> (r: ProbableCrashCause)
    requires
        all_counts_fit(sigs@),
    ensures
        cause_model(r) == ctx_cause(cause_model(c), sigs@, ver@, subject@, conf as nat),
{
    let mut c = c;
    append_continuity_signal_context(&mut c.reasons, &mut c.evidence, sigs, ver, subject);
    c.confidence_milli = conf;
    c
}

fn contextualize_fix(
    f: SuggestedFix,
    sigs: &Vec<ContinuitySignal>,
    ver: &str,
    subject: &str,
    action: &str,
    conf: u32,
) -> (r: SuggestedFix)
    requires
        all_counts_fit(sigs@),
    ensures
        fix_model(r) == ctx_fix(fix_model(f), sigs@, ver@, subject@, action@, conf as nat),
{
    let mut f = f;
    append_continuity_signal_context(&mut f.reasons, &mut f.evidence, sigs, ver, subject);
    push_text(&mut f.actions, new_string(action));
    f.confidence_milli = conf;
    f
}

fn signal_lines_exec(sigs: &Vec<ContinuitySignal>, ver: &str) -> (r: Vec<String>)
    requires
        all_counts_fit(sigs@),
    ensures
        views(r@) == signal_lines(sigs@, ver@),
{
    let n: usize = if sigs.len() < 4 {
        sigs.len()
    } else {
        4
    };
    let mut out: Vec<String> = Vec::new();
    let mut i: usize = 0;
    while i < n
        invariant
            i <= n,
            n as int == first_four(sigs@.len()),
            n <= sigs@.len(),
            all_counts_fit(sigs@),
            views(out@) == sigs@.take(i as int).map_values(
                |s: ContinuitySignal| join_seq(spec_signal_details(s, ver@), "; "@),
            ),
        decreases n - i,
    {
        assert(sigs@[i as int].counts_fit());
        let line = continuity_signal_evidence(&sigs[i], ver);
        push_text(&mut out, line);
        proof {
            assert(sigs@.take(i + 1) =~= sigs@.take(i as int).push(sigs@[i as int]));
            assert(sigs@.take(i + 1).map_values(
                |s: ContinuitySignal| join_seq(spec_signal_details(s, ver@), "; "@),
            ) =~= sigs@.take(i as int).map_values(
                |s: ContinuitySignal| join_seq(spec_signal_details(s, ver@), "; "@),
            ).push(join_seq(spec_signal_details(sigs@[i as int], ver@), "; "@)));
        }
        i = i + 1;
    }
    out
}

fn move_unstable(pool: &mut Vec<ContinuitySignal>, src: Vec<ContinuitySignal>)
    ensures
        final(pool)@ == old(pool)@ + unstable_only(src@),
{
    let ghost all = src@;
    let ghost p0 = pool@;
    let mut rest = src;
    let mut i: usize = 0;
    proof {
        assert(all.take(0) =~= Seq::<ContinuitySignal>::empty());
        assert(rest@ =~= all.skip(0));
        assert(p0 + unstable_only(all.take(0)) =~= p0);
        assert(all.len() == rest.len());
    }
    while rest.len() > 0
        invariant
            i <= all.len() <= usize::MAX,
            rest@ == all.skip(i as int),
            pool@ == p0 + unstable_only(all.take(i as int)),
        decreases rest.len(),
    {
        let s = rest.remove(0);
        proof {
            assert(s == all[i as int]);
            assert(all.take(i + 1).drop_last() =~= all.take(i as int));
            assert(all.take(i + 1).last() == s);
            assert(rest@ =~= all.skip(i + 1));
        }
        if unstable_exec(&s) {
            pool.push(s);
            proof {
                assert(pool@ =~= p0 + unstable_only(all.take(i + 1)));
            }
        }
        i = i + 1;
    }
    proof {
        assert(all.take(i as int) =~= all);
    }
}


proof fn lemma_cause_replaced(
    before: Seq<ProbableCrashCause>,
    after: Seq<ProbableCrashCause>,
    k: int,
    code: Seq<char>,
    f: spec_fn(CauseModel) -> CauseModel,
)
    requires
        0 <= k < before.len(),
        after == before.update(k, after[k]),
        cause_model(after[k]) == f(cause_model(before[k])),
        before[k].code@ == code,
        forall|j: int| 0 <= j < k ==> (#[trigger] before[j]).code@ != code,
    ensures
        cause_models(after) == update_first_cause(cause_models(before), code, f),
{
    let m = cause_models(before);
    assert forall|j: int| 0 <= j < k implies (#[trigger] m[j]).code != code by {
        assert(m[j] == cause_model(before[j]));
    }
    lemma_update_first_cause(m, code, f, k);
    assert(cause_models(after) =~= m.update(k, f(m[k])));
}

proof fn lemma_cause_absent(before: Seq<ProbableCrashCause>, code: Seq<char>, f: spec_fn(CauseModel) -> CauseModel)
    requires
        forall|j: int| 0 <= j < before.len() ==> (#[trigger] before[j]).code@ != code,
    ensures
        cause_models(before) == update_first_cause(cause_models(before), code, f),
{
    let m = cause_models(before);
    assert forall|j: int| 0 <= j < m.len() implies (#[trigger] m[j]).code != code by {
        assert(m[j] == cause_model(before[j]));
    }
    lemma_no_cause(m, code, f);
}

proof fn lemma_fix_replaced(
    before: Seq<SuggestedFix>,
    after: Seq<SuggestedFix>,
    k: int,
    code: Seq<char>,
    f: spec_fn(FixModel) -> FixModel,
)
    requires
        0 <= k < before.len(),
        after == before.update(k, after[k]),
        fix_model(after[k]) == f(fix_model(before[k])),
        before[k].code@ == code,
        forall|j: int| 0 <= j < k ==> (#[trigger] before[j]).code@ != code,
    ensures
        fix_models(after) == update_first_fix(fix_models(before), code, f),
{
    let m = fix_models(before);
    assert forall|j: int| 0 <= j < k implies (#[trigger] m[j]).code != code by {
        assert(m[j] == fix_model(before[j]));
    }
    lemma_update_first_fix(m, code, f, k);
    assert(fix_models(after) =~= m.update(k, f(m[k])));
}

proof fn lemma_fix_absent(before: Seq<SuggestedFix>, code: Seq<char>, f: spec_fn(FixModel) -> FixModel)
    requires
        forall|j: int| 0 <= j < before.len() ==> (#[trigger] before[j]).code@ != code,
    ensures
        fix_models(before) == update_first_fix(fix_models(before), code, f),
{
    let m = fix_models(before);
    assert forall|j: int| 0 <= j < m.len() implies (#[trigger] m[j]).code != code by {
        assert(m[j] == fix_model(before[j]));
    }
    lemma_no_fix(m, code, f);
}

// ---------------------------------------------------------------------------
// The adjustment
// ---------------------------------------------------------------------------

/// The threads behind a compare's findings: those of its structural changes, of
/// its removals, of its candidate remaps and of its structurally drifted candidates.
pub struct ContinuitySignalSets {
    pub structural: Vec<ContinuitySignal>,
    pub removed: Vec<ContinuitySignal>,
    pub candidates: Vec<ContinuitySignal>,
    pub drifted: Vec<ContinuitySignal>,
}

fn cause_step_buffer(causes: &mut Vec<ProbableCrashCause>, st: &Vec<ContinuitySignal>, ver: &str)
    requires
        all_counts_fit(st@),
    ensures
        cause_models(final(causes)@) == update_first_cause(
            cause_models(old(causes)@),
            "buffer_layout_changed"@,
            step_buffer_cause(st@, ver@),
        ),
{
    let ghost c0 = causes@;
    match find_cause(causes, "buffer_layout_changed") {
        Some(k) => {
            let c = causes.remove(k);
            let conf = if any_unstable_exec(st) {
                cap_add_exec(c.confidence_milli, 50)
            } else {
                c.confidence_milli
            };
            let c2 = contextualize_cause(c, st, ver, "structurally changed", conf);
            causes.insert(k, c2);
            proof {
                assert(causes@ =~= c0.update(k as int, causes@[k as int]));
                lemma_cause_replaced(c0, causes@, k as int, "buffer_layout_changed"@, step_buffer_cause(st@, ver@));
            }
        },
        None => {
            proof {
                lemma_cause_absent(c0, "buffer_layout_changed"@, step_buffer_cause(st@, ver@));
            }
        },
    }
}

fn cause_step_mapping(causes: &mut Vec<ProbableCrashCause>, cd: &Vec<ContinuitySignal>, ver: &str)
    requires
        all_counts_fit(cd@),
    ensures
        cause_models(final(causes)@) == update_first_cause(
            cause_models(old(causes)@),
            "asset_paths_or_mapping_shifted"@,
            step_mapping_cause(cd@, ver@),
        ),
{
    let ghost c1 = causes@;
    match find_cause(causes, "asset_paths_or_mapping_shifted") {
        Some(k) => {
            let c = causes.remove(k);
            let (stable, unst) = counts_exec(cd);
            let plus: u128 = c.confidence_milli as u128 + 20 * (stable as u128);
            let minus: u128 = 60 * (unst as u128);
            let conf: u32 = if minus >= plus {
                0
            } else if plus - minus > 1000 {
                1000
            } else {
                (plus - minus) as u32
            };
            let c2 = contextualize_cause(c, cd, ver, "mapping-candidate", conf);
            causes.insert(k, c2);
            proof {
                assert(causes@ =~= c1.update(k as int, causes@[k as int]));
                lemma_cause_replaced(
                    c1,
                    causes@,
                    k as int,
                    "asset_paths_or_mapping_shifted"@,
                    step_mapping_cause(cd@, ver@),
                );
            }
        },
        None => {
            proof {
                lemma_cause_absent(c1, "asset_paths_or_mapping_shifted"@, step_mapping_cause(cd@, ver@));
            }
        },
    }
}

fn cause_step_drift(causes: &mut Vec<ProbableCrashCause>, dr: &Vec<ContinuitySignal>, ver: &str)
    requires
        all_counts_fit(dr@),
    ensures
        cause_models(final(causes)@) == update_first_cause(
            cause_models(old(causes)@),
            "candidate_remap_structural_drift"@,
            step_drift_cause(dr@, ver@),
        ),
{
    let ghost c2s = causes@;
    match find_cause(causes, "candidate_remap_structural_drift") {
        Some(k) => {
            let c = causes.remove(k);
            let conf = if any_unstable_exec(dr) {
                cap_add_exec(c.confidence_milli, 60)
            } else {
                c.confidence_milli
            };
            let c2 = contextualize_cause(c, dr, ver, "structurally drifted remap", conf);
            causes.insert(k, c2);
            proof {
                assert(causes@ =~= c2s.update(k as int, causes@[k as int]));
                lemma_cause_replaced(
                    c2s,
                    causes@,
                    k as int,
                    "candidate_remap_structural_drift"@,
                    step_drift_cause(dr@, ver@),
                );
            }
        },
        None => {
            proof {
                lemma_cause_absent(c2s, "candidate_remap_structural_drift"@, step_drift_cause(dr@, ver@));
            }
        },
    }
}

fn cause_step_removed(causes: &mut Vec<ProbableCrashCause>, rm: &Vec<ContinuitySignal>, ver: &str)
    requires
        all_counts_fit(rm@),
    ensures
        cause_models(final(causes)@) == update_first_cause(
            cause_models(old(causes)@),
            "asset_removed_without_clear_replacement"@,
            step_removed_cause(rm@, ver@),
        ),
{
    let ghost c3 = causes@;
    match find_cause(causes, "asset_removed_without_clear_replacement") {
        Some(k) => {
            let c = causes.remove(k);
            let conf = if any_history_exec(rm) {
                cap_add_exec(c.confidence_milli, 40)
            } else {
                c.confidence_milli
            };
            let c2 = contextualize_cause(c, rm, ver, "removed", conf);
            causes.insert(k, c2);
            proof {
                assert(causes@ =~= c3.update(k as int, causes@[k as int]));
                lemma_cause_replaced(
                    c3,
                    causes@,
                    k as int,
                    "asset_removed_without_clear_replacement"@,
                    step_removed_cause(rm@, ver@),
                );
            }
        },
        None => {
            proof {
                lemma_cause_absent(
                    c3,
                    "asset_removed_without_clear_replacement"@,
                    step_removed_cause(rm@, ver@),
                );
            }
        },
    }
}

fn fix_step(
    fixes: &mut Vec<SuggestedFix>,
    code: &str,
    sigs: &Vec<ContinuitySignal>,
    ver: &str,
    subject: &str,
    action: &str,
    bump_layout: bool,
)
    requires
        all_counts_fit(sigs@),
    ensures
        fix_models(final(fixes)@) == update_first_fix(
            fix_models(old(fixes)@),
            code@,
            fix_step_fn(sigs@, ver@, subject@, action@, bump_layout),
        ),
{
    let ghost f0 = fixes@;
    let ghost g = fix_step_fn(sigs@, ver@, subject@, action@, bump_layout);
    match find_fix(fixes, code) {
        Some(k) => {
            let f = fixes.remove(k);
            let conf = if bump_layout && any_layout2_exec(sigs) {
                cap_add_exec(f.confidence_milli, 40)
            } else {
                f.confidence_milli
            };
            let f2 = contextualize_fix(f, sigs, ver, subject, action, conf);
            fixes.insert(k, f2);
            proof {
                assert(fixes@ =~= f0.update(k as int, fixes@[k as int]));
                lemma_fix_replaced(f0, fixes@, k as int, code@, g);
            }
        },
        None => {
            proof {
                lemma_fix_absent(f0, code@, g);
            }
        },
    }
}

fn instability_findings(
    inst: &Vec<ContinuitySignal>,
    ver: &str,
    mapping_support: u32,
    buffer_support: u32,
    low_signal: bool,
) -> (r: (ProbableCrashCause, SuggestedFix))
    requires
        all_counts_fit(inst@),
        mapping_support <= 1000,
        buffer_support <= 1000,
    ensures
        cause_model(r.0) == instability_cause(inst@, ver@, mapping_support as nat, buffer_support as nat, low_signal),
        fix_model(r.1) == instability_fix(inst@, ver@, mapping_support as nat, buffer_support as nat, low_signal),
{
    let n = inst.len();
    let m3: u64 = if n < 3 {
        n as u64
    } else {
        3
    };
    let conf = blend_exec(
        420 + 80 * m3,
        100 * (buffer_support as u64) + 80 * (mapping_support as u64),
        low_signal,
    );
    proof {
        assert(conf == instability_confidence(n as nat, mapping_support as nat, buffer_support as nat, low_signal));
    }
    let risk = if any_layout2_exec(inst) {
        RiskLevel::High
    } else {
        RiskLevel::Medium
    };
    let mut reasons: Vec<String> = Vec::new();
    let mut l = new_string("continuity surfaces ");
    let ns = decimal_string(n);
    push_str(&mut l, ns.as_str());
    push_str(&mut l, " relevant thread(s) with repeated drift or terminal/review history");
    push_text(&mut reasons, l);
    push_text(
        &mut reasons,
        new_string(
            "broader version history suggests one-shot remap assumptions may not hold for every affected asset thread",
        ),
    );
    proof {
        assert(views(reasons@) =~= instability_reasons(n as nat));
    }
    let mut evidence = signal_lines_exec(inst, ver);
    let mut e = new_string("continuity-informed confidence blended instability count with WWMI buffer ");
    let b = fixed3_string(buffer_support);
    push_str(&mut e, b.as_str());
    push_str(&mut e, " and mapping ");
    let mm = fixed3_string(mapping_support);
    push_str(&mut e, mm.as_str());
    push_str(&mut e, " support");
    push_text(&mut evidence, e);
    proof {
        assert(views(evidence@) =~= instability_evidence(inst@, ver@, mapping_support as nat, buffer_support as nat));
    }
    let cause = ProbableCrashCause {
        code: new_string("continuity_thread_instability"),
        summary: new_string(
            "Broader continuity history shows some affected asset threads drift repeatedly or terminate ambiguously, so remap-only repair may not stay safe across versions.",
        ),
        confidence_milli: conf,
        risk,
        affected_assets: collect_continuity_affected_assets(inst),
        reasons: clone_strings(&reasons),
        evidence: clone_strings(&evidence),
    };
    let ghost r0 = views(reasons@);
    let ghost e0 = views(evidence@);
    push_text(
        &mut reasons,
        new_string(
            "continuity should be treated as supporting evidence; keep fixes review-oriented when the thread later degrades or terminates",
        ),
    );
    push_text(
        &mut evidence,
        new_string(
            "use continuity milestones to decide whether repair should stay manual rather than auto-promoted",
        ),
    );
    let mut actions: Vec<String> = Vec::new();
    push_text(
        &mut actions,
        new_string(
            "Inspect the full continuity thread for each flagged asset and note any repeated layout drift, recurring rename/repath, or terminal state.",
        ),
    );
    push_text(
        &mut actions,
        new_string(
            "Downgrade repair confidence when the broader chain later becomes ambiguous, replacement-like, or removed.",
        ),
    );
    push_text(
        &mut actions,
        new_string(
            "Keep continuity-unstable mappings in review until a human validates both the current pair and the broader version history.",
        ),
    );
    proof {
        assert(views(actions@) =~= seq![
            "Inspect the full continuity thread for each flagged asset and note any repeated layout drift, recurring rename/repath, or terminal state."@,
            "Downgrade repair confidence when the broader chain later becomes ambiguous, replacement-like, or removed."@,
            "Keep continuity-unstable mappings in review until a human validates both the current pair and the broader version history."@,
        ]);
    }
    let fix = SuggestedFix {
        code: new_string("review_continuity_thread_history_before_repair"),
        summary: new_string(
            "Review continuity milestones for unstable asset threads before trusting remap-only repair decisions.",
        ),
        confidence_milli: conf,
        priority: risk,
        actions,
        reasons,
        evidence,
    };
    (cause, fix)
}

/// The causes and fixes after what the threads behind them show: each finding
/// names its threads; unstable threads raise the structural, drift and removal
/// causes and the buffer fix, and move the remap cause by +20 for each stable and
/// -60 for each unstable thread; unstable threads of the structural, candidate and
/// removed sets, each once, add a cause and a fix of their own.
pub fn apply_continuity_inference_adjustments(
    causes: &mut Vec<ProbableCrashCause>,
    fixes: &mut Vec<SuggestedFix>,
    signals: ContinuitySignalSets,
    current_new_version: &str,
    mapping_support: u32,
    buffer_support: u32,
    low_signal: bool,
)
    requires
        all_counts_fit(signals.structural@),
        all_counts_fit(signals.removed@),
        all_counts_fit(signals.candidates@),
        all_counts_fit(signals.drifted@),
        mapping_support <= 1000,
        buffer_support <= 1000,
    ensures
        cause_models(final(causes)@) == continuity_adjusted_causes(
            cause_models(old(causes)@),
            signals.structural@,
            signals.removed@,
            signals.candidates@,
            signals.drifted@,
            current_new_version@,
            mapping_support as nat,
            buffer_support as nat,
            low_signal,
        ),
        fix_models(final(fixes)@) == continuity_adjusted_fixes(
            fix_models(old(fixes)@),
            signals.structural@,
            signals.removed@,
            signals.candidates@,
            signals.drifted@,
            current_new_version@,
            mapping_support as nat,
            buffer_support as nat,
            low_signal,
        ),
{
    let ver = current_new_version;
    let ContinuitySignalSets { structural: st, removed: rm, candidates: cd, drifted: dr } = signals;
    let ghost (gst, grm, gcd, gdr) = (st@, rm@, cd@, dr@);
    let ghost cm0 = cause_models(causes@);
    let ghost fm0 = fix_models(fixes@);
    cause_step_buffer(causes, &st, ver);
    let ghost cm1 = cause_models(causes@);
    if cd.len() > 0 {
        cause_step_mapping(causes, &cd, ver);
    }
    let ghost cm2 = cause_models(causes@);
    if dr.len() > 0 {
        cause_step_drift(causes, &dr, ver);
    }
    let ghost cm3 = cause_models(causes@);
    if rm.len() > 0 {
        cause_step_removed(causes, &rm, ver);
    }
    let ghost cm4 = cause_models(causes@);
    if st.len() > 0 {
        fix_step(
            fixes,
            "review_buffer_layout_and_runtime_guards",
            &st,
            ver,
            "layout-sensitive",
            "Inspect continuity milestones for repeated layout drift or later terminal states before promoting any repair path.",
            true,
        );
    }
    let ghost fm1 = fix_models(fixes@);
    if cd.len() > 0 {
        fix_step(
            fixes,
            "review_candidate_asset_remaps",
            &cd,
            ver,
            "remap-candidate",
            "Cross-check continuity history for recent stability, recurring renames, and any later terminal state before approving a mapping.",
            false,
        );
    }
    let ghost fm2 = fix_models(fixes@);
    if dr.len() > 0 {
        fix_step(
            fixes,
            "validate_candidate_remaps_against_layout",
            &dr,
            ver,
            "layout-risk remap",
            "Escalate to manual validation if continuity shows repeated layout drift or a later ambiguous/replacement/removed state.",
            false,
        );
    }
    let ghost fm3 = fix_models(fixes@);
    proof {
        assert(cm4 == {
            let s1 = update_first_cause(cm0, "buffer_layout_changed"@, step_buffer_cause(gst, ver@));
            let s2 = when_some(gcd.len() > 0, s1, update_first_cause(s1, "asset_paths_or_mapping_shifted"@, step_mapping_cause(gcd, ver@)));
            let s3 = when_some(gdr.len() > 0, s2, update_first_cause(s2, "candidate_remap_structural_drift"@, step_drift_cause(gdr, ver@)));
            when_some(grm.len() > 0, s3, update_first_cause(s3, "asset_removed_without_clear_replacement"@, step_removed_cause(grm, ver@)))
        });
        assert(fm1 == when_some(gst.len() > 0, fm0, update_first_fix(fm0, "review_buffer_layout_and_runtime_guards"@, step_buffer_fix(gst, ver@))));
        assert(fm2 == when_some(gcd.len() > 0, fm1, update_first_fix(fm1, "review_candidate_asset_remaps"@, step_remap_fix(gcd, ver@))));
        assert(fm3 == when_some(gdr.len() > 0, fm2, update_first_fix(fm2, "validate_candidate_remaps_against_layout"@, step_layout_fix(gdr, ver@))));
    }
    // Threads that drifted repeatedly or ended, each once.
    let mut pool: Vec<ContinuitySignal> = Vec::new();
    proof {
        lemma_unstable_only_concat(gst, gcd);
        lemma_unstable_only_concat(gst + gcd, grm);
        assert(all_counts_fit(gst + gcd + grm)) by {
            assert forall|i: int| 0 <= i < (gst + gcd + grm).len() implies (#[trigger] (gst + gcd
                + grm)[i]).counts_fit() by {
                if i < gst.len() {
                    assert((gst + gcd + grm)[i] == gst[i]);
                } else if i < gst.len() + gcd.len() {
                    assert((gst + gcd + grm)[i] == gcd[i - gst.len()]);
                } else {
                    assert((gst + gcd + grm)[i] == grm[i - gst.len() - gcd.len()]);
                }
            }
        }
        lemma_unstable_only_fits(gst + gcd + grm);
    }
    move_unstable(&mut pool, st);
    move_unstable(&mut pool, cd);
    move_unstable(&mut pool, rm);
    proof {
        assert(pool@ =~= unstable_only(gst + gcd + grm));
    }
    let inst = dedup_continuity_signals(pool);
    proof {
        lemma_first_per_thread_fits(unstable_only(gst + gcd + grm));
        assert(inst@ == instability_signals(gst, gcd, grm));
    }
    if inst.len() > 0 {
        let (cause, fix) = instability_findings(&inst, ver, mapping_support, buffer_support, low_signal);
        let ghost cb = causes@;
        let ghost fb = fixes@;
        causes.push(cause);
        fixes.push(fix);
        proof {
            assert(cause_models(causes@) =~= cause_models(cb).push(cause_model(cause)));
            assert(fix_models(fixes@) =~= fix_models(fb).push(fix_model(fix)));
        }
    }
}


// ---------------------------------------------------------------------------
// The threads behind a compare's findings
// ---------------------------------------------------------------------------

/// `sig` is what the context recorded for the change's old and new path.
pub open spec fn change_signal_of(ctx: InferenceContinuityContext, c: SnapshotAssetChange, sig: ContinuitySignal) -> bool {
    &&& c.old_asset is Some
    &&& exists|i: int|
        0 <= i < ctx.change_signals@.len() && (#[trigger] ctx.change_signals@[i]).old_path@ == key_old(c)
            && opt_view(ctx.change_signals@[i].new_path) == key_new(c) && sig.same_as(
            &ctx.change_signals@[i].signal,
        )
}

/// `sig` is what the context recorded for the candidate's old and new path.
pub open spec fn candidate_signal_of(ctx: InferenceContinuityContext, c: CandidateMappingChange, sig: ContinuitySignal) -> bool {
    exists|i: int|
        0 <= i < ctx.mapping_signals@.len() && (#[trigger] ctx.mapping_signals@[i]).old_path@
            == c.old_asset.path@ && ctx.mapping_signals@[i].new_path@ == c.new_asset.path@
            && sig.same_as(&ctx.mapping_signals@[i].signal)
}

pub open spec fn from_changes(
    ctx: InferenceContinuityContext,
    changes: Seq<SnapshotAssetChange>,
    removed_only: bool,
    sig: ContinuitySignal,
) -> bool {
    exists|j: int|
        0 <= j < changes.len() && (if removed_only {
            changes[j].change_type == SnapshotChangeType::Removed
        } else {
            is_structural(changes[j])
        }) && #[trigger] change_signal_of(ctx, changes[j], sig)
}

pub open spec fn from_candidates(
    ctx: InferenceContinuityContext,
    cands: Seq<CandidateMappingChange>,
    risky_only: bool,
    sig: ContinuitySignal,
) -> bool {
    exists|j: int|
        0 <= j < cands.len() && (!risky_only || cands[j].compatibility == RemapCompatibility::StructurallyRisky)
            && #[trigger] candidate_signal_of(ctx, cands[j], sig)
}

pub open spec fn change_has_entry(ctx: InferenceContinuityContext, c: SnapshotAssetChange) -> bool {
    &&& c.old_asset is Some
    &&& exists|i: int|
        0 <= i < ctx.change_signals@.len() && (#[trigger] ctx.change_signals@[i]).old_path@ == key_old(c)
            && opt_view(ctx.change_signals@[i].new_path) == key_new(c)
}

pub open spec fn candidate_has_entry(ctx: InferenceContinuityContext, c: CandidateMappingChange) -> bool {
    exists|i: int|
        0 <= i < ctx.mapping_signals@.len() && (#[trigger] ctx.mapping_signals@[i]).old_path@
            == c.old_asset.path@ && ctx.mapping_signals@[i].new_path@ == c.new_asset.path@
}

pub open spec fn has_thread(set: Seq<ContinuitySignal>, sig: ContinuitySignal) -> bool {
    exists|k: int| 0 <= k < set.len() && (#[trigger] set[k]).thread_id@ == sig.thread_id@
}

/// `w` names, for every qualifying change with a recorded entry, the signal recorded
/// for it, whose thread is in the set unless its step counts would overflow a `usize`.
pub open spec fn covered_by(
    ctx: InferenceContinuityContext,
    changes: Seq<SnapshotAssetChange>,
    removed_only: bool,
    set: Seq<ContinuitySignal>,
    w: Seq<ContinuitySignal>,
) -> bool {
    forall|j: int|
        0 <= j < changes.len() && wanted_change(changes[j], removed_only) && #[trigger] change_has_entry(
            ctx,
            changes[j],
        ) ==> change_signal_of(ctx, changes[j], w[j]) && (w[j].counts_fit() ==> has_thread(set, w[j]))
}

/// Every qualifying change with a recorded entry has its thread in the set, unless
/// that thread's step counts would overflow a `usize`.
pub open spec fn covers_changes(
    ctx: InferenceContinuityContext,
    changes: Seq<SnapshotAssetChange>,
    removed_only: bool,
    set: Seq<ContinuitySignal>,
) -> bool {
    exists|w: Seq<ContinuitySignal>| #[trigger] covered_by(ctx, changes, removed_only, set, w)
}

pub open spec fn wanted_candidate(c: CandidateMappingChange, risky_only: bool) -> bool {
    !risky_only || c.compatibility == RemapCompatibility::StructurallyRisky
}

pub open spec fn candidates_covered_by(
    ctx: InferenceContinuityContext,
    cands: Seq<CandidateMappingChange>,
    risky_only: bool,
    set: Seq<ContinuitySignal>,
    w: Seq<ContinuitySignal>,
) -> bool {
    forall|j: int|
        0 <= j < cands.len() && wanted_candidate(cands[j], risky_only) && #[trigger] candidate_has_entry(
            ctx,
            cands[j],
        ) ==> candidate_signal_of(ctx, cands[j], w[j]) && (w[j].counts_fit() ==> has_thread(set, w[j]))
}

/// Every qualifying candidate with a recorded entry has its thread in the set,
/// unless that thread's step counts would overflow a `usize`.
pub open spec fn covers_candidates(
    ctx: InferenceContinuityContext,
    cands: Seq<CandidateMappingChange>,
    risky_only: bool,
    set: Seq<ContinuitySignal>,
) -> bool {
    exists|w: Seq<ContinuitySignal>| #[trigger] candidates_covered_by(ctx, cands, risky_only, set, w)
}

/// Each set holds only threads the context recorded for the compare's structural
/// changes, removals, candidates and structurally risky candidates, each thread
/// once, with step counts that fit a `usize`.
pub open spec fn sets_for(
    cr: SnapshotCompareReport,
    ctx: InferenceContinuityContext,
    st: Seq<ContinuitySignal>,
    rm: Seq<ContinuitySignal>,
    cd: Seq<ContinuitySignal>,
    dr: Seq<ContinuitySignal>,
) -> bool {
    &&& all_counts_fit(st) && all_counts_fit(rm) && all_counts_fit(cd) && all_counts_fit(dr)
    &&& forall|k: int| 0 <= k < st.len() ==> from_changes(ctx, cr.changed_assets@, false, #[trigger] st[k])
    &&& forall|k: int| 0 <= k < rm.len() ==> from_changes(ctx, cr.removed_assets@, true, #[trigger] rm[k])
    &&& forall|k: int|
        0 <= k < cd.len() ==> from_candidates(ctx, cr.candidate_mapping_changes@, false, #[trigger] cd[k])
    &&& forall|k: int|
        0 <= k < dr.len() ==> from_candidates(ctx, cr.candidate_mapping_changes@, true, #[trigger] dr[k])
    &&& first_per_thread(st) == st && first_per_thread(rm) == rm
    &&& first_per_thread(cd) == cd && first_per_thread(dr) == dr
    &&& covers_changes(ctx, cr.changed_assets@, false, st)
    &&& covers_changes(ctx, cr.removed_assets@, true, rm)
    &&& covers_candidates(ctx, cr.candidate_mapping_changes@, false, cd)
    &&& covers_candidates(ctx, cr.candidate_mapping_changes@, true, dr)
}

/// Every thread of `s` keeps a signal in `first_per_thread(s)`.
proof fn lemma_fpt_keeps_threads(s: Seq<ContinuitySignal>)
    ensures
        forall|m: int| 0 <= m < s.len() ==> #[trigger] has_thread(first_per_thread(s), s[m]),
    decreases s.len(),
{
    if s.len() > 0 {
        let d = s.drop_last();
        lemma_fpt_keeps_threads(d);
        let rest = first_per_thread(d);
        assert forall|m: int| 0 <= m < s.len() implies #[trigger] has_thread(first_per_thread(s), s[m]) by {
            if m < d.len() {
                assert(s[m] == d[m]);
                assert(has_thread(rest, d[m]));
                let k = choose|k: int| 0 <= k < rest.len() && (#[trigger] rest[k]).thread_id@ == d[m].thread_id@;
                assert(first_per_thread(s)[k] == rest[k]);
            } else {
                if exists|j: int| 0 <= j < rest.len() && (#[trigger] rest[j]).thread_id@ == s.last().thread_id@ {
                    let k = choose|j: int| 0 <= j < rest.len() && (#[trigger] rest[j]).thread_id@ == s.last().thread_id@;
                    assert(first_per_thread(s)[k] == rest[k]);
                } else {
                    assert(first_per_thread(s)[rest.len() as int] == s.last());
                }
            }
        }
    }
}

/// Pushing keeps every thread a pool had.
proof fn lemma_threads_kept_after_push(a: Seq<ContinuitySignal>, b: Seq<ContinuitySignal>)
    requires
        b == a || (b.len() == a.len() + 1 && b.drop_last() == a),
    ensures
        forall|sig: ContinuitySignal| #[trigger] has_thread(a, sig) ==> has_thread(b, sig),
{
    assert forall|sig: ContinuitySignal| #[trigger] has_thread(a, sig) implies has_thread(b, sig) by {
        let k = choose|k: int| 0 <= k < a.len() && (#[trigger] a[k]).thread_id@ == sig.thread_id@;
        if b != a {
            assert(b[k] == b.drop_last()[k]);
        }
    }
}

/// A thread a pool has is kept by `first_per_thread`.
proof fn lemma_fpt_keeps_all_threads(p: Seq<ContinuitySignal>)
    ensures
        forall|sig: ContinuitySignal| #[trigger] has_thread(p, sig) ==> has_thread(first_per_thread(p), sig),
{
    lemma_fpt_keeps_threads(p);
    assert forall|sig: ContinuitySignal| #[trigger] has_thread(p, sig) implies has_thread(first_per_thread(p), sig) by {
        let m = choose|m: int| 0 <= m < p.len() && (#[trigger] p[m]).thread_id@ == sig.thread_id@;
        assert(has_thread(first_per_thread(p), p[m]));
        let k = choose|k: int| 0 <= k < first_per_thread(p).len() && (#[trigger] first_per_thread(p)[k]).thread_id@
            == p[m].thread_id@;
    }
}

proof fn lemma_fpt_within(s: Seq<ContinuitySignal>)
    ensures
        forall|j: int|
            0 <= j < first_per_thread(s).len() ==> exists|k: int|
                0 <= k < s.len() && #[trigger] first_per_thread(s)[j] == s[k],
    decreases s.len(),
{
    if s.len() > 0 {
        lemma_fpt_within(s.drop_last());
        let rest = first_per_thread(s.drop_last());
        assert forall|j: int| 0 <= j < first_per_thread(s).len() implies exists|k: int|
            0 <= k < s.len() && #[trigger] first_per_thread(s)[j] == s[k] by {
            if j < rest.len() {
                let k = choose|k: int| 0 <= k < s.drop_last().len() && rest[j] == s.drop_last()[k];
                assert(s.drop_last()[k] == s[k]);
            } else {
                assert(first_per_thread(s)[j] == s[s.len() - 1]);
            }
        }
    }
}

proof fn lemma_fpt_idempotent(s: Seq<ContinuitySignal>)
    ensures
        first_per_thread(first_per_thread(s)) == first_per_thread(s),
    decreases s.len(),
{
    if s.len() > 0 {
        let rest = first_per_thread(s.drop_last());
        lemma_fpt_idempotent(s.drop_last());
        lemma_fpt_distinct(s.drop_last());
        if !(exists|j: int| 0 <= j < rest.len() && (#[trigger] rest[j]).thread_id@ == s.last().thread_id@) {
            let t = rest.push(s.last());
            assert(t.drop_last() =~= rest);
            assert(t.last() == s.last());
        }
    }
}

/// No two signals of `first_per_thread(s)` share a thread.
proof fn lemma_fpt_distinct(s: Seq<ContinuitySignal>)
    ensures
        forall|a: int, b: int|
            0 <= a < b < first_per_thread(s).len() ==> (#[trigger] first_per_thread(s)[a]).thread_id@
                != (#[trigger] first_per_thread(s)[b]).thread_id@,
    decreases s.len(),
{
    if s.len() > 0 {
        lemma_fpt_distinct(s.drop_last());
    }
}

pub open spec fn wanted_change(c: SnapshotAssetChange, removed_only: bool) -> bool {
    if removed_only {
        c.change_type == SnapshotChangeType::Removed
    } else {
        is_structural(c)
    }
}

fn collect_change_signals(
    changes: &Vec<SnapshotAssetChange>,
    ctx: &InferenceContinuityContext,
    removed_only: bool,
) -> (r: Vec<ContinuitySignal>)
    ensures
        all_counts_fit(r@),
        first_per_thread(r@) == r@,
        forall|k: int| 0 <= k < r@.len() ==> from_changes(*ctx, changes@, removed_only, #[trigger] r@[k]),
        covers_changes(*ctx, changes@, removed_only, r@),
{
    let mut pool: Vec<ContinuitySignal> = Vec::new();
    let mut i: usize = 0;
    let ghost mut wit: Seq<ContinuitySignal> = Seq::empty();
    while i < changes.len()
        invariant
            i <= changes@.len(),
            wit.len() == i,
            all_counts_fit(pool@),
            forall|k: int| 0 <= k < pool@.len() ==> from_changes(*ctx, changes@, removed_only, #[trigger] pool@[k]),
            forall|j: int|
                0 <= j < i && wanted_change(changes@[j], removed_only) && #[trigger] change_has_entry(
                    *ctx,
                    changes@[j],
                ) ==> change_signal_of(*ctx, changes@[j], wit[j]) && (wit[j].counts_fit() ==> has_thread(
                    pool@,
                    wit[j],
                )),
        decreases changes.len() - i,
    {
        let ghost pool0 = pool@;
        let c = &changes[i];
        let wanted = if removed_only {
            matches!(c.change_type, SnapshotChangeType::Removed)
        } else {
            is_structural_change(c)
        };
        let ghost mut w: ContinuitySignal = arbitrary();
        if wanted {
            match continuity_signal_for_change(ctx, c) {
                Some(sig) => {
                    proof {
                        w = sig;
                        assert(change_signal_of(*ctx, changes@[i as int], sig));
                    }
                    if signal_fits(&sig) {
                        proof {
                            assert(from_changes(*ctx, changes@, removed_only, sig));
                        }
                        pool.push(sig);
                        proof {
                            assert(pool@.drop_last() =~= pool0);
                            assert(pool@[pool@.len() - 1] == w);
                            assert(has_thread(pool@, w));
                        }
                    }
                },
                None => {
                    proof {
                        assert(!change_has_entry(*ctx, changes@[i as int]));
                    }
                },
            }
        }
        proof {
            assert(wanted == wanted_change(changes@[i as int], removed_only));
            lemma_threads_kept_after_push(pool0, pool@);
            let wit0 = wit;
            wit = wit.push(w);
            assert forall|j: int|
                0 <= j < i + 1 && wanted_change(changes@[j], removed_only) && #[trigger] change_has_entry(
                    *ctx,
                    changes@[j],
                ) implies change_signal_of(*ctx, changes@[j], wit[j]) && (wit[j].counts_fit() ==> has_thread(
                    pool@,
                    wit[j],
                )) by {
                if j < i {
                    assert(wit[j] == wit0[j]);
                    if wit[j].counts_fit() {
                        assert(has_thread(pool0, wit0[j]));
                    }
                } else {
                    assert(wit[j] == w);
                }
            }
        }
        i = i + 1;
    }
    let ghost p = pool@;
    let r = dedup_continuity_signals(pool);
    proof {
        lemma_fpt_within(p);
        lemma_first_per_thread_fits(p);
        lemma_fpt_idempotent(p);
        lemma_fpt_keeps_all_threads(p);
        assert forall|k: int| 0 <= k < r@.len() implies from_changes(*ctx, changes@, removed_only, #[trigger] r@[k]) by {
            let m = choose|m: int| 0 <= m < p.len() && first_per_thread(p)[k] == p[m];
        }
        assert forall|j: int|
            0 <= j < changes@.len() && wanted_change(changes@[j], removed_only) && #[trigger] change_has_entry(
                *ctx,
                changes@[j],
            ) implies change_signal_of(*ctx, changes@[j], wit[j]) && (wit[j].counts_fit() ==> has_thread(r@, wit[j])) by {
            if wit[j].counts_fit() {
                assert(has_thread(p, wit[j]));
            }
        }
        assert(covered_by(*ctx, changes@, removed_only, r@, wit));
        assert(covers_changes(*ctx, changes@, removed_only, r@));
    }
    r
}

fn collect_candidate_signals(
    cands: &Vec<CandidateMappingChange>,
    ctx: &InferenceContinuityContext,
    risky_only: bool,
) -> (r: Vec<ContinuitySignal>)
    ensures
        all_counts_fit(r@),
        first_per_thread(r@) == r@,
        forall|k: int| 0 <= k < r@.len() ==> from_candidates(*ctx, cands@, risky_only, #[trigger] r@[k]),
        covers_candidates(*ctx, cands@, risky_only, r@),
{
    let mut pool: Vec<ContinuitySignal> = Vec::new();
    let mut i: usize = 0;
    let ghost mut wit: Seq<ContinuitySignal> = Seq::empty();
    while i < cands.len()
        invariant
            i <= cands@.len(),
            wit.len() == i,
            all_counts_fit(pool@),
            forall|k: int| 0 <= k < pool@.len() ==> from_candidates(*ctx, cands@, risky_only, #[trigger] pool@[k]),
            forall|j: int|
                0 <= j < i && wanted_candidate(cands@[j], risky_only) && #[trigger] candidate_has_entry(
                    *ctx,
                    cands@[j],
                ) ==> candidate_signal_of(*ctx, cands@[j], wit[j]) && (wit[j].counts_fit() ==> has_thread(
                    pool@,
                    wit[j],
                )),
        decreases cands.len() - i,
    {
        let ghost pool0 = pool@;
        let c = &cands[i];
        let wanted = !risky_only || matches!(c.compatibility, RemapCompatibility::StructurallyRisky);
        let ghost mut w: ContinuitySignal = arbitrary();
        if wanted {
            match continuity_signal_for_candidate(ctx, c) {
                Some(sig) => {
                    proof {
                        w = sig;
                        assert(candidate_signal_of(*ctx, cands@[i as int], sig));
                    }
                    if signal_fits(&sig) {
                        proof {
                            assert(from_candidates(*ctx, cands@, risky_only, sig));
                        }
                        pool.push(sig);
                        proof {
                            assert(pool@.drop_last() =~= pool0);
                            assert(pool@[pool@.len() - 1] == w);
                            assert(has_thread(pool@, w));
                        }
                    }
                },
                None => {
                    proof {
                        assert(!candidate_has_entry(*ctx, cands@[i as int]));
                    }
                },
            }
        }
        proof {
            assert(wanted == wanted_candidate(cands@[i as int], risky_only));
            lemma_threads_kept_after_push(pool0, pool@);
            let wit0 = wit;
            wit = wit.push(w);
            assert forall|j: int|
                0 <= j < i + 1 && wanted_candidate(cands@[j], risky_only) && #[trigger] candidate_has_entry(
                    *ctx,
                    cands@[j],
                ) implies candidate_signal_of(*ctx, cands@[j], wit[j]) && (wit[j].counts_fit() ==> has_thread(
                    pool@,
                    wit[j],
                )) by {
                if j < i {
                    assert(wit[j] == wit0[j]);
                    if wit[j].counts_fit() {
                        assert(has_thread(pool0, wit0[j]));
                    }
                } else {
                    assert(wit[j] == w);
                }
            }
        }
        i = i + 1;
    }
    let ghost p = pool@;
    let r = dedup_continuity_signals(pool);
    proof {
        lemma_fpt_within(p);
        lemma_first_per_thread_fits(p);
        lemma_fpt_idempotent(p);
        lemma_fpt_keeps_all_threads(p);
        assert forall|k: int| 0 <= k < r@.len() implies from_candidates(*ctx, cands@, risky_only, #[trigger] r@[k]) by {
            let m = choose|m: int| 0 <= m < p.len() && first_per_thread(p)[k] == p[m];
        }
        assert forall|j: int|
            0 <= j < cands@.len() && wanted_candidate(cands@[j], risky_only) && #[trigger] candidate_has_entry(
                *ctx,
                cands@[j],
            ) implies candidate_signal_of(*ctx, cands@[j], wit[j]) && (wit[j].counts_fit() ==> has_thread(r@, wit[j])) by {
            if wit[j].counts_fit() {
                assert(has_thread(p, wit[j]));
            }
        }
        assert(candidates_covered_by(*ctx, cands@, risky_only, r@, wit));
    }
    r
}

fn signal_fits(s: &ContinuitySignal) -> (r: bool)
    ensures
        r == s.counts_fit(),
{
    let a = match s.prior_rename_steps.checked_add(1) {
        Some(x) => x.checked_add(s.later_rename_steps).is_some(),
        None => false,
    };
    let b = match s.prior_container_movement_steps.checked_add(1) {
        Some(x) => x.checked_add(s.later_container_movement_steps).is_some(),
        None => false,
    };
    let c = match s.prior_layout_drift_steps.checked_add(1) {
        Some(x) => x.checked_add(s.later_layout_drift_steps).is_some(),
        None => false,
    };
    a && b && c
}

/// The threads the context recorded for the compare's structural changes, its
/// removals, its candidates and its structurally risky candidates, each thread
/// once; a thread whose step counts would overflow a `usize` is left out.
pub fn continuity_signal_sets(
    compare_report: &SnapshotCompareReport,
    continuity: &InferenceContinuityContext,
) -> (r: ContinuitySignalSets)
    ensures
        sets_for(*compare_report, *continuity, r.structural@, r.removed@, r.candidates@, r.drifted@),
{
    ContinuitySignalSets {
        structural: collect_change_signals(&compare_report.changed_assets, continuity, false),
        removed: collect_change_signals(&compare_report.removed_assets, continuity, true),
        candidates: collect_candidate_signals(&compare_report.candidate_mapping_changes, continuity, false),
        drifted: collect_candidate_signals(&compare_report.candidate_mapping_changes, continuity, true),
    }
}

} // verus!
