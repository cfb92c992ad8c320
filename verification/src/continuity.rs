//! What an asset thread's history across versions says about a remap: the
//! continuity signal of a change and how it tempers a remap's compatibility.
use vstd::prelude::*;
use crate::compare::RemapCompatibility;
use crate::compare::change::SnapshotAssetChange;
use crate::compare::outcome::{CandidateMappingChange, SnapshotCompareReport};
use crate::human_summary::{continuity_relation_label, spec_relation_label};
use crate::inference::InferredMappingContinuityContext;
use crate::report::{
    VersionContinuityIndex, VersionContinuityObservation, VersionContinuityRelation,
    VersionContinuityThread, VersionContinuityThreadSummary,
};
use crate::text::{
    clone_opt_string, clone_string, contains_text, opt_view, decimal, decimal_string, join, join_seq, new_string, push_str,
    push_text, str_eq, views,
};

verus! {

/// The continuity history of the thread a change belongs to.
#[derive(Debug, Clone, PartialEq, Eq)]
pub struct ContinuitySignal {
    pub thread_id: String,
    pub current_from_path: String,
    pub current_to_path: Option<String>,
    pub first_seen_version: String,
    pub latest_observed_version: String,
    pub latest_live_version: Option<String>,
    pub current_relation: VersionContinuityRelation,
    pub prior_persisted_steps: usize,
    pub prior_rename_steps: usize,
    pub prior_container_movement_steps: usize,
    pub prior_layout_drift_steps: usize,
    pub prior_material_steps: usize,
    pub later_rename_steps: usize,
    pub later_container_movement_steps: usize,
    pub later_layout_drift_steps: usize,
    pub terminal_relation: Option<VersionContinuityRelation>,
    pub terminal_version: Option<String>,
    pub review_required: bool,
}

pub open spec fn one_if(c: bool) -> nat {
    if c {
        1
    } else {
        0
    }
}

impl ContinuitySignal {
    /// The step counts of the thread add up within `usize`.
    pub open spec fn counts_fit(&self) -> bool {
        &&& self.prior_rename_steps + 1 + self.later_rename_steps <= usize::MAX
        &&& self.prior_container_movement_steps + 1 + self.later_container_movement_steps
            <= usize::MAX
        &&& self.prior_layout_drift_steps + 1 + self.later_layout_drift_steps <= usize::MAX
    }

    pub open spec fn spec_rename_steps(&self) -> nat {
        (self.prior_rename_steps + one_if(self.current_relation == VersionContinuityRelation::RenameOrRepath)
            + self.later_rename_steps) as nat
    }

    pub open spec fn spec_container_steps(&self) -> nat {
        (self.prior_container_movement_steps + one_if(
            self.current_relation == VersionContinuityRelation::ContainerMovement,
        ) + self.later_container_movement_steps) as nat
    }

    pub open spec fn spec_layout_steps(&self) -> nat {
        (self.prior_layout_drift_steps + one_if(self.current_relation == VersionContinuityRelation::LayoutDrift)
            + self.later_layout_drift_steps) as nat
    }

    pub open spec fn spec_stable_before(&self) -> bool {
        self.prior_persisted_steps > 0 && self.prior_material_steps == 0 && self.current_relation
            != VersionContinuityRelation::Persisted
    }

    /// The thread persisted with no material change before the current one, which is not persistence.
    pub fn stable_before_current_change(&self) -> (r: bool)
        ensures
            r == self.spec_stable_before(),
    {
        self.prior_persisted_steps > 0 && self.prior_material_steps == 0 && !matches!(
            self.current_relation,
            VersionContinuityRelation::Persisted
        )
    }

    /// Rename steps before, at and after the current change.
    pub fn total_rename_steps(&self) -> (r: usize)
        requires
            self.counts_fit(),
        ensures
            r == self.spec_rename_steps(),
    {
        let current: usize = if matches!(self.current_relation, VersionContinuityRelation::RenameOrRepath) {
            1
        } else {
            0
        };
        self.prior_rename_steps + current + self.later_rename_steps
    }

    /// Container-movement steps before, at and after the current change.
    pub fn total_container_movement_steps(&self) -> (r: usize)
        requires
            self.counts_fit(),
        ensures
            r == self.spec_container_steps(),
    {
        let current: usize = if matches!(self.current_relation, VersionContinuityRelation::ContainerMovement) {
            1
        } else {
            0
        };
        self.prior_container_movement_steps + current + self.later_container_movement_steps
    }

    /// Layout-drift steps before, at and after the current change.
    pub fn total_layout_drift_steps(&self) -> (r: usize)
        requires
            self.counts_fit(),
        ensures
            r == self.spec_layout_steps(),
    {
        let current: usize = if matches!(self.current_relation, VersionContinuityRelation::LayoutDrift) {
            1
        } else {
            0
        };
        self.prior_layout_drift_steps + current + self.later_layout_drift_steps
    }

    pub fn has_terminal_or_review_history(&self) -> (r: bool)
        ensures
            r == (self.review_required || self.terminal_relation is Some),
    {
        self.review_required || self.terminal_relation.is_some()
    }

    pub open spec fn spec_terminal_after(&self, current_new_version: Seq<char>) -> bool {
        match self.terminal_version {
            Some(v) => v@ != current_new_version,
            None => false,
        }
    }

    /// The thread's terminal state comes in a version other than the current new one.
    pub fn terminal_after_current(&self, current_new_version: &str) -> (r: bool)
        ensures
            r == self.spec_terminal_after(current_new_version@),
    {
        match &self.terminal_version {
            Some(v) => !str_eq(v.as_str(), current_new_version),
            None => false,
        }
    }
}

/// The continuity context a mapping hint carries, from its thread's signal.
pub fn build_mapping_hint_continuity_context(signal: &ContinuitySignal, current_new_version: &str) -> (r:
    InferredMappingContinuityContext)
    requires
        signal.counts_fit(),
    ensures
        r.thread_id is Some && r.thread_id->0@ == signal.thread_id@,
        r.first_seen_version is Some && r.first_seen_version->0@ == signal.first_seen_version@,
        r.latest_observed_version is Some && r.latest_observed_version->0@
            == signal.latest_observed_version@,
        crate::text::opt_view(r.latest_live_version) == crate::text::opt_view(
            signal.latest_live_version,
        ),
        r.stable_before_current_change == signal.spec_stable_before(),
        r.total_rename_steps == signal.spec_rename_steps(),
        r.total_container_movement_steps == signal.spec_container_steps(),
        r.total_layout_drift_steps == signal.spec_layout_steps(),
        r.review_required_history == signal.review_required,
        r.terminal_relation == signal.terminal_relation,
        crate::text::opt_view(r.terminal_version) == crate::text::opt_view(signal.terminal_version),
        r.terminal_after_current == signal.spec_terminal_after(current_new_version@),
        r.instability_detected == (signal.spec_layout_steps() >= 2 || signal.review_required
            || signal.terminal_relation is Some),
        r.spec_has_review_caution() == (signal.spec_layout_steps() >= 2 || signal.review_required
            || signal.terminal_relation is Some),
{
    let layout = signal.total_layout_drift_steps();
    InferredMappingContinuityContext {
        thread_id: Some(signal.thread_id.clone()),
        first_seen_version: Some(signal.first_seen_version.clone()),
        latest_observed_version: Some(signal.latest_observed_version.clone()),
        latest_live_version: clone_opt_string(&signal.latest_live_version),
        stable_before_current_change: signal.stable_before_current_change(),
        total_rename_steps: signal.total_rename_steps(),
        total_container_movement_steps: signal.total_container_movement_steps(),
        total_layout_drift_steps: layout,
        review_required_history: signal.review_required,
        terminal_relation: signal.terminal_relation,
        terminal_version: clone_opt_string(&signal.terminal_version),
        terminal_after_current: signal.terminal_after_current(current_new_version),
        instability_detected: layout >= 2 || signal.review_required
            || signal.terminal_relation.is_some(),
    }
}

pub open spec fn spec_continues_thread(relation: VersionContinuityRelation) -> bool {
    relation is Persisted || relation is RenameOrRepath || relation is ContainerMovement
        || relation is LayoutDrift
}

/// The relation keeps the thread alive: persistence, rename, container movement or layout drift.
pub fn continuity_relation_continues_thread(relation: &VersionContinuityRelation) -> (r: bool)
    ensures
        r == spec_continues_thread(*relation),
{
    matches!(
        relation,
        VersionContinuityRelation::Persisted | VersionContinuityRelation::RenameOrRepath
            | VersionContinuityRelation::ContainerMovement | VersionContinuityRelation::LayoutDrift
    )
}

// ---------------------------------------------------------------------------
// Tempering a remap's compatibility
// ---------------------------------------------------------------------------

/// How safe a compatibility call is: likely compatible 4, with caution 3, structurally
/// risky 2, insufficient evidence 1, blocked 0.
pub open spec fn safety_rank(c: RemapCompatibility) -> int {
    match c {
        RemapCompatibility::LikelyCompatible => 4,
        RemapCompatibility::CompatibleWithCaution => 3,
        RemapCompatibility::StructurallyRisky => 2,
        RemapCompatibility::InsufficientEvidence => 1,
        RemapCompatibility::IncompatibleBlocked => 0,
    }
}

pub open spec fn spec_downgrade_hook(c: RemapCompatibility) -> RemapCompatibility {
    match c {
        RemapCompatibility::LikelyCompatible => RemapCompatibility::CompatibleWithCaution,
        other => other,
    }
}

/// A hook-targeting mod surface caps a remap at "compatible with caution".
pub fn downgrade_hook_targeting_compatibility(compatibility: RemapCompatibility) -> (r:
    RemapCompatibility)
    ensures
        r == spec_downgrade_hook(compatibility),
{
    match compatibility {
        RemapCompatibility::LikelyCompatible => RemapCompatibility::CompatibleWithCaution,
        other => other,
    }
}

pub open spec fn spec_downgrade_layout(c: RemapCompatibility) -> RemapCompatibility {
    match c {
        RemapCompatibility::LikelyCompatible => RemapCompatibility::CompatibleWithCaution,
        RemapCompatibility::CompatibleWithCaution => RemapCompatibility::StructurallyRisky,
        other => other,
    }
}

/// Repeated layout drift in the thread lowers a usable remap by one step.
pub fn downgrade_compatibility_for_layout_history(compatibility: RemapCompatibility) -> (r:
    RemapCompatibility)
    ensures
        r == spec_downgrade_layout(compatibility),
{
    match compatibility {
        RemapCompatibility::LikelyCompatible => RemapCompatibility::CompatibleWithCaution,
        RemapCompatibility::CompatibleWithCaution => RemapCompatibility::StructurallyRisky,
        other => other,
    }
}

pub open spec fn spec_downgrade_terminal(
    c: RemapCompatibility,
    relation: VersionContinuityRelation,
) -> RemapCompatibility {
    match relation {
        VersionContinuityRelation::Ambiguous | VersionContinuityRelation::InsufficientEvidence => {
            RemapCompatibility::InsufficientEvidence
        },
        VersionContinuityRelation::Replacement => spec_downgrade_layout(c),
        VersionContinuityRelation::Removed => spec_downgrade_hook(c),
        _ => c,
    }
}

/// A terminal state of the thread tempers the remap: an ambiguous or unproven end
/// leaves insufficient evidence, a replacement lowers it a step, a removal caps it
/// at "compatible with caution".
pub fn downgrade_compatibility_for_terminal_history(
    compatibility: RemapCompatibility,
    relation: &VersionContinuityRelation,
) -> (r: RemapCompatibility)
    ensures
        r == spec_downgrade_terminal(compatibility, *relation),
{
    match relation {
        VersionContinuityRelation::Ambiguous | VersionContinuityRelation::InsufficientEvidence => {
            RemapCompatibility::InsufficientEvidence
        },
        VersionContinuityRelation::Replacement => downgrade_compatibility_for_layout_history(
            compatibility,
        ),
        VersionContinuityRelation::Removed => downgrade_hook_targeting_compatibility(compatibility),
        _ => compatibility,
    }
}

/// Capping a remap for a hook-targeting surface never makes it look safer, leaves it
/// at most "compatible with caution", and capping twice is the same as capping once.
pub proof fn hook_cap_is_a_ceiling(c: RemapCompatibility)
    ensures
        safety_rank(spec_downgrade_hook(c)) <= safety_rank(c),
        safety_rank(spec_downgrade_hook(c)) <= 3,
        spec_downgrade_hook(spec_downgrade_hook(c)) == spec_downgrade_hook(c),
        safety_rank(c) <= 3 ==> spec_downgrade_hook(c) == c,
{
}

/// Repeated layout drift lowers a usable remap (likely compatible, or compatible with
/// caution) by exactly one step and leaves every other call as it was.
pub proof fn layout_history_lowers_usable_remaps_one_step(c: RemapCompatibility)
    ensures
        safety_rank(c) >= 3 ==> safety_rank(spec_downgrade_layout(c)) == safety_rank(c) - 1,
        safety_rank(c) < 3 ==> spec_downgrade_layout(c) == c,
{
}

/// A terminal state of the thread never makes a remap look safer. The one input left
/// out: a blocked remap on a thread that ends ambiguously or without evidence is
/// reported as "insufficient evidence", which ranks above "blocked".
pub proof fn terminal_history_never_raises_safety(
    c: RemapCompatibility,
    relation: VersionContinuityRelation,
)
    requires
        !(c is IncompatibleBlocked && (relation is Ambiguous || relation is InsufficientEvidence)),
    ensures
        safety_rank(spec_downgrade_terminal(c, relation)) <= safety_rank(c),
{
}

// ---------------------------------------------------------------------------
// Evidence text
// ---------------------------------------------------------------------------

/// The details that describe a thread's history, in order.
pub open spec fn spec_signal_details(s: ContinuitySignal, current_new_version: Seq<char>) -> Seq<
    Seq<char>,
> {
    let focus = match s.current_to_path {
        Some(p) => p@,
        None => s.current_from_path@,
    };
    let d1 = seq![
        "continuity thread "@ + focus + " spans "@ + s.first_seen_version@ + " -> "@
            + s.latest_observed_version@,
    ];
    let d2 = if s.spec_stable_before() {
        d1.push(
            decimal(s.prior_persisted_steps as nat) + " prior persisted step(s) before current "@
                + spec_relation_label(s.current_relation),
        )
    } else {
        d1
    };
    let d3 = if s.spec_rename_steps() >= 2 {
        d2.push(decimal(s.spec_rename_steps()) + " rename/repath step(s)"@)
    } else {
        d2
    };
    let d4 = if s.spec_container_steps() >= 2 {
        d3.push(decimal(s.spec_container_steps()) + " container movement step(s)"@)
    } else {
        d3
    };
    let d5 = if s.spec_layout_steps() >= 2 {
        d4.push(decimal(s.spec_layout_steps()) + " layout-drift step(s)"@)
    } else {
        d4
    };
    let d6 = if s.review_required {
        d5.push("thread marked review-required"@)
    } else {
        d5
    };
    match s.terminal_relation {
        Some(rel) => d6.push(
            (if s.spec_terminal_after(current_new_version) {
                "later terminates"@
            } else {
                "terminates"@
            }) + " as "@ + spec_relation_label(rel) + " in "@ + match s.terminal_version {
                Some(v) => v@,
                None => s.latest_observed_version@,
            },
        ),
        None => match s.latest_live_version {
            Some(v) => d6.push("latest live version "@ + v@),
            None => d6,
        },
    }
}

/// The evidence line that describes a thread's history.
pub fn continuity_signal_evidence(signal: &ContinuitySignal, current_new_version: &str) -> (r: String)
    requires
        signal.counts_fit(),
    ensures
        r@ == join_seq(spec_signal_details(*signal, current_new_version@), "; "@),
{
    let focus = match &signal.current_to_path {
        Some(p) => p.as_str(),
        None => signal.current_from_path.as_str(),
    };
    let mut first = new_string("continuity thread ");
    push_str(&mut first, focus);
    push_str(&mut first, " spans ");
    push_str(&mut first, signal.first_seen_version.as_str());
    push_str(&mut first, " -> ");
    push_str(&mut first, signal.latest_observed_version.as_str());
    let mut details: Vec<String> = Vec::new();
    push_text(&mut details, first);
    proof {
        assert(views(details@) =~= seq![
            "continuity thread "@ + focus@ + " spans "@ + signal.first_seen_version@ + " -> "@
                + signal.latest_observed_version@,
        ]);
    }
    if signal.stable_before_current_change() {
        let mut s = decimal_string(signal.prior_persisted_steps);
        push_str(&mut s, " prior persisted step(s) before current ");
        push_str(&mut s, continuity_relation_label(&signal.current_relation));
        push_text(&mut details, s);
    }
    let renames = signal.total_rename_steps();
    if renames >= 2 {
        let mut s = decimal_string(renames);
        push_str(&mut s, " rename/repath step(s)");
        push_text(&mut details, s);
    }
    let moves = signal.total_container_movement_steps();
    if moves >= 2 {
        let mut s = decimal_string(moves);
        push_str(&mut s, " container movement step(s)");
        push_text(&mut details, s);
    }
    let drifts = signal.total_layout_drift_steps();
    if drifts >= 2 {
        let mut s = decimal_string(drifts);
        push_str(&mut s, " layout-drift step(s)");
        push_text(&mut details, s);
    }
    if signal.review_required {
        push_text(&mut details, new_string("thread marked review-required"));
    }
    match &signal.terminal_relation {
        Some(relation) => {
            let mut s = new_string(
                if signal.terminal_after_current(current_new_version) {
                    "later terminates"
                } else {
                    "terminates"
                },
            );
            push_str(&mut s, " as ");
            push_str(&mut s, continuity_relation_label(relation));
            push_str(&mut s, " in ");
            match &signal.terminal_version {
                Some(v) => push_str(&mut s, v.as_str()),
                None => push_str(&mut s, signal.latest_observed_version.as_str()),
            }
            push_text(&mut details, s);
        },
        None => match &signal.latest_live_version {
            Some(v) => {
                let mut s = new_string("latest live version ");
                push_str(&mut s, v.as_str());
                push_text(&mut details, s);
            },
            None => {},
        },
    }
    join(&details, "; ")
}


// ---------------------------------------------------------------------------
// Several threads at once
// ---------------------------------------------------------------------------

/// The step counts of every signal fit in `usize`.
pub open spec fn all_counts_fit(signals: Seq<ContinuitySignal>) -> bool {
    forall|i: int| 0 <= i < signals.len() ==> (#[trigger] signals[i]).counts_fit()
}

pub open spec fn count_stable(s: Seq<ContinuitySignal>) -> nat
    decreases s.len(),
{
    if s.len() == 0 {
        0
    } else {
        count_stable(s.drop_last()) + one_if(s.last().spec_stable_before())
    }
}

pub open spec fn count_recurring_rename(s: Seq<ContinuitySignal>) -> nat
    decreases s.len(),
{
    if s.len() == 0 {
        0
    } else {
        count_recurring_rename(s.drop_last()) + one_if(s.last().spec_rename_steps() >= 2)
    }
}

pub open spec fn count_recurring_layout(s: Seq<ContinuitySignal>) -> nat
    decreases s.len(),
{
    if s.len() == 0 {
        0
    } else {
        count_recurring_layout(s.drop_last()) + one_if(s.last().spec_layout_steps() >= 2)
    }
}

pub open spec fn count_terminal_or_review(s: Seq<ContinuitySignal>) -> nat
    decreases s.len(),
{
    if s.len() == 0 {
        0
    } else {
        count_terminal_or_review(s.drop_last()) + one_if(
            s.last().review_required || s.last().terminal_relation is Some,
        )
    }
}

pub open spec fn push_when(s: Seq<Seq<char>>, c: bool, x: Seq<char>) -> Seq<Seq<char>> {
    if c {
        s.push(x)
    } else {
        s
    }
}

/// The reasons the threads add: how many stayed stable before the current change,
/// recur in rename/repath, recur in layout drift, and end or need review.
pub open spec fn spec_thread_reasons(signals: Seq<ContinuitySignal>, subject: Seq<char>) -> Seq<
    Seq<char>,
> {
    let stable = count_stable(signals);
    let rename = count_recurring_rename(signals);
    let layout = count_recurring_layout(signals);
    let terminal = count_terminal_or_review(signals);
    let r1 = push_when(
        Seq::empty(),
        stable > 0,
        "continuity shows "@ + decimal(stable) + " "@ + subject
            + " thread(s) stayed stable across earlier versions before the current pair drifted"@,
    );
    let r2 = push_when(
        r1,
        rename > 0,
        "continuity shows recurring rename/repath history on "@ + decimal(rename) + " "@ + subject
            + " thread(s)"@,
    );
    let r3 = push_when(
        r2,
        layout > 0,
        "continuity records repeated layout drift on "@ + decimal(layout) + " "@ + subject
            + " thread(s)"@,
    );
    push_when(
        r3,
        terminal > 0,
        "continuity marks "@ + decimal(terminal) + " "@ + subject
            + " thread(s) as terminal or review-required somewhere in the broader chain"@,
    )
}

pub open spec fn first_four(len: nat) -> int {
    if len < 4 {
        len as int
    } else {
        4
    }
}

fn push_text_when(v: &mut Vec<String>, c: bool, x: String)
    ensures
        views(final(v)@) == push_when(views(old(v)@), c, x@),
{
    if c {
        push_text(v, x);
    }
}

fn counted_line(head: &str, n: usize, subject: &str, tail: &str) -> (r: String)
    ensures
        r@ == head@ + decimal(n as nat) + " "@ + subject@ + tail@,
{
    let mut s = new_string(head);
    let d = decimal_string(n);
    push_str(&mut s, d.as_str());
    push_str(&mut s, " ");
    push_str(&mut s, subject);
    push_str(&mut s, tail);
    s
}

/// Adds what the threads of `signals` say to a cause's or fix's reasons, and the
/// history of the first four threads to its evidence; nothing when there are none.
pub fn append_continuity_signal_context(
    reasons: &mut Vec<String>,
    evidence: &mut Vec<String>,
    signals: &Vec<ContinuitySignal>,
    current_new_version: &str,
    subject: &str,
)
    requires
        all_counts_fit(signals@),
    ensures
        views(final(reasons)@) == views(old(reasons)@) + spec_thread_reasons(signals@, subject@),
        views(final(evidence)@) == views(old(evidence)@) + signals@.take(
            first_four(signals@.len()),
        ).map_values(
            |s: ContinuitySignal| join_seq(spec_signal_details(s, current_new_version@), "; "@),
        ),
{
    let ghost r0 = views(reasons@);
    let ghost e0 = views(evidence@);
    if signals.len() == 0 {
        proof {
            assert(spec_thread_reasons(signals@, subject@) =~= Seq::<Seq<char>>::empty());
            assert(views(reasons@) =~= r0 + Seq::<Seq<char>>::empty());
            assert(signals@.take(0).map_values(
                |s: ContinuitySignal| join_seq(spec_signal_details(s, current_new_version@), "; "@),
            ) =~= Seq::<Seq<char>>::empty());
            assert(views(evidence@) =~= e0 + Seq::<Seq<char>>::empty());
        }
        return;
    }
    let mut stable: usize = 0;
    let mut rename: usize = 0;
    let mut layout: usize = 0;
    let mut terminal: usize = 0;
    let mut i: usize = 0;
    while i < signals.len()
        invariant
            i <= signals@.len(),
            all_counts_fit(signals@),
            stable == count_stable(signals@.take(i as int)),
            rename == count_recurring_rename(signals@.take(i as int)),
            layout == count_recurring_layout(signals@.take(i as int)),
            terminal == count_terminal_or_review(signals@.take(i as int)),
            stable <= i && rename <= i && layout <= i && terminal <= i,
        decreases signals.len() - i,
    {
        proof {
            assert(signals@.take(i + 1).drop_last() =~= signals@.take(i as int));
            assert(signals@.take(i + 1).last() == signals@[i as int]);
        }
        let s = &signals[i];
        if s.stable_before_current_change() {
            stable = stable + 1;
        }
        if s.total_rename_steps() >= 2 {
            rename = rename + 1;
        }
        if s.total_layout_drift_steps() >= 2 {
            layout = layout + 1;
        }
        if s.has_terminal_or_review_history() {
            terminal = terminal + 1;
        }
        i = i + 1;
    }
    proof {
        assert(signals@.take(signals@.len() as int) =~= signals@);
    }
    let ghost sr = spec_thread_reasons(signals@, subject@);
    let ghost before = views(reasons@);
    push_text_when(
        reasons,
        stable > 0,
        counted_line(
            "continuity shows ",
            stable,
            subject,
            " thread(s) stayed stable across earlier versions before the current pair drifted",
        ),
    );
    push_text_when(
        reasons,
        rename > 0,
        counted_line("continuity shows recurring rename/repath history on ", rename, subject, " thread(s)"),
    );
    push_text_when(
        reasons,
        layout > 0,
        counted_line("continuity records repeated layout drift on ", layout, subject, " thread(s)"),
    );
    push_text_when(
        reasons,
        terminal > 0,
        counted_line(
            "continuity marks ",
            terminal,
            subject,
            " thread(s) as terminal or review-required somewhere in the broader chain",
        ),
    );
    proof {
        let stable_line = "continuity shows "@ + decimal(stable as nat) + " "@ + subject@
            + " thread(s) stayed stable across earlier versions before the current pair drifted"@;
        let rename_line = "continuity shows recurring rename/repath history on "@ + decimal(
            rename as nat,
        ) + " "@ + subject@ + " thread(s)"@;
        let layout_line = "continuity records repeated layout drift on "@ + decimal(layout as nat)
            + " "@ + subject@ + " thread(s)"@;
        let terminal_line = "continuity marks "@ + decimal(terminal as nat) + " "@ + subject@
            + " thread(s) as terminal or review-required somewhere in the broader chain"@;
        let q1 = push_when(Seq::empty(), stable > 0, stable_line);
        let q2 = push_when(q1, rename > 0, rename_line);
        let q3 = push_when(q2, layout > 0, layout_line);
        let q4 = push_when(q3, terminal > 0, terminal_line);
        assert(q4 == sr);
        assert(push_when(push_when(push_when(push_when(before, stable > 0, stable_line), rename > 0, rename_line), layout > 0, layout_line), terminal > 0, terminal_line) =~= before + q4);
    }
    let n: usize = if signals.len() < 4 {
        signals.len()
    } else {
        4
    };
    let ghost f = |s: ContinuitySignal| join_seq(spec_signal_details(s, current_new_version@), "; "@);
    let mut k: usize = 0;
    while k < n
        invariant
            k <= n,
            n == first_four(signals@.len()),
            n <= signals@.len(),
            all_counts_fit(signals@),
            f == (|s: ContinuitySignal| join_seq(spec_signal_details(s, current_new_version@), "; "@)),
            views(evidence@) == e0 + signals@.take(k as int).map_values(f),
        decreases n - k,
    {
        let line = continuity_signal_evidence(&signals[k], current_new_version);
        proof {
            assert(signals@[k as int].counts_fit());
            assert(signals@.take(k + 1).map_values(f) =~= signals@.take(k as int).map_values(f).push(
                f(signals@[k as int]),
            ));
        }
        push_text(evidence, line);
        proof {
            assert(e0 + signals@.take(k + 1).map_values(f) =~= (e0 + signals@.take(k as int).map_values(
                f,
            )).push(f(signals@[k as int])));
        }
        k = k + 1;
    }
}

/// Each path in order of first appearance: `s` with later repeats dropped.
pub open spec fn first_occurrences(s: Seq<Seq<char>>) -> Seq<Seq<char>>
    decreases s.len(),
{
    if s.len() == 0 {
        s
    } else {
        let rest = first_occurrences(s.drop_last());
        if rest.contains(s.last()) {
            rest
        } else {
            rest.push(s.last())
        }
    }
}

/// The current paths of the signals, the old path before the new one.
pub open spec fn signal_paths(signals: Seq<ContinuitySignal>) -> Seq<Seq<char>>
    decreases signals.len(),
{
    if signals.len() == 0 {
        Seq::empty()
    } else {
        let s = signals.last();
        let rest = signal_paths(signals.drop_last()).push(s.current_from_path@);
        match s.current_to_path {
            Some(p) => rest.push(p@),
            None => rest,
        }
    }
}

proof fn lemma_first_occurrences_push(s: Seq<Seq<char>>, x: Seq<char>)
    ensures
        first_occurrences(s.push(x)) == if first_occurrences(s).contains(x) {
            first_occurrences(s)
        } else {
            first_occurrences(s).push(x)
        },
{
    assert(s.push(x).drop_last() =~= s);
}

fn push_new_path(out: &mut Vec<String>, p: &String, Ghost(seen): Ghost<Seq<Seq<char>>>)
    requires
        views(old(out)@) == first_occurrences(seen),
    ensures
        views(final(out)@) == first_occurrences(seen.push(p@)),
{
    proof {
        lemma_first_occurrences_push(seen, p@);
    }
    if !contains_text(out, p.as_str()) {
        push_text(out, p.clone());
    }
}

/// The paths the threads touch, each once, in the order they first appear.
pub fn collect_continuity_affected_assets(signals: &Vec<ContinuitySignal>) -> (r: Vec<String>)
    ensures
        views(r@) == first_occurrences(signal_paths(signals@)),
{
    let mut out: Vec<String> = Vec::new();
    let mut i: usize = 0;
    proof {
        assert(signals@.take(0) =~= Seq::<ContinuitySignal>::empty());
        assert(views(out@) =~= first_occurrences(Seq::<Seq<char>>::empty()));
    }
    while i < signals.len()
        invariant
            i <= signals@.len(),
            views(out@) == first_occurrences(signal_paths(signals@.take(i as int))),
        decreases signals.len() - i,
    {
        let s = &signals[i];
        let ghost before = signal_paths(signals@.take(i as int));
        proof {
            assert(signals@.take(i + 1).drop_last() =~= signals@.take(i as int));
            assert(signals@.take(i + 1).last() == signals@[i as int]);
        }
        push_new_path(&mut out, &s.current_from_path, Ghost(before));
        match &s.current_to_path {
            Some(p) => {
                push_new_path(&mut out, p, Ghost(before.push(s.current_from_path@)));
            },
            None => {},
        }
        i = i + 1;
    }
    proof {
        assert(signals@.take(signals@.len() as int) =~= signals@);
    }
    out
}

/// Each thread once, at its first signal.
pub open spec fn first_per_thread(s: Seq<ContinuitySignal>) -> Seq<ContinuitySignal>
    decreases s.len(),
{
    if s.len() == 0 {
        s
    } else {
        let rest = first_per_thread(s.drop_last());
        if exists|j: int| 0 <= j < rest.len() && (#[trigger] rest[j]).thread_id@ == s.last().thread_id@ {
            rest
        } else {
            rest.push(s.last())
        }
    }
}

/// The signals with later ones of an already seen thread dropped.
pub fn dedup_continuity_signals(signals: Vec<ContinuitySignal>) -> (r: Vec<ContinuitySignal>)
    ensures
        r@ == first_per_thread(signals@),
{
    let ghost all = signals@;
    let mut rest = signals;
    let mut out: Vec<ContinuitySignal> = Vec::new();
    let ghost mut i: int = 0;
    proof {
        assert(all.take(0) =~= Seq::<ContinuitySignal>::empty());
        assert(all.skip(0) =~= all);
    }
    while rest.len() > 0
        invariant
            0 <= i <= all.len(),
            rest@ == all.skip(i),
            out@ == first_per_thread(all.take(i)),
        decreases rest.len(),
    {
        proof {
            assert(all.take(i + 1).drop_last() =~= all.take(i));
            assert(all.take(i + 1).last() == all[i]);
            assert(rest@[0] == all[i]);
        }
        let s = rest.remove(0);
        let mut seen = false;
        let mut j: usize = 0;
        while j < out.len()
            invariant
                j <= out@.len(),
                !seen ==> forall|k: int| 0 <= k < j ==> (#[trigger] out@[k]).thread_id@ != s.thread_id@,
                seen ==> exists|k: int| 0 <= k < out@.len() && (#[trigger] out@[k]).thread_id@ == s.thread_id@,
            decreases out.len() - j,
        {
            if str_eq(out[j].thread_id.as_str(), s.thread_id.as_str()) {
                seen = true;
            }
            j = j + 1;
        }
        if !seen {
            out.push(s);
        }
        proof {
            assert(rest@ =~= all.skip(i + 1));
            i = i + 1;
        }
    }
    proof {
        assert(all.take(all.len() as int) =~= all);
    }
    out
}


// ---------------------------------------------------------------------------
// Finding a change's thread in the continuity index
// ---------------------------------------------------------------------------

pub open spec fn count_relation(obs: Seq<VersionContinuityObservation>, relation: VersionContinuityRelation) -> nat
    decreases obs.len(),
{
    if obs.len() == 0 {
        0
    } else {
        count_relation(obs.drop_last(), relation) + one_if(obs.last().relation == relation)
    }
}

/// How many steps changed the asset in some way (are not persistence).
pub open spec fn count_material(obs: Seq<VersionContinuityObservation>) -> nat
    decreases obs.len(),
{
    if obs.len() == 0 {
        0
    } else {
        count_material(obs.drop_last()) + one_if(
            obs.last().relation != VersionContinuityRelation::Persisted,
        )
    }
}

fn same_relation(a: &VersionContinuityRelation, b: &VersionContinuityRelation) -> (r: bool)
    ensures
        r == (*a == *b),
{
    match (a, b) {
        (VersionContinuityRelation::Persisted, VersionContinuityRelation::Persisted) => true,
        (VersionContinuityRelation::RenameOrRepath, VersionContinuityRelation::RenameOrRepath) => true,
        (VersionContinuityRelation::ContainerMovement, VersionContinuityRelation::ContainerMovement) => true,
        (VersionContinuityRelation::LayoutDrift, VersionContinuityRelation::LayoutDrift) => true,
        (VersionContinuityRelation::Replacement, VersionContinuityRelation::Replacement) => true,
        (VersionContinuityRelation::Ambiguous, VersionContinuityRelation::Ambiguous) => true,
        (
            VersionContinuityRelation::InsufficientEvidence,
            VersionContinuityRelation::InsufficientEvidence,
        ) => true,
        (VersionContinuityRelation::Removed, VersionContinuityRelation::Removed) => true,
        _ => false,
    }
}

/// How many of the steps have the relation.
pub fn count_continuity_relation(
    observations: &[VersionContinuityObservation],
    relation: VersionContinuityRelation,
) -> (r: usize)
    ensures
        r == count_relation(observations@, relation),
{
    let mut n: usize = 0;
    let mut i: usize = 0;
    while i < observations.len()
        invariant
            i <= observations@.len(),
            n == count_relation(observations@.take(i as int), relation),
            n <= i,
        decreases observations.len() - i,
    {
        proof {
            assert(observations@.take(i + 1).drop_last() =~= observations@.take(i as int));
        }
        if same_relation(&observations[i].relation, &relation) {
            n = n + 1;
        }
        i = i + 1;
    }
    proof {
        assert(observations@.take(observations@.len() as int) =~= observations@);
    }
    n
}

fn count_material_steps(observations: &[VersionContinuityObservation]) -> (r: usize)
    ensures
        r == count_material(observations@),
{
    let mut n: usize = 0;
    let mut i: usize = 0;
    while i < observations.len()
        invariant
            i <= observations@.len(),
            n == count_material(observations@.take(i as int)),
            n <= i,
        decreases observations.len() - i,
    {
        proof {
            assert(observations@.take(i + 1).drop_last() =~= observations@.take(i as int));
        }
        if !same_relation(&observations[i].relation, &VersionContinuityRelation::Persisted) {
            n = n + 1;
        }
        i = i + 1;
    }
    proof {
        assert(observations@.take(observations@.len() as int) =~= observations@);
    }
    n
}

/// What a thread summary says, as plain values.
pub struct SummaryModel {
    pub first_seen_version: Seq<char>,
    pub latest_observed_version: Seq<char>,
    pub latest_live_version: Option<Seq<char>>,
    pub terminal_relation: Option<VersionContinuityRelation>,
    pub terminal_version: Option<Seq<char>>,
    pub review_required: bool,
}

pub open spec fn summary_model(s: VersionContinuityThreadSummary) -> SummaryModel {
    SummaryModel {
        first_seen_version: s.first_seen_version@,
        latest_observed_version: s.latest_observed_version@,
        latest_live_version: opt_view(s.latest_live_version),
        terminal_relation: s.terminal_relation,
        terminal_version: opt_view(s.terminal_version),
        review_required: s.review_required,
    }
}

/// The summary of a thread from its steps: seen from its anchor version to the target
/// of its last step; live unless that step ended it, and then ended there.
pub open spec fn spec_summarize(t: VersionContinuityThread) -> SummaryModel {
    let obs = t.observations@;
    let latest = if obs.len() > 0 {
        obs.last().to_version_id@
    } else {
        t.anchor_version_id@
    };
    let ended = obs.len() > 0 && !spec_continues_thread(obs.last().relation);
    SummaryModel {
        first_seen_version: t.anchor_version_id@,
        latest_observed_version: latest,
        latest_live_version: if ended {
            None
        } else {
            Some(latest)
        },
        terminal_relation: if ended {
            Some(obs.last().relation)
        } else {
            None
        },
        terminal_version: if ended {
            Some(latest)
        } else {
            None
        },
        review_required: t.review_required,
    }
}

/// A thread's summary when none was saved for it.
pub fn summarize_continuity_thread_for_inference(thread: &VersionContinuityThread) -> (r:
    VersionContinuityThreadSummary)
    ensures
        summary_model(r) == spec_summarize(*thread),
        r.thread_id@ == thread.thread_id@,
        r.anchor_version_id@ == thread.anchor_version_id@,
        r.anchor.same_as(&thread.anchor),
{
    let n = thread.observations.len();
    let latest_observed_version = if n > 0 {
        clone_string(&thread.observations[n - 1].to_version_id)
    } else {
        clone_string(&thread.anchor_version_id)
    };
    let ended = n > 0 && !continuity_relation_continues_thread(&thread.observations[n - 1].relation);
    let latest_live_version = if ended {
        None
    } else {
        Some(clone_string(&latest_observed_version))
    };
    let terminal_relation = if ended {
        Some(thread.observations[n - 1].relation)
    } else {
        None
    };
    let terminal_version = if ended {
        Some(clone_string(&latest_observed_version))
    } else {
        None
    };
    VersionContinuityThreadSummary {
        thread_id: clone_string(&thread.thread_id),
        anchor_version_id: clone_string(&thread.anchor_version_id),
        anchor: thread.anchor.copy(),
        first_seen_version: clone_string(&thread.anchor_version_id),
        latest_observed_version,
        latest_live_version,
        terminal_relation,
        terminal_version,
        review_required: thread.review_required,
    }
}

/// The step goes from `old_path` in `old_version` to `new_path` in `new_version`.
pub open spec fn step_is(
    o: VersionContinuityObservation,
    old_version: Seq<char>,
    new_version: Seq<char>,
    old_path: Seq<char>,
    new_path: Option<Seq<char>>,
) -> bool {
    &&& o.from_version_id@ == old_version
    &&& o.to_version_id@ == new_version
    &&& o.from_path@ == old_path
    &&& opt_view(o.to_path) == new_path
}

/// The position of the first such step, or -1.
pub open spec fn first_step(
    obs: Seq<VersionContinuityObservation>,
    old_version: Seq<char>,
    new_version: Seq<char>,
    old_path: Seq<char>,
    new_path: Option<Seq<char>>,
) -> int
    decreases obs.len(),
{
    if obs.len() == 0 {
        -1
    } else {
        let before = first_step(obs.drop_last(), old_version, new_version, old_path, new_path);
        if before >= 0 {
            before
        } else if step_is(obs.last(), old_version, new_version, old_path, new_path) {
            obs.len() - 1
        } else {
            -1
        }
    }
}

/// The position of the first thread with such a step, or -1.
pub open spec fn first_thread(
    ts: Seq<VersionContinuityThread>,
    old_version: Seq<char>,
    new_version: Seq<char>,
    old_path: Seq<char>,
    new_path: Option<Seq<char>>,
) -> int
    decreases ts.len(),
{
    if ts.len() == 0 {
        -1
    } else {
        let before = first_thread(ts.drop_last(), old_version, new_version, old_path, new_path);
        if before >= 0 {
            before
        } else if first_step(ts.last().observations@, old_version, new_version, old_path, new_path)
            >= 0 {
            ts.len() - 1
        } else {
            -1
        }
    }
}

/// The position of the first saved summary of the thread, or -1.
pub open spec fn first_summary(ss: Seq<VersionContinuityThreadSummary>, thread_id: Seq<char>) -> int
    decreases ss.len(),
{
    if ss.len() == 0 {
        -1
    } else {
        let before = first_summary(ss.drop_last(), thread_id);
        if before >= 0 {
            before
        } else if ss.last().thread_id@ == thread_id {
            ss.len() - 1
        } else {
            -1
        }
    }
}

/// The summary a thread is read with: its first saved one, else one made from its steps.
pub open spec fn thread_summary(index: VersionContinuityIndex, t: VersionContinuityThread) -> SummaryModel {
    let k = first_summary(index.thread_summaries@, t.thread_id@);
    if k >= 0 {
        summary_model(index.thread_summaries@[k])
    } else {
        spec_summarize(t)
    }
}

/// `r` is the signal of the `k`-th step of thread `t`, read with summary `m`: the
/// step's paths and relation, the summary's span and end, and the steps before and
/// after it counted by relation.
pub open spec fn signal_is(r: ContinuitySignal, t: VersionContinuityThread, k: int, m: SummaryModel) -> bool {
    let obs = t.observations@;
    let o = obs[k];
    let previous = obs.take(k);
    let later = obs.skip(k + 1);
    &&& r.thread_id@ == t.thread_id@
    &&& r.current_from_path@ == o.from_path@
    &&& opt_view(r.current_to_path) == opt_view(o.to_path)
    &&& r.first_seen_version@ == m.first_seen_version
    &&& r.latest_observed_version@ == m.latest_observed_version
    &&& opt_view(r.latest_live_version) == m.latest_live_version
    &&& r.current_relation == o.relation
    &&& r.prior_persisted_steps == count_relation(previous, VersionContinuityRelation::Persisted)
    &&& r.prior_rename_steps == count_relation(previous, VersionContinuityRelation::RenameOrRepath)
    &&& r.prior_container_movement_steps == count_relation(
        previous,
        VersionContinuityRelation::ContainerMovement,
    )
    &&& r.prior_layout_drift_steps == count_relation(previous, VersionContinuityRelation::LayoutDrift)
    &&& r.prior_material_steps == count_material(previous)
    &&& r.later_rename_steps == count_relation(later, VersionContinuityRelation::RenameOrRepath)
    &&& r.later_container_movement_steps == count_relation(
        later,
        VersionContinuityRelation::ContainerMovement,
    )
    &&& r.later_layout_drift_steps == count_relation(later, VersionContinuityRelation::LayoutDrift)
    &&& r.terminal_relation == m.terminal_relation
    &&& opt_view(r.terminal_version) == m.terminal_version
    &&& r.review_required == m.review_required
}

fn opt_str_matches(a: &Option<String>, b: Option<&str>) -> (r: bool)
    ensures
        r == (opt_view(*a) == match b {
            Some(s) => Some(s@),
            None => None::<Seq<char>>,
        }),
{
    match (a, b) {
        (Some(x), Some(y)) => str_eq(x.as_str(), y),
        (None, None) => true,
        _ => false,
    }
}

fn find_step(
    obs: &Vec<VersionContinuityObservation>,
    old_version: &str,
    new_version: &str,
    old_path: &str,
    new_path: Option<&str>,
) -> (r: Option<usize>)
    ensures
        match r {
            Some(k) => k < obs@.len() && k as int == first_step(
                obs@,
                old_version@,
                new_version@,
                old_path@,
                match new_path {
                    Some(s) => Some(s@),
                    None => None::<Seq<char>>,
                },
            ),
            None => first_step(
                obs@,
                old_version@,
                new_version@,
                old_path@,
                match new_path {
                    Some(s) => Some(s@),
                    None => None::<Seq<char>>,
                },
            ) < 0,
        },
{
    let ghost np = match new_path {
        Some(s) => Some(s@),
        None => None::<Seq<char>>,
    };
    let mut i: usize = 0;
    while i < obs.len()
        invariant
            i <= obs@.len(),
            np == match new_path {
                Some(s) => Some(s@),
                None => None::<Seq<char>>,
            },
            first_step(obs@.take(i as int), old_version@, new_version@, old_path@, np) < 0,
        decreases obs.len() - i,
    {
        proof {
            assert(obs@.take(i + 1).drop_last() =~= obs@.take(i as int));
            assert(obs@.take(i + 1).last() == obs@[i as int]);
        }
        let o = &obs[i];
        if str_eq(o.from_version_id.as_str(), old_version) && str_eq(
            o.to_version_id.as_str(),
            new_version,
        ) && str_eq(o.from_path.as_str(), old_path) && opt_str_matches(&o.to_path, new_path) {
            proof {
                assert(step_is(obs@[i as int], old_version@, new_version@, old_path@, np));
                assert(first_step(obs@.take(i + 1), old_version@, new_version@, old_path@, np) == i);
                lemma_first_step_extends(obs@, i as int + 1, old_version@, new_version@, old_path@, np);
            }
            return Some(i);
        }
        i = i + 1;
    }
    proof {
        assert(obs@.take(obs@.len() as int) =~= obs@);
    }
    None
}

proof fn lemma_first_step_extends(
    obs: Seq<VersionContinuityObservation>,
    n: int,
    old_version: Seq<char>,
    new_version: Seq<char>,
    old_path: Seq<char>,
    new_path: Option<Seq<char>>,
)
    requires
        0 <= n <= obs.len(),
        first_step(obs.take(n), old_version, new_version, old_path, new_path) >= 0,
    ensures
        first_step(obs, old_version, new_version, old_path, new_path) == first_step(
            obs.take(n),
            old_version,
            new_version,
            old_path,
            new_path,
        ),
    decreases obs.len() - n,
{
    if n < obs.len() {
        assert(obs.take(n + 1).drop_last() =~= obs.take(n));
        lemma_first_step_extends(obs, n + 1, old_version, new_version, old_path, new_path);
    } else {
        assert(obs.take(n) =~= obs);
    }
}

proof fn lemma_first_thread_extends(
    ts: Seq<VersionContinuityThread>,
    n: int,
    old_version: Seq<char>,
    new_version: Seq<char>,
    old_path: Seq<char>,
    new_path: Option<Seq<char>>,
)
    requires
        0 <= n <= ts.len(),
        first_thread(ts.take(n), old_version, new_version, old_path, new_path) >= 0,
    ensures
        first_thread(ts, old_version, new_version, old_path, new_path) == first_thread(
            ts.take(n),
            old_version,
            new_version,
            old_path,
            new_path,
        ),
    decreases ts.len() - n,
{
    if n < ts.len() {
        assert(ts.take(n + 1).drop_last() =~= ts.take(n));
        lemma_first_thread_extends(ts, n + 1, old_version, new_version, old_path, new_path);
    } else {
        assert(ts.take(n) =~= ts);
    }
}

proof fn lemma_first_summary_extends(ss: Seq<VersionContinuityThreadSummary>, n: int, id: Seq<char>)
    requires
        0 <= n <= ss.len(),
        first_summary(ss.take(n), id) >= 0,
    ensures
        first_summary(ss, id) == first_summary(ss.take(n), id),
    decreases ss.len() - n,
{
    if n < ss.len() {
        assert(ss.take(n + 1).drop_last() =~= ss.take(n));
        lemma_first_summary_extends(ss, n + 1, id);
    } else {
        assert(ss.take(n) =~= ss);
    }
}

proof fn lemma_first_step_in_range(
    obs: Seq<VersionContinuityObservation>,
    old_version: Seq<char>,
    new_version: Seq<char>,
    old_path: Seq<char>,
    new_path: Option<Seq<char>>,
)
    ensures
        -1 <= first_step(obs, old_version, new_version, old_path, new_path) < obs.len(),
    decreases obs.len(),
{
    if obs.len() > 0 {
        lemma_first_step_in_range(obs.drop_last(), old_version, new_version, old_path, new_path);
    }
}

fn find_summary(
    summaries: &Vec<VersionContinuityThreadSummary>,
    thread_id: &str,
) -> (r: Option<usize>)
    ensures
        match r {
            Some(k) => k as int == first_summary(summaries@, thread_id@) && k < summaries@.len(),
            None => first_summary(summaries@, thread_id@) < 0,
        },
{
    let mut i: usize = 0;
    while i < summaries.len()
        invariant
            i <= summaries@.len(),
            first_summary(summaries@.take(i as int), thread_id@) < 0,
        decreases summaries.len() - i,
    {
        proof {
            assert(summaries@.take(i + 1).drop_last() =~= summaries@.take(i as int));
            assert(summaries@.take(i + 1).last() == summaries@[i as int]);
        }
        if str_eq(summaries[i].thread_id.as_str(), thread_id) {
            proof {
                lemma_first_summary_extends(summaries@, i as int + 1, thread_id@);
            }
            return Some(i);
        }
        i = i + 1;
    }
    proof {
        assert(summaries@.take(summaries@.len() as int) =~= summaries@);
    }
    None
}

fn summary_copy(s: &VersionContinuityThreadSummary) -> (r: VersionContinuityThreadSummary)
    ensures
        summary_model(r) == summary_model(*s),
{
    VersionContinuityThreadSummary {
        thread_id: clone_string(&s.thread_id),
        anchor_version_id: clone_string(&s.anchor_version_id),
        anchor: s.anchor.copy(),
        first_seen_version: clone_string(&s.first_seen_version),
        latest_observed_version: clone_string(&s.latest_observed_version),
        latest_live_version: clone_opt_string(&s.latest_live_version),
        terminal_relation: s.terminal_relation,
        terminal_version: clone_opt_string(&s.terminal_version),
        review_required: s.review_required,
    }
}

/// The continuity signal of the change from `old_path` in `old_version` to `new_path`
/// in `new_version`: found at the first step that makes that change, in the first
/// thread that has one, and read with the thread's summary.
pub fn find_continuity_signal(
    continuity: &VersionContinuityIndex,
    old_version: &str,
    new_version: &str,
    old_path: &str,
    new_path: Option<&str>,
) -> (r: Option<ContinuitySignal>)
    ensures
        ({
            let np = match new_path {
                Some(s) => Some(s@),
                None => None::<Seq<char>>,
            };
            let ts = continuity.threads@;
            let ti = first_thread(ts, old_version@, new_version@, old_path@, np);
            match r {
                Some(sig) => ti >= 0 && signal_is(
                    sig,
                    ts[ti],
                    first_step(ts[ti].observations@, old_version@, new_version@, old_path@, np),
                    thread_summary(*continuity, ts[ti]),
                ),
                None => ti < 0,
            }
        }),
{
    let ghost np = match new_path {
        Some(s) => Some(s@),
        None => None::<Seq<char>>,
    };
    let threads = &continuity.threads;
    let mut t: usize = 0;
    while t < threads.len()
        invariant
            t <= threads@.len(),
            threads@ == continuity.threads@,
            np == match new_path {
                Some(s) => Some(s@),
                None => None::<Seq<char>>,
            },
            first_thread(threads@.take(t as int), old_version@, new_version@, old_path@, np) < 0,
        decreases threads.len() - t,
    {
        proof {
            assert(threads@.take(t + 1).drop_last() =~= threads@.take(t as int));
            assert(threads@.take(t + 1).last() == threads@[t as int]);
        }
        let thread = &threads[t];
        match find_step(&thread.observations, old_version, new_version, old_path, new_path) {
            Some(k) => {
                proof {
                    assert(first_step(threads@[t as int].observations@, old_version@, new_version@, old_path@, np) >= 0);
                    assert(first_thread(threads@.take(t + 1), old_version@, new_version@, old_path@, np) == t);
                    lemma_first_thread_extends(threads@, t as int + 1, old_version@, new_version@, old_path@, np);
                    lemma_first_step_in_range(thread.observations@, old_version@, new_version@, old_path@, np);
                }
                let summary = match find_summary(&continuity.thread_summaries, thread.thread_id.as_str()) {
                    Some(j) => summary_copy(&continuity.thread_summaries[j]),
                    None => summarize_continuity_thread_for_inference(thread),
                };
                let n_obs = thread.observations.len();
                let obs = thread.observations.as_slice();
                assert(k < n_obs && obs@.len() == n_obs);
                let previous = vstd::slice::slice_subrange(obs, 0, k);
                let later = vstd::slice::slice_subrange(obs, k + 1, n_obs);
                let observation = &thread.observations[k];
                proof {
                    assert(previous@ =~= thread.observations@.take(k as int));
                    assert(later@ =~= thread.observations@.skip(k + 1));
                }
                return Some(
                    ContinuitySignal {
                        thread_id: clone_string(&thread.thread_id),
                        current_from_path: clone_string(&observation.from_path),
                        current_to_path: clone_opt_string(&observation.to_path),
                        first_seen_version: summary.first_seen_version,
                        latest_observed_version: summary.latest_observed_version,
                        latest_live_version: summary.latest_live_version,
                        current_relation: observation.relation,
                        prior_persisted_steps: count_continuity_relation(
                            previous,
                            VersionContinuityRelation::Persisted,
                        ),
                        prior_rename_steps: count_continuity_relation(
                            previous,
                            VersionContinuityRelation::RenameOrRepath,
                        ),
                        prior_container_movement_steps: count_continuity_relation(
                            previous,
                            VersionContinuityRelation::ContainerMovement,
                        ),
                        prior_layout_drift_steps: count_continuity_relation(
                            previous,
                            VersionContinuityRelation::LayoutDrift,
                        ),
                        prior_material_steps: count_material_steps(previous),
                        later_rename_steps: count_continuity_relation(
                            later,
                            VersionContinuityRelation::RenameOrRepath,
                        ),
                        later_container_movement_steps: count_continuity_relation(
                            later,
                            VersionContinuityRelation::ContainerMovement,
                        ),
                        later_layout_drift_steps: count_continuity_relation(
                            later,
                            VersionContinuityRelation::LayoutDrift,
                        ),
                        terminal_relation: summary.terminal_relation,
                        terminal_version: summary.terminal_version,
                        review_required: summary.review_required,
                    },
                );
            },
            None => {},
        }
        t = t + 1;
    }
    proof {
        assert(threads@.take(threads@.len() as int) =~= threads@);
    }
    None
}


// ---------------------------------------------------------------------------
// The continuity signals of a compare
// ---------------------------------------------------------------------------

impl ContinuitySignal {
    /// Field-wise equality, texts by their views.
    pub open spec fn same_as(&self, o: &ContinuitySignal) -> bool {
        &&& self.thread_id@ == o.thread_id@
        &&& self.current_from_path@ == o.current_from_path@
        &&& opt_view(self.current_to_path) == opt_view(o.current_to_path)
        &&& self.first_seen_version@ == o.first_seen_version@
        &&& self.latest_observed_version@ == o.latest_observed_version@
        &&& opt_view(self.latest_live_version) == opt_view(o.latest_live_version)
        &&& self.current_relation == o.current_relation
        &&& self.prior_persisted_steps == o.prior_persisted_steps
        &&& self.prior_rename_steps == o.prior_rename_steps
        &&& self.prior_container_movement_steps == o.prior_container_movement_steps
        &&& self.prior_layout_drift_steps == o.prior_layout_drift_steps
        &&& self.prior_material_steps == o.prior_material_steps
        &&& self.later_rename_steps == o.later_rename_steps
        &&& self.later_container_movement_steps == o.later_container_movement_steps
        &&& self.later_layout_drift_steps == o.later_layout_drift_steps
        &&& self.terminal_relation == o.terminal_relation
        &&& opt_view(self.terminal_version) == opt_view(o.terminal_version)
        &&& self.review_required == o.review_required
    }

    pub fn copy(&self) -> (r: Self)
        ensures
            r.same_as(self),
    {
        ContinuitySignal {
            thread_id: clone_string(&self.thread_id),
            current_from_path: clone_string(&self.current_from_path),
            current_to_path: clone_opt_string(&self.current_to_path),
            first_seen_version: clone_string(&self.first_seen_version),
            latest_observed_version: clone_string(&self.latest_observed_version),
            latest_live_version: clone_opt_string(&self.latest_live_version),
            current_relation: self.current_relation,
            prior_persisted_steps: self.prior_persisted_steps,
            prior_rename_steps: self.prior_rename_steps,
            prior_container_movement_steps: self.prior_container_movement_steps,
            prior_layout_drift_steps: self.prior_layout_drift_steps,
            prior_material_steps: self.prior_material_steps,
            later_rename_steps: self.later_rename_steps,
            later_container_movement_steps: self.later_container_movement_steps,
            later_layout_drift_steps: self.later_layout_drift_steps,
            terminal_relation: self.terminal_relation,
            terminal_version: clone_opt_string(&self.terminal_version),
            review_required: self.review_required,
        }
    }
}

/// `r` is what the continuity index says of the change from `old_path` to `new_path`
/// between the two versions (see `find_continuity_signal`).
pub open spec fn found_signal(
    continuity: VersionContinuityIndex,
    old_version: Seq<char>,
    new_version: Seq<char>,
    old_path: Seq<char>,
    new_path: Option<Seq<char>>,
    r: Option<ContinuitySignal>,
) -> bool {
    let ts = continuity.threads@;
    let ti = first_thread(ts, old_version, new_version, old_path, new_path);
    match r {
        Some(sig) => ti >= 0 && signal_is(
            sig,
            ts[ti],
            first_step(ts[ti].observations@, old_version, new_version, old_path, new_path),
            thread_summary(continuity, ts[ti]),
        ),
        None => ti < 0,
    }
}

/// A change's continuity signal, keyed by the change's old and new path.
pub struct ChangeSignalEntry {
    pub old_path: String,
    pub new_path: Option<String>,
    pub signal: ContinuitySignal,
}

/// A candidate remap's continuity signal, keyed by its old and new path.
pub struct MappingSignalEntry {
    pub old_path: String,
    pub new_path: String,
    pub signal: ContinuitySignal,
}

/// The continuity signals found for the changes and candidate remaps of a compare.
pub struct InferenceContinuityContext {
    pub change_signals: Vec<ChangeSignalEntry>,
    pub mapping_signals: Vec<MappingSignalEntry>,
}

/// The old path of a change (meaningful when it has an old side).
pub open spec fn key_old(c: SnapshotAssetChange) -> Seq<char> {
    c.old_asset->0.path@
}

/// The new path of a change, when it has a new side.
pub open spec fn key_new(c: SnapshotAssetChange) -> Option<Seq<char>> {
    match c.new_asset {
        Some(n) => Some(n.path@),
        None => None,
    }
}

/// Every entry of `ctx` is the index's signal for its key, and every changed or removed
/// asset and candidate remap whose step the index records has an entry.
pub open spec fn context_for(
    ctx: InferenceContinuityContext,
    report: SnapshotCompareReport,
    continuity: VersionContinuityIndex,
) -> bool {
    let ov = report.old_snapshot.version_id@;
    let nv = report.new_snapshot.version_id@;
    let changes = report.changed_assets@ + report.removed_assets@;
    let cands = report.candidate_mapping_changes@;
    &&& forall|i: int|
        0 <= i < ctx.change_signals@.len() ==> {
            let e = #[trigger] ctx.change_signals@[i];
            found_signal(continuity, ov, nv, e.old_path@, opt_view(e.new_path), Some(e.signal))
        }
    &&& forall|i: int|
        0 <= i < ctx.mapping_signals@.len() ==> {
            let e = #[trigger] ctx.mapping_signals@[i];
            found_signal(continuity, ov, nv, e.old_path@, Some(e.new_path@), Some(e.signal))
        }
    &&& forall|j: int|
        0 <= j < changes.len() && (#[trigger] changes[j]).old_asset is Some && first_thread(
            continuity.threads@,
            ov,
            nv,
            key_old(changes[j]),
            key_new(changes[j]),
        ) >= 0 ==> exists|i: int|
            0 <= i < ctx.change_signals@.len() && (#[trigger] ctx.change_signals@[i]).old_path@
                == key_old(changes[j]) && opt_view(ctx.change_signals@[i].new_path) == key_new(
                changes[j],
            )
    &&& forall|j: int|
        0 <= j < cands.len() && first_thread(
            continuity.threads@,
            ov,
            nv,
            (#[trigger] cands[j]).old_asset.path@,
            Some(cands[j].new_asset.path@),
        ) >= 0 ==> exists|i: int|
            0 <= i < ctx.mapping_signals@.len() && ctx.mapping_signals@[i].old_path@
                == cands[j].old_asset.path@ && (#[trigger] ctx.mapping_signals@[i].new_path)@
                == cands[j].new_asset.path@
}


fn opt_text_eq(a: &Option<String>, b: &Option<String>) -> (r: bool)
    ensures
        r == (opt_view(*a) == opt_view(*b)),
{
    match (a, b) {
        (Some(x), Some(y)) => str_eq(x.as_str(), y.as_str()),
        (None, None) => true,
        _ => false,
    }
}

/// The position of the entry keyed by the paths, if there is one.
fn change_entry_position(entries: &Vec<ChangeSignalEntry>, old_path: &String, new_path: &Option<String>) -> (r:
    Option<usize>)
    ensures
        match r {
            Some(k) => k < entries@.len() && entries@[k as int].old_path@ == old_path@ && opt_view(
                entries@[k as int].new_path,
            ) == opt_view(*new_path),
            None => forall|i: int|
                0 <= i < entries@.len() ==> !((#[trigger] entries@[i]).old_path@ == old_path@
                    && opt_view(entries@[i].new_path) == opt_view(*new_path)),
        },
{
    let mut i: usize = 0;
    while i < entries.len()
        invariant
            i <= entries@.len(),
            forall|j: int|
                0 <= j < i ==> !((#[trigger] entries@[j]).old_path@ == old_path@ && opt_view(
                    entries@[j].new_path,
                ) == opt_view(*new_path)),
        decreases entries.len() - i,
    {
        if str_eq(entries[i].old_path.as_str(), old_path.as_str()) && opt_text_eq(&entries[i].new_path, new_path) {
            return Some(i);
        }
        i = i + 1;
    }
    None
}

fn mapping_entry_position(entries: &Vec<MappingSignalEntry>, old_path: &String, new_path: &String) -> (r:
    Option<usize>)
    ensures
        match r {
            Some(k) => k < entries@.len() && entries@[k as int].old_path@ == old_path@
                && entries@[k as int].new_path@ == new_path@,
            None => forall|i: int|
                0 <= i < entries@.len() ==> !((#[trigger] entries@[i]).old_path@ == old_path@
                    && entries@[i].new_path@ == new_path@),
        },
{
    let mut i: usize = 0;
    while i < entries.len()
        invariant
            i <= entries@.len(),
            forall|j: int|
                0 <= j < i ==> !((#[trigger] entries@[j]).old_path@ == old_path@
                    && entries@[j].new_path@ == new_path@),
        decreases entries.len() - i,
    {
        if str_eq(entries[i].old_path.as_str(), old_path.as_str()) && str_eq(
            entries[i].new_path.as_str(),
            new_path.as_str(),
        ) {
            return Some(i);
        }
        i = i + 1;
    }
    None
}

/// Records the signals of the changes: each entry found in the index for its key, and
/// every change the index records keyed.
fn add_change_signals(
    entries: &mut Vec<ChangeSignalEntry>,
    changes: &Vec<SnapshotAssetChange>,
    continuity: &VersionContinuityIndex,
    old_version: &str,
    new_version: &str,
    Ghost(earlier): Ghost<Seq<SnapshotAssetChange>>,
)
    requires
        forall|i: int|
            0 <= i < old(entries)@.len() ==> {
                let e = #[trigger] old(entries)@[i];
                found_signal(*continuity, old_version@, new_version@, e.old_path@, opt_view(e.new_path), Some(e.signal))
            },
        forall|j: int|
            0 <= j < earlier.len() && (#[trigger] earlier[j]).old_asset is Some && first_thread(
                continuity.threads@,
                old_version@,
                new_version@,
                key_old(earlier[j]),
                key_new(earlier[j]),
            ) >= 0 ==> exists|i: int|
                0 <= i < old(entries)@.len() && (#[trigger] old(entries)@[i]).old_path@ == key_old(earlier[j])
                    && opt_view(old(entries)@[i].new_path) == key_new(earlier[j]),
    ensures
        forall|i: int|
            0 <= i < final(entries)@.len() ==> {
                let e = #[trigger] final(entries)@[i];
                found_signal(*continuity, old_version@, new_version@, e.old_path@, opt_view(e.new_path), Some(e.signal))
            },
        forall|j: int|
            0 <= j < (earlier + changes@).len() && (#[trigger] (earlier + changes@)[j]).old_asset is Some
                && first_thread(
                continuity.threads@,
                old_version@,
                new_version@,
                key_old((earlier + changes@)[j]),
                key_new((earlier + changes@)[j]),
            ) >= 0 ==> exists|i: int|
                0 <= i < final(entries)@.len() && (#[trigger] final(entries)@[i]).old_path@ == key_old(
                    (earlier + changes@)[j],
                ) && opt_view(final(entries)@[i].new_path) == key_new((earlier + changes@)[j]),
{
    let mut c: usize = 0;
    while c < changes.len()
        invariant
            c <= changes@.len(),
            forall|i: int|
                0 <= i < entries@.len() ==> {
                    let e = #[trigger] entries@[i];
                    found_signal(*continuity, old_version@, new_version@, e.old_path@, opt_view(e.new_path), Some(e.signal))
                },
            forall|j: int|
                0 <= j < (earlier + changes@.take(c as int)).len() && (#[trigger] (earlier + changes@.take(
                    c as int,
                ))[j]).old_asset is Some && first_thread(
                    continuity.threads@,
                    old_version@,
                    new_version@,
                    key_old((earlier + changes@.take(c as int))[j]),
                    key_new((earlier + changes@.take(c as int))[j]),
                ) >= 0 ==> exists|i: int|
                    0 <= i < entries@.len() && (#[trigger] entries@[i]).old_path@ == key_old(
                        (earlier + changes@.take(c as int))[j],
                    ) && opt_view(entries@[i].new_path) == key_new((earlier + changes@.take(c as int))[j]),
        decreases changes.len() - c,
    {
        let ghost before = entries@;
        let ghost done = earlier + changes@.take(c as int);
        let ghost next = earlier + changes@.take(c + 1);
        proof {
            assert(next =~= done.push(changes@[c as int]));
        }
        let change = &changes[c];
        match crate::inference::asset_change_transition_key(change) {
            Some((old_path, new_path)) => {
                let np: Option<&str> = match &new_path {
                    Some(p) => Some(p.as_str()),
                    None => None,
                };
                match find_continuity_signal(continuity, old_version, new_version, old_path.as_str(), np) {
                    Some(signal) => {
                        proof {
                            assert(np matches Some(p) ==> opt_view(new_path) == Some(p@));
                            assert(opt_view(new_path) == match np {
                                Some(p) => Some(p@),
                                None => None::<Seq<char>>,
                            });
                        }
                        let ghost key_o = old_path@;
                        let ghost key_n = opt_view(new_path);
                        let ghost mut pos: int = 0;
                        match change_entry_position(entries, &old_path, &new_path) {
                            Some(k) => {
                                let entry = ChangeSignalEntry { old_path, new_path, signal };
                                entries.set(k, entry);
                                proof {
                                    pos = k as int;
                                }
                            },
                            None => {
                                entries.push(ChangeSignalEntry { old_path, new_path, signal });
                                proof {
                                    pos = before.len() as int;
                                }
                            },
                        }
                        proof {
                            assert(0 <= pos < entries@.len());
                            assert(entries@[pos].old_path@ == key_o && opt_view(entries@[pos].new_path)
                                == key_n);
                            assert(pos < before.len() ==> before[pos].old_path@ == key_o && opt_view(
                                before[pos].new_path,
                            ) == key_n);
                            assert(forall|i: int|
                                0 <= i < before.len() && i != pos ==> entries@[i] == before[i]);
                            assert forall|j: int|
                                0 <= j < next.len() && (#[trigger] next[j]).old_asset is Some && first_thread(
                                    continuity.threads@,
                                    old_version@,
                                    new_version@,
                                    key_old(next[j]),
                                    key_new(next[j]),
                                ) >= 0 implies exists|i: int|
                                    0 <= i < entries@.len() && (#[trigger] entries@[i]).old_path@
                                        == key_old(next[j]) && opt_view(entries@[i].new_path) == key_new(
                                        next[j],
                                    ) by {
                                if j < done.len() {
                                    assert(next[j] == done[j]);
                                    let i0 = choose|i: int|
                                        0 <= i < before.len() && (#[trigger] before[i]).old_path@
                                            == key_old(done[j]) && opt_view(before[i].new_path)
                                            == key_new(done[j]);
                                    if i0 != pos {
                                        assert(entries@[i0] == before[i0]);
                                    }
                                } else {
                                    assert(next[j] == changes@[c as int]);
                                    assert(entries@[pos].old_path@ == key_old(next[j]));
                                }
                            }
                        }
                    },
                    None => {
                        proof {
                            assert(opt_view(new_path) == match np {
                                Some(p) => Some(p@),
                                None => None::<Seq<char>>,
                            });
                            assert(next =~= done.push(changes@[c as int]));
                        }
                    },
                }
            },
            None => {},
        }
        c = c + 1;
    }
    proof {
        assert(changes@.take(changes@.len() as int) =~= changes@);
    }
}


fn add_mapping_signals(
    entries: &mut Vec<MappingSignalEntry>,
    cands: &Vec<CandidateMappingChange>,
    continuity: &VersionContinuityIndex,
    old_version: &str,
    new_version: &str,
)
    requires
        old(entries)@.len() == 0,
    ensures
        forall|i: int|
            0 <= i < final(entries)@.len() ==> {
                let e = #[trigger] final(entries)@[i];
                found_signal(*continuity, old_version@, new_version@, e.old_path@, Some(e.new_path@), Some(e.signal))
            },
        forall|j: int|
            0 <= j < cands@.len() && first_thread(
                continuity.threads@,
                old_version@,
                new_version@,
                (#[trigger] cands@[j]).old_asset.path@,
                Some(cands@[j].new_asset.path@),
            ) >= 0 ==> exists|i: int|
                0 <= i < final(entries)@.len() && final(entries)@[i].old_path@ == cands@[j].old_asset.path@
                    && (#[trigger] final(entries)@[i].new_path)@ == cands@[j].new_asset.path@,
{
    let mut c: usize = 0;
    while c < cands.len()
        invariant
            c <= cands@.len(),
            forall|i: int|
                0 <= i < entries@.len() ==> {
                    let e = #[trigger] entries@[i];
                    found_signal(*continuity, old_version@, new_version@, e.old_path@, Some(e.new_path@), Some(e.signal))
                },
            forall|j: int|
                0 <= j < c && first_thread(
                    continuity.threads@,
                    old_version@,
                    new_version@,
                    (#[trigger] cands@[j]).old_asset.path@,
                    Some(cands@[j].new_asset.path@),
                ) >= 0 ==> exists|i: int|
                    0 <= i < entries@.len() && entries@[i].old_path@ == cands@[j].old_asset.path@
                        && (#[trigger] entries@[i].new_path)@ == cands@[j].new_asset.path@,
        decreases cands.len() - c,
    {
        let ghost before = entries@;
        let cand = &cands[c];
        match find_continuity_signal(
            continuity,
            old_version,
            new_version,
            cand.old_asset.path.as_str(),
            Some(cand.new_asset.path.as_str()),
        ) {
            Some(signal) => {
                let old_path = clone_string(&cand.old_asset.path);
                let new_path = clone_string(&cand.new_asset.path);
                let ghost key_o = old_path@;
                let ghost key_n = new_path@;
                let ghost mut pos: int = 0;
                match mapping_entry_position(entries, &old_path, &new_path) {
                    Some(k) => {
                        entries.set(k, MappingSignalEntry { old_path, new_path, signal });
                        proof {
                            pos = k as int;
                        }
                    },
                    None => {
                        entries.push(MappingSignalEntry { old_path, new_path, signal });
                        proof {
                            pos = before.len() as int;
                        }
                    },
                }
                proof {
                    assert(0 <= pos < entries@.len());
                    assert(entries@[pos].old_path@ == key_o && entries@[pos].new_path@ == key_n);
                    assert(pos < before.len() ==> before[pos].old_path@ == key_o
                        && before[pos].new_path@ == key_n);
                    assert(forall|i: int| 0 <= i < before.len() && i != pos ==> entries@[i] == before[i]);
                    assert forall|j: int|
                        0 <= j < c + 1 && first_thread(
                            continuity.threads@,
                            old_version@,
                            new_version@,
                            (#[trigger] cands@[j]).old_asset.path@,
                            Some(cands@[j].new_asset.path@),
                        ) >= 0 implies exists|i: int|
                            0 <= i < entries@.len() && entries@[i].old_path@ == cands@[j].old_asset.path@
                                && (#[trigger] entries@[i].new_path)@ == cands@[j].new_asset.path@ by {
                        if j < c {
                            let i0 = choose|i: int|
                                0 <= i < before.len() && before[i].old_path@ == cands@[j].old_asset.path@
                                    && (#[trigger] before[i].new_path)@ == cands@[j].new_asset.path@;
                            if i0 != pos {
                                assert(entries@[i0] == before[i0]);
                            }
                            assert(entries@[i0].new_path@ == cands@[j].new_asset.path@);
                        } else {
                            assert(entries@[pos].new_path@ == cands@[j].new_asset.path@);
                        }
                    }
                }
            },
            None => {},
        }
        c = c + 1;
    }
}

/// The continuity signals of a compare's changed and removed assets and of its
/// candidate remaps, each found in the index for the compare's version pair.
pub fn build_inference_continuity_context(
    compare_report: &SnapshotCompareReport,
    continuity: &VersionContinuityIndex,
) -> (r: InferenceContinuityContext)
    ensures
        context_for(r, *compare_report, *continuity),
{
    let old_version = compare_report.old_snapshot.version_id.as_str();
    let new_version = compare_report.new_snapshot.version_id.as_str();
    let mut change_signals: Vec<ChangeSignalEntry> = Vec::new();
    add_change_signals(
        &mut change_signals,
        &compare_report.changed_assets,
        continuity,
        old_version,
        new_version,
        Ghost(Seq::empty()),
    );
    add_change_signals(
        &mut change_signals,
        &compare_report.removed_assets,
        continuity,
        old_version,
        new_version,
        Ghost(Seq::<SnapshotAssetChange>::empty() + compare_report.changed_assets@),
    );
    let mut mapping_signals: Vec<MappingSignalEntry> = Vec::new();
    add_mapping_signals(
        &mut mapping_signals,
        &compare_report.candidate_mapping_changes,
        continuity,
        old_version,
        new_version,
    );
    proof {
        assert(Seq::<SnapshotAssetChange>::empty() + compare_report.changed_assets@
            + compare_report.removed_assets@ =~= compare_report.changed_assets@
            + compare_report.removed_assets@);
    }
    InferenceContinuityContext { change_signals, mapping_signals }
}

/// The signal recorded for a change, by its old and new path.
pub fn continuity_signal_for_change(
    context: &InferenceContinuityContext,
    change: &SnapshotAssetChange,
) -> (r: Option<ContinuitySignal>)
    ensures
        match r {
            Some(sig) => change.old_asset is Some && exists|i: int|
                0 <= i < context.change_signals@.len() && (#[trigger] context.change_signals@[i]).old_path@
                    == key_old(*change) && opt_view(context.change_signals@[i].new_path) == key_new(*change)
                    && sig.same_as(&context.change_signals@[i].signal),
            None => change.old_asset is None || forall|i: int|
                0 <= i < context.change_signals@.len() ==> !((#[trigger] context.change_signals@[i]).old_path@
                    == key_old(*change) && opt_view(context.change_signals@[i].new_path) == key_new(*change)),
        },
{
    match crate::inference::asset_change_transition_key(change) {
        Some((old_path, new_path)) => match change_entry_position(
            &context.change_signals,
            &old_path,
            &new_path,
        ) {
            Some(k) => Some(context.change_signals[k].signal.copy()),
            None => None,
        },
        None => None,
    }
}

/// The signal recorded for a candidate remap, by its old and new path.
pub fn continuity_signal_for_candidate(
    context: &InferenceContinuityContext,
    candidate: &CandidateMappingChange,
) -> (r: Option<ContinuitySignal>)
    ensures
        match r {
            Some(sig) => exists|i: int|
                0 <= i < context.mapping_signals@.len() && (#[trigger] context.mapping_signals@[i]).old_path@
                    == candidate.old_asset.path@ && context.mapping_signals@[i].new_path@
                    == candidate.new_asset.path@ && sig.same_as(&context.mapping_signals@[i].signal),
            None => forall|i: int|
                0 <= i < context.mapping_signals@.len() ==> !((#[trigger] context.mapping_signals@[i]).old_path@
                    == candidate.old_asset.path@ && context.mapping_signals@[i].new_path@
                    == candidate.new_asset.path@),
        },
{
    match mapping_entry_position(
        &context.mapping_signals,
        &candidate.old_asset.path,
        &candidate.new_asset.path,
    ) {
        Some(k) => Some(context.mapping_signals[k].signal.copy()),
        None => None,
    }
}

} // verus!
