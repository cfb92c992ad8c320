//! Markdown renderings of a saved review for people to read.
use vstd::prelude::*;
use crate::compare::{RemapCompatibility, RiskLevel};
use crate::inference::InferredMappingContinuityContext;
use crate::report::{
    ProposalStatus, VersionContinuityRelation, VersionDiffReportV2, VersionReviewCause,
    VersionReviewFix, VersionReviewMapping,
};
use crate::text::{
    append_texts, chars_of, contains, contains_text, decimal, decimal_string,
    fixed3, fixed3_string, is_prefix, join, join_seq, new_string, push_char, push_str, push_text,
    seq_contains, str_eq, strip_prefix, views,
};

verus! {

/// Renders the inference and proposal outputs of a version pair.
#[derive(Debug, Clone, Copy, PartialEq, Eq)]
pub struct HumanSummaryRenderer {}

/// Renders the saved review surface of a version-diff report.
#[derive(Debug, Clone, Copy, PartialEq, Eq)]
pub struct ReviewBundleRenderer {}

// ---------------------------------------------------------------------------
// Markdown cells and rows
// ---------------------------------------------------------------------------

/// The text a character becomes in a table cell: `|` is escaped, a newline becomes `<br>`.
pub open spec fn cell_piece(c: char) -> Seq<char> {
    if c == '|' {
        seq!['\\', '|']
    } else if c == '\n' {
        seq!['<', 'b', 'r', '>']
    } else {
        seq![c]
    }
}

pub open spec fn spec_sanitize(s: Seq<char>) -> Seq<char>
    decreases s.len(),
{
    if s.len() == 0 {
        Seq::empty()
    } else {
        spec_sanitize(s.drop_last()) + cell_piece(s.last())
    }
}

/// A value made safe for one markdown table cell.
pub fn sanitize_markdown_table_cell(value: &str) -> (r: String)
    ensures
        r@ == spec_sanitize(value@),
{
    let v = chars_of(value);
    let mut r = String::new();
    let mut i: usize = 0;
    proof {
        assert(v@.take(0) =~= Seq::<char>::empty());
    }
    while i < v.len()
        invariant
            i <= v@.len(),
            v@ == value@,
            r@ == spec_sanitize(v@.take(i as int)),
        decreases v.len() - i,
    {
        let c = v[i];
        proof {
            assert(v@.take(i + 1).drop_last() =~= v@.take(i as int));
        }
        if c == '|' {
            push_char(&mut r, '\\');
            push_char(&mut r, '|');
        } else if c == '\n' {
            push_char(&mut r, '<');
            push_char(&mut r, 'b');
            push_char(&mut r, 'r');
            push_char(&mut r, '>');
        } else {
            push_char(&mut r, c);
        }
        proof {
            assert(r@ =~= spec_sanitize(v@.take(i as int)) + cell_piece(c));
        }
        i = i + 1;
    }
    proof {
        assert(v@.take(v@.len() as int) =~= v@);
    }
    r
}

pub open spec fn spec_row(cells: Seq<Seq<char>>) -> Seq<char> {
    "| "@ + join_seq(cells.map_values(|c: Seq<char>| spec_sanitize(c)), " | "@) + " |"@
}

/// One markdown table row of the sanitized cells.
pub fn markdown_table_row(cells: &Vec<String>) -> (r: String)
    ensures
        r@ == spec_row(views(cells@)),
{
    let mut clean: Vec<String> = Vec::new();
    let mut i: usize = 0;
    while i < cells.len()
        invariant
            i <= cells@.len(),
            views(clean@) == views(cells@).take(i as int).map_values(
                |c: Seq<char>| spec_sanitize(c),
            ),
        decreases cells.len() - i,
    {
        push_text(&mut clean, sanitize_markdown_table_cell(cells[i].as_str()));
        proof {
            assert(views(cells@).take(i + 1).map_values(|c: Seq<char>| spec_sanitize(c))
                =~= views(cells@).take(i as int).map_values(|c: Seq<char>| spec_sanitize(c)).push(
                spec_sanitize(cells@[i as int]@),
            ));
        }
        i = i + 1;
    }
    proof {
        assert(views(cells@).take(cells@.len() as int) =~= views(cells@));
    }
    let mut r = new_string("| ");
    let joined = join(&clean, " | ");
    push_str(&mut r, joined.as_str());
    push_str(&mut r, " |");
    r
}

pub open spec fn spec_code(v: Seq<char>) -> Seq<char> {
    "`"@ + v + "`"@
}

pub fn code_cell(value: &str) -> (r: String)
    ensures
        r@ == spec_code(value@),
{
    let mut r = new_string("`");
    push_str(&mut r, value);
    push_str(&mut r, "`");
    r
}

pub open spec fn spec_yes_no(value: bool) -> Seq<char> {
    if value {
        "Yes"@
    } else {
        "No"@
    }
}

pub fn yes_no(value: bool) -> (r: &'static str)
    ensures
        r@ == spec_yes_no(value),
{
    if value {
        "Yes"
    } else {
        "No"
    }
}

// ---------------------------------------------------------------------------
// Labels
// ---------------------------------------------------------------------------

pub open spec fn spec_status_label(status: ProposalStatus) -> Seq<char> {
    match status {
        ProposalStatus::Proposed => "proposed"@,
        ProposalStatus::NeedsReview => "needs_review"@,
    }
}

pub fn status_label(status: &ProposalStatus) -> (r: &'static str)
    ensures
        r@ == spec_status_label(*status),
{
    match status {
        ProposalStatus::Proposed => "proposed",
        ProposalStatus::NeedsReview => "needs_review",
    }
}

pub open spec fn spec_compatibility_label(c: RemapCompatibility) -> Seq<char> {
    match c {
        RemapCompatibility::LikelyCompatible => "likely_compatible"@,
        RemapCompatibility::CompatibleWithCaution => "compatible_with_caution"@,
        RemapCompatibility::StructurallyRisky => "structurally_risky"@,
        RemapCompatibility::IncompatibleBlocked => "incompatible_blocked"@,
        RemapCompatibility::InsufficientEvidence => "insufficient_evidence"@,
    }
}

pub fn compatibility_label(compatibility: &RemapCompatibility) -> (r: &'static str)
    ensures
        r@ == spec_compatibility_label(*compatibility),
{
    match compatibility {
        RemapCompatibility::LikelyCompatible => "likely_compatible",
        RemapCompatibility::CompatibleWithCaution => "compatible_with_caution",
        RemapCompatibility::StructurallyRisky => "structurally_risky",
        RemapCompatibility::IncompatibleBlocked => "incompatible_blocked",
        RemapCompatibility::InsufficientEvidence => "insufficient_evidence",
    }
}

pub open spec fn spec_risk_rank(risk: RiskLevel) -> u8 {
    match risk {
        RiskLevel::High => 3,
        RiskLevel::Medium => 2,
        RiskLevel::Low => 1,
    }
}

/// Review order of a risk level: high before medium before low.
pub fn review_risk_rank(risk: &RiskLevel) -> (r: u8)
    ensures
        r == spec_risk_rank(*risk),
{
    match risk {
        RiskLevel::High => 3,
        RiskLevel::Medium => 2,
        RiskLevel::Low => 1,
    }
}

pub open spec fn spec_relation_label(relation: VersionContinuityRelation) -> Seq<char> {
    match relation {
        VersionContinuityRelation::Persisted => "persisted"@,
        VersionContinuityRelation::RenameOrRepath => "rename/repath"@,
        VersionContinuityRelation::ContainerMovement => "container movement"@,
        VersionContinuityRelation::LayoutDrift => "layout drift"@,
        VersionContinuityRelation::Replacement => "replacement"@,
        VersionContinuityRelation::Ambiguous => "ambiguous"@,
        VersionContinuityRelation::InsufficientEvidence => "insufficient evidence"@,
        VersionContinuityRelation::Removed => "removed"@,
    }
}

pub fn continuity_relation_label(relation: &VersionContinuityRelation) -> (r: &'static str)
    ensures
        r@ == spec_relation_label(*relation),
{
    match relation {
        VersionContinuityRelation::Persisted => "persisted",
        VersionContinuityRelation::RenameOrRepath => "rename/repath",
        VersionContinuityRelation::ContainerMovement => "container movement",
        VersionContinuityRelation::LayoutDrift => "layout drift",
        VersionContinuityRelation::Replacement => "replacement",
        VersionContinuityRelation::Ambiguous => "ambiguous",
        VersionContinuityRelation::InsufficientEvidence => "insufficient evidence",
        VersionContinuityRelation::Removed => "removed",
    }
}

// ---------------------------------------------------------------------------
// Continuity text
// ---------------------------------------------------------------------------

pub open spec fn spec_is_legacy_continuity_text(v: Seq<char>) -> bool {
    ||| seq_contains(v, "continuity"@)
    ||| seq_contains(v, "terminal state"@)
    ||| seq_contains(v, "review-required"@)
    ||| seq_contains(v, "repeated layout drift"@)
}

/// Free text that speaks of the continuity history.
pub fn is_legacy_continuity_text(value: &str) -> (r: bool)
    ensures
        r == spec_is_legacy_continuity_text(value@),
{
    contains(value, "continuity") || contains(value, "terminal state") || contains(
        value,
        "review-required",
    ) || contains(value, "repeated layout drift")
}

pub open spec fn spec_strip_mod_dependency_prefix(v: Seq<char>) -> Option<Seq<char>> {
    if is_prefix("mod_dependency_surface: "@, v) {
        Some(v.subrange("mod_dependency_surface: "@.len() as int, v.len() as int))
    } else if is_prefix("mod_dependency_review_first: "@, v) {
        Some(v.subrange("mod_dependency_review_first: "@.len() as int, v.len() as int))
    } else {
        None
    }
}

/// The text after a mod-dependency marker, when the value starts with one.
pub fn strip_mod_dependency_prefix(value: &str) -> (r: Option<String>)
    ensures
        match r {
            Some(s) => spec_strip_mod_dependency_prefix(value@) == Some(s@),
            None => spec_strip_mod_dependency_prefix(value@) is None,
        },
{
    match strip_prefix(value, "mod_dependency_surface: ") {
        Some(rest) => Some(rest),
        None => strip_prefix(value, "mod_dependency_review_first: "),
    }
}

pub open spec fn opt_text_or(o: Option<String>, fallback: Seq<char>) -> Seq<char> {
    match o {
        Some(s) => s@,
        None => fallback,
    }
}

fn opt_text_or_str(o: &Option<String>, fallback: &str) -> (r: String)
    ensures
        r@ == opt_text_or(*o, fallback@),
{
    match o {
        Some(s) => s.clone(),
        None => new_string(fallback),
    }
}

pub open spec fn spec_continuity_reason(c: InferredMappingContinuityContext) -> Option<Seq<char>> {
    if c.total_layout_drift_steps >= 2 {
        Some(
            "broader continuity history shows repeated layout drift across "@ + decimal(
                c.total_layout_drift_steps as nat,
            ) + " step(s); keep review-first"@,
        )
    } else if c.terminal_relation is Some {
        Some(
            "broader continuity history "@ + (if c.terminal_after_current {
                "later reaches"@
            } else {
                "reaches"@
            }) + " terminal state "@ + spec_relation_label(c.terminal_relation->0) + " in "@
                + opt_text_or(c.terminal_version, "unknown"@),
        )
    } else if c.review_required_history {
        Some("broader continuity history already marked this thread review-required"@)
    } else {
        None
    }
}

/// Why the continuity history keeps a mapping review-first, when it does.
pub fn structured_continuity_reason(continuity: &InferredMappingContinuityContext) -> (r: Option<
    String,
>)
    ensures
        match r {
            Some(s) => spec_continuity_reason(*continuity) == Some(s@),
            None => spec_continuity_reason(*continuity) is None,
        },
{
    if continuity.total_layout_drift_steps >= 2 {
        let mut s = new_string("broader continuity history shows repeated layout drift across ");
        let n = decimal_string(continuity.total_layout_drift_steps);
        push_str(&mut s, n.as_str());
        push_str(&mut s, " step(s); keep review-first");
        Some(s)
    } else if let Some(relation) = &continuity.terminal_relation {
        let timing = if continuity.terminal_after_current {
            "later reaches"
        } else {
            "reaches"
        };
        let mut s = new_string("broader continuity history ");
        push_str(&mut s, timing);
        push_str(&mut s, " terminal state ");
        push_str(&mut s, continuity_relation_label(relation));
        push_str(&mut s, " in ");
        let v = opt_text_or_str(&continuity.terminal_version, "unknown");
        push_str(&mut s, v.as_str());
        Some(s)
    } else if continuity.review_required_history {
        Some(new_string("broader continuity history already marked this thread review-required"))
    } else {
        None
    }
}

/// The details of a continuity history that calls for review.
pub open spec fn spec_continuity_details(c: InferredMappingContinuityContext) -> Seq<Seq<char>> {
    let d1: Seq<Seq<char>> = match (c.first_seen_version, c.latest_observed_version) {
        (Some(f), Some(l)) => seq!["thread span "@ + f@ + " -> "@ + l@],
        _ => Seq::empty(),
    };
    let d2 = if c.total_layout_drift_steps >= 2 {
        d1.push("layout drift steps="@ + decimal(c.total_layout_drift_steps as nat))
    } else {
        d1
    };
    let d3 = if c.review_required_history {
        d2.push("review-required elsewhere in the chain"@)
    } else {
        d2
    };
    match c.terminal_relation {
        Some(rel) => d3.push(
            "terminal "@ + spec_relation_label(rel) + " in "@ + opt_text_or(
                c.terminal_version,
                "unknown"@,
            ),
        ),
        None => d3,
    }
}

pub open spec fn spec_continuity_evidence(c: InferredMappingContinuityContext) -> Option<Seq<char>> {
    if !c.spec_has_review_caution() || spec_continuity_details(c).len() == 0 {
        None
    } else {
        Some(join_seq(spec_continuity_details(c), "; "@))
    }
}

/// The continuity evidence of a history that calls for review.
pub fn structured_continuity_evidence(continuity: &InferredMappingContinuityContext) -> (r: Option<
    String,
>)
    ensures
        match r {
            Some(s) => spec_continuity_evidence(*continuity) == Some(s@),
            None => spec_continuity_evidence(*continuity) is None,
        },
{
    if !continuity.has_review_caution() {
        return None;
    }
    let mut details: Vec<String> = Vec::new();
    proof {
        assert(views(details@) =~= Seq::<Seq<char>>::empty());
    }
    match (&continuity.first_seen_version, &continuity.latest_observed_version) {
        (Some(first_seen), Some(latest)) => {
            let mut s = new_string("thread span ");
            push_str(&mut s, first_seen.as_str());
            push_str(&mut s, " -> ");
            push_str(&mut s, latest.as_str());
            push_text(&mut details, s);
            proof {
                assert(views(details@) =~= seq![s@]);
            }
        },
        _ => {},
    }
    if continuity.total_layout_drift_steps >= 2 {
        let mut s = new_string("layout drift steps=");
        let n = decimal_string(continuity.total_layout_drift_steps);
        push_str(&mut s, n.as_str());
        push_text(&mut details, s);
    }
    if continuity.review_required_history {
        push_text(&mut details, new_string("review-required elsewhere in the chain"));
    }
    if let Some(relation) = &continuity.terminal_relation {
        let mut s = new_string("terminal ");
        push_str(&mut s, continuity_relation_label(relation));
        push_str(&mut s, " in ");
        let v = opt_text_or_str(&continuity.terminal_version, "unknown");
        push_str(&mut s, v.as_str());
        push_text(&mut details, s);
    }
    if details.is_empty() {
        None
    } else {
        Some(join(&details, "; "))
    }
}

// ---------------------------------------------------------------------------
// Review surface cells
// ---------------------------------------------------------------------------

pub open spec fn spec_cause_detail(cause: VersionReviewCause) -> Seq<char> {
    if cause.evidence@.len() > 0 {
        cause.evidence@[0]@
    } else if cause.affected_assets@.len() > 0 {
        "affected asset "@ + cause.affected_assets@[0]@
    } else {
        "-"@
    }
}

/// The first evidence of a cause, else its first affected asset, else `-`.
pub fn cause_detail(cause: &VersionReviewCause) -> (r: String)
    ensures
        r@ == spec_cause_detail(*cause),
{
    if cause.evidence.len() > 0 {
        cause.evidence[0].clone()
    } else if cause.affected_assets.len() > 0 {
        let mut s = new_string("affected asset ");
        push_str(&mut s, cause.affected_assets[0].as_str());
        s
    } else {
        new_string("-")
    }
}

pub open spec fn spec_first_fix_action(fix: VersionReviewFix) -> Seq<char> {
    if fix.actions@.len() > 0 {
        fix.actions@[0]@
    } else {
        "-"@
    }
}

pub fn first_fix_action(fix: &VersionReviewFix) -> (r: String)
    ensures
        r@ == spec_first_fix_action(*fix),
{
    if fix.actions.len() > 0 {
        fix.actions[0].clone()
    } else {
        new_string("-")
    }
}

pub open spec fn spec_mapping_review_reason(m: VersionReviewMapping) -> Seq<char> {
    if m.reasons@.len() > 0 {
        m.reasons@[0]@
    } else if m.evidence@.len() > 0 {
        m.evidence@[0]@
    } else if m.related_fix_codes@.len() > 0 {
        "related fix `"@ + m.related_fix_codes@[0]@ + "`"@
    } else {
        "saved as review-first without an extra note"@
    }
}

/// Why a mapping was kept review-only: its first reason, evidence or related fix.
pub fn mapping_review_reason(mapping: &VersionReviewMapping) -> (r: String)
    ensures
        r@ == spec_mapping_review_reason(*mapping),
{
    if mapping.reasons.len() > 0 {
        mapping.reasons[0].clone()
    } else if mapping.evidence.len() > 0 {
        mapping.evidence[0].clone()
    } else if mapping.related_fix_codes.len() > 0 {
        let mut s = new_string("related fix `");
        push_str(&mut s, mapping.related_fix_codes[0].as_str());
        push_str(&mut s, "`");
        s
    } else {
        new_string("saved as review-first without an extra note")
    }
}

/// The first note that contains `pat`.
pub open spec fn first_containing(notes: Seq<Seq<char>>, pat: Seq<char>) -> Option<Seq<char>>
    decreases notes.len(),
{
    if notes.len() == 0 {
        None
    } else if seq_contains(notes[0], pat) {
        Some(notes[0])
    } else {
        first_containing(notes.drop_first(), pat)
    }
}

/// The note that best explains the history: a terminal state, then a review-required
/// mark, then layout drift, then container movement.
pub open spec fn priority_note(notes: Seq<Seq<char>>) -> Option<Seq<char>> {
    if first_containing(notes, "terminal"@) is Some {
        first_containing(notes, "terminal"@)
    } else if first_containing(notes, "review-required"@) is Some {
        first_containing(notes, "review-required"@)
    } else if first_containing(notes, "layout drift"@) is Some {
        first_containing(notes, "layout drift"@)
    } else {
        first_containing(notes, "container movement"@)
    }
}

/// `sel` topped up to two distinct notes from `notes`, in order.
pub open spec fn fill_notes(sel: Seq<Seq<char>>, notes: Seq<Seq<char>>) -> Seq<Seq<char>>
    decreases notes.len(),
{
    if notes.len() == 0 {
        sel
    } else {
        let s = fill_notes(sel, notes.drop_last());
        if s.len() >= 2 || s.contains(notes.last()) {
            s
        } else {
            s.push(notes.last())
        }
    }
}

pub open spec fn spec_mapping_continuity_note(notes: Seq<Seq<char>>) -> Seq<char> {
    if notes.len() == 0 {
        "-"@
    } else {
        let first = seq![notes[0]];
        let with_priority = match priority_note(notes) {
            Some(p) => if p != notes[0] {
                first.push(p)
            } else {
                first
            },
            None => first,
        };
        join_seq(fill_notes(with_priority, notes), "; "@)
    }
}

fn find_note(notes: &Vec<String>, pat: &str) -> (r: Option<usize>)
    ensures
        match r {
            Some(i) => i < notes@.len() && first_containing(views(notes@), pat@) == Some(
                notes@[i as int]@,
            ),
            None => first_containing(views(notes@), pat@) is None,
        },
{
    let ghost all = views(notes@);
    let mut i: usize = 0;
    proof {
        assert(all.subrange(0, all.len() as int) =~= all);
    }
    while i < notes.len()
        invariant
            i <= notes@.len(),
            all == views(notes@),
            first_containing(all, pat@) == first_containing(
                all.subrange(i as int, all.len() as int),
                pat@,
            ),
        decreases notes.len() - i,
    {
        let ghost rest = all.subrange(i as int, all.len() as int);
        proof {
            assert(rest[0] == notes@[i as int]@);
            assert(rest.drop_first() =~= all.subrange(i + 1, all.len() as int));
        }
        if contains(notes[i].as_str(), pat) {
            return Some(i);
        }
        i = i + 1;
    }
    None
}

/// At most two continuity notes of a mapping: the first, the one that best explains
/// the history, and others in order; `-` when there are none.
pub fn mapping_continuity_note(mapping: &VersionReviewMapping) -> (r: String)
    ensures
        r@ == spec_mapping_continuity_note(views(mapping.continuity_notes@)),
{
    let notes = &mapping.continuity_notes;
    let ghost all = views(notes@);
    if notes.is_empty() {
        return new_string("-");
    }
    let mut selected: Vec<String> = Vec::new();
    push_text(&mut selected, notes[0].clone());
    proof {
        assert(views(selected@) =~= seq![all[0]]);
    }
    let mut priority = find_note(notes, "terminal");
    if priority.is_none() {
        priority = find_note(notes, "review-required");
    }
    if priority.is_none() {
        priority = find_note(notes, "layout drift");
    }
    if priority.is_none() {
        priority = find_note(notes, "container movement");
    }
    match priority {
        Some(p) => {
            if !str_eq(notes[p].as_str(), notes[0].as_str()) {
                push_text(&mut selected, notes[p].clone());
            }
        },
        None => {},
    }
    let ghost start = views(selected@);
    let mut i: usize = 0;
    proof {
        assert(all.take(0) =~= Seq::<Seq<char>>::empty());
    }
    while i < notes.len()
        invariant
            i <= notes@.len(),
            all == views(notes@),
            views(selected@) == fill_notes(start, all.take(i as int)),
        decreases notes.len() - i,
    {
        proof {
            assert(all.take(i + 1).drop_last() =~= all.take(i as int));
            assert(all.take(i + 1).last() == notes@[i as int]@);
        }
        if selected.len() < 2 && !contains_text(&selected, notes[i].as_str()) {
            push_text(&mut selected, notes[i].clone());
        }
        i = i + 1;
    }
    proof {
        assert(all.take(notes@.len() as int) =~= all);
    }
    join(&selected, "; ")
}

// ---------------------------------------------------------------------------
// The review bundle
// ---------------------------------------------------------------------------

pub open spec fn spec_cause_row(c: VersionReviewCause) -> Seq<char> {
    spec_row(
        seq![spec_code(c.code@), fixed3(c.confidence_milli as nat), c.summary@, spec_cause_detail(c)],
    )
}

pub open spec fn spec_fix_row(f: VersionReviewFix) -> Seq<char> {
    spec_row(
        seq![spec_code(f.code@), fixed3(f.confidence_milli as nat), f.summary@, spec_first_fix_action(f)],
    )
}

pub open spec fn spec_mapping_row(m: VersionReviewMapping) -> Seq<char> {
    spec_row(
        seq![
            spec_code(m.old_asset_path@),
            spec_code(m.new_asset_path@),
            spec_status_label(m.status),
            fixed3(m.confidence_milli as nat),
            spec_compatibility_label(m.compatibility),
            spec_mapping_review_reason(m),
            spec_mapping_continuity_note(views(m.continuity_notes@)),
        ],
    )
}

pub open spec fn spec_header_lines(r: VersionDiffReportV2) -> Seq<Seq<char>> {
    let s = r.review.summary;
    let c = r.review.continuity;
    seq![
        "# WhashReonator Review Bundle"@,
        Seq::empty(),
        "| Baseline | Current | Continuity caution | Review-only mappings | Continuity-backed review mappings | Causes | Fixes |"@,
        "| --- | --- | --- | ---: | ---: | ---: | ---: |"@,
        spec_row(
            seq![
                spec_code(r.old_version.version_id@),
                spec_code(r.new_version.version_id@),
                spec_yes_no(s.continuity_caution_present),
                decimal(s.review_mapping_count as nat),
                decimal(s.continuity_review_mapping_count as nat),
                decimal(c.cause_count as nat),
                decimal(c.fix_count as nat),
            ],
        ),
        Seq::empty(),
    ]
}

pub open spec fn spec_summary_lines(r: VersionDiffReportV2) -> Seq<Seq<char>> {
    let s = r.review.summary;
    let notes = views(r.review.continuity.notes@);
    seq![
        "## Continuity Summary"@,
        "- Continuity caution is "@ + (if s.continuity_caution_present {
            "present"@
        } else {
            "not present"@
        }) + " for this saved version pair."@,
        "- Review-only mappings: "@ + decimal(s.review_mapping_count as nat) + " total, "@ + decimal(
            s.continuity_review_mapping_count as nat,
        ) + " kept review-first by broader continuity history."@,
    ] + (if notes.len() == 0 {
        seq!["- No extra continuity notes were saved in the review surface."@]
    } else {
        notes.take(if notes.len() < 3 {
            notes.len() as int
        } else {
            3
        }).map_values(|n: Seq<char>| "- "@ + n)
    }) + seq![Seq::empty()]
}

pub open spec fn spec_cause_lines(r: VersionDiffReportV2) -> Seq<Seq<char>> {
    let causes = r.review.continuity.causes@;
    seq!["## Continuity-backed Causes"@] + (if causes.len() == 0 {
        seq!["No continuity-backed causes were saved in this bundle."@]
    } else {
        seq!["| Code | Confidence | Summary | Evidence |"@, "| --- | ---: | --- | --- |"@]
            + causes.map_values(|c: VersionReviewCause| spec_cause_row(c))
    }) + seq![Seq::empty()]
}

pub open spec fn spec_fix_lines(r: VersionDiffReportV2) -> Seq<Seq<char>> {
    let fixes = r.review.continuity.fixes@;
    seq!["## Continuity-backed Fixes"@] + (if fixes.len() == 0 {
        seq!["No continuity-backed fixes were saved in this bundle."@]
    } else {
        seq!["| Code | Confidence | Summary | First action |"@, "| --- | ---: | --- | --- |"@]
            + fixes.map_values(|f: VersionReviewFix| spec_fix_row(f))
    }) + seq![Seq::empty()]
}

pub open spec fn spec_mapping_lines(r: VersionDiffReportV2) -> Seq<Seq<char>> {
    let mappings = r.review.continuity.mappings@;
    seq!["## Continuity-backed Review Mappings"@] + (if mappings.len() == 0 {
        seq!["No mapping stays in `NeedsReview` because of broader continuity history."@]
    } else {
        seq![
            "| Old asset | New asset | Status | Confidence | Compatibility | Why kept review-only | Continuity note |"@,
            "| --- | --- | --- | ---: | --- | --- | --- |"@,
        ] + mappings.map_values(|m: VersionReviewMapping| spec_mapping_row(m))
    })
}

/// The lines of the review bundle of a report.
pub open spec fn spec_review_bundle_lines(r: VersionDiffReportV2) -> Seq<Seq<char>> {
    spec_header_lines(r) + spec_summary_lines(r) + spec_cause_lines(r) + spec_fix_lines(r)
        + spec_mapping_lines(r)
}

fn header_lines(report: &VersionDiffReportV2) -> (r: Vec<String>)
    ensures
        views(r@) == spec_header_lines(*report),
{
    let s = &report.review.summary;
    let c = &report.review.continuity;
    let mut cells: Vec<String> = Vec::new();
    push_text(&mut cells, code_cell(report.old_version.version_id.as_str()));
    push_text(&mut cells, code_cell(report.new_version.version_id.as_str()));
    push_text(&mut cells, new_string(yes_no(s.continuity_caution_present)));
    push_text(&mut cells, decimal_string(s.review_mapping_count));
    push_text(&mut cells, decimal_string(s.continuity_review_mapping_count));
    push_text(&mut cells, decimal_string(c.cause_count));
    push_text(&mut cells, decimal_string(c.fix_count));
    proof {
        assert(views(cells@) =~= seq![
            spec_code(report.old_version.version_id@),
            spec_code(report.new_version.version_id@),
            spec_yes_no(s.continuity_caution_present),
            decimal(s.review_mapping_count as nat),
            decimal(s.continuity_review_mapping_count as nat),
            decimal(c.cause_count as nat),
            decimal(c.fix_count as nat),
        ]);
    }
    let mut lines: Vec<String> = Vec::new();
    push_text(&mut lines, new_string("# WhashReonator Review Bundle"));
    push_text(&mut lines, String::new());
    push_text(
        &mut lines,
        new_string(
            "| Baseline | Current | Continuity caution | Review-only mappings | Continuity-backed review mappings | Causes | Fixes |",
        ),
    );
    push_text(&mut lines, new_string("| --- | --- | --- | ---: | ---: | ---: | ---: |"));
    push_text(&mut lines, markdown_table_row(&cells));
    push_text(&mut lines, String::new());
    proof {
        assert(views(lines@) =~= spec_header_lines(*report));
    }
    lines
}

fn summary_lines(report: &VersionDiffReportV2) -> (r: Vec<String>)
    ensures
        views(r@) == spec_summary_lines(*report),
{
    let s = &report.review.summary;
    let notes = &report.review.continuity.notes;
    let ghost nv = views(notes@);
    let mut lines: Vec<String> = Vec::new();
    push_text(&mut lines, new_string("## Continuity Summary"));
    let mut l1 = new_string("- Continuity caution is ");
    push_str(
        &mut l1,
        if s.continuity_caution_present {
            "present"
        } else {
            "not present"
        },
    );
    push_str(&mut l1, " for this saved version pair.");
    push_text(&mut lines, l1);
    let mut l2 = new_string("- Review-only mappings: ");
    let a = decimal_string(s.review_mapping_count);
    push_str(&mut l2, a.as_str());
    push_str(&mut l2, " total, ");
    let b = decimal_string(s.continuity_review_mapping_count);
    push_str(&mut l2, b.as_str());
    push_str(&mut l2, " kept review-first by broader continuity history.");
    push_text(&mut lines, l2);
    let ghost head = views(lines@);
    if notes.is_empty() {
        push_text(
            &mut lines,
            new_string("- No extra continuity notes were saved in the review surface."),
        );
    } else {
        let limit: usize = if notes.len() < 3 {
            notes.len()
        } else {
            3
        };
        let mut i: usize = 0;
        while i < limit
            invariant
                i <= limit <= notes@.len(),
                nv == views(notes@),
                views(lines@) == head + nv.take(i as int).map_values(|n: Seq<char>| "- "@ + n),
            decreases limit - i,
        {
            let mut l = new_string("- ");
            push_str(&mut l, notes[i].as_str());
            push_text(&mut lines, l);
            proof {
                assert(nv.take(i + 1).map_values(|n: Seq<char>| "- "@ + n) =~= nv.take(
                    i as int,
                ).map_values(|n: Seq<char>| "- "@ + n).push("- "@ + nv[i as int]));
            }
            i = i + 1;
        }
    }
    push_text(&mut lines, String::new());
    proof {
        assert(views(lines@) =~= spec_summary_lines(*report));
    }
    lines
}

fn cause_lines(report: &VersionDiffReportV2) -> (r: Vec<String>)
    ensures
        views(r@) == spec_cause_lines(*report),
{
    let causes = &report.review.continuity.causes;
    let mut lines: Vec<String> = Vec::new();
    push_text(&mut lines, new_string("## Continuity-backed Causes"));
    if causes.is_empty() {
        push_text(&mut lines, new_string("No continuity-backed causes were saved in this bundle."));
    } else {
        push_text(&mut lines, new_string("| Code | Confidence | Summary | Evidence |"));
        push_text(&mut lines, new_string("| --- | ---: | --- | --- |"));
        let ghost head = views(lines@);
        let mut i: usize = 0;
        while i < causes.len()
            invariant
                i <= causes@.len(),
                views(lines@) == head + causes@.take(i as int).map_values(
                    |c: VersionReviewCause| spec_cause_row(c),
                ),
            decreases causes.len() - i,
        {
            let cause = &causes[i];
            let mut cells: Vec<String> = Vec::new();
            push_text(&mut cells, code_cell(cause.code.as_str()));
            push_text(&mut cells, fixed3_string(cause.confidence_milli));
            push_text(&mut cells, cause.summary.clone());
            push_text(&mut cells, cause_detail(cause));
            proof {
                assert(views(cells@) =~= seq![
                    spec_code(cause.code@),
                    fixed3(cause.confidence_milli as nat),
                    cause.summary@,
                    spec_cause_detail(*cause),
                ]);
            }
            push_text(&mut lines, markdown_table_row(&cells));
            proof {
                assert(causes@.take(i + 1).map_values(|c: VersionReviewCause| spec_cause_row(c))
                    =~= causes@.take(i as int).map_values(
                    |c: VersionReviewCause| spec_cause_row(c),
                ).push(spec_cause_row(causes@[i as int])));
            }
            i = i + 1;
        }
        proof {
            assert(causes@.take(causes@.len() as int) =~= causes@);
        }
    }
    push_text(&mut lines, String::new());
    proof {
        assert(views(lines@) =~= spec_cause_lines(*report));
    }
    lines
}

fn fix_lines(report: &VersionDiffReportV2) -> (r: Vec<String>)
    ensures
        views(r@) == spec_fix_lines(*report),
{
    let fixes = &report.review.continuity.fixes;
    let mut lines: Vec<String> = Vec::new();
    push_text(&mut lines, new_string("## Continuity-backed Fixes"));
    if fixes.is_empty() {
        push_text(&mut lines, new_string("No continuity-backed fixes were saved in this bundle."));
    } else {
        push_text(&mut lines, new_string("| Code | Confidence | Summary | First action |"));
        push_text(&mut lines, new_string("| --- | ---: | --- | --- |"));
        let ghost head = views(lines@);
        let mut i: usize = 0;
        while i < fixes.len()
            invariant
                i <= fixes@.len(),
                views(lines@) == head + fixes@.take(i as int).map_values(
                    |f: VersionReviewFix| spec_fix_row(f),
                ),
            decreases fixes.len() - i,
        {
            let fix = &fixes[i];
            let mut cells: Vec<String> = Vec::new();
            push_text(&mut cells, code_cell(fix.code.as_str()));
            push_text(&mut cells, fixed3_string(fix.confidence_milli));
            push_text(&mut cells, fix.summary.clone());
            push_text(&mut cells, first_fix_action(fix));
            proof {
                assert(views(cells@) =~= seq![
                    spec_code(fix.code@),
                    fixed3(fix.confidence_milli as nat),
                    fix.summary@,
                    spec_first_fix_action(*fix),
                ]);
            }
            push_text(&mut lines, markdown_table_row(&cells));
            proof {
                assert(fixes@.take(i + 1).map_values(|f: VersionReviewFix| spec_fix_row(f))
                    =~= fixes@.take(i as int).map_values(|f: VersionReviewFix| spec_fix_row(f)).push(
                    spec_fix_row(fixes@[i as int]),
                ));
            }
            i = i + 1;
        }
        proof {
            assert(fixes@.take(fixes@.len() as int) =~= fixes@);
        }
    }
    push_text(&mut lines, String::new());
    proof {
        assert(views(lines@) =~= spec_fix_lines(*report));
    }
    lines
}

fn mapping_lines(report: &VersionDiffReportV2) -> (r: Vec<String>)
    ensures
        views(r@) == spec_mapping_lines(*report),
{
    let mappings = &report.review.continuity.mappings;
    let mut lines: Vec<String> = Vec::new();
    push_text(&mut lines, new_string("## Continuity-backed Review Mappings"));
    if mappings.is_empty() {
        push_text(
            &mut lines,
            new_string("No mapping stays in `NeedsReview` because of broader continuity history."),
        );
    } else {
        push_text(
            &mut lines,
            new_string(
                "| Old asset | New asset | Status | Confidence | Compatibility | Why kept review-only | Continuity note |",
            ),
        );
        push_text(&mut lines, new_string("| --- | --- | --- | ---: | --- | --- | --- |"));
        let ghost head = views(lines@);
        let mut i: usize = 0;
        while i < mappings.len()
            invariant
                i <= mappings@.len(),
                views(lines@) == head + mappings@.take(i as int).map_values(
                    |m: VersionReviewMapping| spec_mapping_row(m),
                ),
            decreases mappings.len() - i,
        {
            let mapping = &mappings[i];
            let mut cells: Vec<String> = Vec::new();
            push_text(&mut cells, code_cell(mapping.old_asset_path.as_str()));
            push_text(&mut cells, code_cell(mapping.new_asset_path.as_str()));
            push_text(&mut cells, new_string(status_label(&mapping.status)));
            push_text(&mut cells, fixed3_string(mapping.confidence_milli));
            push_text(&mut cells, new_string(compatibility_label(&mapping.compatibility)));
            push_text(&mut cells, mapping_review_reason(mapping));
            push_text(&mut cells, mapping_continuity_note(mapping));
            proof {
                assert(views(cells@) =~= seq![
                    spec_code(mapping.old_asset_path@),
                    spec_code(mapping.new_asset_path@),
                    spec_status_label(mapping.status),
                    fixed3(mapping.confidence_milli as nat),
                    spec_compatibility_label(mapping.compatibility),
                    spec_mapping_review_reason(*mapping),
                    spec_mapping_continuity_note(views(mapping.continuity_notes@)),
                ]);
            }
            push_text(&mut lines, markdown_table_row(&cells));
            proof {
                assert(mappings@.take(i + 1).map_values(
                    |m: VersionReviewMapping| spec_mapping_row(m),
                ) =~= mappings@.take(i as int).map_values(
                    |m: VersionReviewMapping| spec_mapping_row(m),
                ).push(spec_mapping_row(mappings@[i as int])));
            }
            i = i + 1;
        }
        proof {
            assert(mappings@.take(mappings@.len() as int) =~= mappings@);
        }
    }
    proof {
        assert(views(lines@) =~= spec_mapping_lines(*report));
    }
    lines
}

impl ReviewBundleRenderer {
    /// The review bundle of a report as markdown: the version pair and counts, the
    /// continuity summary and up to three notes, then the continuity-backed causes,
    /// fixes and review mappings as tables.
    pub fn render(&self, report: &VersionDiffReportV2) -> (r: String)
        ensures
            r@ == join_seq(spec_review_bundle_lines(*report), "\n"@),
    {
        let mut lines = header_lines(report);
        append_texts(&mut lines, summary_lines(report));
        append_texts(&mut lines, cause_lines(report));
        append_texts(&mut lines, fix_lines(report));
        append_texts(&mut lines, mapping_lines(report));
        join(&lines, "\n")
    }
}

/// A sanitized table cell holds no newline, so a table row stays on one line.
pub proof fn sanitized_cells_hold_no_newline(s: Seq<char>)
    ensures
        !spec_sanitize(s).contains('\n'),
    decreases s.len(),
{
    if s.len() > 0 {
        sanitized_cells_hold_no_newline(s.drop_last());
        let a = spec_sanitize(s.drop_last());
        let b = cell_piece(s.last());
        assert(!b.contains('\n'));
        if (a + b).contains('\n') {
            let i = choose|i: int| 0 <= i < (a + b).len() && (a + b)[i] == '\n';
            if i < a.len() {
                assert(a[i] == '\n');
            } else {
                assert(b[i - a.len()] == '\n');
            }
        }
    }
}

} // verus!
