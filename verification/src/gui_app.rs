//! What the desktop front end shows: the detail view of a version-diff report and
//! the small text helpers around it.
use vstd::prelude::*;
use crate::inference::InferredMappingContinuityContext;
use crate::snapshot::{GameSnapshot, SnapshotScopeAssessment};
use crate::human_summary::{continuity_relation_label, opt_text_or, spec_relation_label};
use crate::report::{
    DiffStatus, ReportItemType, ResonatorDiffEntry, ResonatorItemDiff, VersionDiffReportV2,
    VersionedItem,
};
use crate::scan::{split_chars, split_on};
use crate::text::{
    chars_of, string_of, join, join_seq, push_text, contains, decimal, decimal_string, fixed3, fixed3_string, lower_seq, new_string, opt_view,
    push_str, seq_contains, str_eq, to_ascii_lowercase, trim, trim_seq, views,
};

verus! {

#[derive(Debug, Clone, PartialEq, Eq)]
pub struct ScanForm {
    pub source_root: String,
    pub version_override: String,
    pub knowledge_path: String,
}

#[derive(Debug, Clone, PartialEq, Eq)]
pub struct VersionRowView {
    pub version_id: String,
    pub label: String,
}

#[derive(Debug, Clone, PartialEq, Eq)]
pub struct VersionDetailView {
    pub summary: String,
    pub artifacts: Vec<String>,
}

/// One row of the compare table.
#[derive(Debug, Clone, PartialEq, Eq)]
pub struct CompareTableRow {
    pub resonator: String,
    pub item_type: String,
    pub status: String,
    pub confidence: String,
    pub path: String,
    pub asset_hash: String,
    pub shader_hash: String,
}

impl Default for CompareTableRow {
    fn default() -> (r: Self)
        ensures
            r@ == (RowModel {
                resonator: Seq::empty(),
                item_type: Seq::empty(),
                status: Seq::empty(),
                confidence: Seq::empty(),
                path: Seq::empty(),
                asset_hash: Seq::empty(),
                shader_hash: Seq::empty(),
            }),
    {
        CompareTableRow {
            resonator: String::new(),
            item_type: String::new(),
            status: String::new(),
            confidence: String::new(),
            path: String::new(),
            asset_hash: String::new(),
            shader_hash: String::new(),
        }
    }
}

pub struct RowModel {
    pub resonator: Seq<char>,
    pub item_type: Seq<char>,
    pub status: Seq<char>,
    pub confidence: Seq<char>,
    pub path: Seq<char>,
    pub asset_hash: Seq<char>,
    pub shader_hash: Seq<char>,
}

impl View for CompareTableRow {
    type V = RowModel;

    open spec fn view(&self) -> RowModel {
        RowModel {
            resonator: self.resonator@,
            item_type: self.item_type@,
            status: self.status@,
            confidence: self.confidence@,
            path: self.path@,
            asset_hash: self.asset_hash@,
            shader_hash: self.shader_hash@,
        }
    }
}

pub open spec fn row_models(v: Seq<CompareTableRow>) -> Seq<RowModel> {
    v.map_values(|r: CompareTableRow| r@)
}

#[derive(Debug, Clone, PartialEq, Eq)]
pub struct ReportDetailView {
    pub summary: String,
    pub table_rows: Vec<CompareTableRow>,
    pub quality_gate_text: String,
    pub inference_text: String,
    pub proposal_text: String,
    pub human_summary_text: String,
}

/// A scan that is ready to run: the version it will be saved as and the folder it reads.
#[derive(Debug, Clone, PartialEq, Eq)]
pub struct PreparedVersionScan {
    pub version_id: String,
    pub source_root: String,
}

/// What preparing a scan found: the version is new, or a scan of it is already saved.
#[derive(Debug, Clone, PartialEq, Eq)]
pub enum ScanStartResult {
    Ready(PreparedVersionScan),
    VersionAlreadyExists(PreparedVersionScan),
}

/// What a finished scan reports back.
#[derive(Debug, Clone, PartialEq, Eq)]
pub enum ScanRunResult {
    Created { version_id: String, saved_path: String, summary: String },
    NoChangesDetected { version_id: String, saved_path: String, summary: String },
    Overwritten { version_id: String, saved_path: String, summary: String },
}

/// The front end's controller, with the report library and artifact roots it shows.
#[derive(Debug, Clone, PartialEq, Eq)]
pub struct GuiController {
    pub reports_root: String,
    pub artifact_root: String,
}

impl GuiController {
    pub fn new(reports_root: String, artifact_root: String) -> (r: Self)
        ensures
            r.reports_root@ == reports_root@,
            r.artifact_root@ == artifact_root@,
    {
        GuiController { reports_root, artifact_root }
    }

    pub fn reports_root_label(&self) -> (r: String)
        ensures
            r@ == self.reports_root@,
    {
        self.reports_root.clone()
    }

    pub fn artifact_root_label(&self) -> (r: String)
        ensures
            r@ == self.artifact_root@,
    {
        self.artifact_root.clone()
    }
}

// ---------------------------------------------------------------------------
// Small text helpers
// ---------------------------------------------------------------------------

pub open spec fn spec_yes_no_lower(value: bool) -> Seq<char> {
    if value {
        "yes"@
    } else {
        "no"@
    }
}

pub fn yes_no(value: bool) -> (r: &'static str)
    ensures
        r@ == spec_yes_no_lower(value),
{
    if value {
        "yes"
    } else {
        "no"
    }
}

/// The trimmed text, unless nothing is left of it.
pub fn optional_text(value: &str) -> (r: Option<String>)
    ensures
        match r {
            Some(s) => trim_seq(value@).len() > 0 && s@ == trim_seq(value@),
            None => trim_seq(value@).len() == 0,
        },
{
    let trimmed = trim(value);
    if trimmed.as_str().is_empty() {
        None
    } else {
        Some(trimmed)
    }
}

pub open spec fn spec_structured_continuity_note(c: InferredMappingContinuityContext) -> Option<
    Seq<char>,
> {
    if c.total_layout_drift_steps >= 2 {
        Some(
            "repeated layout drift across "@ + decimal(c.total_layout_drift_steps as nat)
                + " continuity step(s) keeps this mapping review-first"@,
        )
    } else if c.terminal_relation is Some {
        Some(
            (if c.terminal_after_current {
                "later terminal"@
            } else {
                "terminal"@
            }) + " state "@ + spec_relation_label(c.terminal_relation->0) + " in "@ + opt_text_or(
                c.terminal_version,
                "unknown"@,
            ) + " keeps this mapping review-first"@,
        )
    } else if c.review_required_history {
        Some("review-required thread history keeps this mapping review-first"@)
    } else {
        None
    }
}

/// The short note the front end shows for a mapping whose continuity history calls for review.
pub fn structured_continuity_note(continuity: &InferredMappingContinuityContext) -> (r: Option<
    String,
>)
    ensures
        match r {
            Some(s) => spec_structured_continuity_note(*continuity) == Some(s@),
            None => spec_structured_continuity_note(*continuity) is None,
        },
{
    if continuity.total_layout_drift_steps >= 2 {
        let mut s = new_string("repeated layout drift across ");
        let n = decimal_string(continuity.total_layout_drift_steps);
        push_str(&mut s, n.as_str());
        push_str(&mut s, " continuity step(s) keeps this mapping review-first");
        Some(s)
    } else if let Some(relation) = &continuity.terminal_relation {
        let mut s = new_string(
            if continuity.terminal_after_current {
                "later terminal"
            } else {
                "terminal"
            },
        );
        push_str(&mut s, " state ");
        push_str(&mut s, continuity_relation_label(relation));
        push_str(&mut s, " in ");
        match &continuity.terminal_version {
            Some(v) => push_str(&mut s, v.as_str()),
            None => push_str(&mut s, "unknown"),
        }
        push_str(&mut s, " keeps this mapping review-first");
        Some(s)
    } else if continuity.review_required_history {
        Some(new_string("review-required thread history keeps this mapping review-first"))
    } else {
        None
    }
}

// ---------------------------------------------------------------------------
// The compare table
// ---------------------------------------------------------------------------

pub open spec fn spec_item_type_label(t: ReportItemType) -> Seq<char> {
    match t {
        ReportItemType::Asset => "Asset"@,
        ReportItemType::Buffer => "Buffer"@,
        ReportItemType::Mapping => "Mapping"@,
    }
}

pub fn item_type_label(t: &ReportItemType) -> (r: &'static str)
    ensures
        r@ == spec_item_type_label(*t),
{
    match t {
        ReportItemType::Asset => "Asset",
        ReportItemType::Buffer => "Buffer",
        ReportItemType::Mapping => "Mapping",
    }
}

pub open spec fn spec_status_name(s: DiffStatus) -> Seq<char> {
    match s {
        DiffStatus::Unchanged => "Unchanged"@,
        DiffStatus::Changed => "Changed"@,
        DiffStatus::Added => "Added"@,
        DiffStatus::Removed => "Removed"@,
        DiffStatus::Uncertain => "Uncertain"@,
    }
}

pub fn diff_status_label(s: &DiffStatus) -> (r: &'static str)
    ensures
        r@ == spec_status_name(*s),
{
    match s {
        DiffStatus::Unchanged => "Unchanged",
        DiffStatus::Changed => "Changed",
        DiffStatus::Added => "Added",
        DiffStatus::Removed => "Removed",
        DiffStatus::Uncertain => "Uncertain",
    }
}

pub open spec fn spec_hash_transition(old: Option<Seq<char>>, new: Option<Seq<char>>) -> Seq<char> {
    match (old, new) {
        (None, None) => "-"@,
        (Some(h), None) => h + " → (removed)"@,
        (None, Some(h)) => "(added) → "@ + h,
        (Some(o), Some(n)) => if o == n {
            o
        } else {
            o + " → "@ + n
        },
    }
}

/// How a hash moved between the versions: kept, added, removed or replaced.
pub fn format_hash_transition(old_hash: Option<&str>, new_hash: Option<&str>) -> (r: String)
    ensures
        r@ == spec_hash_transition(
            match old_hash {
                Some(h) => Some(h@),
                None => None,
            },
            match new_hash {
                Some(h) => Some(h@),
                None => None,
            },
        ),
{
    match (old_hash, new_hash) {
        (None, None) => new_string("-"),
        (Some(hash), None) => {
            let mut s = new_string(hash);
            push_str(&mut s, " → (removed)");
            s
        },
        (None, Some(hash)) => {
            let mut s = new_string("(added) → ");
            push_str(&mut s, hash);
            s
        },
        (Some(old), Some(new)) => {
            if str_eq(old, new) {
                new_string(old)
            } else {
                let mut s = new_string(old);
                push_str(&mut s, " → ");
                push_str(&mut s, new);
                s
            }
        },
    }
}

pub open spec fn side_hash(side: Option<VersionedItem>, asset: bool) -> Option<Seq<char>> {
    match side {
        Some(s) => if asset {
            opt_view(s.metadata.asset_hash)
        } else {
            opt_view(s.metadata.shader_hash)
        },
        None => None,
    }
}

/// The path shown for an item: the new side's path or label, else the old side's, else `-`.
pub open spec fn spec_item_path(item: ResonatorItemDiff) -> Seq<char> {
    let side = if item.new is Some {
        item.new
    } else {
        item.old
    };
    match side {
        Some(s) => opt_text_or(s.path, s.label@),
        None => "-"@,
    }
}

pub open spec fn spec_item_row(resonator: Seq<char>, item: ResonatorItemDiff) -> RowModel {
    RowModel {
        resonator,
        item_type: spec_item_type_label(item.item_type),
        status: spec_status_name(item.status),
        confidence: match item.confidence_milli {
            Some(c) => fixed3(c as nat),
            None => "-"@,
        },
        path: spec_item_path(item),
        asset_hash: spec_hash_transition(side_hash(item.old, true), side_hash(item.new, true)),
        shader_hash: spec_hash_transition(side_hash(item.old, false), side_hash(item.new, false)),
    }
}

pub open spec fn item_shown(item: ResonatorItemDiff, hide_unchanged: bool) -> bool {
    !(hide_unchanged && item.status == DiffStatus::Unchanged)
}

/// The rows of one resonator's shown items, in order.
pub open spec fn entry_rows(items: Seq<ResonatorItemDiff>, resonator: Seq<char>, hide_unchanged: bool) -> Seq<
    RowModel,
>
    decreases items.len(),
{
    if items.len() == 0 {
        Seq::empty()
    } else {
        let rest = entry_rows(items.drop_last(), resonator, hide_unchanged);
        if item_shown(items.last(), hide_unchanged) {
            rest.push(spec_item_row(resonator, items.last()))
        } else {
            rest
        }
    }
}

/// The resonator matches the filter, both in ASCII lowercase.
pub open spec fn entry_selected(e: ResonatorDiffEntry, filter: Seq<char>) -> bool {
    lower_seq(filter).len() == 0 || seq_contains(lower_seq(e.resonator@), lower_seq(filter))
}

/// The rows of all shown items of the selected resonators, before the row cap.
pub open spec fn all_rows(entries: Seq<ResonatorDiffEntry>, filter: Seq<char>, hide_unchanged: bool) -> Seq<
    RowModel,
>
    decreases entries.len(),
{
    if entries.len() == 0 {
        Seq::empty()
    } else {
        let rest = all_rows(entries.drop_last(), filter, hide_unchanged);
        let e = entries.last();
        if entry_selected(e, filter) {
            rest + entry_rows(e.items@, e.resonator@, hide_unchanged)
        } else {
            rest
        }
    }
}

/// The table shows at most this many item rows.
pub const MAX_TABLE_ROWS: usize = 400;

pub open spec fn truncation_row(hidden: nat) -> RowModel {
    RowModel {
        resonator: "…"@,
        item_type: "truncated"@,
        status: "+"@ + decimal(hidden),
        confidence: "-"@,
        path: "Open the stored report bundle for the full list."@,
        asset_hash: Seq::empty(),
        shader_hash: Seq::empty(),
    }
}

/// A count as a `usize` holds it: saturated at `usize::MAX`.
pub open spec fn min_count(n: int) -> int {
    if n < usize::MAX {
        n
    } else {
        usize::MAX as int
    }
}

/// The first rows up to the cap, then one row that counts the rows left out.
pub open spec fn capped_rows(rows: Seq<RowModel>) -> Seq<RowModel> {
    if rows.len() <= MAX_TABLE_ROWS {
        rows
    } else {
        rows.take(MAX_TABLE_ROWS as int).push(
            truncation_row(min_count(rows.len() - MAX_TABLE_ROWS) as nat),
        )
    }
}

fn side_hash_str(side: &Option<VersionedItem>, asset: bool) -> (r: Option<&str>)
    ensures
        match r {
            Some(h) => side_hash(*side, asset) == Some(h@),
            None => side_hash(*side, asset) is None,
        },
{
    match side {
        Some(s) => {
            let h = if asset {
                &s.metadata.asset_hash
            } else {
                &s.metadata.shader_hash
            };
            match h {
                Some(v) => Some(v.as_str()),
                None => None,
            }
        },
        None => None,
    }
}

fn item_row(resonator: &String, item: &ResonatorItemDiff) -> (r: CompareTableRow)
    ensures
        r@ == spec_item_row(resonator@, *item),
{
    let side = if item.new.is_some() {
        &item.new
    } else {
        &item.old
    };
    let path = match side {
        Some(s) => match &s.path {
            Some(p) => p.clone(),
            None => s.label.clone(),
        },
        None => new_string("-"),
    };
    let confidence = match item.confidence_milli {
        Some(c) => fixed3_string(c),
        None => new_string("-"),
    };
    CompareTableRow {
        resonator: resonator.clone(),
        item_type: new_string(item_type_label(&item.item_type)),
        status: new_string(diff_status_label(&item.status)),
        confidence,
        path,
        asset_hash: format_hash_transition(
            side_hash_str(&item.old, true),
            side_hash_str(&item.new, true),
        ),
        shader_hash: format_hash_transition(
            side_hash_str(&item.old, false),
            side_hash_str(&item.new, false),
        ),
    }
}

proof fn lemma_capped_push(acc: Seq<RowModel>, x: RowModel)
    ensures
        acc.len() < MAX_TABLE_ROWS ==> acc.push(x).take((acc.len() + 1) as int) == acc.take(
            acc.len() as int,
        ).push(x),
        acc.len() >= MAX_TABLE_ROWS ==> acc.push(x).take(MAX_TABLE_ROWS as int) == acc.take(
            MAX_TABLE_ROWS as int,
        ),
{
    if acc.len() < MAX_TABLE_ROWS {
        assert(acc.push(x).take((acc.len() + 1) as int) =~= acc.take(acc.len() as int).push(x));
    } else {
        assert(acc.push(x).take(MAX_TABLE_ROWS as int) =~= acc.take(MAX_TABLE_ROWS as int));
    }
}

/// The compare table of the selected resonators: a row per shown item up to the
/// cap, then a row that counts the rest.
pub fn build_compare_table_rows(
    resonators: &Vec<ResonatorDiffEntry>,
    resonator_filter: &str,
    hide_unchanged: bool,
) -> (r: Vec<CompareTableRow>)
    ensures
        row_models(r@) == capped_rows(all_rows(resonators@, resonator_filter@, hide_unchanged)),
{
    let filter = to_ascii_lowercase(resonator_filter);
    let mut rows: Vec<CompareTableRow> = Vec::new();
    let mut truncated: usize = 0;
    let ghost mut acc: Seq<RowModel> = Seq::empty();
    let mut i: usize = 0;
    while i < resonators.len()
        invariant
            i <= resonators@.len(),
            filter@ == lower_seq(resonator_filter@),
            acc == all_rows(resonators@.take(i as int), resonator_filter@, hide_unchanged),
            rows@.len() <= MAX_TABLE_ROWS,
            rows@.len() == if acc.len() < MAX_TABLE_ROWS {
                acc.len()
            } else {
                MAX_TABLE_ROWS as nat
            },
            row_models(rows@) == acc.take(rows@.len() as int),
            truncated == min_count(acc.len() - rows@.len()),
        decreases resonators.len() - i,
    {
        let entry = &resonators[i];
        proof {
            assert(resonators@.take(i + 1).drop_last() =~= resonators@.take(i as int));
        }
        let lowered = to_ascii_lowercase(entry.resonator.as_str());
        if filter.as_str().is_empty() || contains(lowered.as_str(), filter.as_str()) {
            let ghost base = acc;
            let mut j: usize = 0;
            while j < entry.items.len()
                invariant
                    j <= entry.items@.len(),
                    acc == base + entry_rows(entry.items@.take(j as int), entry.resonator@, hide_unchanged),
                    rows@.len() <= MAX_TABLE_ROWS,
                    rows@.len() == if acc.len() < MAX_TABLE_ROWS {
                        acc.len()
                    } else {
                        MAX_TABLE_ROWS as nat
                    },
                    row_models(rows@) == acc.take(rows@.len() as int),
                    truncated == min_count(acc.len() - rows@.len()),
                decreases entry.items.len() - j,
            {
                let item = &entry.items[j];
                proof {
                    assert(entry.items@.take(j + 1).drop_last() =~= entry.items@.take(j as int));
                }
                if !(hide_unchanged && matches!(item.status, DiffStatus::Unchanged)) {
                    let row = item_row(&entry.resonator, item);
                    proof {
                        lemma_capped_push(acc, row@);
                        assert(base + entry_rows(entry.items@.take(j + 1), entry.resonator@, hide_unchanged)
                            =~= (base + entry_rows(entry.items@.take(j as int), entry.resonator@, hide_unchanged)).push(row@));
                    }
                    if rows.len() >= MAX_TABLE_ROWS {
                        truncated = truncated.saturating_add(1);
                    } else {
                        proof {
                            assert(row_models(rows@.push(row)) =~= row_models(rows@).push(row@));
                        }
                        rows.push(row);
                    }
                    proof {
                        acc = acc.push(row@);
                    }
                }
                j = j + 1;
            }
            proof {
                assert(entry.items@.take(entry.items@.len() as int) =~= entry.items@);
            }
        }
        i = i + 1;
    }
    proof {
        assert(resonators@.take(resonators@.len() as int) =~= resonators@);
    }
    if truncated > 0 {
        let mut status = new_string("+");
        let n = decimal_string(truncated);
        push_str(&mut status, n.as_str());
        let row = CompareTableRow {
            resonator: new_string("…"),
            item_type: new_string("truncated"),
            status,
            confidence: new_string("-"),
            path: new_string("Open the stored report bundle for the full list."),
            asset_hash: String::new(),
            shader_hash: String::new(),
        };
        proof {
            assert(row_models(rows@.push(row)) =~= row_models(rows@).push(row@));
        }
        rows.push(row);
    }
    rows
}

// ---------------------------------------------------------------------------
// The detail view
// ---------------------------------------------------------------------------

/// Each note after `prefix`, all concatenated.
pub open spec fn prefixed_concat(notes: Seq<Seq<char>>, prefix: Seq<char>) -> Seq<char>
    decreases notes.len(),
{
    if notes.len() == 0 {
        Seq::empty()
    } else {
        prefixed_concat(notes.drop_last(), prefix) + prefix + notes.last()
    }
}

pub open spec fn first_n(n: int, len: int) -> int {
    if len < n {
        len
    } else {
        n
    }
}

/// The summary text of the detail view.
pub open spec fn spec_detail_summary(report: VersionDiffReportV2, hide_unchanged: bool) -> Seq<char> {
    let s = report.summary;
    let notes = views(report.scope_notes@);
    "Compare "@ + report.old_version.version_id@ + " -> "@ + report.new_version.version_id@
        + "\nResonators: "@ + decimal(s.resonator_count as nat) + "\nUnchanged: "@ + decimal(
        s.unchanged_items as nat,
    ) + "\nChanged: "@ + decimal(s.changed_items as nat) + "\nAdded: "@ + decimal(
        s.added_items as nat,
    ) + "\nRemoved: "@ + decimal(s.removed_items as nat) + "\nUncertain: "@ + decimal(
        s.uncertain_items as nat,
    ) + "\nMapping candidates: "@ + decimal(s.mapping_candidates as nat) + (if hide_unchanged
        && s.unchanged_items > 0 {
        "\nFilter: hiding "@ + decimal(s.unchanged_items as nat)
            + " unchanged item(s) — toggle 'Show unchanged' to see them."@
    } else {
        Seq::empty()
    }) + prefixed_concat(notes.take(first_n(2, notes.len() as int)), "\nScope note: "@)
}

fn push_count(s: &mut String, label: &str, n: usize)
    ensures
        final(s)@ == old(s)@ + label@ + decimal(n as nat),
{
    push_str(s, label);
    let d = decimal_string(n);
    push_str(s, d.as_str());
}

fn detail_summary(report: &VersionDiffReportV2, hide_unchanged: bool) -> (r: String)
    ensures
        r@ == spec_detail_summary(*report, hide_unchanged),
{
    let sm = &report.summary;
    let mut s = new_string("Compare ");
    push_str(&mut s, report.old_version.version_id.as_str());
    push_str(&mut s, " -> ");
    push_str(&mut s, report.new_version.version_id.as_str());
    push_count(&mut s, "\nResonators: ", sm.resonator_count);
    push_count(&mut s, "\nUnchanged: ", sm.unchanged_items);
    push_count(&mut s, "\nChanged: ", sm.changed_items);
    push_count(&mut s, "\nAdded: ", sm.added_items);
    push_count(&mut s, "\nRemoved: ", sm.removed_items);
    push_count(&mut s, "\nUncertain: ", sm.uncertain_items);
    push_count(&mut s, "\nMapping candidates: ", sm.mapping_candidates);
    let ghost head = s@;
    if hide_unchanged && sm.unchanged_items > 0 {
        push_count(&mut s, "\nFilter: hiding ", sm.unchanged_items);
        push_str(&mut s, " unchanged item(s) — toggle 'Show unchanged' to see them.");
    } else {
        proof {
            assert(s@ =~= head + Seq::<char>::empty());
        }
    }
    let ghost mid = s@;
    let notes = &report.scope_notes;
    let ghost nv = views(notes@);
    let limit: usize = if notes.len() < 2 {
        notes.len()
    } else {
        2
    };
    let mut i: usize = 0;
    proof {
        assert(nv.take(0) =~= Seq::<Seq<char>>::empty());
        assert(s@ =~= mid + prefixed_concat(nv.take(0), "\nScope note: "@));
    }
    while i < limit
        invariant
            i <= limit <= notes@.len(),
            nv == views(notes@),
            s@ == mid + prefixed_concat(nv.take(i as int), "\nScope note: "@),
        decreases limit - i,
    {
        push_str(&mut s, "\nScope note: ");
        push_str(&mut s, notes[i].as_str());
        proof {
            assert(nv.take(i + 1).drop_last() =~= nv.take(i as int));
            assert(s@ =~= mid + prefixed_concat(nv.take(i + 1), "\nScope note: "@));
        }
        i = i + 1;
    }
    s
}

/// The detail view of a report: the summary text and the compare table of the
/// resonators that match the filter.
pub fn render_detail_view(
    report: &VersionDiffReportV2,
    resonator_filter: &str,
    hide_unchanged: bool,
) -> (r: ReportDetailView)
    ensures
        r.summary@ == spec_detail_summary(*report, hide_unchanged),
        row_models(r.table_rows@) == capped_rows(
            all_rows(report.resonators@, resonator_filter@, hide_unchanged),
        ),
        r.quality_gate_text@.len() == 0,
        r.inference_text@.len() == 0,
        r.proposal_text@.len() == 0,
        r.human_summary_text@.len() == 0,
{
    ReportDetailView {
        summary: detail_summary(report, hide_unchanged),
        table_rows: build_compare_table_rows(&report.resonators, resonator_filter, hide_unchanged),
        quality_gate_text: String::new(),
        inference_text: String::new(),
        proposal_text: String::new(),
        human_summary_text: String::new(),
    }
}

/// A scope note that warns of a low-signal compare.
pub open spec fn is_low_signal_note(note: Seq<char>) -> bool {
    let lower = lower_seq(note);
    ||| seq_contains(lower, "low-signal"@)
    ||| seq_contains(lower, "shallow"@)
    ||| seq_contains(lower, "low-coverage"@)
    ||| seq_contains(lower, "install/package-level"@)
}

pub open spec fn is_baseline_note(note: Seq<char>) -> bool {
    seq_contains(lower_seq(note), "selected baseline"@)
}

/// The low-signal notes, in order.
pub open spec fn low_signal_notes(notes: Seq<Seq<char>>) -> Seq<Seq<char>>
    decreases notes.len(),
{
    if notes.len() == 0 {
        Seq::empty()
    } else {
        let rest = low_signal_notes(notes.drop_last());
        if is_low_signal_note(notes.last()) {
            rest.push(notes.last())
        } else {
            rest
        }
    }
}

/// The baseline notes, in order.
pub open spec fn baseline_notes(notes: Seq<Seq<char>>) -> Seq<Seq<char>>
    decreases notes.len(),
{
    if notes.len() == 0 {
        Seq::empty()
    } else {
        let rest = baseline_notes(notes.drop_last());
        if is_baseline_note(notes.last()) {
            rest.push(notes.last())
        } else {
            rest
        }
    }
}

pub open spec fn prefixed(notes: Seq<Seq<char>>, prefix: Seq<char>) -> Seq<Seq<char>> {
    notes.map_values(|n: Seq<char>| prefix + n)
}

/// The lines of the quality-gate preview.
pub open spec fn spec_quality_gate_lines(report: VersionDiffReportV2) -> Seq<Seq<char>> {
    let notes = views(report.scope_notes@);
    let warns = low_signal_notes(notes);
    let baselines = baseline_notes(notes);
    seq![
        "Quality / scope signals for "@ + report.old_version.version_id@ + " -> "@
            + report.new_version.version_id@,
    ] + prefixed(warns, "WARN: "@) + (if warns.len() == 0 {
        seq!["No low-signal warnings detected from compare scope notes."@]
    } else {
        Seq::empty()
    }) + prefixed(baselines.take(first_n(2, baselines.len() as int)), "Baseline: "@)
}

fn is_low_signal_note_exec(note: &str) -> (r: bool)
    ensures
        r == is_low_signal_note(note@),
{
    let lower = to_ascii_lowercase(note);
    let l = lower.as_str();
    contains(l, "low-signal") || contains(l, "shallow") || contains(l, "low-coverage") || contains(
        l,
        "install/package-level",
    )
}

/// The quality-gate preview of a report: the low-signal scope notes as warnings and
/// at most two baseline notes.
pub fn render_quality_gate_preview(report: &VersionDiffReportV2) -> (r: String)
    ensures
        r@ == join_seq(spec_quality_gate_lines(*report), "\n"@),
{
    let notes = &report.scope_notes;
    let ghost nv = views(notes@);
    let mut head = new_string("Quality / scope signals for ");
    push_str(&mut head, report.old_version.version_id.as_str());
    push_str(&mut head, " -> ");
    push_str(&mut head, report.new_version.version_id.as_str());
    let mut lines: Vec<String> = Vec::new();
    push_text(&mut lines, head);
    let ghost first = views(lines@);
    let mut low_signal_found = false;
    let mut i: usize = 0;
    proof {
        assert(nv.take(0) =~= Seq::<Seq<char>>::empty());
        assert(views(lines@) =~= first + prefixed(low_signal_notes(nv.take(0)), "WARN: "@));
    }
    while i < notes.len()
        invariant
            i <= notes@.len(),
            nv == views(notes@),
            views(lines@) == first + prefixed(low_signal_notes(nv.take(i as int)), "WARN: "@),
            low_signal_found == (low_signal_notes(nv.take(i as int)).len() > 0),
        decreases notes.len() - i,
    {
        proof {
            assert(nv.take(i + 1).drop_last() =~= nv.take(i as int));
            assert(nv.take(i + 1).last() == nv[i as int]);
            assert(nv[i as int] == notes@[i as int]@);
            assert(low_signal_notes(nv.take(i + 1)) == if is_low_signal_note(nv[i as int]) {
                low_signal_notes(nv.take(i as int)).push(nv[i as int])
            } else {
                low_signal_notes(nv.take(i as int))
            });
        }
        if is_low_signal_note_exec(notes[i].as_str()) {
            low_signal_found = true;
            let mut l = new_string("WARN: ");
            push_str(&mut l, notes[i].as_str());
            push_text(&mut lines, l);
            proof {
                assert(prefixed(low_signal_notes(nv.take(i + 1)), "WARN: "@) =~= prefixed(
                    low_signal_notes(nv.take(i as int)),
                    "WARN: "@,
                ).push("WARN: "@ + nv[i as int]));
            }
        }
        i = i + 1;
    }
    proof {
        assert(nv.take(notes@.len() as int) =~= nv);
    }
    let ghost mid = views(lines@);
    if !low_signal_found {
        push_text(&mut lines, new_string("No low-signal warnings detected from compare scope notes."));
    } else {
        proof {
            assert(views(lines@) =~= mid + Seq::<Seq<char>>::empty());
        }
    }
    let ghost before = views(lines@);
    let mut taken: usize = 0;
    let mut k: usize = 0;
    while k < notes.len()
        invariant
            k <= notes@.len(),
            nv == views(notes@),
            taken == first_n(2, baseline_notes(nv.take(k as int)).len() as int),
            views(lines@) == before + prefixed(
                baseline_notes(nv.take(k as int)).take(taken as int),
                "Baseline: "@,
            ),
        decreases notes.len() - k,
    {
        proof {
            assert(nv.take(k + 1).drop_last() =~= nv.take(k as int));
            assert(nv.take(k + 1).last() == nv[k as int]);
            assert(nv[k as int] == notes@[k as int]@);
            assert(baseline_notes(nv.take(k + 1)) == if is_baseline_note(nv[k as int]) {
                baseline_notes(nv.take(k as int)).push(nv[k as int])
            } else {
                baseline_notes(nv.take(k as int))
            });
        }
        let lower = to_ascii_lowercase(notes[k].as_str());
        if contains(lower.as_str(), "selected baseline") {
            proof {
                let prev = baseline_notes(nv.take(k as int));
                assert(baseline_notes(nv.take(k + 1)) == prev.push(nv[k as int]));
                if taken < 2 {
                    assert(prev.push(nv[k as int]).take(taken + 1) =~= prev.take(taken as int).push(
                        nv[k as int],
                    ));
                } else {
                    assert(prev.push(nv[k as int]).take(taken as int) =~= prev.take(taken as int));
                }
            }
            if taken < 2 {
                let mut l = new_string("Baseline: ");
                push_str(&mut l, notes[k].as_str());
                push_text(&mut lines, l);
                taken = taken + 1;
                proof {
                    let cur = baseline_notes(nv.take(k + 1));
                    assert(prefixed(cur.take(taken as int), "Baseline: "@) =~= prefixed(
                        baseline_notes(nv.take(k as int)).take((taken - 1) as int),
                        "Baseline: "@,
                    ).push("Baseline: "@ + nv[k as int]));
                }
            }
        }
        k = k + 1;
    }
    proof {
        assert(nv.take(notes@.len() as int) =~= nv);
        assert(views(lines@) =~= spec_quality_gate_lines(*report));
    }
    join(&lines, "\n")
}

// ---------------------------------------------------------------------------
// Version library views
// ---------------------------------------------------------------------------

/// The kinds of artifact the report library keeps per version.
#[derive(Debug, Clone, Copy, PartialEq, Eq)]
pub enum VersionArtifactKind {
    Snapshot,
    ReportBundle,
    ContinuityData,
    InferenceData,
    ProposalData,
    HumanSummary,
    ModDependencyBaselineSummary,
    ExtractorInventory,
    BufferData,
    HashData,
    Auxiliary,
    LegacySnapshot,
    LegacyReportBundle,
}

pub open spec fn spec_artifact_kind_label(k: VersionArtifactKind) -> Seq<char> {
    match k {
        VersionArtifactKind::Snapshot => "snapshot"@,
        VersionArtifactKind::ReportBundle => "report_bundle"@,
        VersionArtifactKind::ContinuityData => "continuity"@,
        VersionArtifactKind::InferenceData => "inference"@,
        VersionArtifactKind::ProposalData => "proposal"@,
        VersionArtifactKind::HumanSummary => "human_summary"@,
        VersionArtifactKind::ModDependencyBaselineSummary => "mod_dependency_baseline_summary"@,
        VersionArtifactKind::ExtractorInventory => "extractor_inventory"@,
        VersionArtifactKind::BufferData => "buffer"@,
        VersionArtifactKind::HashData => "hash"@,
        VersionArtifactKind::Auxiliary => "auxiliary"@,
        VersionArtifactKind::LegacySnapshot => "legacy_snapshot"@,
        VersionArtifactKind::LegacyReportBundle => "legacy_report_bundle"@,
    }
}

pub fn artifact_kind_label(kind: VersionArtifactKind) -> (r: &'static str)
    ensures
        r@ == spec_artifact_kind_label(kind),
{
    match kind {
        VersionArtifactKind::Snapshot => "snapshot",
        VersionArtifactKind::ReportBundle => "report_bundle",
        VersionArtifactKind::ContinuityData => "continuity",
        VersionArtifactKind::InferenceData => "inference",
        VersionArtifactKind::ProposalData => "proposal",
        VersionArtifactKind::HumanSummary => "human_summary",
        VersionArtifactKind::ModDependencyBaselineSummary => "mod_dependency_baseline_summary",
        VersionArtifactKind::ExtractorInventory => "extractor_inventory",
        VersionArtifactKind::BufferData => "buffer",
        VersionArtifactKind::HashData => "hash",
        VersionArtifactKind::Auxiliary => "auxiliary",
        VersionArtifactKind::LegacySnapshot => "legacy_snapshot",
        VersionArtifactKind::LegacyReportBundle => "legacy_report_bundle",
    }
}

/// One stored artifact of a version.
#[derive(Debug, Clone, PartialEq, Eq)]
pub struct VersionArtifactEntry {
    pub kind: VersionArtifactKind,
    pub path: String,
}

pub open spec fn spec_artifact_line(a: VersionArtifactEntry) -> Seq<char> {
    spec_artifact_kind_label(a.kind) + " | "@ + a.path@
}

/// One `kind | path` line per stored artifact.
pub fn render_version_artifact_lines(artifacts: &Vec<VersionArtifactEntry>) -> (r: Vec<String>)
    ensures
        views(r@) == artifacts@.map_values(|a: VersionArtifactEntry| spec_artifact_line(a)),
{
    let mut lines: Vec<String> = Vec::new();
    let mut i: usize = 0;
    while i < artifacts.len()
        invariant
            i <= artifacts@.len(),
            views(lines@) == artifacts@.take(i as int).map_values(
                |a: VersionArtifactEntry| spec_artifact_line(a),
            ),
        decreases artifacts.len() - i,
    {
        let mut line = new_string(artifact_kind_label(artifacts[i].kind));
        push_str(&mut line, " | ");
        push_str(&mut line, artifacts[i].path.as_str());
        push_text(&mut lines, line);
        proof {
            assert(artifacts@.take(i + 1).map_values(|a: VersionArtifactEntry| spec_artifact_line(a))
                =~= artifacts@.take(i as int).map_values(
                |a: VersionArtifactEntry| spec_artifact_line(a),
            ).push(spec_artifact_line(artifacts@[i as int])));
        }
        i = i + 1;
    }
    proof {
        assert(artifacts@.take(artifacts@.len() as int) =~= artifacts@);
    }
    lines
}

/// Where `version_id` sits in the listed ids, if it is there.
pub fn version_position(version_ids: &Vec<String>, version_id: &str) -> (r: Option<usize>)
    ensures
        match r {
            Some(i) => i < version_ids@.len() && version_ids@[i as int]@ == version_id@
                && forall|j: int| 0 <= j < i ==> #[trigger] version_ids@[j]@ != version_id@,
            None => forall|j: int| 0 <= j < version_ids@.len() ==> #[trigger] version_ids@[j]@ != version_id@,
        },
{
    let mut i: usize = 0;
    while i < version_ids.len()
        invariant
            i <= version_ids@.len(),
            forall|j: int| 0 <= j < i ==> #[trigger] version_ids@[j]@ != version_id@,
        decreases version_ids.len() - i,
    {
        if str_eq(version_ids[i].as_str(), version_id) {
            return Some(i);
        }
        i = i + 1;
    }
    None
}

/// What the front end shows after a scan: the status line, the summary text and
/// the version to select.
#[derive(Debug, Clone, PartialEq, Eq)]
pub struct ScanOutcomeView {
    pub status_text: String,
    pub summary_text: String,
    pub version_id: String,
}

pub open spec fn spec_scan_outcome(r: ScanRunResult) -> (Seq<char>, Seq<char>, Seq<char>) {
    match r {
        ScanRunResult::Created { version_id, saved_path, summary } => (
            "Scan completed for version "@ + version_id@ + ". Saved: "@ + saved_path@,
            summary@,
            version_id@,
        ),
        ScanRunResult::NoChangesDetected { version_id, saved_path, summary } => (
            "No changes detected"@,
            summary@ + "\nStored snapshot: "@ + saved_path@,
            version_id@,
        ),
        ScanRunResult::Overwritten { version_id, saved_path, summary } => (
            "Overwritten successfully"@,
            summary@ + "\nOverwritten snapshot: "@ + saved_path@,
            version_id@,
        ),
    }
}

/// The texts the front end shows for a finished scan.
pub fn scan_outcome_view(result: &ScanRunResult) -> (r: ScanOutcomeView)
    ensures
        (r.status_text@, r.summary_text@, r.version_id@) == spec_scan_outcome(*result),
{
    match result {
        ScanRunResult::Created { version_id, saved_path, summary } => {
            let mut status = new_string("Scan completed for version ");
            push_str(&mut status, version_id.as_str());
            push_str(&mut status, ". Saved: ");
            push_str(&mut status, saved_path.as_str());
            ScanOutcomeView {
                status_text: status,
                summary_text: summary.clone(),
                version_id: version_id.clone(),
            }
        },
        ScanRunResult::NoChangesDetected { version_id, saved_path, summary } => {
            let mut text = summary.clone();
            push_str(&mut text, "\nStored snapshot: ");
            push_str(&mut text, saved_path.as_str());
            ScanOutcomeView {
                status_text: new_string("No changes detected"),
                summary_text: text,
                version_id: version_id.clone(),
            }
        },
        ScanRunResult::Overwritten { version_id, saved_path, summary } => {
            let mut text = summary.clone();
            push_str(&mut text, "\nOverwritten snapshot: ");
            push_str(&mut text, saved_path.as_str());
            ScanOutcomeView {
                status_text: new_string("Overwritten successfully"),
                summary_text: text,
                version_id: version_id.clone(),
            }
        },
    }
}

/// The lines of a text as `str::lines` gives them: split at `\n`, a `\r` before a
/// `\n` dropped, and no empty line after a final `\n`.
pub open spec fn text_lines(s: Seq<char>) -> Seq<Seq<char>> {
    let ps = split_on(s, '\n');
    let n: int = if s.len() > 0 && s.last() == '\n' {
        ps.len() - 1
    } else {
        ps.len() as int
    };
    Seq::new(
        n as nat,
        |i: int|
            if i < ps.len() - 1 && ps[i].len() > 0 && ps[i].last() == '\r' {
                ps[i].drop_last()
            } else {
                ps[i]
            },
    )
}

pub const HUMAN_SUMMARY_PREVIEW_LINES: usize = 30;

pub open spec fn spec_human_summary_preview(summary: Option<Seq<char>>) -> Seq<char> {
    match summary {
        None => "Human summary preview: not stored yet for the new version."@,
        Some(s) => {
            let ls = text_lines(s);
            let shown = ls.take(first_n(HUMAN_SUMMARY_PREVIEW_LINES as int, ls.len() as int));
            join_seq(
                if ls.len() > HUMAN_SUMMARY_PREVIEW_LINES {
                    shown.push(
                        "... (human summary truncated in GUI preview; open the stored .md file for the full text)"@,
                    )
                } else {
                    shown
                },
                "\n"@,
            )
        },
    }
}

/// The first `max` lines of a text (fewer when it has fewer).
pub fn leading_lines(text: &str, max: usize) -> (r: Vec<String>)
    ensures
        views(r@) == text_lines(text@).take(first_n(max as int, text_lines(text@).len() as int)),
{
    let v = chars_of(text);
    let pieces = split_chars(&v, '\n');
    let ghost ps = split_on(v@, '\n');
    let ghost ls = text_lines(v@);
    proof {
        crate::scan::lemma_split_nonempty(v@, '\n');
    }
    let n: usize = if v.len() > 0 && v[v.len() - 1] == '\n' {
        pieces.len() - 1
    } else {
        pieces.len()
    };
    let limit: usize = if n < max {
        n
    } else {
        max
    };
    let mut lines: Vec<String> = Vec::new();
    let mut i: usize = 0;
    while i < limit
        invariant
            i <= limit <= n <= pieces@.len(),
            pieces@.len() == ps.len(),
            ps == split_on(v@, '\n'),
            ls == text_lines(v@),
            ls.len() == n,
            forall|k: int| 0 <= k < pieces@.len() ==> #[trigger] pieces@[k]@ == ps[k],
            views(lines@) == ls.take(i as int),
        decreases limit - i,
    {
        let p = &pieces[i];
        let line = if i + 1 < pieces.len() && p.len() > 0 && p[p.len() - 1] == '\r' {
            string_of(&crate::text::vec_subrange(p, 0, p.len() - 1))
        } else {
            string_of(p)
        };
        proof {
            assert(ls[i as int] == line@) by {
                if i + 1 < pieces@.len() && p@.len() > 0 && p@.last() == '\r' {
                    assert(p@.subrange(0, p@.len() - 1) =~= p@.drop_last());
                }
            }
            assert(ls.take(i + 1) =~= ls.take(i as int).push(line@));
        }
        push_text(&mut lines, line);
        i = i + 1;
    }
    proof {
        assert(v@ == text@);
    }
    lines
}

/// The first lines of the stored human summary, with a note when it was cut.
pub fn render_human_summary_preview(summary: Option<&str>) -> (r: String)
    ensures
        r@ == spec_human_summary_preview(
            match summary {
                Some(s) => Some(s@),
                None => None,
            },
        ),
{
    let text = match summary {
        Some(t) => t,
        None => return new_string("Human summary preview: not stored yet for the new version."),
    };
    let v = chars_of(text);
    let pieces = split_chars(&v, '\n');
    let ghost ps = split_on(v@, '\n');
    let ghost ls = text_lines(v@);
    proof {
        crate::scan::lemma_split_nonempty(v@, '\n');
    }
    let n: usize = if v.len() > 0 && v[v.len() - 1] == '\n' {
        pieces.len() - 1
    } else {
        pieces.len()
    };
    let limit: usize = if n < HUMAN_SUMMARY_PREVIEW_LINES {
        n
    } else {
        HUMAN_SUMMARY_PREVIEW_LINES
    };
    let mut lines: Vec<String> = Vec::new();
    let mut i: usize = 0;
    while i < limit
        invariant
            i <= limit <= n <= pieces@.len(),
            pieces@.len() == ps.len(),
            ps == split_on(v@, '\n'),
            ls == text_lines(v@),
            ls.len() == n,
            forall|k: int| 0 <= k < pieces@.len() ==> #[trigger] pieces@[k]@ == ps[k],
            views(lines@) == ls.take(i as int),
        decreases limit - i,
    {
        let p = &pieces[i];
        let line = if i + 1 < pieces.len() && p.len() > 0 && p[p.len() - 1] == '\r' {
            string_of(&crate::text::vec_subrange(p, 0, p.len() - 1))
        } else {
            string_of(p)
        };
        proof {
            assert(ls[i as int] == line@) by {
                if i + 1 < pieces@.len() && p@.len() > 0 && p@.last() == '\r' {
                    assert(p@.subrange(0, p@.len() - 1) =~= p@.drop_last());
                }
            }
            assert(ls.take(i + 1) =~= ls.take(i as int).push(line@));
        }
        push_text(&mut lines, line);
        i = i + 1;
    }
    if n > HUMAN_SUMMARY_PREVIEW_LINES {
        push_text(
            &mut lines,
            new_string(
                "... (human summary truncated in GUI preview; open the stored .md file for the full text)",
            ),
        );
    }
    proof {
        assert(v@ == text@);
    }
    join(&lines, "\n")
}

pub open spec fn bool_text(b: bool) -> Seq<char> {
    if b {
        "true"@
    } else {
        "false"@
    }
}

fn bool_str(b: bool) -> (r: &'static str)
    ensures
        r@ == bool_text(b),
{
    if b {
        "true"
    } else {
        "false"
    }
}

/// The summary of a fresh scan, from the snapshot, its scope assessment and the
/// launcher version found beside it.
pub open spec fn spec_scan_summary(
    snapshot: GameSnapshot,
    scope: SnapshotScopeAssessment,
    launcher_version: Option<Seq<char>>,
) -> Seq<char> {
    let lines = seq![
        "Scan Version "@ + snapshot.version_id@,
        "Assets: "@ + decimal(snapshot.asset_count as nat),
        "Source root: "@ + snapshot.source_root@,
        "Launcher version: "@ + match launcher_version {
            Some(v) => v,
            None => "n/a"@,
        },
        "Snapshot scope: mode="@ + opt_text_or(scope.capture_mode, "unknown"@)
            + " install_or_package_level="@ + bool_text(scope.mostly_install_or_package_level)
            + " meaningful_content="@ + bool_text(scope.meaningful_content_coverage)
            + " meaningful_character="@ + bool_text(scope.meaningful_character_coverage),
        "Coverage signals: content_like_paths="@ + decimal(
            scope.coverage.content_like_path_count as nat,
        ) + " character_paths="@ + decimal(scope.coverage.character_path_count as nat)
            + " non_content_paths="@ + decimal(scope.coverage.non_content_path_count as nat),
    ];
    let l2 = if scope.low_signal_for_character_analysis {
        lines.push(
            "Scope caution: this snapshot is install/package-level or low-coverage; deep character-level interpretation may be limited."@,
        )
    } else {
        lines
    };
    let l3 = match scope.note {
        Some(n) => l2.push("Scope note: "@ + n@),
        None => l2,
    };
    join_seq(l3, "\n"@)
}

pub fn render_scan_summary(
    snapshot: &GameSnapshot,
    scope: &SnapshotScopeAssessment,
    launcher_version: Option<&str>,
) -> (r: String)
    ensures
        r@ == spec_scan_summary(
            *snapshot,
            *scope,
            match launcher_version {
                Some(v) => Some(v@),
                None => None,
            },
        ),
{
    let mut lines: Vec<String> = Vec::new();
    let mut l = new_string("Scan Version ");
    push_str(&mut l, snapshot.version_id.as_str());
    push_text(&mut lines, l);
    let mut l = new_string("Assets: ");
    let n = decimal_string(snapshot.asset_count);
    push_str(&mut l, n.as_str());
    push_text(&mut lines, l);
    let mut l = new_string("Source root: ");
    push_str(&mut l, snapshot.source_root.as_str());
    push_text(&mut lines, l);
    let mut l = new_string("Launcher version: ");
    match launcher_version {
        Some(v) => push_str(&mut l, v),
        None => push_str(&mut l, "n/a"),
    }
    push_text(&mut lines, l);
    let mut l = new_string("Snapshot scope: mode=");
    match &scope.capture_mode {
        Some(m) => push_str(&mut l, m.as_str()),
        None => push_str(&mut l, "unknown"),
    }
    push_str(&mut l, " install_or_package_level=");
    push_str(&mut l, bool_str(scope.mostly_install_or_package_level));
    push_str(&mut l, " meaningful_content=");
    push_str(&mut l, bool_str(scope.meaningful_content_coverage));
    push_str(&mut l, " meaningful_character=");
    push_str(&mut l, bool_str(scope.meaningful_character_coverage));
    push_text(&mut lines, l);
    let mut l = new_string("Coverage signals: content_like_paths=");
    let a = decimal_string(scope.coverage.content_like_path_count);
    push_str(&mut l, a.as_str());
    push_str(&mut l, " character_paths=");
    let b = decimal_string(scope.coverage.character_path_count);
    push_str(&mut l, b.as_str());
    push_str(&mut l, " non_content_paths=");
    let c = decimal_string(scope.coverage.non_content_path_count);
    push_str(&mut l, c.as_str());
    push_text(&mut lines, l);
    proof {
        let lv = match launcher_version {
            Some(v) => Some(v@),
            None => None::<Seq<char>>,
        };
        assert(views(lines@) =~= seq![
            "Scan Version "@ + snapshot.version_id@,
            "Assets: "@ + decimal(snapshot.asset_count as nat),
            "Source root: "@ + snapshot.source_root@,
            "Launcher version: "@ + match lv {
                Some(v) => v,
                None => "n/a"@,
            },
            "Snapshot scope: mode="@ + opt_text_or(scope.capture_mode, "unknown"@)
                + " install_or_package_level="@ + bool_text(scope.mostly_install_or_package_level)
                + " meaningful_content="@ + bool_text(scope.meaningful_content_coverage)
                + " meaningful_character="@ + bool_text(scope.meaningful_character_coverage),
            "Coverage signals: content_like_paths="@ + decimal(
                scope.coverage.content_like_path_count as nat,
            ) + " character_paths="@ + decimal(scope.coverage.character_path_count as nat)
                + " non_content_paths="@ + decimal(scope.coverage.non_content_path_count as nat),
        ]);
    }
    if scope.low_signal_for_character_analysis {
        push_text(
            &mut lines,
            new_string(
                "Scope caution: this snapshot is install/package-level or low-coverage; deep character-level interpretation may be limited.",
            ),
        );
    }
    match &scope.note {
        Some(n) => {
            let mut l = new_string("Scope note: ");
            push_str(&mut l, n.as_str());
            push_text(&mut lines, l);
        },
        None => {},
    }
    join(&lines, "\n")
}

/// The compare table never shows more than the cap of item rows plus the one row that
/// counts the rest, and keeps every row when they fit.
pub proof fn compare_table_is_capped(rows: Seq<RowModel>)
    ensures
        capped_rows(rows).len() <= MAX_TABLE_ROWS + 1,
        rows.len() <= MAX_TABLE_ROWS ==> capped_rows(rows) == rows,
{
}

} // verus!
