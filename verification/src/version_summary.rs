//! The overview of one stored version: its snapshot, latest report bundle,
//! inference, mapping proposal, patch draft and human summary.
use vstd::prelude::*;
use crate::gui_app::{
    bool_text, first_n, leading_lines, spec_structured_continuity_note, spec_yes_no_lower,
    structured_continuity_note, text_lines, yes_no, VersionArtifactEntry,
};
use crate::human_summary::opt_text_or;
use crate::inference::{InferenceReport, ProbableCrashCause, SuggestedFix};
use crate::proposal::{MappingProposalEntry, MappingProposalOutput, ProposalPatchDraftOutput};
use crate::remap_summary::{
    causes_with_code, first_legacy, fixes_with_code, spec_risk_name,
};
use crate::report::{ProposalStatus, VersionDiffReportV2};
use crate::snapshot::{GameSnapshot, SnapshotContext, SnapshotScopeAssessment};
use crate::text::{
    decimal, decimal_string, fixed3, fixed3_string, join, join_seq, new_string, opt_view, push_str,
    push_text, views,
};

verus! {

/// A stored snapshot with its scope assessment and what was found beside it.
#[derive(Debug, Clone, PartialEq, Eq)]
pub struct VersionSnapshotView {
    pub snapshot: GameSnapshot,
    pub scope: SnapshotScopeAssessment,
    pub context: SnapshotContext,
}

pub open spec fn risk_text(r: crate::compare::RiskLevel) -> Seq<char> {
    spec_risk_name(r)
}

fn risk_str(r: &crate::compare::RiskLevel) -> (s: &'static str)
    ensures
        s@ == risk_text(*r),
{
    match r {
        crate::compare::RiskLevel::High => "High",
        crate::compare::RiskLevel::Medium => "Medium",
        crate::compare::RiskLevel::Low => "Low",
    }
}

/// How a proposal status is printed: `Proposed` or `NeedsReview`.
pub open spec fn status_text(s: ProposalStatus) -> Seq<char> {
    match s {
        ProposalStatus::Proposed => "Proposed"@,
        ProposalStatus::NeedsReview => "NeedsReview"@,
    }
}

fn status_str(s: &ProposalStatus) -> (r: &'static str)
    ensures
        r@ == status_text(*s),
{
    match s {
        ProposalStatus::Proposed => "Proposed",
        ProposalStatus::NeedsReview => "NeedsReview",
    }
}

fn bool_str(b: bool) -> (r: &'static str)
    ensures
        r@ == bool_text(b),
{
    if b {
        "true"
    } else {
        "false"
    }
}

// ---------------------------------------------------------------------------
// Snapshot
// ---------------------------------------------------------------------------

pub open spec fn spec_snapshot_section(view: Option<VersionSnapshotView>) -> Seq<Seq<char>> {
    match view {
        None => seq!["Snapshot: not found"@],
        Some(v) => {
            let s = v.snapshot;
            let sc = v.scope;
            seq![
                "Snapshot: assets="@ + decimal(s.asset_count as nat) + " source_root="@ + s.source_root@,
                "Snapshot scope: mode="@ + opt_text_or(sc.capture_mode, "unknown"@)
                    + " install_or_package_level="@ + bool_text(sc.mostly_install_or_package_level)
                    + " meaningful_content="@ + bool_text(sc.meaningful_content_coverage)
                    + " meaningful_character="@ + bool_text(sc.meaningful_character_coverage)
                    + " content_like_paths="@ + decimal(sc.coverage.content_like_path_count as nat)
                    + " character_paths="@ + decimal(sc.coverage.character_path_count as nat)
                    + " non_content_paths="@ + decimal(sc.coverage.non_content_path_count as nat),
            ] + (if sc.low_signal_for_character_analysis {
                seq![
                    "Snapshot caution: install/package-level or low-coverage scope; deep character/resonator interpretation may be limited."@,
                ]
            } else {
                Seq::empty()
            }) + (match sc.note {
                Some(n) => seq!["Snapshot note: "@ + n@],
                None => Seq::empty(),
            }) + (match v.context.launcher {
                Some(l) => seq![
                    "Launcher detected_version="@ + l.detected_version@ + " reuse_version="@
                        + opt_text_or(l.reuse_version, "-"@),
                ],
                None => Seq::empty(),
            }) + (match v.context.resource_manifest {
                Some(m) => seq![
                    "Hash context: resources="@ + decimal(m.resource_count as nat) + " matched_assets="@
                        + decimal(m.matched_assets as nat) + " unmatched_assets="@ + decimal(
                        m.unmatched_snapshot_assets as nat,
                    ),
                ],
                None => Seq::empty(),
            })
        },
    }
}

fn snapshot_section(view: Option<&VersionSnapshotView>) -> (r: Vec<String>)
    ensures
        views(r@) == spec_snapshot_section(
            match view {
                Some(v) => Some(*v),
                None => None,
            },
        ),
{
    let mut lines: Vec<String> = Vec::new();
    let v = match view {
        None => {
            push_text(&mut lines, new_string("Snapshot: not found"));
            return lines;
        },
        Some(v) => v,
    };
    let s = &v.snapshot;
    let sc = &v.scope;
    let mut l = new_string("Snapshot: assets=");
    let a = decimal_string(s.asset_count);
    push_str(&mut l, a.as_str());
    push_str(&mut l, " source_root=");
    push_str(&mut l, s.source_root.as_str());
    push_text(&mut lines, l);
    let mut l = new_string("Snapshot scope: mode=");
    match &sc.capture_mode {
        Some(m) => push_str(&mut l, m.as_str()),
        None => push_str(&mut l, "unknown"),
    }
    push_str(&mut l, " install_or_package_level=");
    push_str(&mut l, bool_str(sc.mostly_install_or_package_level));
    push_str(&mut l, " meaningful_content=");
    push_str(&mut l, bool_str(sc.meaningful_content_coverage));
    push_str(&mut l, " meaningful_character=");
    push_str(&mut l, bool_str(sc.meaningful_character_coverage));
    push_str(&mut l, " content_like_paths=");
    let c1 = decimal_string(sc.coverage.content_like_path_count);
    push_str(&mut l, c1.as_str());
    push_str(&mut l, " character_paths=");
    let c2 = decimal_string(sc.coverage.character_path_count);
    push_str(&mut l, c2.as_str());
    push_str(&mut l, " non_content_paths=");
    let c3 = decimal_string(sc.coverage.non_content_path_count);
    push_str(&mut l, c3.as_str());
    push_text(&mut lines, l);
    if sc.low_signal_for_character_analysis {
        push_text(
            &mut lines,
            new_string(
                "Snapshot caution: install/package-level or low-coverage scope; deep character/resonator interpretation may be limited.",
            ),
        );
    }
    match &sc.note {
        Some(n) => {
            let mut l = new_string("Snapshot note: ");
            push_str(&mut l, n.as_str());
            push_text(&mut lines, l);
        },
        None => {},
    }
    match &v.context.launcher {
        Some(launcher) => {
            let mut l = new_string("Launcher detected_version=");
            push_str(&mut l, launcher.detected_version.as_str());
            push_str(&mut l, " reuse_version=");
            match &launcher.reuse_version {
                Some(x) => push_str(&mut l, x.as_str()),
                None => push_str(&mut l, "-"),
            }
            push_text(&mut lines, l);
        },
        None => {},
    }
    match &v.context.resource_manifest {
        Some(m) => {
            let mut l = new_string("Hash context: resources=");
            let x = decimal_string(m.resource_count);
            push_str(&mut l, x.as_str());
            push_str(&mut l, " matched_assets=");
            let y = decimal_string(m.matched_assets);
            push_str(&mut l, y.as_str());
            push_str(&mut l, " unmatched_assets=");
            let z = decimal_string(m.unmatched_snapshot_assets);
            push_str(&mut l, z.as_str());
            push_text(&mut lines, l);
        },
        None => {},
    }
    proof {
        assert(views(lines@) =~= spec_snapshot_section(Some(*v)));
    }
    lines
}

// ---------------------------------------------------------------------------
// Report bundle
// ---------------------------------------------------------------------------

pub open spec fn spec_report_section(report: Option<VersionDiffReportV2>) -> Seq<Seq<char>> {
    match report {
        None => seq!["Latest report bundle: not found"@],
        Some(r) => {
            let notes = views(r.scope_notes@);
            seq![
                "Latest report bundle: "@ + r.old_version.version_id@ + " -> "@
                    + r.new_version.version_id@ + " | changed="@ + decimal(
                    r.summary.changed_items as nat,
                ) + " added="@ + decimal(r.summary.added_items as nat) + " removed="@ + decimal(
                    r.summary.removed_items as nat,
                ) + " mapping_candidates="@ + decimal(r.summary.mapping_candidates as nat),
            ] + crate::remap_summary::first_n(notes, 3).map_values(
                |n: Seq<char>| "Report scope note: "@ + n,
            )
        },
    }
}

fn report_section(report: Option<&VersionDiffReportV2>) -> (r: Vec<String>)
    ensures
        views(r@) == spec_report_section(
            match report {
                Some(x) => Some(*x),
                None => None,
            },
        ),
{
    let mut lines: Vec<String> = Vec::new();
    let r = match report {
        None => {
            push_text(&mut lines, new_string("Latest report bundle: not found"));
            return lines;
        },
        Some(r) => r,
    };
    let mut l = new_string("Latest report bundle: ");
    push_str(&mut l, r.old_version.version_id.as_str());
    push_str(&mut l, " -> ");
    push_str(&mut l, r.new_version.version_id.as_str());
    push_str(&mut l, " | changed=");
    let a = decimal_string(r.summary.changed_items);
    push_str(&mut l, a.as_str());
    push_str(&mut l, " added=");
    let b = decimal_string(r.summary.added_items);
    push_str(&mut l, b.as_str());
    push_str(&mut l, " removed=");
    let c = decimal_string(r.summary.removed_items);
    push_str(&mut l, c.as_str());
    push_str(&mut l, " mapping_candidates=");
    let d = decimal_string(r.summary.mapping_candidates);
    push_str(&mut l, d.as_str());
    push_text(&mut lines, l);
    let ghost head = views(lines@);
    let ghost notes = views(r.scope_notes@);
    let n: usize = if r.scope_notes.len() <= 3 {
        r.scope_notes.len()
    } else {
        3
    };
    let mut i: usize = 0;
    while i < n
        invariant
            i <= n <= r.scope_notes@.len(),
            notes == views(r.scope_notes@),
            views(lines@) == head + notes.take(i as int).map_values(
                |x: Seq<char>| "Report scope note: "@ + x,
            ),
        decreases n - i,
    {
        let mut l = new_string("Report scope note: ");
        push_str(&mut l, r.scope_notes[i].as_str());
        push_text(&mut lines, l);
        proof {
            assert(notes.take(i + 1).map_values(|x: Seq<char>| "Report scope note: "@ + x)
                =~= notes.take(i as int).map_values(|x: Seq<char>| "Report scope note: "@ + x).push(
                "Report scope note: "@ + notes[i as int],
            ));
        }
        i = i + 1;
    }
    proof {
        if notes.len() <= 3 {
            assert(notes.take(n as int) =~= notes);
        }
        assert(views(lines@) =~= spec_report_section(Some(*r)));
    }
    lines
}

// ---------------------------------------------------------------------------
// Inference
// ---------------------------------------------------------------------------

pub open spec fn spec_cause_line(c: ProbableCrashCause) -> Seq<char> {
    "  crash cause ["@ + c.code@ + "] risk="@ + risk_text(c.risk) + " confidence="@ + fixed3(
        c.confidence_milli as nat,
    ) + " affected="@ + decimal(c.affected_assets@.len())
}

pub open spec fn spec_fix_line(f: SuggestedFix) -> Seq<char> {
    "  suggested fix ["@ + f.code@ + "] priority="@ + risk_text(f.priority) + " confidence="@ + fixed3(
        f.confidence_milli as nat,
    ) + " actions="@ + decimal(f.actions@.len())
}

pub open spec fn spec_inference_caution(inf: InferenceReport) -> Seq<Seq<char>> {
    let cc = causes_with_code(inf.probable_crash_causes@, "continuity_thread_instability"@);
    let cf = fixes_with_code(inf.suggested_fixes@, "review_continuity_thread_history_before_repair"@);
    if cc.len() > 0 || cf.len() > 0 {
        seq![
            "Continuity caution: unstable_causes="@ + decimal(cc.len()) + " review_fix="@
                + spec_yes_no_lower(cf.len() > 0) + " "@,
        ] + (if cc.len() > 0 {
            seq![
                "  continuity cause ["@ + cc[0].code@ + "] risk="@ + risk_text(cc[0].risk)
                    + " confidence="@ + fixed3(cc[0].confidence_milli as nat),
            ]
        } else {
            Seq::empty()
        }) + (if cf.len() > 0 {
            seq![
                "  continuity fix ["@ + cf[0].code@ + "] priority="@ + risk_text(cf[0].priority)
                    + " confidence="@ + fixed3(cf[0].confidence_milli as nat),
            ]
        } else {
            Seq::empty()
        })
    } else {
        Seq::empty()
    }
}

pub open spec fn spec_inference_section(inference: Option<InferenceReport>) -> Seq<Seq<char>> {
    match inference {
        None => seq!["Inference: not found"@],
        Some(inf) => seq![
            "Inference: crash_causes="@ + decimal(inf.summary.probable_crash_causes as nat)
                + " fixes="@ + decimal(inf.summary.suggested_fixes as nat) + " mapping_hints="@
                + decimal(inf.summary.candidate_mapping_hints as nat) + " highest_confidence="@
                + fixed3(inf.summary.highest_confidence_milli as nat),
        ] + crate::remap_summary::first_n(inf.probable_crash_causes@, 3).map_values(
            |c: ProbableCrashCause| spec_cause_line(c),
        ) + crate::remap_summary::first_n(inf.suggested_fixes@, 3).map_values(
            |f: SuggestedFix| spec_fix_line(f),
        ) + spec_inference_caution(inf),
    }
}

fn cause_line(c: &ProbableCrashCause) -> (r: String)
    ensures
        r@ == spec_cause_line(*c),
{
    let mut l = new_string("  crash cause [");
    push_str(&mut l, c.code.as_str());
    push_str(&mut l, "] risk=");
    push_str(&mut l, risk_str(&c.risk));
    push_str(&mut l, " confidence=");
    let x = fixed3_string(c.confidence_milli);
    push_str(&mut l, x.as_str());
    push_str(&mut l, " affected=");
    let y = decimal_string(c.affected_assets.len());
    push_str(&mut l, y.as_str());
    l
}

fn fix_line(f: &SuggestedFix) -> (r: String)
    ensures
        r@ == spec_fix_line(*f),
{
    let mut l = new_string("  suggested fix [");
    push_str(&mut l, f.code.as_str());
    push_str(&mut l, "] priority=");
    push_str(&mut l, risk_str(&f.priority));
    push_str(&mut l, " confidence=");
    let x = fixed3_string(f.confidence_milli);
    push_str(&mut l, x.as_str());
    push_str(&mut l, " actions=");
    let y = decimal_string(f.actions.len());
    push_str(&mut l, y.as_str());
    l
}

fn cause_lines(cs: &Vec<ProbableCrashCause>) -> (r: Vec<String>)
    ensures
        views(r@) == crate::remap_summary::first_n(cs@, 3).map_values(
            |c: ProbableCrashCause| spec_cause_line(c),
        ),
{
    let n: usize = if cs.len() <= 3 {
        cs.len()
    } else {
        3
    };
    let mut lines: Vec<String> = Vec::new();
    let mut i: usize = 0;
    proof {
        assert(views(lines@) =~= cs@.take(0).map_values(|c: ProbableCrashCause| spec_cause_line(c)));
    }
    while i < n
        invariant
            i <= n <= cs@.len(),
            views(lines@) == cs@.take(i as int).map_values(|c: ProbableCrashCause| spec_cause_line(c)),
        decreases n - i,
    {
        push_text(&mut lines, cause_line(&cs[i]));
        proof {
            assert(cs@.take(i + 1).map_values(|c: ProbableCrashCause| spec_cause_line(c))
                =~= cs@.take(i as int).map_values(|c: ProbableCrashCause| spec_cause_line(c)).push(
                spec_cause_line(cs@[i as int]),
            ));
        }
        i = i + 1;
    }
    proof {
        if cs@.len() <= 3 {
            assert(cs@.take(n as int) =~= cs@);
        }
    }
    lines
}

fn fix_lines(fs: &Vec<SuggestedFix>) -> (r: Vec<String>)
    ensures
        views(r@) == crate::remap_summary::first_n(fs@, 3).map_values(
            |f: SuggestedFix| spec_fix_line(f),
        ),
{
    let n: usize = if fs.len() <= 3 {
        fs.len()
    } else {
        3
    };
    let mut lines: Vec<String> = Vec::new();
    let mut i: usize = 0;
    proof {
        assert(views(lines@) =~= fs@.take(0).map_values(|f: SuggestedFix| spec_fix_line(f)));
    }
    while i < n
        invariant
            i <= n <= fs@.len(),
            views(lines@) == fs@.take(i as int).map_values(|f: SuggestedFix| spec_fix_line(f)),
        decreases n - i,
    {
        push_text(&mut lines, fix_line(&fs[i]));
        proof {
            assert(fs@.take(i + 1).map_values(|f: SuggestedFix| spec_fix_line(f)) =~= fs@.take(
                i as int,
            ).map_values(|f: SuggestedFix| spec_fix_line(f)).push(spec_fix_line(fs@[i as int])));
        }
        i = i + 1;
    }
    proof {
        if fs@.len() <= 3 {
            assert(fs@.take(n as int) =~= fs@);
        }
    }
    lines
}

fn inference_caution(inf: &InferenceReport) -> (r: Vec<String>)
    ensures
        views(r@) == spec_inference_caution(*inf),
{
    let causes = &inf.probable_crash_causes;
    let fixes = &inf.suggested_fixes;
    let (ncc, fcc) = crate::remap_summary::causes_with_code_exec(
        causes,
        "continuity_thread_instability",
    );
    let (ncf, fcf) = crate::remap_summary::fixes_with_code_exec(
        fixes,
        "review_continuity_thread_history_before_repair",
    );
    let mut lines: Vec<String> = Vec::new();
    if ncc > 0 || ncf > 0 {
        let mut l = new_string("Continuity caution: unstable_causes=");
        let a = decimal_string(ncc);
        push_str(&mut l, a.as_str());
        push_str(&mut l, " review_fix=");
        push_str(&mut l, yes_no(ncf > 0));
        push_str(&mut l, " ");
        push_text(&mut lines, l);
        let ghost head = views(lines@);
        match fcc {
            Some(i) => {
                let c = &causes[i];
                let mut l = new_string("  continuity cause [");
                push_str(&mut l, c.code.as_str());
                push_str(&mut l, "] risk=");
                push_str(&mut l, risk_str(&c.risk));
                push_str(&mut l, " confidence=");
                let x = fixed3_string(c.confidence_milli);
                push_str(&mut l, x.as_str());
                push_text(&mut lines, l);
            },
            None => {},
        }
        let ghost mid = views(lines@);
        match fcf {
            Some(i) => {
                let f = &fixes[i];
                let mut l = new_string("  continuity fix [");
                push_str(&mut l, f.code.as_str());
                push_str(&mut l, "] priority=");
                push_str(&mut l, risk_str(&f.priority));
                push_str(&mut l, " confidence=");
                let x = fixed3_string(f.confidence_milli);
                push_str(&mut l, x.as_str());
                push_text(&mut lines, l);
            },
            None => {},
        }
        proof {
            let cc = causes_with_code(causes@, "continuity_thread_instability"@);
            assert(mid =~= head + (if cc.len() > 0 {
                seq![
                    "  continuity cause ["@ + cc[0].code@ + "] risk="@ + risk_text(cc[0].risk)
                        + " confidence="@ + fixed3(cc[0].confidence_milli as nat),
                ]
            } else {
                Seq::<Seq<char>>::empty()
            }));
            assert(views(lines@) =~= spec_inference_caution(*inf));
        }
    } else {
        proof {
            assert(views(lines@) =~= spec_inference_caution(*inf));
        }
    }
    lines
}

fn inference_section(inference: Option<&InferenceReport>) -> (r: Vec<String>)
    ensures
        views(r@) == spec_inference_section(
            match inference {
                Some(x) => Some(*x),
                None => None,
            },
        ),
{
    let mut lines: Vec<String> = Vec::new();
    let inf = match inference {
        None => {
            push_text(&mut lines, new_string("Inference: not found"));
            return lines;
        },
        Some(x) => x,
    };
    let mut l = new_string("Inference: crash_causes=");
    let a = decimal_string(inf.summary.probable_crash_causes);
    push_str(&mut l, a.as_str());
    push_str(&mut l, " fixes=");
    let b = decimal_string(inf.summary.suggested_fixes);
    push_str(&mut l, b.as_str());
    push_str(&mut l, " mapping_hints=");
    let c = decimal_string(inf.summary.candidate_mapping_hints);
    push_str(&mut l, c.as_str());
    push_str(&mut l, " highest_confidence=");
    let d = fixed3_string(inf.summary.highest_confidence_milli);
    push_str(&mut l, d.as_str());
    push_text(&mut lines, l);
    crate::text::append_texts(&mut lines, cause_lines(&inf.probable_crash_causes));
    crate::text::append_texts(&mut lines, fix_lines(&inf.suggested_fixes));
    crate::text::append_texts(&mut lines, inference_caution(inf));
    proof {
        assert(views(lines@) =~= spec_inference_section(Some(*inf)));
    }
    lines
}

// ---------------------------------------------------------------------------
// Mapping proposal
// ---------------------------------------------------------------------------

/// The note that keeps a mapping review-first: the structured continuity note,
/// else the first reason, else the first evidence, that speaks of continuity.
pub open spec fn spec_gui_note(m: MappingProposalEntry) -> Option<Seq<char>> {
    let structured = match m.continuity {
        Some(c) => spec_structured_continuity_note(c),
        None => None,
    };
    match structured {
        Some(x) => Some(x),
        None => match first_legacy(views(m.reasons@)) {
            Some(x) => Some(x),
            None => first_legacy(views(m.evidence@)),
        },
    }
}

pub open spec fn spec_gui_caution(m: MappingProposalEntry) -> bool {
    (m.continuity matches Some(c) && c.spec_has_review_caution()) || spec_gui_note(m) is Some
}

pub open spec fn with_gui_caution(ms: Seq<MappingProposalEntry>) -> Seq<MappingProposalEntry>
    decreases ms.len(),
{
    if ms.len() == 0 {
        Seq::empty()
    } else if spec_gui_caution(ms.last()) {
        with_gui_caution(ms.drop_last()).push(ms.last())
    } else {
        with_gui_caution(ms.drop_last())
    }
}

pub open spec fn spec_mapping_line(m: MappingProposalEntry) -> Seq<char> {
    "  "@ + m.old_asset_path@ + " -> "@ + m.new_asset_path@ + " | status="@ + status_text(m.status)
        + " confidence="@ + fixed3(m.confidence_milli as nat)
}

pub open spec fn spec_review_line(m: MappingProposalEntry) -> Seq<char> {
    "  continuity review "@ + m.old_asset_path@ + " -> "@ + m.new_asset_path@ + " | "@ + match spec_gui_note(m) {
        Some(n) => n,
        None => "broader continuity history keeps this mapping review-first"@,
    }
}

pub open spec fn spec_mapping_section(output: Option<MappingProposalOutput>) -> Seq<Seq<char>> {
    match output {
        None => seq!["Mapping proposal: not found"@],
        Some(o) => {
            let ms = o.mappings@;
            let crm = with_gui_caution(ms);
            seq![
                "Mapping proposal: proposed="@ + decimal(o.summary.proposed_mappings as nat)
                    + " review="@ + decimal(o.summary.needs_review_mappings as nat) + " total="@
                    + decimal(o.summary.total_mapping_candidates as nat) + " highest_confidence="@
                    + fixed3(o.summary.highest_confidence_milli as nat),
            ] + crate::remap_summary::first_n(ms, 5).map_values(
                |m: MappingProposalEntry| spec_mapping_line(m),
            ) + (if crm.len() > 0 {
                seq!["  continuity-backed review mappings="@ + decimal(crm.len())]
                    + crate::remap_summary::first_n(crm, 2).map_values(
                    |m: MappingProposalEntry| spec_review_line(m),
                )
            } else {
                Seq::empty()
            })
        },
    }
}

fn first_legacy_of(rs: &Vec<String>) -> (r: Option<String>)
    ensures
        opt_view(r) == first_legacy(views(rs@)),
{
    let ghost all = views(rs@);
    let mut i: usize = 0;
    proof {
        assert(all.subrange(0, all.len() as int) =~= all);
    }
    while i < rs.len()
        invariant
            i <= rs@.len(),
            all == views(rs@),
            first_legacy(all) == first_legacy(all.subrange(i as int, all.len() as int)),
        decreases rs.len() - i,
    {
        let ghost rest = all.subrange(i as int, all.len() as int);
        proof {
            assert(rest[0] == rs@[i as int]@);
            assert(rest.drop_first() =~= all.subrange(i + 1, all.len() as int));
        }
        if crate::human_summary::is_legacy_continuity_text(rs[i].as_str()) {
            return Some(rs[i].clone());
        }
        i = i + 1;
    }
    proof {
        assert(all.subrange(all.len() as int, all.len() as int) =~= Seq::<Seq<char>>::empty());
    }
    None
}

fn gui_note(m: &MappingProposalEntry) -> (r: Option<String>)
    ensures
        opt_view(r) == spec_gui_note(*m),
{
    let structured = match &m.continuity {
        Some(c) => structured_continuity_note(c),
        None => None,
    };
    match structured {
        Some(x) => Some(x),
        None => match first_legacy_of(&m.reasons) {
            Some(x) => Some(x),
            None => first_legacy_of(&m.evidence),
        },
    }
}

fn gui_caution(m: &MappingProposalEntry) -> (r: bool)
    ensures
        r == spec_gui_caution(*m),
{
    let structured = match &m.continuity {
        Some(c) => c.has_review_caution(),
        None => false,
    };
    structured || gui_note(m).is_some()
}

fn mapping_line(m: &MappingProposalEntry) -> (r: String)
    ensures
        r@ == spec_mapping_line(*m),
{
    let mut l = new_string("  ");
    push_str(&mut l, m.old_asset_path.as_str());
    push_str(&mut l, " -> ");
    push_str(&mut l, m.new_asset_path.as_str());
    push_str(&mut l, " | status=");
    push_str(&mut l, status_str(&m.status));
    push_str(&mut l, " confidence=");
    let x = fixed3_string(m.confidence_milli);
    push_str(&mut l, x.as_str());
    l
}

fn review_line(m: &MappingProposalEntry) -> (r: String)
    ensures
        r@ == spec_review_line(*m),
{
    let mut l = new_string("  continuity review ");
    push_str(&mut l, m.old_asset_path.as_str());
    push_str(&mut l, " -> ");
    push_str(&mut l, m.new_asset_path.as_str());
    push_str(&mut l, " | ");
    match gui_note(m) {
        Some(n) => push_str(&mut l, n.as_str()),
        None => push_str(&mut l, "broader continuity history keeps this mapping review-first"),
    }
    l
}

fn mapping_lines(ms: &Vec<MappingProposalEntry>) -> (r: Vec<String>)
    ensures
        views(r@) == crate::remap_summary::first_n(ms@, 5).map_values(
            |m: MappingProposalEntry| spec_mapping_line(m),
        ),
{
    let n: usize = if ms.len() <= 5 {
        ms.len()
    } else {
        5
    };
    let mut lines: Vec<String> = Vec::new();
    let mut i: usize = 0;
    proof {
        assert(views(lines@) =~= ms@.take(0).map_values(
            |m: MappingProposalEntry| spec_mapping_line(m),
        ));
    }
    while i < n
        invariant
            i <= n <= ms@.len(),
            views(lines@) == ms@.take(i as int).map_values(
                |m: MappingProposalEntry| spec_mapping_line(m),
            ),
        decreases n - i,
    {
        push_text(&mut lines, mapping_line(&ms[i]));
        proof {
            assert(ms@.take(i + 1).map_values(|m: MappingProposalEntry| spec_mapping_line(m))
                =~= ms@.take(i as int).map_values(
                |m: MappingProposalEntry| spec_mapping_line(m),
            ).push(spec_mapping_line(ms@[i as int])));
        }
        i = i + 1;
    }
    proof {
        if ms@.len() <= 5 {
            assert(ms@.take(n as int) =~= ms@);
        }
    }
    lines
}

/// The positions of the mappings that continuity keeps review-first.
fn gui_caution_positions(ms: &Vec<MappingProposalEntry>) -> (r: Vec<usize>)
    ensures
        forall|k: int| 0 <= k < r@.len() ==> #[trigger] r@[k] < ms@.len(),
        crate::order::picked(ms@, r@) == with_gui_caution(ms@),
{
    let mut out: Vec<usize> = Vec::new();
    let mut i: usize = 0;
    proof {
        assert(ms@.take(0) =~= Seq::<MappingProposalEntry>::empty());
        assert(crate::order::picked(ms@, out@) =~= Seq::<MappingProposalEntry>::empty());
    }
    while i < ms.len()
        invariant
            i <= ms@.len(),
            forall|k: int| 0 <= k < out@.len() ==> #[trigger] out@[k] < ms@.len(),
            crate::order::picked(ms@, out@) == with_gui_caution(ms@.take(i as int)),
        decreases ms.len() - i,
    {
        proof {
            assert(ms@.take(i + 1).drop_last() =~= ms@.take(i as int));
            assert(ms@.take(i + 1).last() == ms@[i as int]);
        }
        if gui_caution(&ms[i]) {
            let ghost prev = crate::order::picked(ms@, out@);
            out.push(i);
            proof {
                assert(crate::order::picked(ms@, out@) =~= prev.push(ms@[i as int]));
            }
        }
        i = i + 1;
    }
    proof {
        assert(ms@.take(ms@.len() as int) =~= ms@);
    }
    out
}

fn review_lines(ms: &Vec<MappingProposalEntry>) -> (r: Vec<String>)
    ensures
        views(r@) == (if with_gui_caution(ms@).len() > 0 {
            seq!["  continuity-backed review mappings="@ + decimal(with_gui_caution(ms@).len())]
                + crate::remap_summary::first_n(with_gui_caution(ms@), 2).map_values(
                |m: MappingProposalEntry| spec_review_line(m),
            )
        } else {
            Seq::empty()
        }),
{
    let sel = gui_caution_positions(ms);
    let ghost crm = with_gui_caution(ms@);
    let mut lines: Vec<String> = Vec::new();
    if sel.len() == 0 {
        proof {
            assert(views(lines@) =~= Seq::<Seq<char>>::empty());
        }
        return lines;
    }
    let mut l = new_string("  continuity-backed review mappings=");
    let a = decimal_string(sel.len());
    push_str(&mut l, a.as_str());
    push_text(&mut lines, l);
    let ghost head = views(lines@);
    let n: usize = if sel.len() <= 2 {
        sel.len()
    } else {
        2
    };
    let mut i: usize = 0;
    proof {
        assert(crm.take(0).map_values(|m: MappingProposalEntry| spec_review_line(m))
            =~= Seq::<Seq<char>>::empty());
    }
    while i < n
        invariant
            i <= n <= sel@.len(),
            crm == with_gui_caution(ms@),
            crate::order::picked(ms@, sel@) == crm,
            forall|k: int| 0 <= k < sel@.len() ==> #[trigger] sel@[k] < ms@.len(),
            views(lines@) == head + crm.take(i as int).map_values(
                |m: MappingProposalEntry| spec_review_line(m),
            ),
        decreases n - i,
    {
        push_text(&mut lines, review_line(&ms[sel[i]]));
        proof {
            assert(crm[i as int] == ms@[sel@[i as int] as int]);
            assert(crm.take(i + 1).map_values(|m: MappingProposalEntry| spec_review_line(m))
                =~= crm.take(i as int).map_values(
                |m: MappingProposalEntry| spec_review_line(m),
            ).push(spec_review_line(crm[i as int])));
        }
        i = i + 1;
    }
    proof {
        if crm.len() <= 2 {
            assert(crm.take(n as int) =~= crm);
        }
    }
    lines
}

fn mapping_section(output: Option<&MappingProposalOutput>) -> (r: Vec<String>)
    ensures
        views(r@) == spec_mapping_section(
            match output {
                Some(x) => Some(*x),
                None => None,
            },
        ),
{
    let mut lines: Vec<String> = Vec::new();
    let o = match output {
        None => {
            push_text(&mut lines, new_string("Mapping proposal: not found"));
            return lines;
        },
        Some(x) => x,
    };
    let mut l = new_string("Mapping proposal: proposed=");
    let a = decimal_string(o.summary.proposed_mappings);
    push_str(&mut l, a.as_str());
    push_str(&mut l, " review=");
    let b = decimal_string(o.summary.needs_review_mappings);
    push_str(&mut l, b.as_str());
    push_str(&mut l, " total=");
    let c = decimal_string(o.summary.total_mapping_candidates);
    push_str(&mut l, c.as_str());
    push_str(&mut l, " highest_confidence=");
    let d = fixed3_string(o.summary.highest_confidence_milli);
    push_str(&mut l, d.as_str());
    push_text(&mut lines, l);
    crate::text::append_texts(&mut lines, mapping_lines(&o.mappings));
    crate::text::append_texts(&mut lines, review_lines(&o.mappings));
    proof {
        assert(views(lines@) =~= spec_mapping_section(Some(*o)));
    }
    lines
}

// ---------------------------------------------------------------------------
// Patch draft, human summary, whole overview
// ---------------------------------------------------------------------------

pub open spec fn spec_patch_line(draft: Option<ProposalPatchDraftOutput>) -> Seq<char> {
    match draft {
        None => "Patch draft: not found"@,
        Some(d) => "Patch draft: actions="@ + decimal(d.actions@.len()) + " min_confidence="@
            + fixed3(d.min_confidence_milli as nat),
    }
}

pub open spec fn spec_preview_section(summary: Option<Seq<char>>) -> Seq<Seq<char>> {
    match summary {
        None => seq!["Human summary preview: not found"@],
        Some(s) => seq!["Human summary preview:"@] + text_lines(s).take(
            first_n(6, text_lines(s).len() as int),
        ).map_values(|l: Seq<char>| "  "@ + l),
    }
}

/// The lines of a stored version's overview.
pub open spec fn spec_version_summary_lines(
    version_id: Seq<char>,
    snapshot: Option<VersionSnapshotView>,
    report: Option<VersionDiffReportV2>,
    inference: Option<InferenceReport>,
    mapping_proposal: Option<MappingProposalOutput>,
    patch_draft: Option<ProposalPatchDraftOutput>,
    human_summary: Option<Seq<char>>,
    artifact_count: nat,
) -> Seq<Seq<char>> {
    seq!["Version: wuwa_"@ + version_id, "Artifacts: "@ + decimal(artifact_count)]
        + spec_snapshot_section(snapshot) + spec_report_section(report) + spec_inference_section(
        inference,
    ) + spec_mapping_section(mapping_proposal) + seq![spec_patch_line(patch_draft)]
        + spec_preview_section(human_summary)
}

fn preview_section(summary: Option<&str>) -> (r: Vec<String>)
    ensures
        views(r@) == spec_preview_section(
            match summary {
                Some(s) => Some(s@),
                None => None,
            },
        ),
{
    let mut lines: Vec<String> = Vec::new();
    let s = match summary {
        None => {
            push_text(&mut lines, new_string("Human summary preview: not found"));
            return lines;
        },
        Some(s) => s,
    };
    push_text(&mut lines, new_string("Human summary preview:"));
    let firsts = leading_lines(s, 6);
    let ghost ls = views(firsts@);
    let ghost head = views(lines@);
    let mut i: usize = 0;
    while i < firsts.len()
        invariant
            i <= firsts@.len(),
            ls == views(firsts@),
            views(lines@) == head + ls.take(i as int).map_values(|l: Seq<char>| "  "@ + l),
        decreases firsts.len() - i,
    {
        let mut l = new_string("  ");
        push_str(&mut l, firsts[i].as_str());
        push_text(&mut lines, l);
        proof {
            assert(ls.take(i + 1).map_values(|l: Seq<char>| "  "@ + l) =~= ls.take(
                i as int,
            ).map_values(|l: Seq<char>| "  "@ + l).push("  "@ + ls[i as int]));
        }
        i = i + 1;
    }
    proof {
        assert(ls.take(ls.len() as int) =~= ls);
        assert(views(lines@) =~= spec_preview_section(Some(s@)));
    }
    lines
}

/// The overview of one stored version, one line per fact, each section saying
/// `not found` when its artifact is missing.
pub fn render_version_summary(
    version_id: &str,
    snapshot: Option<&VersionSnapshotView>,
    report: Option<&VersionDiffReportV2>,
    inference: Option<&InferenceReport>,
    mapping_proposal: Option<&MappingProposalOutput>,
    patch_draft: Option<&ProposalPatchDraftOutput>,
    human_summary: Option<&str>,
    artifacts: &Vec<VersionArtifactEntry>,
) -> (r: String)
    ensures
        r@ == join_seq(
            spec_version_summary_lines(
                version_id@,
                match snapshot {
                    Some(x) => Some(*x),
                    None => None,
                },
                match report {
                    Some(x) => Some(*x),
                    None => None,
                },
                match inference {
                    Some(x) => Some(*x),
                    None => None,
                },
                match mapping_proposal {
                    Some(x) => Some(*x),
                    None => None,
                },
                match patch_draft {
                    Some(x) => Some(*x),
                    None => None,
                },
                match human_summary {
                    Some(s) => Some(s@),
                    None => None,
                },
                artifacts@.len(),
            ),
            "\n"@,
        ),
{
    let mut lines: Vec<String> = Vec::new();
    let mut l = new_string("Version: wuwa_");
    push_str(&mut l, version_id);
    push_text(&mut lines, l);
    let mut l = new_string("Artifacts: ");
    let n = decimal_string(artifacts.len());
    push_str(&mut l, n.as_str());
    push_text(&mut lines, l);
    crate::text::append_texts(&mut lines, snapshot_section(snapshot));
    crate::text::append_texts(&mut lines, report_section(report));
    crate::text::append_texts(&mut lines, inference_section(inference));
    crate::text::append_texts(&mut lines, mapping_section(mapping_proposal));
    let patch = match patch_draft {
        None => new_string("Patch draft: not found"),
        Some(d) => {
            let mut l = new_string("Patch draft: actions=");
            let a = decimal_string(d.actions.len());
            push_str(&mut l, a.as_str());
            push_str(&mut l, " min_confidence=");
            let b = fixed3_string(d.min_confidence_milli);
            push_str(&mut l, b.as_str());
            l
        },
    };
    push_text(&mut lines, patch);
    crate::text::append_texts(&mut lines, preview_section(human_summary));
    proof {
        assert(views(lines@) =~= spec_version_summary_lines(
            version_id@,
            match snapshot {
                Some(x) => Some(*x),
                None => None,
            },
            match report {
                Some(x) => Some(*x),
                None => None,
            },
            match inference {
                Some(x) => Some(*x),
                None => None,
            },
            match mapping_proposal {
                Some(x) => Some(*x),
                None => None,
            },
            match patch_draft {
                Some(x) => Some(*x),
                None => None,
            },
            match human_summary {
                Some(s) => Some(s@),
                None => None,
            },
            artifacts@.len(),
        ));
    }
    join(&lines, "\n")
}

} // verus!
