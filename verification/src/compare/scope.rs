//! The scope context of a snapshot compare: what each side's capture covers and the
//! notes that tell the reader how far to trust the compare.
use vstd::prelude::*;
use crate::compare::{
    has_shallow_hash_or_manifest_only_support, scope_narrowing_interpretation_note,
    spec_scope_note, spec_shallow_support, SnapshotCompareSummary,
};
use crate::snapshot::{SnapshotCaptureQualitySummary, SnapshotScopeAssessment};
use crate::text::{
    clone_opt_string, contains, decimal, decimal_string, join, join_seq, new_string, opt_view,
    push_str, push_text, seq_contains, str_eq, views,
};

verus! {

/// One side of the compare: the capture's scope and quality.
#[derive(Debug, Clone, PartialEq, Eq)]
pub struct SnapshotCompareScopeInfo {
    pub acquisition_kind: Option<String>,
    pub capture_mode: Option<String>,
    pub launcher_detected_version: Option<String>,
    pub launcher_reuse_version: Option<String>,
    pub launcher_version_matches_snapshot: Option<bool>,
    pub manifest_resource_count: usize,
    pub manifest_matched_assets: usize,
    pub manifest_unmatched_snapshot_assets: usize,
    pub assets_with_asset_hash: usize,
    pub assets_with_any_hash: usize,
    pub assets_with_signature: usize,
    pub assets_with_source_context: usize,
    pub assets_with_rich_metadata: usize,
    pub meaningfully_enriched_assets: usize,
    pub extractor_record_count: usize,
    pub extractor_records_with_hashes: usize,
    pub extractor_records_with_source_context: usize,
    pub extractor_records_with_rich_metadata: usize,
    pub extractor_inventory_schema_version: Option<String>,
    pub extractor_inventory_version_id: Option<String>,
    pub extractor_inventory_version_matches_snapshot: Option<bool>,
    pub launcher_version_matches_extractor_inventory: Option<bool>,
    pub mostly_install_or_package_level: bool,
    pub meaningful_content_coverage: bool,
    pub meaningful_character_coverage: bool,
    pub meaningful_asset_record_enrichment: bool,
    pub content_like_path_count: usize,
    pub character_path_count: usize,
    pub non_content_path_count: usize,
    pub low_signal_for_character_analysis: bool,
    pub note: Option<String>,
}

#[derive(Debug, Clone, PartialEq, Eq)]
pub struct SnapshotCompareScopeContext {
    pub old_snapshot: SnapshotCompareScopeInfo,
    pub new_snapshot: SnapshotCompareScopeInfo,
    pub low_signal_compare: bool,
    pub scope_narrowing_detected: bool,
    pub scope_induced_removals_likely: bool,
    pub notes: Vec<String>,
}

#[derive(Debug, Clone, PartialEq, Eq)]
pub struct SnapshotVersionInfo {
    pub version_id: String,
    pub source_root: String,
    pub asset_count: usize,
}

/// `info` restates the scope and quality of one side.
pub open spec fn info_of(
    info: SnapshotCompareScopeInfo,
    scope: SnapshotScopeAssessment,
    q: SnapshotCaptureQualitySummary,
) -> bool {
    &&& opt_view(info.acquisition_kind) == opt_view(scope.acquisition_kind)
    &&& opt_view(info.capture_mode) == opt_view(scope.capture_mode)
    &&& opt_view(info.launcher_detected_version) == opt_view(q.launcher_detected_version)
    &&& opt_view(info.launcher_reuse_version) == opt_view(q.launcher_reuse_version)
    &&& info.launcher_version_matches_snapshot == q.launcher_version_matches_snapshot
    &&& info.manifest_resource_count == q.manifest_resource_count
    &&& info.manifest_matched_assets == q.manifest_matched_assets
    &&& info.manifest_unmatched_snapshot_assets == q.manifest_unmatched_snapshot_assets
    &&& info.assets_with_asset_hash == q.assets_with_asset_hash
    &&& info.assets_with_any_hash == q.assets_with_any_hash
    &&& info.assets_with_signature == q.assets_with_signature
    &&& info.assets_with_source_context == q.assets_with_source_context
    &&& info.assets_with_rich_metadata == q.assets_with_rich_metadata
    &&& info.meaningfully_enriched_assets == q.meaningfully_enriched_assets
    &&& info.extractor_record_count == q.extractor_record_count
    &&& info.extractor_records_with_hashes == q.extractor_records_with_hashes
    &&& info.extractor_records_with_source_context == q.extractor_records_with_source_context
    &&& info.extractor_records_with_rich_metadata == q.extractor_records_with_rich_metadata
    &&& opt_view(info.extractor_inventory_schema_version) == opt_view(
        q.extractor_inventory_schema_version,
    )
    &&& opt_view(info.extractor_inventory_version_id) == opt_view(q.extractor_inventory_version_id)
    &&& info.extractor_inventory_version_matches_snapshot
        == q.extractor_inventory_version_matches_snapshot
    &&& info.launcher_version_matches_extractor_inventory
        == q.launcher_version_matches_extractor_inventory
    &&& info.mostly_install_or_package_level == scope.mostly_install_or_package_level
    &&& info.meaningful_content_coverage == scope.meaningful_content_coverage
    &&& info.meaningful_character_coverage == scope.meaningful_character_coverage
    &&& info.meaningful_asset_record_enrichment == scope.meaningful_asset_record_enrichment
    &&& info.content_like_path_count == scope.coverage.content_like_path_count
    &&& info.character_path_count == scope.coverage.character_path_count
    &&& info.non_content_path_count == scope.coverage.non_content_path_count
    &&& info.low_signal_for_character_analysis == scope.low_signal_for_character_analysis
    &&& opt_view(info.note) == opt_view(scope.note)
}

fn scope_info(scope: &SnapshotScopeAssessment, q: &SnapshotCaptureQualitySummary) -> (r:
    SnapshotCompareScopeInfo)
    ensures
        info_of(r, *scope, *q),
{
    SnapshotCompareScopeInfo {
        acquisition_kind: clone_opt_string(&scope.acquisition_kind),
        capture_mode: clone_opt_string(&scope.capture_mode),
        launcher_detected_version: clone_opt_string(&q.launcher_detected_version),
        launcher_reuse_version: clone_opt_string(&q.launcher_reuse_version),
        launcher_version_matches_snapshot: q.launcher_version_matches_snapshot,
        manifest_resource_count: q.manifest_resource_count,
        manifest_matched_assets: q.manifest_matched_assets,
        manifest_unmatched_snapshot_assets: q.manifest_unmatched_snapshot_assets,
        assets_with_asset_hash: q.assets_with_asset_hash,
        assets_with_any_hash: q.assets_with_any_hash,
        assets_with_signature: q.assets_with_signature,
        assets_with_source_context: q.assets_with_source_context,
        assets_with_rich_metadata: q.assets_with_rich_metadata,
        meaningfully_enriched_assets: q.meaningfully_enriched_assets,
        extractor_record_count: q.extractor_record_count,
        extractor_records_with_hashes: q.extractor_records_with_hashes,
        extractor_records_with_source_context: q.extractor_records_with_source_context,
        extractor_records_with_rich_metadata: q.extractor_records_with_rich_metadata,
        extractor_inventory_schema_version: clone_opt_string(
            &q.extractor_inventory_schema_version,
        ),
        extractor_inventory_version_id: clone_opt_string(&q.extractor_inventory_version_id),
        extractor_inventory_version_matches_snapshot: q.extractor_inventory_version_matches_snapshot,
        launcher_version_matches_extractor_inventory: q.launcher_version_matches_extractor_inventory,
        mostly_install_or_package_level: scope.mostly_install_or_package_level,
        meaningful_content_coverage: scope.meaningful_content_coverage,
        meaningful_character_coverage: scope.meaningful_character_coverage,
        meaningful_asset_record_enrichment: scope.meaningful_asset_record_enrichment,
        content_like_path_count: scope.coverage.content_like_path_count,
        character_path_count: scope.coverage.character_path_count,
        non_content_path_count: scope.coverage.non_content_path_count,
        low_signal_for_character_analysis: scope.low_signal_for_character_analysis,
        note: clone_opt_string(&scope.note),
    }
}

// ---------------------------------------------------------------------------
// Notes
// ---------------------------------------------------------------------------

pub open spec fn or_text(o: Option<String>, fallback: Seq<char>) -> Seq<char> {
    match o {
        Some(s) => s@,
        None => fallback,
    }
}

pub open spec fn yes_no_unknown(o: Option<bool>) -> Seq<char> {
    match o {
        Some(true) => "yes"@,
        Some(false) => "no"@,
        None => "unknown"@,
    }
}

/// The quality note of one side of the compare.
pub open spec fn spec_quality_note(side: Seq<char>, version_id: Seq<char>, q: SnapshotCaptureQualitySummary) -> Seq<
    char,
> {
    let n = q.asset_count as nat;
    side + " snapshot "@ + version_id + " quality: launcher="@ + or_text(
        q.launcher_detected_version,
        "missing"@,
    ) + " reuse="@ + or_text(q.launcher_reuse_version, "-"@) + " matches_snapshot="@
        + yes_no_unknown(q.launcher_version_matches_snapshot) + " manifest_coverage=resources:"@
        + decimal(q.manifest_resource_count as nat) + " matched:"@ + decimal(
        q.manifest_matched_assets as nat,
    ) + " unmatched_snapshot_assets:"@ + decimal(q.manifest_unmatched_snapshot_assets as nat)
        + " hash_coverage=asset_hashes:"@ + decimal(q.assets_with_asset_hash as nat) + "/"@
        + decimal(n) + " any_hashes:"@ + decimal(q.assets_with_any_hash as nat) + "/"@ + decimal(n)
        + " signatures:"@ + decimal(q.assets_with_signature as nat) + "/"@ + decimal(n)
        + " asset_enrichment=source_context:"@ + decimal(q.assets_with_source_context as nat) + "/"@
        + decimal(n) + " rich_metadata:"@ + decimal(q.assets_with_rich_metadata as nat) + "/"@
        + decimal(n) + " enriched_assets:"@ + decimal(q.meaningfully_enriched_assets as nat) + "/"@
        + decimal(n) + " extractor_records="@ + decimal(q.extractor_record_count as nat)
        + " extractor_support=hashes:"@ + decimal(q.extractor_records_with_hashes as nat)
        + " source_context:"@ + decimal(q.extractor_records_with_source_context as nat)
        + " rich_metadata:"@ + decimal(q.extractor_records_with_rich_metadata as nat) + " schema="@
        + or_text(q.extractor_inventory_schema_version, "-"@) + " inventory_version="@ + or_text(
        q.extractor_inventory_version_id,
        "-"@,
    ) + " alignment="@ + q.extractor_alignment_status@ + " launcher_matches_inventory="@
        + yes_no_unknown(q.launcher_version_matches_extractor_inventory)
}

fn push_or(s: &mut String, o: &Option<String>, fallback: &str)
    ensures
        final(s)@ == old(s)@ + or_text(*o, fallback@),
{
    match o {
        Some(v) => push_str(s, v.as_str()),
        None => push_str(s, fallback),
    }
}

fn push_yes_no_unknown(s: &mut String, o: Option<bool>)
    ensures
        final(s)@ == old(s)@ + yes_no_unknown(o),
{
    match o {
        Some(true) => push_str(s, "yes"),
        Some(false) => push_str(s, "no"),
        None => push_str(s, "unknown"),
    }
}

fn push_dec(s: &mut String, n: usize)
    ensures
        final(s)@ == old(s)@ + decimal(n as nat),
{
    let d = decimal_string(n);
    push_str(s, d.as_str());
}

fn quality_note(side: &str, version_id: &str, q: &SnapshotCaptureQualitySummary) -> (r: String)
    ensures
        r@ == spec_quality_note(side@, version_id@, *q),
{
    let n = q.asset_count;
    let mut s = new_string(side);
    push_str(&mut s, " snapshot ");
    push_str(&mut s, version_id);
    push_str(&mut s, " quality: launcher=");
    push_or(&mut s, &q.launcher_detected_version, "missing");
    push_str(&mut s, " reuse=");
    push_or(&mut s, &q.launcher_reuse_version, "-");
    push_str(&mut s, " matches_snapshot=");
    push_yes_no_unknown(&mut s, q.launcher_version_matches_snapshot);
    push_str(&mut s, " manifest_coverage=resources:");
    push_dec(&mut s, q.manifest_resource_count);
    push_str(&mut s, " matched:");
    push_dec(&mut s, q.manifest_matched_assets);
    push_str(&mut s, " unmatched_snapshot_assets:");
    push_dec(&mut s, q.manifest_unmatched_snapshot_assets);
    push_str(&mut s, " hash_coverage=asset_hashes:");
    push_dec(&mut s, q.assets_with_asset_hash);
    push_str(&mut s, "/");
    push_dec(&mut s, n);
    push_str(&mut s, " any_hashes:");
    push_dec(&mut s, q.assets_with_any_hash);
    push_str(&mut s, "/");
    push_dec(&mut s, n);
    push_str(&mut s, " signatures:");
    push_dec(&mut s, q.assets_with_signature);
    push_str(&mut s, "/");
    push_dec(&mut s, n);
    push_str(&mut s, " asset_enrichment=source_context:");
    push_dec(&mut s, q.assets_with_source_context);
    push_str(&mut s, "/");
    push_dec(&mut s, n);
    push_str(&mut s, " rich_metadata:");
    push_dec(&mut s, q.assets_with_rich_metadata);
    push_str(&mut s, "/");
    push_dec(&mut s, n);
    push_str(&mut s, " enriched_assets:");
    push_dec(&mut s, q.meaningfully_enriched_assets);
    push_str(&mut s, "/");
    push_dec(&mut s, n);
    push_str(&mut s, " extractor_records=");
    push_dec(&mut s, q.extractor_record_count);
    push_str(&mut s, " extractor_support=hashes:");
    push_dec(&mut s, q.extractor_records_with_hashes);
    push_str(&mut s, " source_context:");
    push_dec(&mut s, q.extractor_records_with_source_context);
    push_str(&mut s, " rich_metadata:");
    push_dec(&mut s, q.extractor_records_with_rich_metadata);
    push_str(&mut s, " schema=");
    push_or(&mut s, &q.extractor_inventory_schema_version, "-");
    push_str(&mut s, " inventory_version=");
    push_or(&mut s, &q.extractor_inventory_version_id, "-");
    push_str(&mut s, " alignment=");
    push_str(&mut s, q.extractor_alignment_status.as_str());
    push_str(&mut s, " launcher_matches_inventory=");
    push_yes_no_unknown(&mut s, q.launcher_version_matches_extractor_inventory);
    s
}

/// `s` with `line` pushed when `c`.
pub open spec fn push_line_if(s: Seq<Seq<char>>, c: bool, line: Seq<char>) -> Seq<Seq<char>> {
    if c {
        s.push(line)
    } else {
        s
    }
}

pub open spec fn side_note(side: Seq<char>, version_id: Seq<char>, note: Option<String>) -> Option<
    Seq<char>,
> {
    match note {
        Some(n) => Some(side + " snapshot "@ + version_id + ": "@ + n@),
        None => None,
    }
}

pub open spec fn push_opt(s: Seq<Seq<char>>, o: Option<Seq<char>>) -> Seq<Seq<char>> {
    match o {
        Some(x) => s.push(x),
        None => s,
    }
}

/// The reasons the extractor alignment calls for caution, one per side that names one.
pub open spec fn alignment_cautions(
    old_q: SnapshotCaptureQualitySummary,
    new_q: SnapshotCaptureQualitySummary,
) -> Seq<Seq<char>> {
    let s1: Seq<Seq<char>> = match old_q.extractor_alignment_reason {
        Some(r) => seq!["old="@ + r@],
        None => Seq::empty(),
    };
    match new_q.extractor_alignment_reason {
        Some(r) => s1.push("new="@ + r@),
        None => s1,
    }
}

/// The notes of the compare scope context, in order.
pub open spec fn spec_scope_notes(
    old_id: Seq<char>,
    new_id: Seq<char>,
    old_scope: SnapshotScopeAssessment,
    new_scope: SnapshotScopeAssessment,
    old_q: SnapshotCaptureQualitySummary,
    new_q: SnapshotCaptureQualitySummary,
    summary: SnapshotCompareSummary,
) -> Seq<Seq<char>> {
    let s1 = push_opt(Seq::empty(), side_note("old"@, old_id, old_scope.note));
    let s2 = s1.push(spec_quality_note("old"@, old_id, old_q));
    let s3 = push_opt(s2, side_note("new"@, new_id, new_scope.note));
    let s4 = s3.push(spec_quality_note("new"@, new_id, new_q));
    let s5 = push_line_if(
        s4,
        old_scope.observed_fallback_used || new_scope.observed_fallback_used,
        "scope metadata was partially inferred from observed paths because explicit scope fields were missing"@,
    );
    let s6 = push_line_if(
        s5,
        old_scope.low_signal_for_character_analysis || new_scope.low_signal_for_character_analysis,
        "compare scope includes shallow filesystem inventory or low-coverage/low-enrichment extractor snapshots; deep character-level interpretation is limited"@,
    );
    let s7 = push_line_if(
        s6,
        spec_shallow_support(old_scope, old_q) || spec_shallow_support(new_scope, new_q),
        "manifest/hash coverage may be present for this compare pair, but shallow coverage is not equivalent to rich asset-level enrichment"@,
    );
    let s8 = if old_q.extractor_alignment_caution || new_q.extractor_alignment_caution {
        s7.push("extractor alignment caution: "@ + join_seq(alignment_cautions(old_q, new_q), " | "@))
    } else {
        push_line_if(
            s7,
            old_q.evidence_tier@ == "extractor_backed_rich"@ && new_q.evidence_tier@
                == "extractor_backed_rich"@,
            "compare confidence posture: both snapshots are extractor-backed, version-aligned, and asset-enriched enough to support higher-signal structural review than shallow manifest/hash support alone"@,
        )
    };
    let s9 = s8.push(
        "compare evidence posture: old="@ + old_q.evidence_tier@ + " new="@ + new_q.evidence_tier@,
    );
    push_opt(
        s9,
        spec_scope_note(opt_view(old_scope.capture_mode), opt_view(new_scope.capture_mode), summary),
    )
}

fn side_note_text(side: &str, version_id: &str, note: &str) -> (r: String)
    ensures
        r@ == side@ + " snapshot "@ + version_id@ + ": "@ + note@,
{
    let mut s = new_string(side);
    push_str(&mut s, " snapshot ");
    push_str(&mut s, version_id);
    push_str(&mut s, ": ");
    push_str(&mut s, note);
    s
}

/// `r` is the scope context of a compare between the two sides: each side's scope and
/// quality restated, whether the compare is low-signal or narrowed in scope, and the
/// notes for the reader.
pub open spec fn scope_context_is(
    r: SnapshotCompareScopeContext,
    old_version_id: Seq<char>,
    new_version_id: Seq<char>,
    old_scope: SnapshotScopeAssessment,
    new_scope: SnapshotScopeAssessment,
    old_quality: SnapshotCaptureQualitySummary,
    new_quality: SnapshotCaptureQualitySummary,
    summary: SnapshotCompareSummary,
) -> bool {
    &&& info_of(r.old_snapshot, old_scope, old_quality)
    &&& info_of(r.new_snapshot, new_scope, new_quality)
    &&& r.low_signal_compare == (old_scope.low_signal_for_character_analysis
        || new_scope.low_signal_for_character_analysis)
    &&& r.scope_narrowing_detected == spec_scope_note(
        opt_view(old_scope.capture_mode),
        opt_view(new_scope.capture_mode),
        summary,
    ) is Some
    &&& r.scope_induced_removals_likely == (match spec_scope_note(
        opt_view(old_scope.capture_mode),
        opt_view(new_scope.capture_mode),
        summary,
    ) {
        Some(n) => seq_contains(n, "scope-induced removal caution"@),
        None => false,
    })
    &&& views(r.notes@) == spec_scope_notes(
        old_version_id,
        new_version_id,
        old_scope,
        new_scope,
        old_quality,
        new_quality,
        summary,
    )
}

/// The scope context of a compare: each side's scope and quality, whether the
/// compare is low-signal or narrowed in scope, and the notes for the reader.
pub fn build_compare_scope_context(
    old_version_id: &str,
    new_version_id: &str,
    old_scope: &SnapshotScopeAssessment,
    new_scope: &SnapshotScopeAssessment,
    old_quality: &SnapshotCaptureQualitySummary,
    new_quality: &SnapshotCaptureQualitySummary,
    summary: &SnapshotCompareSummary,
) -> (r: SnapshotCompareScopeContext)
    ensures
        scope_context_is(
            r,
            old_version_id@,
            new_version_id@,
            *old_scope,
            *new_scope,
            *old_quality,
            *new_quality,
            *summary,
        ),
{
    let mut notes: Vec<String> = Vec::new();
    proof {
        assert(views(notes@) =~= Seq::<Seq<char>>::empty());
    }
    match &old_scope.note {
        Some(n) => push_text(&mut notes, side_note_text("old", old_version_id, n.as_str())),
        None => {},
    }
    push_text(&mut notes, quality_note("old", old_version_id, old_quality));
    match &new_scope.note {
        Some(n) => push_text(&mut notes, side_note_text("new", new_version_id, n.as_str())),
        None => {},
    }
    push_text(&mut notes, quality_note("new", new_version_id, new_quality));
    if old_scope.observed_fallback_used || new_scope.observed_fallback_used {
        push_text(
            &mut notes,
            new_string(
                "scope metadata was partially inferred from observed paths because explicit scope fields were missing",
            ),
        );
    }
    if old_scope.low_signal_for_character_analysis || new_scope.low_signal_for_character_analysis {
        push_text(
            &mut notes,
            new_string(
                "compare scope includes shallow filesystem inventory or low-coverage/low-enrichment extractor snapshots; deep character-level interpretation is limited",
            ),
        );
    }
    if has_shallow_hash_or_manifest_only_support(old_scope, old_quality)
        || has_shallow_hash_or_manifest_only_support(new_scope, new_quality) {
        push_text(
            &mut notes,
            new_string(
                "manifest/hash coverage may be present for this compare pair, but shallow coverage is not equivalent to rich asset-level enrichment",
            ),
        );
    }
    if old_quality.extractor_alignment_caution || new_quality.extractor_alignment_caution {
        let mut cautions: Vec<String> = Vec::new();
        proof {
            assert(views(cautions@) =~= Seq::<Seq<char>>::empty());
        }
        match &old_quality.extractor_alignment_reason {
            Some(reason) => {
                let mut c = new_string("old=");
                push_str(&mut c, reason.as_str());
                push_text(&mut cautions, c);
                proof {
                    assert(views(cautions@) =~= seq!["old="@ + reason@]);
                }
            },
            None => {},
        }
        match &new_quality.extractor_alignment_reason {
            Some(reason) => {
                let mut c = new_string("new=");
                push_str(&mut c, reason.as_str());
                push_text(&mut cautions, c);
            },
            None => {},
        }
        let mut line = new_string("extractor alignment caution: ");
        let joined = join(&cautions, " | ");
        push_str(&mut line, joined.as_str());
        push_text(&mut notes, line);
    } else if str_eq(old_quality.evidence_tier.as_str(), "extractor_backed_rich") && str_eq(
        new_quality.evidence_tier.as_str(),
        "extractor_backed_rich",
    ) {
        push_text(
            &mut notes,
            new_string(
                "compare confidence posture: both snapshots are extractor-backed, version-aligned, and asset-enriched enough to support higher-signal structural review than shallow manifest/hash support alone",
            ),
        );
    }
    let mut posture = new_string("compare evidence posture: old=");
    push_str(&mut posture, old_quality.evidence_tier.as_str());
    push_str(&mut posture, " new=");
    push_str(&mut posture, new_quality.evidence_tier.as_str());
    push_text(&mut notes, posture);
    let narrowing = scope_narrowing_interpretation_note(old_scope, new_scope, summary);
    let detected = narrowing.is_some();
    let induced = match &narrowing {
        Some(n) => contains(n.as_str(), "scope-induced removal caution"),
        None => false,
    };
    match narrowing {
        Some(n) => push_text(&mut notes, n),
        None => {},
    }
    SnapshotCompareScopeContext {
        old_snapshot: scope_info(old_scope, old_quality),
        new_snapshot: scope_info(new_scope, new_quality),
        low_signal_compare: old_scope.low_signal_for_character_analysis
            || new_scope.low_signal_for_character_analysis,
        scope_narrowing_detected: detected,
        scope_induced_removals_likely: induced,
        notes,
    }
}

} // verus!
