//! The human-readable summary of an inference report and its mapping proposals:
//! what to fix before remapping, what is safe to try, and the next steps.
use vstd::prelude::*;
use crate::compare::RiskLevel;
use crate::human_summary::{
    opt_text_or, spec_continuity_evidence, spec_continuity_reason, spec_is_legacy_continuity_text,
    spec_risk_rank, spec_status_label, spec_strip_mod_dependency_prefix, is_legacy_continuity_text,
    review_risk_rank, status_label, strip_mod_dependency_prefix, structured_continuity_evidence,
    structured_continuity_reason, HumanSummaryRenderer,
};
use crate::inference::{
    join_dependency_kind_labels, spec_dependency_kind_label, InferenceReport, ProbableCrashCause,
    SuggestedFix, WwmiModDependencyKind,
};
use crate::order::{
    all_positions, lemma_lt_irreflexive, lemma_lt_transitive, lemma_stable_sort_ordered, picked,
    stable_order, stable_sort, string_lt, text_lt, ReviewOrder,
};
use crate::proposal::{MappingProposalEntry, ProposalArtifacts};
use crate::report::ProposalStatus;
use crate::text::{
    contains, decimal, decimal_string, fixed3, fixed3_string, join, join_seq, new_string, opt_view,
    push_str, push_text, seq_contains, views,
};

verus! {

// ---------------------------------------------------------------------------
// Picking texts out of reason and evidence lists
// ---------------------------------------------------------------------------

/// The first reason that names a mod-dependency focus, without its prefix.
pub open spec fn first_mod_reason(rs: Seq<Seq<char>>) -> Option<Seq<char>>
    decreases rs.len(),
{
    if rs.len() == 0 {
        None
    } else {
        match spec_strip_mod_dependency_prefix(rs[0]) {
            Some(x) => Some(x),
            None => first_mod_reason(rs.drop_first()),
        }
    }
}

/// The first text that speaks of continuity history in the older free-text form.
pub open spec fn first_legacy(rs: Seq<Seq<char>>) -> Option<Seq<char>>
    decreases rs.len(),
{
    if rs.len() == 0 {
        None
    } else if spec_is_legacy_continuity_text(rs[0]) {
        Some(rs[0])
    } else {
        first_legacy(rs.drop_first())
    }
}

/// Evidence that speaks of the mod side.
pub open spec fn is_mod_evidence(v: Seq<char>) -> bool {
    seq_contains(v, "mod dependency"@) || seq_contains(v, "mod-side"@) || seq_contains(
        v,
        "hook-targeting-sensitive"@,
    ) || seq_contains(v, "buffer/layout-sensitive"@) || seq_contains(
        v,
        "resource/skeleton-sensitive"@,
    )
}

pub open spec fn first_mod_evidence(rs: Seq<Seq<char>>) -> Option<Seq<char>>
    decreases rs.len(),
{
    if rs.len() == 0 {
        None
    } else if is_mod_evidence(rs[0]) {
        Some(rs[0])
    } else {
        first_mod_evidence(rs.drop_first())
    }
}

/// Some text of the list contains `pat`.
pub open spec fn any_contains(rs: Seq<Seq<char>>, pat: Seq<char>) -> bool {
    exists|i: int| 0 <= i < rs.len() && seq_contains(#[trigger] rs[i], pat)
}

fn mod_dependency_reason(rs: &Vec<String>) -> (r: Option<String>)
    ensures
        opt_view(r) == first_mod_reason(views(rs@)),
{
    let ghost all = views(rs@);
    let mut i: usize = 0;
    proof {
        assert(all.subrange(0, all.len() as int) =~= all);
    }
    while i < rs.len()
        invariant
            i <= rs@.len(),
            all == views(rs@),
            first_mod_reason(all) == first_mod_reason(all.subrange(i as int, all.len() as int)),
        decreases rs.len() - i,
    {
        let ghost rest = all.subrange(i as int, all.len() as int);
        proof {
            assert(rest[0] == rs@[i as int]@);
            assert(rest.drop_first() =~= all.subrange(i + 1, all.len() as int));
        }
        match strip_mod_dependency_prefix(rs[i].as_str()) {
            Some(x) => {
                return Some(x);
            },
            None => {},
        }
        i = i + 1;
    }
    proof {
        assert(all.subrange(all.len() as int, all.len() as int) =~= Seq::<Seq<char>>::empty());
    }
    None
}

fn first_legacy_text(rs: &Vec<String>) -> (r: Option<String>)
    ensures
        opt_view(r) == first_legacy(views(rs@)),
{
    let ghost all = views(rs@);
    let mut i: usize = 0;
    proof {
        assert(all.subrange(0, all.len() as int) =~= all);
    }
    while i < rs.len()
        invariant
            i <= rs@.len(),
            all == views(rs@),
            first_legacy(all) == first_legacy(all.subrange(i as int, all.len() as int)),
        decreases rs.len() - i,
    {
        let ghost rest = all.subrange(i as int, all.len() as int);
        proof {
            assert(rest[0] == rs@[i as int]@);
            assert(rest.drop_first() =~= all.subrange(i + 1, all.len() as int));
        }
        if is_legacy_continuity_text(rs[i].as_str()) {
            return Some(rs[i].clone());
        }
        i = i + 1;
    }
    proof {
        assert(all.subrange(all.len() as int, all.len() as int) =~= Seq::<Seq<char>>::empty());
    }
    None
}

fn mod_dependency_evidence(rs: &Vec<String>) -> (r: Option<String>)
    ensures
        opt_view(r) == first_mod_evidence(views(rs@)),
{
    let ghost all = views(rs@);
    let mut i: usize = 0;
    proof {
        assert(all.subrange(0, all.len() as int) =~= all);
    }
    while i < rs.len()
        invariant
            i <= rs@.len(),
            all == views(rs@),
            first_mod_evidence(all) == first_mod_evidence(all.subrange(i as int, all.len() as int)),
        decreases rs.len() - i,
    {
        let ghost rest = all.subrange(i as int, all.len() as int);
        proof {
            assert(rest[0] == rs@[i as int]@);
            assert(rest.drop_first() =~= all.subrange(i + 1, all.len() as int));
        }
        let t = rs[i].as_str();
        if contains(t, "mod dependency") || contains(t, "mod-side") || contains(
            t,
            "hook-targeting-sensitive",
        ) || contains(t, "buffer/layout-sensitive") || contains(t, "resource/skeleton-sensitive") {
            return Some(rs[i].clone());
        }
        i = i + 1;
    }
    proof {
        assert(all.subrange(all.len() as int, all.len() as int) =~= Seq::<Seq<char>>::empty());
    }
    None
}

fn any_text_contains(rs: &Vec<String>, pat: &str) -> (r: bool)
    ensures
        r == any_contains(views(rs@), pat@),
{
    let mut i: usize = 0;
    while i < rs.len()
        invariant
            i <= rs@.len(),
            forall|k: int| 0 <= k < i ==> !seq_contains(#[trigger] views(rs@)[k], pat@),
        decreases rs.len() - i,
    {
        if contains(rs[i].as_str(), pat) {
            assert(views(rs@)[i as int] == rs@[i as int]@);
            return true;
        }
        i = i + 1;
    }
    false
}

// ---------------------------------------------------------------------------
// Mapping entries
// ---------------------------------------------------------------------------

/// Why continuity keeps an entry review-first: the structured reason, else the
/// first free-text continuity reason.
pub open spec fn spec_entry_continuity_reason(e: MappingProposalEntry) -> Option<Seq<char>> {
    let structured = match e.continuity {
        Some(c) => spec_continuity_reason(c),
        None => None,
    };
    match structured {
        Some(x) => Some(x),
        None => first_legacy(views(e.reasons@)),
    }
}

pub open spec fn spec_entry_continuity_evidence(e: MappingProposalEntry) -> Option<Seq<char>> {
    let structured = match e.continuity {
        Some(c) => spec_continuity_evidence(c),
        None => None,
    };
    match structured {
        Some(x) => Some(x),
        None => first_legacy(views(e.evidence@)),
    }
}

/// The entry carries continuity caution, structured or in its texts.
pub open spec fn spec_entry_caution(e: MappingProposalEntry) -> bool {
    ||| (e.continuity matches Some(c) && c.spec_has_review_caution())
    ||| first_legacy(views(e.reasons@)) is Some
    ||| first_legacy(views(e.evidence@)) is Some
}

/// How urgently a review-only entry needs a look: a mod focus, then continuity
/// caution, then structural drift or a blocking cause, then ambiguity.
pub open spec fn spec_entry_rank(e: MappingProposalEntry) -> u8 {
    let rs = views(e.reasons@);
    let ev = views(e.evidence@);
    if first_mod_reason(rs) is Some {
        5
    } else if spec_entry_caution(e) {
        4
    } else if any_contains(rs, "high-risk structural drift"@) || any_contains(
        ev,
        "blocking crash cause"@,
    ) {
        3
    } else if any_contains(rs, "ambiguous"@) || any_contains(ev, "confidence gap"@) {
        2
    } else {
        1
    }
}

fn entry_continuity_reason(e: &MappingProposalEntry) -> (r: Option<String>)
    ensures
        opt_view(r) == spec_entry_continuity_reason(*e),
{
    let structured = match &e.continuity {
        Some(c) => structured_continuity_reason(c),
        None => None,
    };
    match structured {
        Some(x) => Some(x),
        None => first_legacy_text(&e.reasons),
    }
}

fn entry_continuity_evidence(e: &MappingProposalEntry) -> (r: Option<String>)
    ensures
        opt_view(r) == spec_entry_continuity_evidence(*e),
{
    let structured = match &e.continuity {
        Some(c) => structured_continuity_evidence(c),
        None => None,
    };
    match structured {
        Some(x) => Some(x),
        None => first_legacy_text(&e.evidence),
    }
}

fn entry_caution(e: &MappingProposalEntry) -> (r: bool)
    ensures
        r == spec_entry_caution(*e),
{
    let structured = match &e.continuity {
        Some(c) => c.has_review_caution(),
        None => false,
    };
    structured || first_legacy_text(&e.reasons).is_some() || first_legacy_text(
        &e.evidence,
    ).is_some()
}

/// How urgently a review-only mapping needs a look, from 5 (a mod focus) down to 1.
pub fn mapping_review_rank(e: &MappingProposalEntry) -> (r: u8)
    ensures
        r == spec_entry_rank(*e),
{
    if mod_dependency_reason(&e.reasons).is_some() {
        5
    } else if entry_caution(e) {
        4
    } else if any_text_contains(&e.reasons, "high-risk structural drift") || any_text_contains(
        &e.evidence,
        "blocking crash cause",
    ) {
        3
    } else if any_text_contains(&e.reasons, "ambiguous") || any_text_contains(
        &e.evidence,
        "confidence gap",
    ) {
        2
    } else {
        1
    }
}

// ---------------------------------------------------------------------------
// Review orders: riskiest first, then the most confident, then by name
// ---------------------------------------------------------------------------

impl ReviewOrder for ProbableCrashCause {
    open spec fn goes_before(&self, other: &Self) -> bool {
        let a = spec_risk_rank(self.risk);
        let b = spec_risk_rank(other.risk);
        a > b || (a == b && self.confidence_milli > other.confidence_milli) || (a == b
            && self.confidence_milli == other.confidence_milli && text_lt(self.code@, other.code@))
    }

    fn before(&self, other: &Self) -> (r: bool) {
        let a = review_risk_rank(&self.risk);
        let b = review_risk_rank(&other.risk);
        a > b || (a == b && self.confidence_milli > other.confidence_milli) || (a == b
            && self.confidence_milli == other.confidence_milli && string_lt(
            &self.code,
            &other.code,
        ))
    }
}

impl ReviewOrder for SuggestedFix {
    open spec fn goes_before(&self, other: &Self) -> bool {
        let a = spec_risk_rank(self.priority);
        let b = spec_risk_rank(other.priority);
        a > b || (a == b && self.confidence_milli > other.confidence_milli) || (a == b
            && self.confidence_milli == other.confidence_milli && text_lt(self.code@, other.code@))
    }

    fn before(&self, other: &Self) -> (r: bool) {
        let a = review_risk_rank(&self.priority);
        let b = review_risk_rank(&other.priority);
        a > b || (a == b && self.confidence_milli > other.confidence_milli) || (a == b
            && self.confidence_milli == other.confidence_milli && string_lt(
            &self.code,
            &other.code,
        ))
    }
}

impl ReviewOrder for MappingProposalEntry {
    open spec fn goes_before(&self, other: &Self) -> bool {
        let a = spec_entry_rank(*self);
        let b = spec_entry_rank(*other);
        a > b || (a == b && self.confidence_milli > other.confidence_milli) || (a == b
            && self.confidence_milli == other.confidence_milli && text_lt(
            self.old_asset_path@,
            other.old_asset_path@,
        ))
    }

    fn before(&self, other: &Self) -> (r: bool) {
        let a = mapping_review_rank(self);
        let b = mapping_review_rank(other);
        a > b || (a == b && self.confidence_milli > other.confidence_milli) || (a == b
            && self.confidence_milli == other.confidence_milli && string_lt(
            &self.old_asset_path,
            &other.old_asset_path,
        ))
    }
}

// ---------------------------------------------------------------------------
// Blocks of lines
// ---------------------------------------------------------------------------

/// How a risk level is printed: `High`, `Medium` or `Low`.
pub open spec fn spec_risk_name(r: RiskLevel) -> Seq<char> {
    match r {
        RiskLevel::High => "High"@,
        RiskLevel::Medium => "Medium"@,
        RiskLevel::Low => "Low"@,
    }
}

fn risk_name(r: &RiskLevel) -> (s: &'static str)
    ensures
        s@ == spec_risk_name(*r),
{
    match r {
        RiskLevel::High => "High",
        RiskLevel::Medium => "Medium",
        RiskLevel::Low => "Low",
    }
}

/// `- `code` [Risk, confidence] summary`.
pub open spec fn spec_item_head(code: Seq<char>, risk: RiskLevel, milli: u32, summary: Seq<char>) -> Seq<
    char,
> {
    "- `"@ + code + "` ["@ + spec_risk_name(risk) + ", "@ + fixed3(milli as nat) + "] "@ + summary
}

fn item_head(code: &String, risk: &RiskLevel, milli: u32, summary: &String) -> (r: String)
    ensures
        r@ == spec_item_head(code@, *risk, milli, summary@),
{
    let mut s = new_string("- `");
    push_str(&mut s, code.as_str());
    push_str(&mut s, "` [");
    push_str(&mut s, risk_name(risk));
    push_str(&mut s, ", ");
    let c = fixed3_string(milli);
    push_str(&mut s, c.as_str());
    push_str(&mut s, "] ");
    push_str(&mut s, summary.as_str());
    s
}

/// One line `prefix + text` when the text is there, else nothing.
pub open spec fn opt_line(prefix: Seq<char>, o: Option<Seq<char>>) -> Seq<Seq<char>> {
    match o {
        Some(x) => seq![prefix + x],
        None => Seq::empty(),
    }
}

/// The first text of a list, when there is one.
pub open spec fn first_text(rs: Seq<Seq<char>>) -> Option<Seq<char>> {
    if rs.len() > 0 {
        Some(rs[0])
    } else {
        None
    }
}

/// At most `n` items from the front.
pub open spec fn first_n<T>(s: Seq<T>, n: int) -> Seq<T> {
    if s.len() <= n {
        s
    } else {
        s.take(n)
    }
}

fn push_opt_line(lines: &mut Vec<String>, prefix: &str, o: Option<String>)
    ensures
        views(final(lines)@) == views(old(lines)@) + opt_line(prefix@, opt_view(o)),
{
    match o {
        Some(x) => {
            let mut s = new_string(prefix);
            push_str(&mut s, x.as_str());
            push_text(lines, s);
        },
        None => {
            assert(views(lines@) + opt_line(prefix@, None) =~= views(lines@));
        },
    }
}

fn first_of(rs: &Vec<String>) -> (r: Option<String>)
    ensures
        opt_view(r) == first_text(views(rs@)),
{
    if rs.len() > 0 {
        Some(rs[0].clone())
    } else {
        None
    }
}

/// A text made of the first three affected assets, `, `-separated.
pub open spec fn spec_affected(assets: Seq<Seq<char>>) -> Option<Seq<char>> {
    if assets.len() > 0 {
        Some(join_seq(first_n(assets, 3), ", "@))
    } else {
        None
    }
}

pub open spec fn spec_cause_block(c: ProbableCrashCause) -> Seq<Seq<char>> {
    seq![spec_item_head(c.code@, c.risk, c.confidence_milli, c.summary@)] + opt_line(
        "  Affected assets: "@,
        spec_affected(views(c.affected_assets@)),
    ) + opt_line("  Why: "@, first_text(views(c.reasons@))) + opt_line(
        "  Mod focus: "@,
        first_mod_reason(views(c.reasons@)),
    )
}

pub open spec fn spec_fix_block(f: SuggestedFix) -> Seq<Seq<char>> {
    seq![spec_item_head(f.code@, f.priority, f.confidence_milli, f.summary@)] + opt_line(
        "  First action: "@,
        first_text(views(f.actions@)),
    ) + opt_line("  Why: "@, first_text(views(f.reasons@))) + opt_line(
        "  Mod focus: "@,
        first_mod_reason(views(f.reasons@)),
    )
}

pub open spec fn spec_mapping_head(e: MappingProposalEntry) -> Seq<char> {
    "- `"@ + e.old_asset_path@ + "` -> `"@ + e.new_asset_path@ + "` ["@ + spec_status_label(e.status)
        + " "@ + fixed3(e.confidence_milli as nat) + "]"@
}

pub open spec fn spec_mapping_block(e: MappingProposalEntry) -> Seq<Seq<char>> {
    seq![spec_mapping_head(e)] + opt_line("  Reason: "@, first_text(views(e.reasons@))) + opt_line(
        "  Continuity: "@,
        spec_entry_continuity_reason(e),
    ) + opt_line("  Mod focus: "@, first_mod_reason(views(e.reasons@))) + opt_line(
        "  Evidence: "@,
        first_text(views(e.evidence@)),
    ) + opt_line("  Continuity evidence: "@, spec_entry_continuity_evidence(e)) + opt_line(
        "  Mod evidence: "@,
        first_mod_evidence(views(e.evidence@)),
    )
}

fn affected_text(assets: &Vec<String>) -> (r: Option<String>)
    ensures
        opt_view(r) == spec_affected(views(assets@)),
{
    if assets.len() == 0 {
        return None;
    }
    let n: usize = if assets.len() <= 3 {
        assets.len()
    } else {
        3
    };
    let mut firsts: Vec<String> = Vec::new();
    let mut i: usize = 0;
    while i < n
        invariant
            i <= n <= assets@.len(),
            views(firsts@) == views(assets@).take(i as int),
        decreases n - i,
    {
        push_text(&mut firsts, assets[i].clone());
        proof {
            assert(views(assets@).take(i + 1) =~= views(assets@).take(i as int).push(
                assets@[i as int]@,
            ));
        }
        i = i + 1;
    }
    proof {
        if assets@.len() <= 3 {
            assert(views(assets@).take(n as int) =~= views(assets@));
        }
    }
    Some(join(&firsts, ", "))
}

/// A block of summary lines for one item.
pub trait SummaryBlock: Sized {
    spec fn block(&self) -> Seq<Seq<char>>;

    fn block_lines(&self) -> (r: Vec<String>)
        ensures
            views(r@) == self.block(),
    ;
}

impl SummaryBlock for ProbableCrashCause {
    open spec fn block(&self) -> Seq<Seq<char>> {
        spec_cause_block(*self)
    }

    fn block_lines(&self) -> (r: Vec<String>) {
        let mut lines: Vec<String> = Vec::new();
        push_text(
            &mut lines,
            item_head(&self.code, &self.risk, self.confidence_milli, &self.summary),
        );
        push_opt_line(&mut lines, "  Affected assets: ", affected_text(&self.affected_assets));
        push_opt_line(&mut lines, "  Why: ", first_of(&self.reasons));
        push_opt_line(&mut lines, "  Mod focus: ", mod_dependency_reason(&self.reasons));
        lines
    }
}

impl SummaryBlock for SuggestedFix {
    open spec fn block(&self) -> Seq<Seq<char>> {
        spec_fix_block(*self)
    }

    fn block_lines(&self) -> (r: Vec<String>) {
        let mut lines: Vec<String> = Vec::new();
        push_text(
            &mut lines,
            item_head(&self.code, &self.priority, self.confidence_milli, &self.summary),
        );
        push_opt_line(&mut lines, "  First action: ", first_of(&self.actions));
        push_opt_line(&mut lines, "  Why: ", first_of(&self.reasons));
        push_opt_line(&mut lines, "  Mod focus: ", mod_dependency_reason(&self.reasons));
        lines
    }
}

impl SummaryBlock for MappingProposalEntry {
    open spec fn block(&self) -> Seq<Seq<char>> {
        spec_mapping_block(*self)
    }

    fn block_lines(&self) -> (r: Vec<String>) {
        let mut head = new_string("- `");
        push_str(&mut head, self.old_asset_path.as_str());
        push_str(&mut head, "` -> `");
        push_str(&mut head, self.new_asset_path.as_str());
        push_str(&mut head, "` [");
        push_str(&mut head, status_label(&self.status));
        push_str(&mut head, " ");
        let c = fixed3_string(self.confidence_milli);
        push_str(&mut head, c.as_str());
        push_str(&mut head, "]");
        let mut lines: Vec<String> = Vec::new();
        push_text(&mut lines, head);
        push_opt_line(&mut lines, "  Reason: ", first_of(&self.reasons));
        push_opt_line(&mut lines, "  Continuity: ", entry_continuity_reason(self));
        push_opt_line(&mut lines, "  Mod focus: ", mod_dependency_reason(&self.reasons));
        push_opt_line(&mut lines, "  Evidence: ", first_of(&self.evidence));
        push_opt_line(&mut lines, "  Continuity evidence: ", entry_continuity_evidence(self));
        push_opt_line(&mut lines, "  Mod evidence: ", mod_dependency_evidence(&self.evidence));
        lines
    }
}

/// The blocks of the items, one after another.
pub open spec fn concat_blocks<T: SummaryBlock>(s: Seq<T>) -> Seq<Seq<char>>
    decreases s.len(),
{
    if s.len() == 0 {
        Seq::empty()
    } else {
        concat_blocks(s.drop_last()) + s.last().block()
    }
}

/// Appends the blocks of the first `limit` items that `sel` picks.
fn append_blocks<T: SummaryBlock>(lines: &mut Vec<String>, items: &Vec<T>, sel: &Vec<usize>, limit: usize)
    requires
        forall|k: int| 0 <= k < sel@.len() ==> #[trigger] sel@[k] < items@.len(),
    ensures
        views(final(lines)@) == views(old(lines)@) + concat_blocks(
            first_n(picked(items@, sel@), limit as int),
        ),
{
    let ghost s = picked(items@, sel@);
    let n: usize = if sel.len() <= limit {
        sel.len()
    } else {
        limit
    };
    let ghost head = views(lines@);
    let mut i: usize = 0;
    proof {
        assert(s.take(0) =~= Seq::<T>::empty());
        assert(views(lines@) =~= head + concat_blocks(s.take(0)));
    }
    while i < n
        invariant
            i <= n <= sel@.len(),
            s == picked(items@, sel@),
            forall|k: int| 0 <= k < sel@.len() ==> #[trigger] sel@[k] < items@.len(),
            views(lines@) == head + concat_blocks(s.take(i as int)),
        decreases n - i,
    {
        let block = items[sel[i]].block_lines();
        let ghost before = views(lines@);
        let mut j: usize = 0;
        while j < block.len()
            invariant
                j <= block@.len(),
                views(lines@) == before + views(block@).take(j as int),
            decreases block.len() - j,
        {
            push_text(lines, block[j].clone());
            proof {
                assert(views(block@).take(j + 1) =~= views(block@).take(j as int).push(
                    block@[j as int]@,
                ));
            }
            j = j + 1;
        }
        proof {
            assert(views(block@).take(block@.len() as int) =~= views(block@));
            assert(s.take(i + 1).drop_last() =~= s.take(i as int));
            assert(s.take(i + 1).last() == items@[sel@[i as int] as int]);
            assert(views(lines@) =~= head + concat_blocks(s.take(i + 1)));
        }
        i = i + 1;
    }
    proof {
        if s.len() <= limit {
            assert(s.take(n as int) =~= s);
        }
    }
}

// ---------------------------------------------------------------------------
// Selections
// ---------------------------------------------------------------------------

pub open spec fn with_status(ms: Seq<MappingProposalEntry>, st: ProposalStatus) -> Seq<
    MappingProposalEntry,
>
    decreases ms.len(),
{
    if ms.len() == 0 {
        Seq::empty()
    } else if ms.last().status == st {
        with_status(ms.drop_last(), st).push(ms.last())
    } else {
        with_status(ms.drop_last(), st)
    }
}

fn same_status(a: &ProposalStatus, b: &ProposalStatus) -> (r: bool)
    ensures
        r == (*a == *b),
{
    match (a, b) {
        (ProposalStatus::Proposed, ProposalStatus::Proposed) => true,
        (ProposalStatus::NeedsReview, ProposalStatus::NeedsReview) => true,
        _ => false,
    }
}

fn status_positions(ms: &Vec<MappingProposalEntry>, st: ProposalStatus) -> (r: Vec<usize>)
    ensures
        forall|k: int| 0 <= k < r@.len() ==> #[trigger] r@[k] < ms@.len(),
        picked(ms@, r@) == with_status(ms@, st),
{
    let mut out: Vec<usize> = Vec::new();
    let mut i: usize = 0;
    proof {
        assert(ms@.take(0) =~= Seq::<MappingProposalEntry>::empty());
        assert(picked(ms@, out@) =~= Seq::<MappingProposalEntry>::empty());
    }
    while i < ms.len()
        invariant
            i <= ms@.len(),
            forall|k: int| 0 <= k < out@.len() ==> #[trigger] out@[k] < ms@.len(),
            picked(ms@, out@) == with_status(ms@.take(i as int), st),
        decreases ms.len() - i,
    {
        proof {
            assert(ms@.take(i + 1).drop_last() =~= ms@.take(i as int));
            assert(ms@.take(i + 1).last() == ms@[i as int]);
        }
        if same_status(&ms[i].status, &st) {
            let ghost prev = picked(ms@, out@);
            out.push(i);
            proof {
                assert(picked(ms@, out@) =~= prev.push(ms@[i as int]));
            }
        }
        i = i + 1;
    }
    proof {
        assert(ms@.take(ms@.len() as int) =~= ms@);
    }
    out
}

pub open spec fn count_caution(ms: Seq<MappingProposalEntry>) -> nat
    decreases ms.len(),
{
    if ms.len() == 0 {
        0
    } else {
        count_caution(ms.drop_last()) + if spec_entry_caution(ms.last()) {
            1nat
        } else {
            0nat
        }
    }
}

fn caution_count(ms: &Vec<MappingProposalEntry>, sel: &Vec<usize>) -> (r: usize)
    requires
        forall|k: int| 0 <= k < sel@.len() ==> #[trigger] sel@[k] < ms@.len(),
    ensures
        r == count_caution(picked(ms@, sel@)),
{
    let ghost s = picked(ms@, sel@);
    let mut n: usize = 0;
    let mut i: usize = 0;
    proof {
        assert(s.take(0) =~= Seq::<MappingProposalEntry>::empty());
    }
    while i < sel.len()
        invariant
            i <= sel@.len(),
            s == picked(ms@, sel@),
            forall|k: int| 0 <= k < sel@.len() ==> #[trigger] sel@[k] < ms@.len(),
            n == count_caution(s.take(i as int)),
            n <= i,
        decreases sel.len() - i,
    {
        proof {
            assert(s.take(i + 1).drop_last() =~= s.take(i as int));
            assert(s.take(i + 1).last() == ms@[sel@[i as int] as int]);
        }
        if entry_caution(&ms[sel[i]]) {
            n = n + 1;
        }
        i = i + 1;
    }
    proof {
        assert(s.take(sel@.len() as int) =~= s);
    }
    n
}

pub open spec fn causes_with_code(cs: Seq<ProbableCrashCause>, code: Seq<char>) -> Seq<
    ProbableCrashCause,
>
    decreases cs.len(),
{
    if cs.len() == 0 {
        Seq::empty()
    } else if cs.last().code@ == code {
        causes_with_code(cs.drop_last(), code).push(cs.last())
    } else {
        causes_with_code(cs.drop_last(), code)
    }
}

pub open spec fn fixes_with_code(fs: Seq<SuggestedFix>, code: Seq<char>) -> Seq<SuggestedFix>
    decreases fs.len(),
{
    if fs.len() == 0 {
        Seq::empty()
    } else if fs.last().code@ == code {
        fixes_with_code(fs.drop_last(), code).push(fs.last())
    } else {
        fixes_with_code(fs.drop_last(), code)
    }
}

/// How many causes carry `code`, and the first of them.
pub(crate) fn causes_with_code_exec(cs: &Vec<ProbableCrashCause>, code: &str) -> (r: (usize, Option<usize>))
    ensures
        r.0 == causes_with_code(cs@, code@).len(),
        match r.1 {
            Some(i) => i < cs@.len() && causes_with_code(cs@, code@).len() > 0 && cs@[i as int]
                == causes_with_code(cs@, code@)[0],
            None => causes_with_code(cs@, code@).len() == 0,
        },
{
    let mut n: usize = 0;
    let mut first: Option<usize> = None;
    let mut i: usize = 0;
    proof {
        assert(cs@.take(0) =~= Seq::<ProbableCrashCause>::empty());
    }
    while i < cs.len()
        invariant
            i <= cs@.len(),
            n == causes_with_code(cs@.take(i as int), code@).len(),
            n <= i,
            match first {
                Some(f) => f < cs@.len() && n > 0 && cs@[f as int] == causes_with_code(
                    cs@.take(i as int),
                    code@,
                )[0],
                None => n == 0,
            },
        decreases cs.len() - i,
    {
        proof {
            assert(cs@.take(i + 1).drop_last() =~= cs@.take(i as int));
            assert(cs@.take(i + 1).last() == cs@[i as int]);
        }
        if crate::text::str_eq(cs[i].code.as_str(), code) {
            if first.is_none() {
                first = Some(i);
            }
            n = n + 1;
        }
        i = i + 1;
    }
    proof {
        assert(cs@.take(cs@.len() as int) =~= cs@);
    }
    (n, first)
}

pub(crate) fn fixes_with_code_exec(fs: &Vec<SuggestedFix>, code: &str) -> (r: (usize, Option<usize>))
    ensures
        r.0 == fixes_with_code(fs@, code@).len(),
        match r.1 {
            Some(i) => i < fs@.len() && fixes_with_code(fs@, code@).len() > 0 && fs@[i as int]
                == fixes_with_code(fs@, code@)[0],
            None => fixes_with_code(fs@, code@).len() == 0,
        },
{
    let mut n: usize = 0;
    let mut first: Option<usize> = None;
    let mut i: usize = 0;
    proof {
        assert(fs@.take(0) =~= Seq::<SuggestedFix>::empty());
    }
    while i < fs.len()
        invariant
            i <= fs@.len(),
            n == fixes_with_code(fs@.take(i as int), code@).len(),
            n <= i,
            match first {
                Some(f) => f < fs@.len() && n > 0 && fs@[f as int] == fixes_with_code(
                    fs@.take(i as int),
                    code@,
                )[0],
                None => n == 0,
            },
        decreases fs.len() - i,
    {
        proof {
            assert(fs@.take(i + 1).drop_last() =~= fs@.take(i as int));
            assert(fs@.take(i + 1).last() == fs@[i as int]);
        }
        if crate::text::str_eq(fs[i].code.as_str(), code) {
            if first.is_none() {
                first = Some(i);
            }
            n = n + 1;
        }
        i = i + 1;
    }
    proof {
        assert(fs@.take(fs@.len() as int) =~= fs@);
    }
    (n, first)
}

// ---------------------------------------------------------------------------
// The summary
// ---------------------------------------------------------------------------

pub open spec fn spec_summary_head(
    inf: InferenceReport,
    props: ProposalArtifacts,
    ncc: nat,
    ncf: nat,
    nrev: nat,
) -> Seq<Seq<char>> {
    let ps = props.mapping_proposal.summary;
    let k = inf.knowledge_input;
    seq![
        "# WhashReonator Summary"@,
        Seq::empty(),
        "- Versions: `"@ + inf.compare_input.old_version_id@ + "` -> `"@
            + inf.compare_input.new_version_id@ + "`"@,
        "- WWMI knowledge: repo `"@ + k.repo@ + "`, analyzed_commits="@ + decimal(
            k.analyzed_commits as nat,
        ) + ", discovered_patterns="@ + decimal(k.discovered_patterns as nat),
        "- Highest confidence: "@ + fixed3(ps.highest_confidence_milli as nat),
        "- Mapping proposals: proposed="@ + decimal(ps.proposed_mappings as nat) + ", needs_review="@
            + decimal(ps.needs_review_mappings as nat) + ", total_candidates="@ + decimal(
            ps.total_mapping_candidates as nat,
        ),
    ] + (match inf.mod_dependency_input {
        Some(m) => seq![
            "- Mod dependency profile: `"@ + opt_text_or(m.mod_name, m.mod_root@) + "` ini_files="@
                + decimal(m.ini_file_count as nat) + " signals="@ + decimal(m.signal_count as nat)
                + " kinds="@ + join_seq(
                m.dependency_kinds@.map_values(|d: WwmiModDependencyKind| spec_dependency_kind_label(d)),
                ", "@,
            ),
        ],
        None => Seq::empty(),
    }) + (if ncc > 0 || ncf > 0 || nrev > 0 {
        seq![
            "- Continuity-backed caution: causes="@ + decimal(ncc) + ", fixes="@ + decimal(ncf)
                + ", review_only_mappings="@ + decimal(nrev),
        ]
    } else {
        Seq::empty()
    }) + seq![Seq::empty()]
}

pub open spec fn spec_continuity_caution_lines(
    cc: Seq<ProbableCrashCause>,
    cf: Seq<SuggestedFix>,
    nrev: nat,
) -> Seq<Seq<char>> {
    if cc.len() > 0 || cf.len() > 0 || nrev > 0 {
        seq![
            Seq::empty(),
            "### Continuity Caution"@,
            "- Broader continuity history is keeping "@ + decimal(nrev)
                + " mapping candidate(s) in review-first state."@,
        ] + (if cc.len() > 0 {
            seq![spec_item_head(cc[0].code@, cc[0].risk, cc[0].confidence_milli, cc[0].summary@)]
        } else {
            Seq::empty()
        }) + (if cf.len() > 0 {
            seq![spec_item_head(cf[0].code@, cf[0].priority, cf[0].confidence_milli, cf[0].summary@)]
        } else {
            Seq::empty()
        })
    } else {
        Seq::empty()
    }
}

pub open spec fn spec_fix_before_remap(
    inf: InferenceReport,
    needs: Seq<MappingProposalEntry>,
    cc: Seq<ProbableCrashCause>,
    cf: Seq<SuggestedFix>,
    nrev: nat,
) -> Seq<Seq<char>> {
    let causes = inf.probable_crash_causes@;
    let fixes = inf.suggested_fixes@;
    seq!["## Fix Before Remap"@] + if causes.len() == 0 && fixes.len() == 0 && needs.len() == 0 {
        seq!["- No blocking issue was inferred before remapping."@]
    } else {
        seq!["### Likely Crash Causes"@] + (if causes.len() == 0 {
            seq!["- No strong crash cause was inferred from the current inputs."@]
        } else {
            concat_blocks(first_n(stable_sort(causes), 5))
        }) + seq![Seq::empty(), "### Suggested Fixes"@] + (if fixes.len() == 0 {
            seq!["- No concrete fix suggestions were inferred yet."@]
        } else {
            concat_blocks(first_n(stable_sort(fixes), 5))
        }) + spec_continuity_caution_lines(cc, cf, nrev) + seq![Seq::empty(), "### Needs Review"@]
            + (if needs.len() == 0 {
            seq!["- No mapping candidate is currently blocked for review."@]
        } else {
            concat_blocks(first_n(stable_sort(needs), 5))
        })
    }
}

pub open spec fn spec_safe_to_try(proposed: Seq<MappingProposalEntry>) -> Seq<Seq<char>> {
    seq![Seq::empty(), "## Safe To Try Now"@] + if proposed.len() == 0 {
        seq!["- No mapping candidate is strong enough to propose automatically."@]
    } else {
        seq!["### Proposed Mappings"@] + concat_blocks(first_n(proposed, 5))
    }
}

pub open spec fn spec_next_steps(caution: bool) -> Seq<Seq<char>> {
    seq![
        Seq::empty(),
        "## Next Steps"@,
        "- Resolve `Fix Before Remap` items before treating any mapping as stable."@,
        "- Validate `Safe To Try Now` mappings against real mod/runtime behavior before applying them broadly."@,
        "- Prioritize `needs_review` entries with structural drift or ambiguous runner-up evidence."@,
    ] + (if caution {
        seq![
            "- Review broader continuity thread history before trusting remap-only repair on continuity-flagged mappings."@,
        ]
    } else {
        Seq::empty()
    }) + seq!["- Re-scan snapshots when richer game metadata or hashes become available."@]
}

/// The lines of the human-readable summary. Causes and fixes come riskiest
/// first, then most confident, then by code; review-only mappings come by review
/// rank, then confidence, then old path; at most five of each are shown.
pub open spec fn spec_remap_summary_lines(inf: InferenceReport, props: ProposalArtifacts) -> Seq<
    Seq<char>,
> {
    let ms = props.mapping_proposal.mappings@;
    let proposed = with_status(ms, ProposalStatus::Proposed);
    let needs = with_status(ms, ProposalStatus::NeedsReview);
    let cc = causes_with_code(inf.probable_crash_causes@, "continuity_thread_instability"@);
    let cf = fixes_with_code(
        inf.suggested_fixes@,
        "review_continuity_thread_history_before_repair"@,
    );
    let nrev = count_caution(needs);
    spec_summary_head(inf, props, cc.len(), cf.len(), nrev) + spec_fix_before_remap(
        inf,
        needs,
        cc,
        cf,
        nrev,
    ) + spec_safe_to_try(proposed) + spec_next_steps(cc.len() > 0 || cf.len() > 0 || nrev > 0)
}

fn summary_head(
    inf: &InferenceReport,
    props: &ProposalArtifacts,
    ncc: usize,
    ncf: usize,
    nrev: usize,
) -> (r: Vec<String>)
    ensures
        views(r@) == spec_summary_head(*inf, *props, ncc as nat, ncf as nat, nrev as nat),
{
    let ps = &props.mapping_proposal.summary;
    let k = &inf.knowledge_input;
    let mut lines: Vec<String> = Vec::new();
    push_text(&mut lines, new_string("# WhashReonator Summary"));
    push_text(&mut lines, String::new());
    let mut l = new_string("- Versions: `");
    push_str(&mut l, inf.compare_input.old_version_id.as_str());
    push_str(&mut l, "` -> `");
    push_str(&mut l, inf.compare_input.new_version_id.as_str());
    push_str(&mut l, "`");
    push_text(&mut lines, l);
    let mut l = new_string("- WWMI knowledge: repo `");
    push_str(&mut l, k.repo.as_str());
    push_str(&mut l, "`, analyzed_commits=");
    let a = decimal_string(k.analyzed_commits);
    push_str(&mut l, a.as_str());
    push_str(&mut l, ", discovered_patterns=");
    let d = decimal_string(k.discovered_patterns);
    push_str(&mut l, d.as_str());
    push_text(&mut lines, l);
    let mut l = new_string("- Highest confidence: ");
    let h = fixed3_string(ps.highest_confidence_milli);
    push_str(&mut l, h.as_str());
    push_text(&mut lines, l);
    let mut l = new_string("- Mapping proposals: proposed=");
    let p = decimal_string(ps.proposed_mappings);
    push_str(&mut l, p.as_str());
    push_str(&mut l, ", needs_review=");
    let n = decimal_string(ps.needs_review_mappings);
    push_str(&mut l, n.as_str());
    push_str(&mut l, ", total_candidates=");
    let t = decimal_string(ps.total_mapping_candidates);
    push_str(&mut l, t.as_str());
    push_text(&mut lines, l);
    let ghost fixed_part = views(lines@);
    match &inf.mod_dependency_input {
        Some(m) => {
            let mut l = new_string("- Mod dependency profile: `");
            let name = match &m.mod_name {
                Some(x) => x.clone(),
                None => m.mod_root.clone(),
            };
            push_str(&mut l, name.as_str());
            push_str(&mut l, "` ini_files=");
            let f = decimal_string(m.ini_file_count);
            push_str(&mut l, f.as_str());
            push_str(&mut l, " signals=");
            let g = decimal_string(m.signal_count);
            push_str(&mut l, g.as_str());
            push_str(&mut l, " kinds=");
            let kinds = join_dependency_kind_labels(&m.dependency_kinds);
            push_str(&mut l, kinds.as_str());
            push_text(&mut lines, l);
        },
        None => {},
    }
    if ncc > 0 || ncf > 0 || nrev > 0 {
        let mut l = new_string("- Continuity-backed caution: causes=");
        let a = decimal_string(ncc);
        push_str(&mut l, a.as_str());
        push_str(&mut l, ", fixes=");
        let b = decimal_string(ncf);
        push_str(&mut l, b.as_str());
        push_str(&mut l, ", review_only_mappings=");
        let c = decimal_string(nrev);
        push_str(&mut l, c.as_str());
        push_text(&mut lines, l);
    }
    push_text(&mut lines, String::new());
    proof {
        assert(views(lines@) =~= spec_summary_head(*inf, *props, ncc as nat, ncf as nat, nrev as nat));
    }
    lines
}

fn push_all(lines: &mut Vec<String>, more: Vec<String>)
    ensures
        views(final(lines)@) == views(old(lines)@) + views(more@),
{
    crate::text::append_texts(lines, more);
}

fn caution_lines(
    causes: &Vec<ProbableCrashCause>,
    fixes: &Vec<SuggestedFix>,
    ncc: usize,
    fcc: Option<usize>,
    ncf: usize,
    fcf: Option<usize>,
    nrev: usize,
) -> (r: Vec<String>)
    requires
        ncc == causes_with_code(causes@, "continuity_thread_instability"@).len(),
        match fcc {
            Some(i) => i < causes@.len() && ncc > 0 && causes@[i as int] == causes_with_code(
                causes@,
                "continuity_thread_instability"@,
            )[0],
            None => ncc == 0,
        },
        ncf == fixes_with_code(fixes@, "review_continuity_thread_history_before_repair"@).len(),
        match fcf {
            Some(i) => i < fixes@.len() && ncf > 0 && fixes@[i as int] == fixes_with_code(
                fixes@,
                "review_continuity_thread_history_before_repair"@,
            )[0],
            None => ncf == 0,
        },
    ensures
        views(r@) == spec_continuity_caution_lines(
            causes_with_code(causes@, "continuity_thread_instability"@),
            fixes_with_code(fixes@, "review_continuity_thread_history_before_repair"@),
            nrev as nat,
        ),
{
    let mut lines: Vec<String> = Vec::new();
    if ncc > 0 || ncf > 0 || nrev > 0 {
        push_text(&mut lines, String::new());
        push_text(&mut lines, new_string("### Continuity Caution"));
        let mut l = new_string("- Broader continuity history is keeping ");
        let n = decimal_string(nrev);
        push_str(&mut l, n.as_str());
        push_str(&mut l, " mapping candidate(s) in review-first state.");
        push_text(&mut lines, l);
        let ghost head = views(lines@);
        match fcc {
            Some(i) => {
                let c = &causes[i];
                push_text(&mut lines, item_head(&c.code, &c.risk, c.confidence_milli, &c.summary));
            },
            None => {},
        }
        let ghost mid = views(lines@);
        match fcf {
            Some(i) => {
                let f = &fixes[i];
                push_text(&mut lines, item_head(&f.code, &f.priority, f.confidence_milli, &f.summary));
            },
            None => {},
        }
        proof {
            let cc = causes_with_code(causes@, "continuity_thread_instability"@);
            let cf = fixes_with_code(fixes@, "review_continuity_thread_history_before_repair"@);
            assert(mid =~= head + (if cc.len() > 0 {
                seq![spec_item_head(cc[0].code@, cc[0].risk, cc[0].confidence_milli, cc[0].summary@)]
            } else {
                Seq::<Seq<char>>::empty()
            }));
            assert(views(lines@) =~= spec_continuity_caution_lines(cc, cf, nrev as nat));
        }
    } else {
        proof {
            assert(views(lines@) =~= Seq::<Seq<char>>::empty());
        }
    }
    lines
}

fn crash_cause_lines(causes: &Vec<ProbableCrashCause>) -> (r: Vec<String>)
    ensures
        views(r@) == seq!["### Likely Crash Causes"@] + (if causes@.len() == 0 {
            seq!["- No strong crash cause was inferred from the current inputs."@]
        } else {
            concat_blocks(first_n(stable_sort(causes@), 5))
        }),
{
    let mut lines: Vec<String> = Vec::new();
    push_text(&mut lines, new_string("### Likely Crash Causes"));
    if causes.len() == 0 {
        push_text(&mut lines, new_string("- No strong crash cause was inferred from the current inputs."));
    } else {
        let all_c = all_positions(causes.len());
        proof {
            assert(picked(causes@, all_c@) =~= causes@);
        }
        let order = stable_order(causes, &all_c);
        append_blocks(&mut lines, causes, &order, 5);
    }
    lines
}

fn suggested_fix_lines(fixes: &Vec<SuggestedFix>) -> (r: Vec<String>)
    ensures
        views(r@) == seq![Seq::<char>::empty(), "### Suggested Fixes"@] + (if fixes@.len() == 0 {
            seq!["- No concrete fix suggestions were inferred yet."@]
        } else {
            concat_blocks(first_n(stable_sort(fixes@), 5))
        }),
{
    let mut lines: Vec<String> = Vec::new();
    push_text(&mut lines, String::new());
    push_text(&mut lines, new_string("### Suggested Fixes"));
    if fixes.len() == 0 {
        push_text(&mut lines, new_string("- No concrete fix suggestions were inferred yet."));
    } else {
        let all_f = all_positions(fixes.len());
        proof {
            assert(picked(fixes@, all_f@) =~= fixes@);
        }
        let order = stable_order(fixes, &all_f);
        append_blocks(&mut lines, fixes, &order, 5);
    }
    lines
}

fn needs_review_lines(ms: &Vec<MappingProposalEntry>, needs: &Vec<usize>) -> (r: Vec<String>)
    requires
        forall|k: int| 0 <= k < needs@.len() ==> #[trigger] needs@[k] < ms@.len(),
    ensures
        views(r@) == seq![Seq::<char>::empty(), "### Needs Review"@] + (if needs@.len() == 0 {
            seq!["- No mapping candidate is currently blocked for review."@]
        } else {
            concat_blocks(first_n(stable_sort(picked(ms@, needs@)), 5))
        }),
{
    let mut lines: Vec<String> = Vec::new();
    push_text(&mut lines, String::new());
    push_text(&mut lines, new_string("### Needs Review"));
    if needs.len() == 0 {
        push_text(&mut lines, new_string("- No mapping candidate is currently blocked for review."));
    } else {
        let order = stable_order(ms, needs);
        append_blocks(&mut lines, ms, &order, 5);
    }
    lines
}

fn safe_to_try_lines(ms: &Vec<MappingProposalEntry>, proposed: &Vec<usize>) -> (r: Vec<String>)
    requires
        forall|k: int| 0 <= k < proposed@.len() ==> #[trigger] proposed@[k] < ms@.len(),
    ensures
        views(r@) == spec_safe_to_try(picked(ms@, proposed@)),
{
    let mut lines: Vec<String> = Vec::new();
    push_text(&mut lines, String::new());
    push_text(&mut lines, new_string("## Safe To Try Now"));
    if proposed.len() == 0 {
        push_text(
            &mut lines,
            new_string("- No mapping candidate is strong enough to propose automatically."),
        );
    } else {
        push_text(&mut lines, new_string("### Proposed Mappings"));
        append_blocks(&mut lines, ms, proposed, 5);
    }
    proof {
        assert(views(lines@) =~= spec_safe_to_try(picked(ms@, proposed@)));
    }
    lines
}

fn next_steps_lines(caution: bool) -> (r: Vec<String>)
    ensures
        views(r@) == spec_next_steps(caution),
{
    let mut lines: Vec<String> = Vec::new();
    push_text(&mut lines, String::new());
    push_text(&mut lines, new_string("## Next Steps"));
    push_text(
        &mut lines,
        new_string("- Resolve `Fix Before Remap` items before treating any mapping as stable."),
    );
    push_text(
        &mut lines,
        new_string(
            "- Validate `Safe To Try Now` mappings against real mod/runtime behavior before applying them broadly.",
        ),
    );
    push_text(
        &mut lines,
        new_string(
            "- Prioritize `needs_review` entries with structural drift or ambiguous runner-up evidence.",
        ),
    );
    if caution {
        push_text(
            &mut lines,
            new_string(
                "- Review broader continuity thread history before trusting remap-only repair on continuity-flagged mappings.",
            ),
        );
    }
    push_text(
        &mut lines,
        new_string("- Re-scan snapshots when richer game metadata or hashes become available."),
    );
    proof {
        assert(views(lines@) =~= spec_next_steps(caution));
    }
    lines
}

#[verifier::rlimit(60)]
fn fix_before_remap_lines(
    inference: &InferenceReport,
    ms: &Vec<MappingProposalEntry>,
    needs: &Vec<usize>,
    ncc: usize,
    fcc: Option<usize>,
    ncf: usize,
    fcf: Option<usize>,
    nrev: usize,
) -> (r: Vec<String>)
    requires
        forall|k: int| 0 <= k < needs@.len() ==> #[trigger] needs@[k] < ms@.len(),
        ncc == causes_with_code(inference.probable_crash_causes@, "continuity_thread_instability"@).len(),
        match fcc {
            Some(i) => i < inference.probable_crash_causes@.len() && ncc > 0
                && inference.probable_crash_causes@[i as int] == causes_with_code(
                inference.probable_crash_causes@,
                "continuity_thread_instability"@,
            )[0],
            None => ncc == 0,
        },
        ncf == fixes_with_code(
            inference.suggested_fixes@,
            "review_continuity_thread_history_before_repair"@,
        ).len(),
        match fcf {
            Some(i) => i < inference.suggested_fixes@.len() && ncf > 0
                && inference.suggested_fixes@[i as int] == fixes_with_code(
                inference.suggested_fixes@,
                "review_continuity_thread_history_before_repair"@,
            )[0],
            None => ncf == 0,
        },
    ensures
        views(r@) == spec_fix_before_remap(
            *inference,
            picked(ms@, needs@),
            causes_with_code(inference.probable_crash_causes@, "continuity_thread_instability"@),
            fixes_with_code(
                inference.suggested_fixes@,
                "review_continuity_thread_history_before_repair"@,
            ),
            nrev as nat,
        ),
{
    let causes = &inference.probable_crash_causes;
    let fixes = &inference.suggested_fixes;
    let mut lines: Vec<String> = Vec::new();
    push_text(&mut lines, new_string("## Fix Before Remap"));
    if causes.len() == 0 && fixes.len() == 0 && needs.len() == 0 {
        push_text(&mut lines, new_string("- No blocking issue was inferred before remapping."));
    } else {
        push_all(&mut lines, crash_cause_lines(causes));
        push_all(&mut lines, suggested_fix_lines(fixes));
        push_all(&mut lines, caution_lines(causes, fixes, ncc, fcc, ncf, fcf, nrev));
        push_all(&mut lines, needs_review_lines(ms, needs));
    }
    proof {
        let cc = causes_with_code(causes@, "continuity_thread_instability"@);
        let cf = fixes_with_code(fixes@, "review_continuity_thread_history_before_repair"@);
        assert(views(lines@) =~= spec_fix_before_remap(
            *inference,
            picked(ms@, needs@),
            cc,
            cf,
            nrev as nat,
        ));
    }
    lines
}

impl HumanSummaryRenderer {
    /// The human-readable summary of an inference report and its mapping proposals.
    pub fn render(&self, inference: &InferenceReport, proposals: &ProposalArtifacts) -> (r: String)
        ensures
            r@ == join_seq(spec_remap_summary_lines(*inference, *proposals), "\n"@),
    {
        let ms = &proposals.mapping_proposal.mappings;
        let causes = &inference.probable_crash_causes;
        let fixes = &inference.suggested_fixes;
        let proposed = status_positions(ms, ProposalStatus::Proposed);
        let needs = status_positions(ms, ProposalStatus::NeedsReview);
        let (ncc, fcc) = causes_with_code_exec(causes, "continuity_thread_instability");
        let (ncf, fcf) = fixes_with_code_exec(fixes, "review_continuity_thread_history_before_repair");
        let nrev = caution_count(ms, &needs);
        let mut lines = summary_head(inference, proposals, ncc, ncf, nrev);
        push_all(
            &mut lines,
            fix_before_remap_lines(inference, ms, &needs, ncc, fcc, ncf, fcf, nrev),
        );
        push_all(&mut lines, safe_to_try_lines(ms, &proposed));
        push_all(&mut lines, next_steps_lines(ncc > 0 || ncf > 0 || nrev > 0));
        join(&lines, "\n")
    }
}


// ---------------------------------------------------------------------------
// The riskiest findings come first
// ---------------------------------------------------------------------------

/// How severe a risk is: high above medium above low.
pub open spec fn severity(r: RiskLevel) -> int {
    match r {
        RiskLevel::High => 2,
        RiskLevel::Medium => 1,
        RiskLevel::Low => 0,
    }
}

/// In the summary's review order, no cause of lower risk comes before one of
/// higher risk, and no fix of lower priority before one of higher priority: high,
/// then medium, then low, so the first five shown are the riskiest.
pub proof fn review_lists_go_riskiest_first(causes: Seq<ProbableCrashCause>, fixes: Seq<SuggestedFix>)
    ensures
        forall|i: int, j: int|
            0 <= i < j < stable_sort(causes).len() ==> severity((#[trigger] stable_sort(causes)[j]).risk)
                <= severity((#[trigger] stable_sort(causes)[i]).risk),
        forall|i: int, j: int|
            0 <= i < j < stable_sort(fixes).len() ==> severity((#[trigger] stable_sort(fixes)[j]).priority)
                <= severity((#[trigger] stable_sort(fixes)[i]).priority),
{
    assert forall|a: ProbableCrashCause| !#[trigger] a.goes_before(&a) by {
        lemma_lt_irreflexive(a.code@);
    }
    assert forall|a: ProbableCrashCause, b: ProbableCrashCause, c: ProbableCrashCause|
        #[trigger] a.goes_before(&b) && #[trigger] b.goes_before(&c) implies a.goes_before(&c) by {
        if spec_risk_rank(a.risk) == spec_risk_rank(b.risk) && spec_risk_rank(b.risk) == spec_risk_rank(c.risk)
            && a.confidence_milli == b.confidence_milli && b.confidence_milli == c.confidence_milli {
            lemma_lt_transitive(a.code@, b.code@, c.code@);
        }
    }
    lemma_stable_sort_ordered(causes);
    assert forall|i: int, j: int| 0 <= i < j < stable_sort(causes).len() implies severity(
        (#[trigger] stable_sort(causes)[j]).risk,
    ) <= severity((#[trigger] stable_sort(causes)[i]).risk) by {
        let x = stable_sort(causes)[i];
        let y = stable_sort(causes)[j];
        assert(!y.goes_before(&x));
        assert(spec_risk_rank(y.risk) <= spec_risk_rank(x.risk));
    }
    assert forall|a: SuggestedFix| !#[trigger] a.goes_before(&a) by {
        lemma_lt_irreflexive(a.code@);
    }
    assert forall|a: SuggestedFix, b: SuggestedFix, c: SuggestedFix|
        #[trigger] a.goes_before(&b) && #[trigger] b.goes_before(&c) implies a.goes_before(&c) by {
        if spec_risk_rank(a.priority) == spec_risk_rank(b.priority) && spec_risk_rank(b.priority)
            == spec_risk_rank(c.priority) && a.confidence_milli == b.confidence_milli && b.confidence_milli
            == c.confidence_milli {
            lemma_lt_transitive(a.code@, b.code@, c.code@);
        }
    }
    lemma_stable_sort_ordered(fixes);
    assert forall|i: int, j: int| 0 <= i < j < stable_sort(fixes).len() implies severity(
        (#[trigger] stable_sort(fixes)[j]).priority,
    ) <= severity((#[trigger] stable_sort(fixes)[i]).priority) by {
        let x = stable_sort(fixes)[i];
        let y = stable_sort(fixes)[j];
        assert(!y.goes_before(&x));
        assert(spec_risk_rank(y.priority) <= spec_risk_rank(x.priority));
    }
}

} // verus!
