//! Reading a 3DMigoto frame-analysis `log.txt` into draw calls and their bindings.
//!
//! The log starts with an `analyse_options` header. Each draw-call line reads
//! `<drawcall> <ApiCall>(<Name>:<value>, ...)`, possibly followed by `hash=<hex>`;
//! indented lines under `IASetVertexBuffers`, `IASetIndexBuffer`, `VSSetShader`,
//! `PSSetShader` and `PSSetShaderResources` describe bound resources as
//! `<slot>: view=<addr> resource=<addr> hash=<hex>`.
use vstd::prelude::*;
use crate::error::AppError;
use crate::order::{string_lt, text_lt, lemma_lt_total, lemma_lt_transitive, lemma_lt_irreflexive};
use crate::scan::{
    find_char, first_index, int_error_message, int_error_text, last_index, lemma_split_nonempty,
    parse_i32, parse_u32, rfind_char, spec_parse_i32, spec_parse_u32, split_chars, split_on,
    split_ws, ws_words, IntErrorKind,
};
use crate::text::{
    char_is_ascii_digit, char_is_ascii_ws, char_is_lower_hex, char_is_ws, chars_of, is_ascii_digit,
    is_ascii_ws, is_lower_hex, is_prefix, is_ws, new_string, push_chars, seq_eq, string_of,
    trim_bounds, trim_end_seq, trim_seq, trim_start_seq, vec_subrange,
};

verus! {

broadcast use vstd::seq_lib::group_seq_properties;

pub const DEFAULT_BINDING_SLOT: &'static str = "0";

/// A parsed frame-analysis dump.
#[derive(Debug, Clone, PartialEq, Eq)]
pub struct FrameAnalysisDump {
    pub dump_dir: String,
    pub log_path: String,
    pub options_header: String,
    pub draw_calls: Vec<FrameAnalysisDrawCall>,
}

/// One draw call with everything bound to it.
#[derive(Debug, Clone, PartialEq, Eq)]
pub struct FrameAnalysisDrawCall {
    pub drawcall: u32,
    pub vb_bindings: Vec<FrameAnalysisBinding>,
    pub ib_binding: Option<FrameAnalysisBinding>,
    pub vs_binding: Option<FrameAnalysisBinding>,
    pub ps_binding: Option<FrameAnalysisBinding>,
    /// Compute shader bound for `Dispatch` calls.
    pub cs_binding: Option<FrameAnalysisBinding>,
    /// Textures bound to the pixel shader.
    pub ps_texture_bindings: Vec<FrameAnalysisBinding>,
    pub draw: Option<FrameAnalysisDraw>,
    pub ib_format: Option<String>,
}

#[derive(Debug, Clone, PartialEq, Eq)]
pub struct FrameAnalysisBinding {
    pub slot: String,
    pub view_address: Option<String>,
    pub resource_address: String,
    pub hash: String,
}

#[derive(Debug, Clone, Copy, PartialEq, Eq)]
pub enum FrameAnalysisDraw {
    Indexed { index_count: u32, start_index: u32, base_vertex: i32 },
    NonIndexed { vertex_count: u32, start_vertex: u32 },
    /// `Dispatch` / `DispatchIndirect`; an indirect dispatch records zeros.
    Compute { thread_group_x: u32, thread_group_y: u32, thread_group_z: u32 },
}

/// What the indented lines after an API call describe.
#[derive(Debug, Clone, Copy, PartialEq, Eq)]
pub enum PendingBindingKind {
    VertexBuffer,
    IndexBuffer,
    VertexShader,
    PixelShader,
    PixelShaderTextures,
    Ignore,
}

// ---------------------------------------------------------------------------
// Models
// ---------------------------------------------------------------------------

pub struct BindingModel {
    pub slot: Seq<char>,
    pub view_address: Option<Seq<char>>,
    pub resource_address: Seq<char>,
    pub hash: Seq<char>,
}

pub struct DrawCallModel {
    pub drawcall: u32,
    pub vb: Seq<BindingModel>,
    pub ib: Option<BindingModel>,
    pub vs: Option<BindingModel>,
    pub ps: Option<BindingModel>,
    pub cs: Option<BindingModel>,
    pub tex: Seq<BindingModel>,
    pub draw: Option<FrameAnalysisDraw>,
    pub ib_format: Option<Seq<char>>,
}

pub open spec fn opt_seq(o: Option<String>) -> Option<Seq<char>> {
    match o {
        Some(s) => Some(s@),
        None => None,
    }
}

impl View for FrameAnalysisBinding {
    type V = BindingModel;

    open spec fn view(&self) -> BindingModel {
        BindingModel {
            slot: self.slot@,
            view_address: opt_seq(self.view_address),
            resource_address: self.resource_address@,
            hash: self.hash@,
        }
    }
}

pub open spec fn opt_binding(o: Option<FrameAnalysisBinding>) -> Option<BindingModel> {
    match o {
        Some(b) => Some(b@),
        None => None,
    }
}

pub open spec fn binding_models(v: Seq<FrameAnalysisBinding>) -> Seq<BindingModel> {
    v.map_values(|b: FrameAnalysisBinding| b@)
}

impl View for FrameAnalysisDrawCall {
    type V = DrawCallModel;

    open spec fn view(&self) -> DrawCallModel {
        DrawCallModel {
            drawcall: self.drawcall,
            vb: binding_models(self.vb_bindings@),
            ib: opt_binding(self.ib_binding),
            vs: opt_binding(self.vs_binding),
            ps: opt_binding(self.ps_binding),
            cs: opt_binding(self.cs_binding),
            tex: binding_models(self.ps_texture_bindings@),
            draw: self.draw,
            ib_format: opt_seq(self.ib_format),
        }
    }
}

pub open spec fn draw_call_models(v: Seq<FrameAnalysisDrawCall>) -> Seq<DrawCallModel> {
    v.map_values(|d: FrameAnalysisDrawCall| d@)
}

pub open spec fn empty_draw_call(n: u32) -> DrawCallModel {
    DrawCallModel {
        drawcall: n,
        vb: Seq::empty(),
        ib: None,
        vs: None,
        ps: None,
        cs: None,
        tex: Seq::empty(),
        draw: None,
        ib_format: None,
    }
}

/// A draw call is kept only when something was bound or drawn.
pub open spec fn is_meaningful(d: DrawCallModel) -> bool {
    d.vb.len() > 0 || d.ib is Some || d.vs is Some || d.ps is Some || d.cs is Some || d.tex.len()
        > 0 || d.draw is Some
}

// ---------------------------------------------------------------------------
// Text pieces
// ---------------------------------------------------------------------------

/// Trailing carriage returns removed.
pub open spec fn trim_end_cr(s: Seq<char>) -> Seq<char>
    decreases s.len(),
{
    if s.len() > 0 && s.last() == '\r' {
        trim_end_cr(s.drop_last())
    } else {
        s
    }
}

/// The log's lines: the text split at `\n`, without an empty piece after a final `\n`.
/// (`str::lines` also drops one `\r` before each `\n`; every consumer below strips
/// trailing `\r` itself, so the results agree.)
pub open spec fn spec_lines(s: Seq<char>) -> Seq<Seq<char>> {
    if s.len() == 0 {
        Seq::empty()
    } else if s.last() == '\n' {
        split_on(s, '\n').drop_last()
    } else {
        split_on(s, '\n')
    }
}

pub open spec fn all_digits(s: Seq<char>) -> bool {
    forall|i: int| 0 <= i < s.len() ==> is_ascii_digit(#[trigger] s[i])
}

pub open spec fn all_lower_hex(s: Seq<char>) -> bool {
    forall|i: int| 0 <= i < s.len() ==> is_lower_hex(#[trigger] s[i])
}

pub open spec fn all_slot_chars(s: Seq<char>) -> bool {
    forall|i: int| 0 <= i < s.len() ==> is_ascii_digit(#[trigger] s[i]) || s[i] == 'D'
}

/// The leading run of characters that are not ASCII whitespace.
pub open spec fn take_until_ascii_ws(s: Seq<char>) -> Seq<char>
    decreases s.len(),
{
    if s.len() == 0 || is_ascii_ws(s[0]) {
        Seq::empty()
    } else {
        seq![s[0]] + take_until_ascii_ws(s.drop_first())
    }
}

// ---------------------------------------------------------------------------
// Named arguments and inline hashes
// ---------------------------------------------------------------------------

/// The argument list sits between the first `(` and the last `)`; a call whose last
/// `)` comes before its first `(` has no such slice: slicing it would panic, so the
/// reader's `requires` leaves such text out.
pub open spec fn brackets_reversed(call: Seq<char>) -> bool {
    match (first_index(call, '('), last_index(call, ')')) {
        (Some(a), Some(b)) => b < a + 1,
        _ => false,
    }
}

/// The first `Name: value` part whose trimmed name is `key`, its value trimmed.
pub open spec fn first_named(parts: Seq<Seq<char>>, key: Seq<char>) -> Option<Seq<char>>
    decreases parts.len(),
{
    if parts.len() == 0 {
        None
    } else {
        let p = trim_seq(parts[0]);
        match first_index(p, ':') {
            Some(i) => if trim_seq(p.take(i)) == key {
                Some(trim_seq(p.subrange(i + 1, p.len() as int)))
            } else {
                first_named(parts.drop_first(), key)
            },
            None => first_named(parts.drop_first(), key),
        }
    }
}

/// `Name: value` lookup in the argument list of an API call (valid when the
/// brackets are not reversed).
pub open spec fn spec_named_arg(call: Seq<char>, key: Seq<char>) -> Option<Seq<char>> {
    match (first_index(call, '('), last_index(call, ')')) {
        (Some(a), Some(b)) => first_named(split_on(call.subrange(a + 1, b), ','), key),
        _ => None,
    }
}

/// Outcome of reading a trailing `hash=<hex>` after the closing bracket.
pub enum HashOutcome {
    Absent,
    Present(Seq<char>),
    Invalid(Seq<char>),
}

pub open spec fn spec_inline_hash(call: Seq<char>) -> HashOutcome {
    match last_index(call, ')') {
        None => HashOutcome::Absent,
        Some(c) => {
            let t = trim_seq(call.subrange(c + 1, call.len() as int));
            if !is_prefix("hash="@, t) {
                HashOutcome::Absent
            } else {
                let h = take_until_ascii_ws(t.subrange(5, t.len() as int));
                if h.len() == 0 {
                    HashOutcome::Absent
                } else if !all_lower_hex(h) {
                    HashOutcome::Invalid(h)
                } else {
                    HashOutcome::Present(h)
                }
            }
        },
    }
}

pub open spec fn hash_error_text(h: Seq<char>) -> Seq<char> {
    "frame analysis hash must be lowercase hex, got "@ + h
}

/// Canonical index-buffer format: DXGI numbers and symbolic names agree.
pub open spec fn spec_index_format(raw: Seq<char>) -> Seq<char> {
    let t = trim_seq(raw);
    if t == "42"@ || t == "DXGI_FORMAT_R32_UINT"@ || t == "R32_UINT"@ {
        "R32_UINT"@
    } else if t == "57"@ || t == "DXGI_FORMAT_R16_UINT"@ || t == "R16_UINT"@ {
        "R16_UINT"@
    } else {
        t
    }
}

pub enum NumOutcome {
    Missing,
    Invalid(Seq<char>, IntErrorKind),
    Value(int),
}

pub open spec fn spec_u32_arg(call: Seq<char>, key: Seq<char>) -> NumOutcome {
    match spec_named_arg(call, key) {
        None => NumOutcome::Missing,
        Some(v) => match spec_parse_u32(v) {
            Ok(x) => NumOutcome::Value(x),
            Err(e) => NumOutcome::Invalid(v, e),
        },
    }
}

pub open spec fn spec_i32_arg(call: Seq<char>, key: Seq<char>) -> NumOutcome {
    match spec_named_arg(call, key) {
        None => NumOutcome::Missing,
        Some(v) => match spec_parse_i32(v) {
            Ok(x) => NumOutcome::Value(x),
            Err(e) => NumOutcome::Invalid(v, e),
        },
    }
}

pub open spec fn num_error_text(call: Seq<char>, key: Seq<char>, o: NumOutcome) -> Seq<char> {
    match o {
        NumOutcome::Missing => "frame analysis call missing "@ + key + ": "@ + call,
        NumOutcome::Invalid(v, e) => "frame analysis call has invalid "@ + key + " value "@ + v
            + ": "@ + int_error_text(e),
        NumOutcome::Value(_) => Seq::empty(),
    }
}

// ---------------------------------------------------------------------------
// API calls
// ---------------------------------------------------------------------------

pub enum ApiOutcome {
    Applied(DrawCallModel, Option<PendingBindingKind>),
    Failed(Seq<char>),
    Panics,
}

/// The API name: text before the first `(`, trimmed.
pub open spec fn api_name(call: Seq<char>) -> Seq<char> {
    match first_index(call, '(') {
        Some(i) => trim_seq(call.take(i)),
        None => trim_seq(call),
    }
}

pub open spec fn inline_binding(resource: Seq<char>, hash: Seq<char>) -> BindingModel {
    BindingModel {
        slot: "0"@,
        view_address: None,
        resource_address: resource,
        hash: hash,
    }
}

/// A shader-setting call: an inline hash binds the shader right away; otherwise the
/// indented lines that follow name it.
pub open spec fn spec_shader_call(
    dc: DrawCallModel,
    call: Seq<char>,
    resource_key: Seq<char>,
    which: int,
    otherwise: Option<PendingBindingKind>,
) -> ApiOutcome {
    match spec_inline_hash(call) {
        HashOutcome::Invalid(h) => ApiOutcome::Failed(hash_error_text(h)),
        HashOutcome::Absent => ApiOutcome::Applied(dc, otherwise),
        HashOutcome::Present(h) => if brackets_reversed(call) {
            ApiOutcome::Panics
        } else {
            let resource = match spec_named_arg(call, resource_key) {
                Some(v) => v,
                None => Seq::empty(),
            };
            let b = Some(inline_binding(resource, h));
            let dc2 = if which == 0 {
                DrawCallModel { ib: b, ..dc }
            } else if which == 1 {
                DrawCallModel { vs: b, ..dc }
            } else if which == 2 {
                DrawCallModel { ps: b, ..dc }
            } else {
                DrawCallModel { cs: b, ..dc }
            };
            ApiOutcome::Applied(dc2, Some(PendingBindingKind::Ignore))
        },
    }
}

/// What one API call does to the draw call it belongs to.
pub open spec fn spec_apply_api_call(dc: DrawCallModel, call: Seq<char>) -> ApiOutcome {
    let name = api_name(call);
    if name == "IASetVertexBuffers"@ {
        ApiOutcome::Applied(dc, Some(PendingBindingKind::VertexBuffer))
    } else if name == "IASetIndexBuffer"@ {
        if brackets_reversed(call) {
            ApiOutcome::Panics
        } else {
            let fmt = match spec_named_arg(call, "Format"@) {
                Some(raw) => Some(spec_index_format(raw)),
                None => None,
            };
            spec_shader_call(
                DrawCallModel { ib_format: fmt, ..dc },
                call,
                "pIndexBuffer"@,
                0,
                Some(PendingBindingKind::IndexBuffer),
            )
        }
    } else if name == "VSSetShader"@ {
        spec_shader_call(dc, call, "pVertexShader"@, 1, Some(PendingBindingKind::VertexShader))
    } else if name == "PSSetShader"@ {
        spec_shader_call(dc, call, "pPixelShader"@, 2, Some(PendingBindingKind::PixelShader))
    } else if name == "CSSetShader"@ {
        spec_shader_call(dc, call, "pComputeShader"@, 3, Some(PendingBindingKind::Ignore))
    } else if name == "PSSetShaderResources"@ {
        ApiOutcome::Applied(dc, Some(PendingBindingKind::PixelShaderTextures))
    } else if name == "SOSetTargets"@ {
        ApiOutcome::Applied(dc, Some(PendingBindingKind::Ignore))
    } else if name == "DispatchIndirect"@ {
        ApiOutcome::Applied(
            DrawCallModel {
                draw: Some(
                    FrameAnalysisDraw::Compute {
                        thread_group_x: 0,
                        thread_group_y: 0,
                        thread_group_z: 0,
                    },
                ),
                ..dc
            },
            None,
        )
    } else if name == "Dispatch"@ || name == "DrawIndexed"@ || name == "Draw"@ {
        if brackets_reversed(call) {
            ApiOutcome::Panics
        } else {
            spec_draw_call(dc, call, name)
        }
    } else {
        ApiOutcome::Applied(dc, Some(PendingBindingKind::Ignore))
    }
}

/// The three arguments a draw or dispatch call reads, in order.
pub open spec fn draw_keys(name: Seq<char>) -> (Seq<char>, Seq<char>, Seq<char>) {
    if name == "Dispatch"@ {
        ("ThreadGroupCountX"@, "ThreadGroupCountY"@, "ThreadGroupCountZ"@)
    } else if name == "DrawIndexed"@ {
        ("IndexCount"@, "StartIndexLocation"@, "BaseVertexLocation"@)
    } else {
        ("VertexCount"@, "StartVertexLocation"@, Seq::empty())
    }
}

pub open spec fn spec_draw_call(dc: DrawCallModel, call: Seq<char>, name: Seq<char>) -> ApiOutcome {
    let (k1, k2, k3) = draw_keys(name);
    let a = spec_u32_arg(call, k1);
    let b = spec_u32_arg(call, k2);
    let c = if name == "DrawIndexed"@ {
        spec_i32_arg(call, k3)
    } else {
        spec_u32_arg(call, k3)
    };
    if !(a is Value) {
        ApiOutcome::Failed(num_error_text(call, k1, a))
    } else if !(b is Value) {
        ApiOutcome::Failed(num_error_text(call, k2, b))
    } else if name == "Draw"@ {
        ApiOutcome::Applied(
            DrawCallModel {
                draw: Some(
                    FrameAnalysisDraw::NonIndexed {
                        vertex_count: a->Value_0 as u32,
                        start_vertex: b->Value_0 as u32,
                    },
                ),
                ..dc
            },
            None,
        )
    } else if !(c is Value) {
        ApiOutcome::Failed(num_error_text(call, k3, c))
    } else if name == "DrawIndexed"@ {
        ApiOutcome::Applied(
            DrawCallModel {
                draw: Some(
                    FrameAnalysisDraw::Indexed {
                        index_count: a->Value_0 as u32,
                        start_index: b->Value_0 as u32,
                        base_vertex: c->Value_0 as i32,
                    },
                ),
                ..dc
            },
            None,
        )
    } else {
        ApiOutcome::Applied(
            DrawCallModel {
                draw: Some(
                    FrameAnalysisDraw::Compute {
                        thread_group_x: a->Value_0 as u32,
                        thread_group_y: b->Value_0 as u32,
                        thread_group_z: c->Value_0 as u32,
                    },
                ),
                ..dc
            },
            None,
        )
    }
}

// ---------------------------------------------------------------------------
// Exec: named arguments, hashes, numbers
// ---------------------------------------------------------------------------

fn trimmed(v: &Vec<char>) -> (r: Vec<char>)
    ensures
        r@ == trim_seq(v@),
{
    let (a, b) = trim_bounds(v, true, true);
    vec_subrange(v, a, b)
}

fn lit(s: &str) -> (r: Vec<char>)
    ensures
        r@ == s@,
{
    chars_of(s)
}

fn first_named_exec(parts: &Vec<Vec<char>>, key: &Vec<char>) -> (r: Option<Vec<char>>)
    ensures
        match r {
            Some(v) => first_named(parts@.map_values(|p: Vec<char>| p@), key@) == Some(v@),
            None => first_named(parts@.map_values(|p: Vec<char>| p@), key@) is None,
        },
{
    let ghost ps = parts@.map_values(|p: Vec<char>| p@);
    let mut i: usize = 0;
    while i < parts.len()
        invariant
            i <= parts.len(),
            ps == parts@.map_values(|p: Vec<char>| p@),
            first_named(ps, key@) == first_named(ps.subrange(i as int, ps.len() as int), key@),
        decreases parts.len() - i,
    {
        let ghost rest = ps.subrange(i as int, ps.len() as int);
        proof {
            assert(rest[0] == parts@[i as int]@);
            assert(rest.drop_first() =~= ps.subrange(i + 1, ps.len() as int));
        }
        let p = trimmed(&parts[i]);
        match find_char(&p, ':') {
            Some(c) => {
                let name = trimmed(&vec_subrange(&p, 0, c));
                if seq_eq(&name, key) {
                    let value = trimmed(&vec_subrange(&p, c + 1, p.len()));
                    return Some(value);
                }
            },
            None => {},
        }
        i = i + 1;
    }
    None
}

/// `Name: value` lookup in an API call's argument list.
fn named_arg(call: &Vec<char>, key: &Vec<char>) -> (r: Option<Vec<char>>)
    requires
        !brackets_reversed(call@),
    ensures
        match r {
            Some(v) => spec_named_arg(call@, key@) == Some(v@),
            None => spec_named_arg(call@, key@) is None,
        },
{
    let start = match find_char(call, '(') {
        Some(s) => s,
        None => return None,
    };
    let end = match rfind_char(call, ')') {
        Some(e) => e,
        None => return None,
    };
    let inner = vec_subrange(call, start + 1, end);
    let parts = split_chars(&inner, ',');
    proof {
        assert(parts@.map_values(|p: Vec<char>| p@) =~= split_on(inner@, ','));
    }
    first_named_exec(&parts, key)
}

fn reversed(call: &Vec<char>) -> (r: bool)
    ensures
        r == brackets_reversed(call@),
{
    let open = find_char(call, '(');
    let close = rfind_char(call, ')');
    match open {
        Some(a) => match close {
            Some(b) => {
                assert(a < call.len());
                b <= a
            },
            None => false,
        },
        None => false,
    }
}

fn take_until_ws_exec(v: &Vec<char>, from: usize) -> (r: Vec<char>)
    requires
        from <= v.len(),
    ensures
        r@ == take_until_ascii_ws(v@.subrange(from as int, v.len() as int)),
{
    let mut j: usize = from;
    while j < v.len() && !char_is_ascii_ws(v[j])
        invariant
            from <= j <= v.len(),
            forall|k: int| from <= k < j ==> !is_ascii_ws(#[trigger] v@[k]),
        decreases v.len() - j,
    {
        j = j + 1;
    }
    proof {
        lemma_take_until(v@, from as int, j as int);
    }
    vec_subrange(v, from, j)
}

proof fn lemma_take_until(v: Seq<char>, from: int, j: int)
    requires
        0 <= from <= j <= v.len(),
        forall|k: int| from <= k < j ==> !is_ascii_ws(#[trigger] v[k]),
        j == v.len() || is_ascii_ws(v[j]),
    ensures
        take_until_ascii_ws(v.subrange(from, v.len() as int)) == v.subrange(from, j),
    decreases j - from,
{
    let s = v.subrange(from, v.len() as int);
    if from == j {
        if s.len() > 0 {
            assert(s[0] == v[j]);
        }
    } else {
        assert(s[0] == v[from]);
        assert(s.drop_first() =~= v.subrange(from + 1, v.len() as int));
        lemma_take_until(v, from + 1, j);
        assert(seq![v[from]] + v.subrange(from + 1, j) =~= v.subrange(from, j));
    }
}

fn all_lower_hex_exec(v: &Vec<char>) -> (r: bool)
    ensures
        r == all_lower_hex(v@),
{
    let mut i: usize = 0;
    while i < v.len()
        invariant
            i <= v.len(),
            forall|k: int| 0 <= k < i ==> is_lower_hex(#[trigger] v@[k]),
        decreases v.len() - i,
    {
        if !char_is_lower_hex(v[i]) {
            return false;
        }
        i = i + 1;
    }
    true
}

pub enum HashResult {
    Absent,
    Present(Vec<char>),
    Invalid(Vec<char>),
}

fn inline_hash(call: &Vec<char>) -> (r: HashResult)
    ensures
        match (r, spec_inline_hash(call@)) {
            (HashResult::Absent, HashOutcome::Absent) => true,
            (HashResult::Present(h), HashOutcome::Present(s)) => h@ == s,
            (HashResult::Invalid(h), HashOutcome::Invalid(s)) => h@ == s,
            _ => false,
        },
{
    let close = match rfind_char(call, ')') {
        Some(c) => c,
        None => return HashResult::Absent,
    };
    assert(close < call.len());
    let t = trimmed(&vec_subrange(call, close + 1, call.len()));
    let prefix = lit("hash=");
    proof {
        reveal_strlit("hash=");
        assert(prefix@.len() == 5);
    }
    if t.len() < 5 || !crate::text::occurs_at_exec(&t, &prefix, 0) {
        proof {
            if t@.len() >= 5 && is_prefix("hash="@, t@) {
                assert(t@.subrange(0, 5) == prefix@);
            }
        }
        return HashResult::Absent;
    }
    let h = take_until_ws_exec(&t, 5);
    if h.len() == 0 {
        return HashResult::Absent;
    }
    if !all_lower_hex_exec(&h) {
        return HashResult::Invalid(h);
    }
    HashResult::Present(h)
}

fn index_format(raw: &Vec<char>) -> (r: String)
    ensures
        r@ == spec_index_format(raw@),
{
    let t = trimmed(raw);
    if seq_eq(&t, &lit("42")) || seq_eq(&t, &lit("DXGI_FORMAT_R32_UINT")) || seq_eq(
        &t,
        &lit("R32_UINT"),
    ) {
        new_string("R32_UINT")
    } else if seq_eq(&t, &lit("57")) || seq_eq(&t, &lit("DXGI_FORMAT_R16_UINT")) || seq_eq(
        &t,
        &lit("R16_UINT"),
    ) {
        new_string("R16_UINT")
    } else {
        string_of(&t)
    }
}

fn invalid(msg: Vec<char>) -> (r: AppError)
    ensures
        r == AppError::InvalidInput(r->InvalidInput_0),
        r->InvalidInput_0@ == msg@,
{
    AppError::InvalidInput(string_of(&msg))
}

fn concat2(a: &str, b: &Vec<char>) -> (r: Vec<char>)
    ensures
        r@ == a@ + b@,
{
    let mut r = chars_of(a);
    let mut i: usize = 0;
    let ghost a0 = r@;
    while i < b.len()
        invariant
            i <= b.len(),
            r@ == a0 + b@.take(i as int),
        decreases b.len() - i,
    {
        r.push(b[i]);
        i = i + 1;
        proof {
            assert(b@.take(i as int) =~= b@.take(i - 1).push(b@[i - 1]));
        }
    }
    proof {
        assert(b@.take(b.len() as int) =~= b@);
    }
    r
}

fn append_vec(r: &mut Vec<char>, b: &Vec<char>)
    ensures
        final(r)@ == old(r)@ + b@,
{
    let mut i: usize = 0;
    while i < b.len()
        invariant
            i <= b.len(),
            r@ == old(r)@ + b@.take(i as int),
        decreases b.len() - i,
    {
        r.push(b[i]);
        i = i + 1;
        proof {
            assert(b@.take(i as int) =~= b@.take(i - 1).push(b@[i - 1]));
        }
    }
    proof {
        assert(b@.take(b.len() as int) =~= b@);
    }
}

fn append_lit(r: &mut Vec<char>, s: &str)
    ensures
        final(r)@ == old(r)@ + s@,
{
    let v = chars_of(s);
    append_vec(r, &v);
}

/// The error text for a missing or unreadable numeric argument.
fn num_error(call: &Vec<char>, key: &str, value: Option<(&Vec<char>, IntErrorKind)>) -> (r: AppError)
    ensures
        r is InvalidInput,
        r->InvalidInput_0@ == match value {
            None => num_error_text(call@, key@, NumOutcome::Missing),
            Some((v, e)) => num_error_text(call@, key@, NumOutcome::Invalid(v@, e)),
        },
{
    match value {
        None => {
            let mut m = chars_of("frame analysis call missing ");
            append_lit(&mut m, key);
            append_lit(&mut m, ": ");
            append_vec(&mut m, call);
            invalid(m)
        },
        Some((v, e)) => {
            let mut m = chars_of("frame analysis call has invalid ");
            append_lit(&mut m, key);
            append_lit(&mut m, " value ");
            append_vec(&mut m, v);
            append_lit(&mut m, ": ");
            append_lit(&mut m, int_error_message(e));
            invalid(m)
        },
    }
}

fn required_u32(call: &Vec<char>, key: &str) -> (r: Result<u32, AppError>)
    requires
        !brackets_reversed(call@),
    ensures
        match spec_u32_arg(call@, key@) {
            NumOutcome::Value(x) => r == Ok::<u32, AppError>(x as u32) && x == x as u32,
            o => r is Err && r->Err_0 is InvalidInput && r->Err_0->InvalidInput_0@ == num_error_text(
                call@,
                key@,
                o,
            ),
        },
{
    let k = lit(key);
    match named_arg(call, &k) {
        None => Err(num_error(call, key, None)),
        Some(v) => match parse_u32(&v) {
            Ok(x) => Ok(x),
            Err(e) => Err(num_error(call, key, Some((&v, e)))),
        },
    }
}

fn required_i32(call: &Vec<char>, key: &str) -> (r: Result<i32, AppError>)
    requires
        !brackets_reversed(call@),
    ensures
        match spec_i32_arg(call@, key@) {
            NumOutcome::Value(x) => r == Ok::<i32, AppError>(x as i32) && x == x as i32,
            o => r is Err && r->Err_0 is InvalidInput && r->Err_0->InvalidInput_0@ == num_error_text(
                call@,
                key@,
                o,
            ),
        },
{
    let k = lit(key);
    match named_arg(call, &k) {
        None => Err(num_error(call, key, None)),
        Some(v) => match parse_i32(&v) {
            Ok(x) => Ok(x),
            Err(e) => Err(num_error(call, key, Some((&v, e)))),
        },
    }
}


fn new_binding(resource: Vec<char>, hash: &Vec<char>) -> (r: FrameAnalysisBinding)
    ensures
        r@ == inline_binding(resource@, hash@),
{
    FrameAnalysisBinding {
        slot: new_string(DEFAULT_BINDING_SLOT),
        view_address: None,
        resource_address: string_of(&resource),
        hash: string_of(hash),
    }
}

/// A shader- or buffer-setting call (see `spec_shader_call`).
fn shader_call(
    draw_call: &mut FrameAnalysisDrawCall,
    call: &Vec<char>,
    resource_key: &str,
    which: u8,
    otherwise: Option<PendingBindingKind>,
) -> (r: Result<Option<PendingBindingKind>, AppError>)
    requires
        which <= 3,
        !(spec_shader_call(old(draw_call)@, call@, resource_key@, which as int, otherwise) is Panics),
    ensures
        match spec_shader_call(old(draw_call)@, call@, resource_key@, which as int, otherwise) {
            ApiOutcome::Applied(dc, p) => r == Ok::<Option<PendingBindingKind>, AppError>(p)
                && final(draw_call)@ == dc,
            ApiOutcome::Failed(m) => r is Err && r->Err_0 is InvalidInput
                && r->Err_0->InvalidInput_0@ == m,
            ApiOutcome::Panics => false,
        },
{
    match inline_hash(call) {
        HashResult::Invalid(h) => {
            let m = concat2("frame analysis hash must be lowercase hex, got ", &h);
            Err(invalid(m))
        },
        HashResult::Absent => Ok(otherwise),
        HashResult::Present(h) => {
            proof {
                assert(!brackets_reversed(call@));
            }
            let key = lit(resource_key);
            let resource = match named_arg(call, &key) {
                Some(v) => v,
                None => Vec::new(),
            };
            let b = new_binding(resource, &h);
            if which == 0 {
                draw_call.ib_binding = Some(b);
            } else if which == 1 {
                draw_call.vs_binding = Some(b);
            } else if which == 2 {
                draw_call.ps_binding = Some(b);
            } else {
                draw_call.cs_binding = Some(b);
            }
            Ok(Some(PendingBindingKind::Ignore))
        },
    }
}


fn api_name_exec(call: &Vec<char>) -> (r: Vec<char>)
    ensures
        r@ == api_name(call@),
{
    match find_char(call, '(') {
        Some(i) => trimmed(&vec_subrange(call, 0, i)),
        None => trimmed(call),
    }
}

fn is_name(name: &Vec<char>, s: &str) -> (r: bool)
    ensures
        r == (name@ == s@),
{
    seq_eq(name, &lit(s))
}

/// Reads the arguments of a draw or dispatch call into the draw call.
fn draw_call_exec(draw_call: &mut FrameAnalysisDrawCall, call: &Vec<char>, name: &Vec<char>) -> (r:
    Result<Option<PendingBindingKind>, AppError>)
    requires
        !brackets_reversed(call@),
        name@ == "Dispatch"@ || name@ == "DrawIndexed"@ || name@ == "Draw"@,
    ensures
        match spec_draw_call(old(draw_call)@, call@, name@) {
            ApiOutcome::Applied(dc, p) => r == Ok::<Option<PendingBindingKind>, AppError>(p)
                && final(draw_call)@ == dc,
            ApiOutcome::Failed(m) => r is Err && r->Err_0 is InvalidInput
                && r->Err_0->InvalidInput_0@ == m,
            ApiOutcome::Panics => false,
        },
{
    let dispatch = is_name(name, "Dispatch");
    let indexed = is_name(name, "DrawIndexed");
    proof {
        reveal_strlit("Dispatch");
        reveal_strlit("DrawIndexed");
        reveal_strlit("Draw");
        assert("Dispatch"@.len() == 8 && "Draw"@.len() == 4 && "DrawIndexed"@.len() == 11);
        assert("Dispatch"@ != "Draw"@);
        assert("DrawIndexed"@ != "Draw"@);
        assert("Dispatch"@ != "DrawIndexed"@);
    }
    let (k1, k2, k3): (&str, &str, &str) = if dispatch {
        ("ThreadGroupCountX", "ThreadGroupCountY", "ThreadGroupCountZ")
    } else if indexed {
        ("IndexCount", "StartIndexLocation", "BaseVertexLocation")
    } else {
        ("VertexCount", "StartVertexLocation", "")
    };
    proof {
        if !dispatch && !indexed {
            reveal_strlit("");
            assert(k3@ =~= Seq::<char>::empty());
        }
    }
    let a = match required_u32(call, k1) {
        Ok(x) => x,
        Err(e) => return Err(e),
    };
    let b = match required_u32(call, k2) {
        Ok(x) => x,
        Err(e) => return Err(e),
    };
    if !dispatch && !indexed {
        draw_call.draw = Some(FrameAnalysisDraw::NonIndexed { vertex_count: a, start_vertex: b });
        return Ok(None);
    }
    if indexed {
        let c = match required_i32(call, k3) {
            Ok(x) => x,
            Err(e) => return Err(e),
        };
        draw_call.draw = Some(
            FrameAnalysisDraw::Indexed { index_count: a, start_index: b, base_vertex: c },
        );
        return Ok(None);
    }
    let c = match required_u32(call, k3) {
        Ok(x) => x,
        Err(e) => return Err(e),
    };
    draw_call.draw = Some(
        FrameAnalysisDraw::Compute { thread_group_x: a, thread_group_y: b, thread_group_z: c },
    );
    Ok(None)
}

/// Applies one API call to its draw call and says what indented lines that follow describe.
pub fn apply_api_call(draw_call: &mut FrameAnalysisDrawCall, api_call: &str) -> (r: Result<
    Option<PendingBindingKind>,
    AppError,
>)
    requires
        !(spec_apply_api_call(old(draw_call)@, api_call@) is Panics),
    ensures
        match spec_apply_api_call(old(draw_call)@, api_call@) {
            ApiOutcome::Applied(dc, p) => r == Ok::<Option<PendingBindingKind>, AppError>(p)
                && final(draw_call)@ == dc,
            ApiOutcome::Failed(m) => r is Err && r->Err_0 is InvalidInput
                && r->Err_0->InvalidInput_0@ == m,
            ApiOutcome::Panics => false,
        },
{
    let call = chars_of(api_call);
    let name = api_name_exec(&call);
    if is_name(&name, "IASetVertexBuffers") {
        return Ok(Some(PendingBindingKind::VertexBuffer));
    }
    if is_name(&name, "IASetIndexBuffer") {
        let key = lit("Format");
        draw_call.ib_format = match named_arg(&call, &key) {
            Some(raw) => Some(index_format(&raw)),
            None => None,
        };
        return shader_call(
            draw_call,
            &call,
            "pIndexBuffer",
            0,
            Some(PendingBindingKind::IndexBuffer),
        );
    }
    if is_name(&name, "VSSetShader") {
        return shader_call(
            draw_call,
            &call,
            "pVertexShader",
            1,
            Some(PendingBindingKind::VertexShader),
        );
    }
    if is_name(&name, "PSSetShader") {
        return shader_call(
            draw_call,
            &call,
            "pPixelShader",
            2,
            Some(PendingBindingKind::PixelShader),
        );
    }
    if is_name(&name, "CSSetShader") {
        return shader_call(draw_call, &call, "pComputeShader", 3, Some(PendingBindingKind::Ignore));
    }
    if is_name(&name, "PSSetShaderResources") {
        return Ok(Some(PendingBindingKind::PixelShaderTextures));
    }
    if is_name(&name, "SOSetTargets") {
        return Ok(Some(PendingBindingKind::Ignore));
    }
    if is_name(&name, "DispatchIndirect") {
        draw_call.draw = Some(
            FrameAnalysisDraw::Compute { thread_group_x: 0, thread_group_y: 0, thread_group_z: 0 },
        );
        return Ok(None);
    }
    if is_name(&name, "Dispatch") || is_name(&name, "DrawIndexed") || is_name(&name, "Draw") {
        return draw_call_exec(draw_call, &call, &name);
    }
    Ok(Some(PendingBindingKind::Ignore))
}


// ---------------------------------------------------------------------------
// Binding lines
// ---------------------------------------------------------------------------

/// The slot before a leading `<digits or D>:`, and the rest; otherwise slot `0`.
pub open spec fn binding_slot_split(t: Seq<char>) -> (Seq<char>, Seq<char>) {
    match first_index(t, ':') {
        Some(i) => if all_slot_chars(t.take(i)) {
            (t.take(i), trim_start_seq(t.subrange(i + 1, t.len() as int)))
        } else {
            ("0"@, t)
        },
        None => ("0"@, t),
    }
}

pub struct PartsModel {
    pub view: Option<Seq<char>>,
    pub resource: Option<Seq<char>>,
    pub hash: Option<Seq<char>>,
}

/// `view=`, `resource=` and `hash=` fields read left to right; a later field of the
/// same name wins; the first hash that is not lowercase hex is an error.
pub open spec fn scan_parts(words: Seq<Seq<char>>, acc: PartsModel) -> Result<PartsModel, Seq<char>>
    decreases words.len(),
{
    if words.len() == 0 {
        Ok(acc)
    } else {
        let p = words[0];
        let rest = words.drop_first();
        if is_prefix("view="@, p) {
            scan_parts(
                rest,
                PartsModel { view: Some(p.subrange("view="@.len() as int, p.len() as int)), ..acc },
            )
        } else if is_prefix("resource="@, p) {
            scan_parts(
                rest,
                PartsModel {
                    resource: Some(p.subrange("resource="@.len() as int, p.len() as int)),
                    ..acc
                },
            )
        } else if is_prefix("hash="@, p) {
            let v = p.subrange("hash="@.len() as int, p.len() as int);
            if !all_lower_hex(v) {
                Err(hash_error_text(v))
            } else {
                scan_parts(rest, PartsModel { hash: Some(v), ..acc })
            }
        } else {
            scan_parts(rest, acc)
        }
    }
}

/// An indented binding line: `<slot>: view=<addr> resource=<addr> hash=<hex>`;
/// `resource=` and `hash=` are required.
pub open spec fn spec_binding_line(line: Seq<char>) -> Result<BindingModel, Seq<char>> {
    let t = trim_seq(line);
    let (slot, rem) = binding_slot_split(t);
    match scan_parts(ws_words(rem), PartsModel { view: None, resource: None, hash: None }) {
        Err(m) => Err(m),
        Ok(pm) => match pm.resource {
            None => Err("binding line missing resource=... field: "@ + line),
            Some(r) => match pm.hash {
                None => Err("binding line missing hash=... field: "@ + line),
                Some(h) => Ok(
                    BindingModel {
                        slot: slot,
                        view_address: pm.view,
                        resource_address: r,
                        hash: h,
                    },
                ),
            },
        },
    }
}

fn all_slot_chars_exec(v: &Vec<char>, to: usize) -> (r: bool)
    requires
        to <= v.len(),
    ensures
        r == all_slot_chars(v@.take(to as int)),
{
    let mut i: usize = 0;
    while i < to
        invariant
            i <= to <= v.len(),
            forall|k: int| 0 <= k < i ==> is_ascii_digit(#[trigger] v@[k]) || v@[k] == 'D',
        decreases to - i,
    {
        if !(char_is_ascii_digit(v[i]) || v[i] == 'D') {
            proof {
                assert(v@.take(to as int)[i as int] == v@[i as int]);
            }
            return false;
        }
        i = i + 1;
    }
    proof {
        assert forall|k: int| 0 <= k < to implies is_ascii_digit(#[trigger] v@.take(to as int)[k])
            || v@.take(to as int)[k] == 'D' by {
            assert(v@.take(to as int)[k] == v@[k]);
        }
    }
    true
}

fn strip_lit(p: &Vec<char>, prefix: &str) -> (r: Option<Vec<char>>)
    ensures
        match r {
            Some(v) => is_prefix(prefix@, p@) && v@ == p@.subrange(prefix@.len() as int, p@.len() as int),
            None => !is_prefix(prefix@, p@),
        },
{
    let pre = lit(prefix);
    if pre.len() > p.len() || !crate::text::occurs_at_exec(p, &pre, 0) {
        return None;
    }
    Some(vec_subrange(p, pre.len(), p.len()))
}

/// Parses an indented binding line.
pub fn parse_binding_line(line: &Vec<char>) -> (r: Result<FrameAnalysisBinding, AppError>)
    ensures
        match spec_binding_line(line@) {
            Ok(b) => r is Ok && r->Ok_0@ == b,
            Err(m) => r is Err && r->Err_0 is InvalidInput && r->Err_0->InvalidInput_0@ == m,
        },
{
    let t = trimmed(line);
    let (slot, rem): (Vec<char>, Vec<char>) = match find_char(&t, ':') {
        Some(i) => if all_slot_chars_exec(&t, i) {
            let after = vec_subrange(&t, i + 1, t.len());
            let (a, _b) = trim_bounds(&after, true, false);
            (vec_subrange(&t, 0, i), vec_subrange(&after, a, after.len()))
        } else {
            (lit("0"), t)
        },
        None => (lit("0"), t),
    };
    proof {
        assert((slot@, rem@) == binding_slot_split(trim_seq(line@)));
    }
    let words = split_ws(&rem);
    let ghost ws = ws_words(rem@);
    let mut view: Option<Vec<char>> = None;
    let mut resource: Option<Vec<char>> = None;
    let mut hash: Option<Vec<char>> = None;
    let mut i: usize = 0;
    while i < words.len()
        invariant
            i <= words.len(),
            ws == ws_words(rem@),
            (slot@, rem@) == binding_slot_split(trim_seq(line@)),
            words@.len() == ws.len(),
            forall|k: int| 0 <= k < words@.len() ==> #[trigger] words@[k]@ == ws[k],
            scan_parts(ws, PartsModel { view: None, resource: None, hash: None }) == scan_parts(
                ws.subrange(i as int, ws.len() as int),
                PartsModel {
                    view: opt_vec(view),
                    resource: opt_vec(resource),
                    hash: opt_vec(hash),
                },
            ),
        decreases words.len() - i,
    {
        let ghost rest = ws.subrange(i as int, ws.len() as int);
        proof {
            assert(rest[0] == words@[i as int]@);
            assert(rest.drop_first() =~= ws.subrange(i + 1, ws.len() as int));
        }
        let part = &words[i];
        match strip_lit(part, "view=") {
            Some(v) => {
                view = Some(v);
            },
            None => match strip_lit(part, "resource=") {
                Some(v) => {
                    resource = Some(v);
                },
                None => match strip_lit(part, "hash=") {
                    Some(v) => {
                        if !all_lower_hex_exec(&v) {
                            let m = concat2("frame analysis hash must be lowercase hex, got ", &v);
                            proof {
                                let acc = PartsModel {
                                    view: opt_vec(view),
                                    resource: opt_vec(resource),
                                    hash: opt_vec(hash),
                                };
                                assert(scan_parts(rest, acc) == Err::<PartsModel, Seq<char>>(
                                    hash_error_text(v@),
                                ));
                                assert(m@ == hash_error_text(v@));
                            }
                            return Err(invalid(m));
                        }
                        hash = Some(v);
                    },
                    None => {},
                },
            },
        }
        i = i + 1;
    }
    proof {
        assert(ws.subrange(ws.len() as int, ws.len() as int) =~= Seq::<Seq<char>>::empty());
    }
    let resource = match resource {
        Some(r) => r,
        None => {
            let m = concat2("binding line missing resource=... field: ", line);
            return Err(invalid(m));
        },
    };
    let hash = match hash {
        Some(h) => h,
        None => {
            let m = concat2("binding line missing hash=... field: ", line);
            return Err(invalid(m));
        },
    };
    Ok(
        FrameAnalysisBinding {
            slot: string_of(&slot),
            view_address: match view {
                Some(v) => Some(string_of(&v)),
                None => None,
            },
            resource_address: string_of(&resource),
            hash: string_of(&hash),
        },
    )
}

pub open spec fn opt_vec(o: Option<Vec<char>>) -> Option<Seq<char>> {
    match o {
        Some(v) => Some(v@),
        None => None,
    }
}


// ---------------------------------------------------------------------------
// Vertex-buffer slots
// ---------------------------------------------------------------------------

/// Vertex-buffer bindings are kept in ascending slot order, one per slot.
pub open spec fn slots_sorted(vb: Seq<BindingModel>) -> bool {
    forall|i: int, j: int| 0 <= i < j < vb.len() ==> text_lt(#[trigger] vb[i].slot, #[trigger] vb[j].slot)
}

pub open spec fn slot_index(vb: Seq<BindingModel>, slot: Seq<char>) -> Option<int>
    decreases vb.len(),
{
    if vb.len() == 0 {
        None
    } else if vb[0].slot == slot {
        Some(0)
    } else {
        match slot_index(vb.drop_first(), slot) {
            Some(i) => Some(i + 1),
            None => None,
        }
    }
}

/// How many bindings sit in a smaller slot.
pub open spec fn lt_count(vb: Seq<BindingModel>, slot: Seq<char>) -> int
    decreases vb.len(),
{
    if vb.len() == 0 {
        0
    } else {
        lt_count(vb.drop_last(), slot) + if text_lt(vb.last().slot, slot) {
            1int
        } else {
            0
        }
    }
}

/// A binding for an already bound slot replaces it; a new slot is placed in slot
/// order (what pushing and re-sorting by slot does to a list kept in slot order).
pub open spec fn spec_upsert(vb: Seq<BindingModel>, b: BindingModel) -> Seq<BindingModel> {
    match slot_index(vb, b.slot) {
        Some(i) => vb.update(i, b),
        None => vb.insert(lt_count(vb, b.slot), b),
    }
}

proof fn lemma_slot_index(vb: Seq<BindingModel>, slot: Seq<char>, k: int)
    requires
        0 <= k <= vb.len(),
        forall|j: int| 0 <= j < k ==> vb[j].slot != slot,
        k < vb.len() ==> vb[k].slot == slot,
    ensures
        slot_index(vb, slot) == if k < vb.len() {
            Some(k)
        } else {
            None::<int>
        },
    decreases vb.len(),
{
    if vb.len() > 0 && k > 0 {
        lemma_slot_index(vb.drop_first(), slot, k - 1);
    }
}

proof fn lemma_lt_count(vb: Seq<BindingModel>, slot: Seq<char>, p: int)
    requires
        0 <= p <= vb.len(),
        forall|j: int| 0 <= j < p ==> text_lt(vb[j].slot, slot),
        forall|j: int| p <= j < vb.len() ==> !text_lt(vb[j].slot, slot),
    ensures
        lt_count(vb, slot) == p,
    decreases vb.len(),
{
    if vb.len() > 0 {
        if p == vb.len() {
            lemma_lt_count(vb.drop_last(), slot, p - 1);
        } else {
            lemma_lt_count(vb.drop_last(), slot, p);
        }
    }
}

proof fn lemma_models_update(v: Seq<FrameAnalysisBinding>, i: int, b: FrameAnalysisBinding)
    requires
        0 <= i < v.len(),
    ensures
        binding_models(v.update(i, b)) == binding_models(v).update(i, b@),
{
    assert(binding_models(v.update(i, b)) =~= binding_models(v).update(i, b@));
}

proof fn lemma_models_insert(v: Seq<FrameAnalysisBinding>, i: int, b: FrameAnalysisBinding)
    requires
        0 <= i <= v.len(),
    ensures
        binding_models(v.insert(i, b)) == binding_models(v).insert(i, b@),
{
    assert(binding_models(v.insert(i, b)) =~= binding_models(v).insert(i, b@));
}

proof fn lemma_sorted_update(m: Seq<BindingModel>, i: int, bm: BindingModel)
    requires
        slots_sorted(m),
        0 <= i < m.len(),
        m[i].slot == bm.slot,
    ensures
        slots_sorted(m.update(i, bm)),
{
    let n = m.update(i, bm);
    assert forall|x: int, y: int| 0 <= x < y < n.len() implies text_lt(
        #[trigger] n[x].slot,
        #[trigger] n[y].slot,
    ) by {
        assert(n[x].slot == m[x].slot);
        assert(n[y].slot == m[y].slot);
    }
}

proof fn lemma_sorted_insert(m: Seq<BindingModel>, p: int, bm: BindingModel)
    requires
        slots_sorted(m),
        0 <= p <= m.len(),
        forall|j: int| 0 <= j < p ==> text_lt(#[trigger] m[j].slot, bm.slot),
        forall|j: int| p <= j < m.len() ==> text_lt(bm.slot, #[trigger] m[j].slot),
    ensures
        slots_sorted(m.insert(p, bm)),
{
    let n = m.insert(p, bm);
    assert forall|x: int, y: int| 0 <= x < y < n.len() implies text_lt(
        #[trigger] n[x].slot,
        #[trigger] n[y].slot,
    ) by {
        if y < p {
            assert(n[x] == m[x] && n[y] == m[y]);
        } else if y == p {
            assert(n[x] == m[x]);
        } else if x < p {
            assert(n[x] == m[x] && n[y] == m[y - 1]);
            lemma_lt_transitive(m[x].slot, bm.slot, m[y - 1].slot);
        } else if x == p {
            assert(n[y] == m[y - 1]);
        } else {
            assert(n[x] == m[x - 1] && n[y] == m[y - 1]);
        }
    }
}

proof fn lemma_insert_position(m: Seq<BindingModel>, p: int, slot: Seq<char>)
    requires
        slots_sorted(m),
        0 <= p <= m.len(),
        forall|j: int| 0 <= j < p ==> text_lt(#[trigger] m[j].slot, slot),
        p < m.len() ==> !text_lt(m[p].slot, slot),
        forall|j: int| 0 <= j < m.len() ==> #[trigger] m[j].slot != slot,
    ensures
        forall|j: int| p <= j < m.len() ==> text_lt(slot, #[trigger] m[j].slot),
        lt_count(m, slot) == p,
{
    assert forall|j: int| p <= j < m.len() implies text_lt(slot, #[trigger] m[j].slot) by {
        lemma_lt_total(m[p].slot, slot);
        assert(m[p].slot != slot);
        if j > p {
            assert(text_lt(m[p].slot, m[j].slot));
            lemma_lt_transitive(slot, m[p].slot, m[j].slot);
        }
    }
    assert forall|j: int| p <= j < m.len() implies !text_lt(#[trigger] m[j].slot, slot) by {
        crate::order::lemma_lt_asymmetric(slot, m[j].slot);
    }
    lemma_lt_count(m, slot, p);
}

/// Adds or replaces a vertex-buffer binding by slot.
fn upsert_vb_binding(vb: &mut Vec<FrameAnalysisBinding>, b: FrameAnalysisBinding)
    requires
        slots_sorted(binding_models(old(vb)@)),
    ensures
        binding_models(final(vb)@) == spec_upsert(binding_models(old(vb)@), b@),
        slots_sorted(binding_models(final(vb)@)),
{
    let ghost m = binding_models(vb@);
    let ghost bm = b@;
    let mut i: usize = 0;
    while i < vb.len()
        invariant
            i <= vb.len(),
            vb@ == old(vb)@,
            m == binding_models(vb@),
            slots_sorted(m),
            bm == b@,
            forall|j: int| 0 <= j < i ==> #[trigger] m[j].slot != bm.slot,
        decreases vb.len() - i,
    {
        proof {
            assert(m[i as int] == vb@[i as int]@);
        }
        if crate::text::str_eq(vb[i].slot.as_str(), b.slot.as_str()) {
            proof {
                lemma_slot_index(m, bm.slot, i as int);
                lemma_models_update(vb@, i as int, b);
                lemma_sorted_update(m, i as int, bm);
            }
            vb.set(i, b);
            return ;
        }
        i = i + 1;
    }
    proof {
        lemma_slot_index(m, bm.slot, m.len() as int);
    }
    let mut p: usize = 0;
    while p < vb.len() && string_lt(&vb[p].slot, &b.slot)
        invariant
            p <= vb.len(),
            vb@ == old(vb)@,
            m == binding_models(vb@),
            slots_sorted(m),
            bm == b@,
            forall|j: int| 0 <= j < p ==> text_lt(#[trigger] m[j].slot, bm.slot),
        decreases vb.len() - p,
    {
        proof {
            assert(m[p as int] == vb@[p as int]@);
        }
        p = p + 1;
    }
    proof {
        if p < m.len() {
            assert(m[p as int] == vb@[p as int]@);
        }
        lemma_insert_position(m, p as int, bm.slot);
        lemma_sorted_insert(m, p as int, bm);
        lemma_models_insert(vb@, p as int, b);
    }
    vb.insert(p, b);
}

/// A parsed binding attached to the draw call according to what the last API call announced.
pub open spec fn spec_apply_binding(
    dc: DrawCallModel,
    kind: PendingBindingKind,
    b: BindingModel,
) -> DrawCallModel {
    match kind {
        PendingBindingKind::VertexBuffer => DrawCallModel { vb: spec_upsert(dc.vb, b), ..dc },
        PendingBindingKind::IndexBuffer => DrawCallModel { ib: Some(b), ..dc },
        PendingBindingKind::VertexShader => DrawCallModel { vs: Some(b), ..dc },
        PendingBindingKind::PixelShader => DrawCallModel { ps: Some(b), ..dc },
        PendingBindingKind::PixelShaderTextures => DrawCallModel { tex: dc.tex.push(b), ..dc },
        PendingBindingKind::Ignore => dc,
    }
}

// ---------------------------------------------------------------------------
// Draw-call lines
// ---------------------------------------------------------------------------

pub enum DrawcallLine {
    NotDrawcall,
    Failed(Seq<char>),
    Line(u32, Seq<char>),
}

/// `<digits> <api call>`: the number must fit in 32 bits.
pub open spec fn spec_drawcall_line(line: Seq<char>) -> DrawcallLine {
    if line.len() == 0 || !is_ascii_digit(line[0]) {
        DrawcallLine::NotDrawcall
    } else {
        match first_index(line, ' ') {
            None => DrawcallLine::NotDrawcall,
            Some(k) => {
                let d = line.take(k);
                if !all_digits(d) {
                    DrawcallLine::NotDrawcall
                } else {
                    match spec_parse_u32(d) {
                        Ok(n) => DrawcallLine::Line(
                            n as u32,
                            trim_start_seq(line.subrange(k + 1, line.len() as int)),
                        ),
                        Err(e) => DrawcallLine::Failed(
                            "invalid frame analysis drawcall number "@ + d + ": "@ + int_error_text(
                                e,
                            ),
                        ),
                    }
                }
            },
        }
    }
}

pub enum DrawcallLineResult {
    NotDrawcall,
    Failed(AppError),
    Line(u32, Vec<char>),
}

fn all_digits_exec(v: &Vec<char>, to: usize) -> (r: bool)
    requires
        to <= v.len(),
    ensures
        r == all_digits(v@.take(to as int)),
{
    let mut i: usize = 0;
    while i < to
        invariant
            i <= to <= v.len(),
            forall|k: int| 0 <= k < i ==> is_ascii_digit(#[trigger] v@[k]),
        decreases to - i,
    {
        if !char_is_ascii_digit(v[i]) {
            proof {
                assert(v@.take(to as int)[i as int] == v@[i as int]);
            }
            return false;
        }
        i = i + 1;
    }
    proof {
        assert forall|k: int| 0 <= k < to implies is_ascii_digit(#[trigger] v@.take(to as int)[k]) by {
            assert(v@.take(to as int)[k] == v@[k]);
        }
    }
    true
}

fn parse_drawcall_line(line: &Vec<char>) -> (r: DrawcallLineResult)
    ensures
        match (r, spec_drawcall_line(line@)) {
            (DrawcallLineResult::NotDrawcall, DrawcallLine::NotDrawcall) => true,
            (DrawcallLineResult::Failed(e), DrawcallLine::Failed(m)) => e is InvalidInput
                && e->InvalidInput_0@ == m,
            (DrawcallLineResult::Line(n, rest), DrawcallLine::Line(sn, srest)) => n == sn
                && rest@ == srest,
            _ => false,
        },
{
    if line.len() == 0 || !char_is_ascii_digit(line[0]) {
        return DrawcallLineResult::NotDrawcall;
    }
    let k = match find_char(line, ' ') {
        Some(k) => k,
        None => return DrawcallLineResult::NotDrawcall,
    };
    if !all_digits_exec(line, k) {
        return DrawcallLineResult::NotDrawcall;
    }
    let d = vec_subrange(line, 0, k);
    proof {
        assert(d@ =~= line@.take(k as int));
    }
    match parse_u32(&d) {
        Ok(n) => {
            let after = vec_subrange(line, k + 1, line.len());
            let (a, _b) = trim_bounds(&after, true, false);
            DrawcallLineResult::Line(n, vec_subrange(&after, a, after.len()))
        },
        Err(e) => {
            let mut m = chars_of("invalid frame analysis drawcall number ");
            append_vec(&mut m, &d);
            append_lit(&mut m, ": ");
            append_lit(&mut m, int_error_message(e));
            DrawcallLineResult::Failed(invalid(m))
        },
    }
}


// ---------------------------------------------------------------------------
// The whole log
// ---------------------------------------------------------------------------

pub struct ParserModel {
    pub done: Seq<DrawCallModel>,
    pub current: Option<DrawCallModel>,
    pub pending: Option<PendingBindingKind>,
}

pub enum StepOutcome {
    Next(ParserModel),
    Failed(Seq<char>),
    Panics,
}

pub open spec fn opt_dc(o: Option<FrameAnalysisDrawCall>) -> Option<DrawCallModel> {
    match o {
        Some(d) => Some(d@),
        None => None,
    }
}

/// The finished draw call joins the list when something was bound or drawn.
pub open spec fn finish_current(done: Seq<DrawCallModel>, cur: Option<DrawCallModel>) -> Seq<
    DrawCallModel,
> {
    match cur {
        Some(c) => if is_meaningful(c) {
            done.push(c)
        } else {
            done
        },
        None => done,
    }
}

/// One log line after the header. A blank line ends the pending binding block;
/// a draw-call line starts (or continues) a draw call; an indented line is a binding
/// for the pending block; anything else is an error.
pub open spec fn spec_step(st: ParserModel, raw: Seq<char>) -> StepOutcome {
    let line = trim_end_cr(raw);
    if trim_seq(line).len() == 0 {
        StepOutcome::Next(ParserModel { pending: None, ..st })
    } else {
        match spec_drawcall_line(line) {
            DrawcallLine::Failed(m) => StepOutcome::Failed(m),
            DrawcallLine::Line(n, api) => {
                let switch = st.current is Some && st.current->0.drawcall != n;
                let done = if switch {
                    finish_current(st.done, st.current)
                } else {
                    st.done
                };
                let dc = if switch || st.current is None {
                    empty_draw_call(n)
                } else {
                    st.current->0
                };
                match spec_apply_api_call(dc, api) {
                    ApiOutcome::Applied(dc2, p) => StepOutcome::Next(
                        ParserModel { done: done, current: Some(dc2), pending: p },
                    ),
                    ApiOutcome::Failed(m) => StepOutcome::Failed(m),
                    ApiOutcome::Panics => StepOutcome::Panics,
                }
            },
            DrawcallLine::NotDrawcall => if !is_ws(line[0]) {
                StepOutcome::Failed("unrecognized frame analysis log line: "@ + line)
            } else {
                match st.pending {
                    None => StepOutcome::Next(st),
                    Some(PendingBindingKind::Ignore) => StepOutcome::Next(st),
                    Some(kind) => match st.current {
                        None => StepOutcome::Failed(
                            "binding line encountered before any drawcall line"@,
                        ),
                        Some(c) => match spec_binding_line(line) {
                            Err(m) => StepOutcome::Failed(m),
                            Ok(b) => StepOutcome::Next(
                                ParserModel { current: Some(spec_apply_binding(c, kind, b)), ..st },
                            ),
                        },
                    },
                }
            },
        }
    }
}

pub open spec fn initial_parser() -> ParserModel {
    ParserModel { done: Seq::empty(), current: None, pending: None }
}

/// The first `n` body lines applied in turn; the first failure stays.
pub open spec fn spec_run(lines: Seq<Seq<char>>, n: int) -> StepOutcome
    decreases n,
{
    if n <= 0 {
        StepOutcome::Next(initial_parser())
    } else {
        match spec_run(lines, n - 1) {
            StepOutcome::Next(st) => spec_step(st, lines[n - 1]),
            o => o,
        }
    }
}

pub enum LogOutcome {
    Parsed(Seq<char>, Seq<DrawCallModel>),
    Failed(Seq<char>),
    Panics,
}

/// The header line, then the body lines in turn; the last draw call is finished at the end.
pub open spec fn spec_parse_log(text: Seq<char>) -> LogOutcome {
    let ls = spec_lines(text);
    if ls.len() == 0 {
        LogOutcome::Failed("frame analysis log is empty"@)
    } else {
        let header = trim_end_seq(ls[0]);
        if !is_prefix("analyse_options="@, header) && !is_prefix("analyse_options:"@, header) {
            LogOutcome::Failed(
                "frame analysis log must start with analyse_options=... or analyse_options: ..."@,
            )
        } else {
            match spec_run(ls.drop_first(), ls.len() - 1) {
                StepOutcome::Next(st) => LogOutcome::Parsed(
                    header,
                    finish_current(st.done, st.current),
                ),
                StepOutcome::Failed(m) => LogOutcome::Failed(m),
                StepOutcome::Panics => LogOutcome::Panics,
            }
        }
    }
}

proof fn lemma_run_stays(lines: Seq<Seq<char>>, j: int, k: int)
    requires
        0 <= j <= k,
        !(spec_run(lines, j) is Next),
    ensures
        spec_run(lines, k) == spec_run(lines, j),
    decreases k - j,
{
    if k > j {
        lemma_run_stays(lines, j, k - 1);
    }
}

impl FrameAnalysisDrawCall {
    pub fn new(drawcall: u32) -> (r: Self)
        ensures
            r@ == empty_draw_call(drawcall),
    {
        let r = FrameAnalysisDrawCall {
            drawcall,
            vb_bindings: Vec::new(),
            ib_binding: None,
            vs_binding: None,
            ps_binding: None,
            cs_binding: None,
            ps_texture_bindings: Vec::new(),
            draw: None,
            ib_format: None,
        };
        proof {
            assert(binding_models(r.vb_bindings@) =~= Seq::<BindingModel>::empty());
            assert(binding_models(r.ps_texture_bindings@) =~= Seq::<BindingModel>::empty());
        }
        r
    }

    /// Something was bound or drawn.
    pub fn is_meaningful(&self) -> (r: bool)
        ensures
            r == is_meaningful(self@),
    {
        self.vb_bindings.len() > 0 || self.ib_binding.is_some() || self.vs_binding.is_some()
            || self.ps_binding.is_some() || self.cs_binding.is_some()
            || self.ps_texture_bindings.len() > 0 || self.draw.is_some()
    }

    /// The count that sizes both index and vertex buffers: `IndexCount` of an indexed
    /// draw, `VertexCount` of a plain draw, none for compute dispatches.
    pub fn draw_count_hint(&self) -> (r: Option<u32>)
        ensures
            r == match self.draw {
                Some(FrameAnalysisDraw::Indexed { index_count, .. }) => Some(index_count),
                Some(FrameAnalysisDraw::NonIndexed { vertex_count, .. }) => Some(vertex_count),
                _ => None::<u32>,
            },
    {
        match &self.draw {
            Some(FrameAnalysisDraw::Indexed { index_count, .. }) => Some(*index_count),
            Some(FrameAnalysisDraw::NonIndexed { vertex_count, .. }) => Some(*vertex_count),
            Some(FrameAnalysisDraw::Compute { .. }) => None,
            None => None,
        }
    }
}

fn finalize_draw_call(
    draw_calls: &mut Vec<FrameAnalysisDrawCall>,
    draw_call: Option<FrameAnalysisDrawCall>,
)
    ensures
        draw_call_models(final(draw_calls)@) == finish_current(
            draw_call_models(old(draw_calls)@),
            opt_dc(draw_call),
        ),
{
    match draw_call {
        Some(dc) => {
            if dc.is_meaningful() {
                let ghost d = dc@;
                draw_calls.push(dc);
                proof {
                    assert(draw_call_models(draw_calls@) =~= draw_call_models(old(draw_calls)@).push(
                        d,
                    ));
                }
            }
        },
        None => {},
    }
}

fn trim_end_cr_exec(v: &Vec<char>) -> (r: Vec<char>)
    ensures
        r@ == trim_end_cr(v@),
{
    let mut j: usize = v.len();
    while j > 0 && v[j - 1] == '\r'
        invariant
            j <= v.len(),
            trim_end_cr(v@) == trim_end_cr(v@.take(j as int)),
        decreases j,
    {
        proof {
            assert(v@.take(j as int).drop_last() =~= v@.take(j - 1));
        }
        j = j - 1;
    }
    proof {
        if j > 0 {
            assert(v@.take(j as int).last() == v@[j - 1]);
        }
    }
    vec_subrange(v, 0, j)
}

pub open spec fn dc_sorted(o: Option<DrawCallModel>) -> bool {
    match o {
        Some(c) => slots_sorted(c.vb),
        None => true,
    }
}

pub open spec fn all_sorted(d: Seq<DrawCallModel>) -> bool {
    forall|i: int| 0 <= i < d.len() ==> slots_sorted(#[trigger] d[i].vb)
}

proof fn lemma_finish_sorted(done: Seq<DrawCallModel>, cur: Option<DrawCallModel>)
    requires
        all_sorted(done),
        dc_sorted(cur),
    ensures
        all_sorted(finish_current(done, cur)),
{
    let f = finish_current(done, cur);
    assert forall|i: int| 0 <= i < f.len() implies slots_sorted(#[trigger] f[i].vb) by {
        if i < done.len() {
            assert(f[i] == done[i]);
        }
    }
}

proof fn lemma_apply_keeps_vb(dc: DrawCallModel, call: Seq<char>)
    ensures
        match spec_apply_api_call(dc, call) {
            ApiOutcome::Applied(d2, _) => d2.vb == dc.vb,
            _ => true,
        },
{
}

/// One body line (see `spec_step`).
fn step(
    draw_calls: &mut Vec<FrameAnalysisDrawCall>,
    current: &mut Option<FrameAnalysisDrawCall>,
    pending: &mut Option<PendingBindingKind>,
    raw: &Vec<char>,
) -> (r: Result<(), AppError>)
    requires
        !(spec_step(
            ParserModel {
                done: draw_call_models(old(draw_calls)@),
                current: opt_dc(*old(current)),
                pending: *old(pending),
            },
            raw@,
        ) is Panics),
        all_sorted(draw_call_models(old(draw_calls)@)),
        dc_sorted(opt_dc(*old(current))),
    ensures
        match spec_step(
            ParserModel {
                done: draw_call_models(old(draw_calls)@),
                current: opt_dc(*old(current)),
                pending: *old(pending),
            },
            raw@,
        ) {
            StepOutcome::Next(st) => r is Ok && st == ParserModel {
                done: draw_call_models(final(draw_calls)@),
                current: opt_dc(*final(current)),
                pending: *final(pending),
            } && all_sorted(draw_call_models(final(draw_calls)@)) && dc_sorted(
                opt_dc(*final(current)),
            ),
            StepOutcome::Failed(m) => r is Err && r->Err_0 is InvalidInput
                && r->Err_0->InvalidInput_0@ == m,
            StepOutcome::Panics => false,
        },
{
    let line = trim_end_cr_exec(raw);
    let t = trimmed(&line);
    if t.len() == 0 {
        *pending = None;
        return Ok(());
    }
    proof {
        if line@.len() == 0 {
            assert(trim_seq(line@).len() == 0);
        }
    }
    match parse_drawcall_line(&line) {
        DrawcallLineResult::Failed(e) => Err(e),
        DrawcallLineResult::Line(n, api) => {
            let switch = match current {
                Some(c) => c.drawcall != n,
                None => false,
            };
            if switch {
                let old_current = current.take();
                proof {
                    lemma_finish_sorted(draw_call_models(draw_calls@), opt_dc(old_current));
                }
                finalize_draw_call(draw_calls, old_current);
            }
            let mut dc = match current.take() {
                Some(c) => c,
                None => FrameAnalysisDrawCall::new(n),
            };
            let api_str = string_of(&api);
            let ghost before = dc@;
            proof {
                lemma_apply_keeps_vb(before, api@);
            }
            match apply_api_call(&mut dc, api_str.as_str()) {
                Ok(p) => {
                    *pending = p;
                    *current = Some(dc);
                    Ok(())
                },
                Err(e) => Err(e),
            }
        },
        DrawcallLineResult::NotDrawcall => {
            if !char_is_ws(line[0]) {
                let m = concat2("unrecognized frame analysis log line: ", &line);
                return Err(invalid(m));
            }
            let kind = match *pending {
                None => return Ok(()),
                Some(PendingBindingKind::Ignore) => return Ok(()),
                Some(k) => k,
            };
            let mut dc = match current.take() {
                Some(c) => c,
                None => {
                    return Err(
                        AppError::InvalidInput(
                            new_string("binding line encountered before any drawcall line"),
                        ),
                    );
                },
            };
            let b = match parse_binding_line(&line) {
                Ok(b) => b,
                Err(e) => return Err(e),
            };
            let ghost dcm = dc@;
            let ghost bm = b@;
            match kind {
                PendingBindingKind::VertexBuffer => upsert_vb_binding(&mut dc.vb_bindings, b),
                PendingBindingKind::IndexBuffer => {
                    dc.ib_binding = Some(b);
                },
                PendingBindingKind::VertexShader => {
                    dc.vs_binding = Some(b);
                },
                PendingBindingKind::PixelShader => {
                    dc.ps_binding = Some(b);
                },
                PendingBindingKind::PixelShaderTextures => {
                    dc.ps_texture_bindings.push(b);
                    proof {
                        assert(binding_models(dc.ps_texture_bindings@) =~= dcm.tex.push(bm));
                    }
                },
                PendingBindingKind::Ignore => {},
            }
            proof {
                assert(dc@ == spec_apply_binding(dcm, kind, bm));
            }
            *current = Some(dc);
            Ok(())
        },
    }
}


/// Reads a frame-analysis log. The draw calls come in log order, each with its
/// vertex-buffer bindings in slot order; draw calls with nothing bound or drawn are dropped.
pub fn parse_frame_analysis_log(text: &str) -> (r: Result<FrameAnalysisDump, AppError>)
    requires
        !(spec_parse_log(text@) is Panics),
    ensures
        match spec_parse_log(text@) {
            LogOutcome::Parsed(header, draws) => r is Ok && r->Ok_0.options_header@ == header
                && draw_call_models(r->Ok_0.draw_calls@) == draws && all_sorted(draws)
                && r->Ok_0.dump_dir@.len() == 0 && r->Ok_0.log_path@.len() == 0,
            LogOutcome::Failed(m) => r is Err && r->Err_0 is InvalidInput
                && r->Err_0->InvalidInput_0@ == m,
            LogOutcome::Panics => false,
        },
{
    let v = chars_of(text);
    let pieces = split_chars(&v, '\n');
    let ghost ps = split_on(v@, '\n');
    proof {
        lemma_split_nonempty(v@, '\n');
    }
    let nlines: usize = if v.len() == 0 {
        0
    } else if v[v.len() - 1] == '\n' {
        pieces.len() - 1
    } else {
        pieces.len()
    };
    let ghost ls = spec_lines(text@);
    proof {
        assert(ls.len() == nlines);
        assert forall|k: int| 0 <= k < nlines implies #[trigger] ls[k] == pieces@[k]@ by {}
    }
    if nlines == 0 {
        return Err(AppError::InvalidInput(new_string("frame analysis log is empty")));
    }
    let header_full = &pieces[0];
    let (_a, hb) = trim_bounds(header_full, false, true);
    let header = vec_subrange(header_full, 0, hb);
    let p1 = lit("analyse_options=");
    let p2 = lit("analyse_options:");
    let ok1 = p1.len() <= header.len() && crate::text::occurs_at_exec(&header, &p1, 0);
    let ok2 = p2.len() <= header.len() && crate::text::occurs_at_exec(&header, &p2, 0);
    if !ok1 && !ok2 {
        return Err(
            AppError::InvalidInput(
                new_string(
                    "frame analysis log must start with analyse_options=... or analyse_options: ...",
                ),
            ),
        );
    }
    proof {
        assert(header@ == trim_end_seq(ls[0]));
    }
    let ghost body = ls.drop_first();
    let mut draw_calls: Vec<FrameAnalysisDrawCall> = Vec::new();
    let mut current: Option<FrameAnalysisDrawCall> = None;
    let mut pending: Option<PendingBindingKind> = None;
    let mut i: usize = 1;
    proof {
        assert(draw_call_models(draw_calls@) =~= Seq::<DrawCallModel>::empty());
    }
    while i < nlines
        invariant
            1 <= i <= nlines <= pieces@.len(),
            ls.len() == nlines,
            body == ls.drop_first(),
            ls == spec_lines(text@),
            is_prefix("analyse_options="@, trim_end_seq(ls[0])) || is_prefix(
                "analyse_options:"@,
                trim_end_seq(ls[0]),
            ),
            forall|k: int| 0 <= k < nlines ==> #[trigger] ls[k] == pieces@[k]@,
            !(spec_run(body, body.len() as int) is Panics),
            spec_run(body, i - 1) == StepOutcome::Next(
                ParserModel {
                    done: draw_call_models(draw_calls@),
                    current: opt_dc(current),
                    pending: pending,
                },
            ),
            all_sorted(draw_call_models(draw_calls@)),
            dc_sorted(opt_dc(current)),
        decreases nlines - i,
    {
        proof {
            assert(body[i - 1] == pieces@[i as int]@);
            if spec_run(body, i as int) is Panics {
                lemma_run_stays(body, i as int, body.len() as int);
            }
        }
        match step(&mut draw_calls, &mut current, &mut pending, &pieces[i]) {
            Ok(()) => {},
            Err(e) => {
                proof {
                    lemma_run_stays(body, i as int, body.len() as int);
                }
                return Err(e);
            },
        }
        i = i + 1;
    }
    proof {
        lemma_finish_sorted(draw_call_models(draw_calls@), opt_dc(current));
    }
    finalize_draw_call(&mut draw_calls, current);
    Ok(
        FrameAnalysisDump {
            dump_dir: String::new(),
            log_path: String::new(),
            options_header: string_of(&header),
            draw_calls,
        },
    )
}


/// A body line whose API call has its `)` before its `(`: reading its arguments
/// would slice out of order.
pub open spec fn line_has_reversed_call(raw: Seq<char>) -> bool {
    match spec_drawcall_line(trim_end_cr(raw)) {
        DrawcallLine::Line(_, api) => brackets_reversed(api),
        _ => false,
    }
}

proof fn lemma_apply_panics_only_reversed(dc: DrawCallModel, call: Seq<char>)
    ensures
        spec_apply_api_call(dc, call) is Panics ==> brackets_reversed(call),
{
}

proof fn lemma_run_no_panic(lines: Seq<Seq<char>>, n: int)
    requires
        0 <= n <= lines.len(),
        forall|k: int| 0 <= k < n ==> !line_has_reversed_call(#[trigger] lines[k]),
    ensures
        !(spec_run(lines, n) is Panics),
    decreases n,
{
    if n > 0 {
        lemma_run_no_panic(lines, n - 1);
        match spec_run(lines, n - 1) {
            StepOutcome::Next(st) => {
                assert(!line_has_reversed_call(lines[n - 1]));
                let line = trim_end_cr(lines[n - 1]);
                match spec_drawcall_line(line) {
                    DrawcallLine::Line(m, api) => {
                        let switch = st.current is Some && st.current->0.drawcall != m;
                        let dc = if switch || st.current is None {
                            empty_draw_call(m)
                        } else {
                            st.current->0
                        };
                        lemma_apply_panics_only_reversed(dc, api);
                    },
                    _ => {},
                }
            },
            _ => {},
        }
    }
}

/// No line after the header is a draw-call line whose API call has its `)` before
/// its `(`.
pub open spec fn spec_calls_well_bracketed(text: Seq<char>) -> bool {
    forall|k: int|
        1 <= k < spec_lines(text).len() ==> !line_has_reversed_call(#[trigger] spec_lines(text)[k])
}

/// True when no draw-call line of the log has its `)` before its `(`; the reader
/// then runs to a result on this text.
pub fn calls_well_bracketed(text: &str) -> (r: bool)
    ensures
        r == spec_calls_well_bracketed(text@),
        r ==> !(spec_parse_log(text@) is Panics),
{
    let v = chars_of(text);
    let pieces = split_chars(&v, '\n');
    proof {
        lemma_split_nonempty(v@, '\n');
    }
    let nlines: usize = if v.len() == 0 {
        0
    } else if v[v.len() - 1] == '\n' {
        pieces.len() - 1
    } else {
        pieces.len()
    };
    let ghost ls = spec_lines(text@);
    proof {
        assert(ls.len() == nlines);
        assert forall|k: int| 0 <= k < nlines implies #[trigger] ls[k] == pieces@[k]@ by {}
    }
    if nlines == 0 {
        return true;
    }
    let ghost body = ls.drop_first();
    let mut i: usize = 1;
    while i < nlines
        invariant
            1 <= i <= nlines <= pieces@.len(),
            ls.len() == nlines,
            body == ls.drop_first(),
            forall|k: int| 0 <= k < nlines ==> #[trigger] ls[k] == pieces@[k]@,
            ls == spec_lines(text@),
            forall|k: int| 1 <= k < i ==> !line_has_reversed_call(#[trigger] ls[k]),
        decreases nlines - i,
    {
        let line = trim_end_cr_exec(&pieces[i]);
        proof {
            assert(body[i - 1] == pieces@[i as int]@);
        }
        match parse_drawcall_line(&line) {
            DrawcallLineResult::Line(_n, api) => {
                if reversed(&api) {
                    proof {
                        assert(line_has_reversed_call(ls[i as int]));
                    }
                    return false;
                }
            },
            _ => {},
        }
        i = i + 1;
    }
    proof {
        assert forall|k: int| 0 <= k < body.len() implies !line_has_reversed_call(
            #[trigger] body[k],
        ) by {
            assert(body[k] == ls[k + 1]);
        }
        lemma_run_no_panic(body, body.len() as int);
    }
    true
}

} // verus!
