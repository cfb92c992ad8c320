//! The verified parts of pak extraction: the AES key, which pak entries are taken
//! and where they land, and the manifest's bookkeeping. Reading the pak and
//! writing the files happens around these.
use vstd::prelude::*;
use vstd::utf8::encode_utf8;
use crate::error::AppError;
use crate::scan::{split_chars, split_on};
use crate::text::{
    chars_of, is_prefix, join, join_seq, new_string, push_char, seq_contains, string_of, strip_prefix, trim,
    trim_seq, vec_contains, views,
};

verus! {

broadcast use vstd::seq_lib::group_seq_properties;

// ---------------------------------------------------------------------------
// The AES key
// ---------------------------------------------------------------------------

#[verifier::external_type_specification]
#[verifier::external_body]
pub struct ExAes256(aes::Aes256);

#[verifier::external_type_specification]
#[verifier::external_body]
pub struct ExInvalidLength(aes::cipher::InvalidLength);

/// `<aes::Aes256 as KeyInit>::new_from_slice`: its source (crypto-common 0.1.7,
/// `KeyInit::new_from_slice`) returns `Err(InvalidLength)` exactly when the slice's
/// length differs from the key size, 32 bytes for AES-256, and otherwise builds the
/// cipher from the key. Nothing is stated of the cipher value itself: which backend
/// it uses is detected on the running machine.
#[verifier::external_body]
fn new_aes256(key: &[u8]) -> (r: Result<aes::Aes256, aes::cipher::InvalidLength>)
    ensures
        r is Err <==> key@.len() != 32,
{
    <aes::Aes256 as aes::cipher::KeyInit>::new_from_slice(key)
}

/// A 256-bit AES key for encrypted paks.
#[derive(PartialEq, Eq)]
pub struct AesKey {
    bytes: [u8; 32],
}

impl View for AesKey {
    type V = Seq<u8>;

    closed spec fn view(&self) -> Seq<u8> {
        self.bytes@
    }
}

pub open spec fn is_hex_byte(b: u8) -> bool {
    (48 <= b <= 57) || (97 <= b <= 102) || (65 <= b <= 70)
}

pub open spec fn hex_value(b: u8) -> int {
    if 48 <= b <= 57 {
        b - 48
    } else if 97 <= b <= 102 {
        b - 87
    } else {
        b - 55
    }
}

/// Two bytes that are valid UTF-8 on their own: two ASCII bytes, or one two-byte
/// encoded character.
pub open spec fn pair_is_utf8(b0: u8, b1: u8) -> bool {
    (b0 < 0x80 && b1 < 0x80) || (0xC2 <= b0 <= 0xDF && 0x80 <= b1 <= 0xBF)
}

/// Why a key's digit pair was refused.
#[derive(Debug, Clone, Copy, PartialEq, Eq)]
pub enum KeyDigitsError {
    NotAscii,
    NotHex,
}

/// The byte one pair of key characters stands for, as `u8::from_str_radix(pair, 16)`
/// reads it (a leading `+` is a sign).
pub open spec fn spec_pair_byte(b0: u8, b1: u8) -> Result<u8, KeyDigitsError> {
    if !pair_is_utf8(b0, b1) {
        Err(KeyDigitsError::NotAscii)
    } else if is_hex_byte(b0) && is_hex_byte(b1) {
        Ok((16 * hex_value(b0) + hex_value(b1)) as u8)
    } else if b0 == 43 && is_hex_byte(b1) {
        Ok(hex_value(b1) as u8)
    } else {
        Err(KeyDigitsError::NotHex)
    }
}

/// The first `n` key bytes of the text bytes, or the error of the first bad pair.
pub open spec fn spec_key_bytes(text: Seq<u8>, n: nat) -> Result<Seq<u8>, KeyDigitsError>
    decreases n,
{
    if n == 0 {
        Ok(Seq::empty())
    } else {
        match spec_key_bytes(text, (n - 1) as nat) {
            Err(e) => Err(e),
            Ok(prev) => match spec_pair_byte(text[2 * (n - 1)], text[2 * (n - 1) + 1]) {
                Err(e) => Err(e),
                Ok(b) => Ok(prev.push(b)),
            },
        }
    }
}

/// The key text: trimmed, without a leading `0x`.
pub open spec fn key_text(hex: Seq<char>) -> Seq<char> {
    let t = trim_seq(hex);
    if is_prefix("0x"@, t) {
        t.subrange(2, t.len() as int)
    } else {
        t
    }
}

/// The key bytes a hex text stands for, or the message that refuses it.
pub open spec fn spec_from_hex(hex: Seq<char>) -> Result<Seq<u8>, Seq<char>> {
    let bytes = encode_utf8(key_text(hex));
    if bytes.len() != 64 {
        Err("AES-256 key must be exactly 64 hex characters"@)
    } else {
        match spec_key_bytes(bytes, 32) {
            Ok(k) => Ok(k),
            Err(KeyDigitsError::NotAscii) => Err("AES-256 key must contain only ASCII hex"@),
            Err(KeyDigitsError::NotHex) => Err(
                "AES-256 key must contain only hexadecimal characters"@,
            ),
        }
    }
}

proof fn lemma_key_bytes_error_stays(text: Seq<u8>, n: nat, m: nat)
    requires
        n <= m,
        spec_key_bytes(text, n) is Err,
    ensures
        spec_key_bytes(text, m) == spec_key_bytes(text, n),
    decreases m - n,
{
    if n < m {
        lemma_key_bytes_error_stays(text, n, (m - 1) as nat);
    }
}

fn hex_digit(b: u8) -> (r: Option<u8>)
    ensures
        match r {
            Some(v) => is_hex_byte(b) && v == hex_value(b),
            None => !is_hex_byte(b),
        },
{
    if 48 <= b && b <= 57 {
        Some(b - 48)
    } else if 97 <= b && b <= 102 {
        Some(b - 87)
    } else if 65 <= b && b <= 70 {
        Some(b - 55)
    } else {
        None
    }
}

fn pair_byte(b0: u8, b1: u8) -> (r: Result<u8, KeyDigitsError>)
    ensures
        r == spec_pair_byte(b0, b1),
{
    if !((b0 < 0x80 && b1 < 0x80) || (0xC2 <= b0 && b0 <= 0xDF && 0x80 <= b1 && b1 <= 0xBF)) {
        return Err(KeyDigitsError::NotAscii);
    }
    match (hex_digit(b0), hex_digit(b1)) {
        (Some(h), Some(l)) => Ok(h * 16 + l),
        (None, Some(l)) => if b0 == 43 {
            Ok(l)
        } else {
            Err(KeyDigitsError::NotHex)
        },
        _ => Err(KeyDigitsError::NotHex),
    }
}

impl AesKey {
    /// Reads a key written as 64 hex digits, trimmed and with an optional `0x`.
    pub fn from_hex(hex: &str) -> (r: Result<AesKey, AppError>)
        ensures
            match spec_from_hex(hex@) {
                Ok(k) => r is Ok && r->Ok_0@ == k,
                Err(m) => r matches Err(AppError::InvalidInput(e)) && e@ == m,
            },
    {
        let trimmed = trim(hex);
        let normalized = match strip_prefix(trimmed.as_str(), "0x") {
            Some(rest) => rest,
            None => trimmed,
        };
        proof {
            reveal_strlit("0x");
            assert(normalized@ == key_text(hex@));
        }
        let text = normalized.as_str().as_bytes();
        assert(text@ == encode_utf8(key_text(hex@)));
        if text.len() != 64 {
            return Err(
                AppError::InvalidInput(new_string("AES-256 key must be exactly 64 hex characters")),
            );
        }
        let mut bytes: [u8; 32] = [0u8; 32];
        let mut i: usize = 0;
        while i < 32
            invariant
                i <= 32,
                text@.len() == 64,
                text@ == encode_utf8(key_text(hex@)),
                spec_key_bytes(text@, i as nat) == Ok::<Seq<u8>, KeyDigitsError>(
                    bytes@.take(i as int),
                ),
            decreases 32 - i,
        {
            match pair_byte(text[2 * i], text[2 * i + 1]) {
                Ok(b) => {
                    let ghost prev = bytes@;
                    bytes.set(i, b);
                    proof {
                        assert(bytes@.take(i + 1) =~= prev.take(i as int).push(b));
                    }
                },
                Err(KeyDigitsError::NotAscii) => {
                    proof {
                        lemma_key_bytes_error_stays(text@, (i + 1) as nat, 32);
                    }
                    return Err(
                        AppError::InvalidInput(new_string("AES-256 key must contain only ASCII hex")),
                    );
                },
                Err(KeyDigitsError::NotHex) => {
                    proof {
                        lemma_key_bytes_error_stays(text@, (i + 1) as nat, 32);
                    }
                    return Err(
                        AppError::InvalidInput(
                            new_string("AES-256 key must contain only hexadecimal characters"),
                        ),
                    );
                },
            }
            i = i + 1;
        }
        proof {
            assert(bytes@.take(32) =~= bytes@);
        }
        Ok(AesKey { bytes })
    }

    /// How the key shows in logs and messages: its bytes are never printed.
    pub fn redacted(&self) -> (r: &'static str)
        ensures
            r@ == "AesKey([redacted])"@,
    {
        "AesKey([redacted])"
    }

    pub fn as_bytes(&self) -> (r: &[u8; 32])
        ensures
            r@ == self@,
    {
        &self.bytes
    }

    /// The key as the AES-256 cipher the pak reader takes; a 32-byte key is always accepted.
    pub fn to_repak_key(&self) -> (r: Result<aes::Aes256, AppError>)
        ensures
            r is Ok,
    {
        match new_aes256(self.bytes.as_slice()) {
            Ok(key) => Ok(key),
            Err(_) => Err(
                AppError::InvalidInput(
                    new_string("failed to construct AES-256 key for pak reader"),
                ),
            ),
        }
    }
}

// ---------------------------------------------------------------------------
// Entries and paths
// ---------------------------------------------------------------------------

/// `s` with every `**` removed, left to right (`str::replace("**", "")`).
pub open spec fn without_double_star(s: Seq<char>) -> Seq<char>
    decreases s.len(),
{
    if s.len() >= 2 && s[0] == '*' && s[1] == '*' {
        without_double_star(s.subrange(2, s.len() as int))
    } else if s.len() == 0 {
        Seq::empty()
    } else {
        seq![s[0]] + without_double_star(s.drop_first())
    }
}

/// A pak entry is taken when there is no filter, the trimmed filter is empty or
/// only `**`, or the entry path contains the filter with `**` removed.
pub open spec fn spec_matches_filter(pak_path: Seq<char>, filter: Option<Seq<char>>) -> bool {
    match filter {
        None => true,
        Some(f) => {
            let t = trim_seq(f);
            t.len() == 0 || without_double_star(t).len() == 0 || seq_contains(
                pak_path,
                without_double_star(t),
            )
        },
    }
}

fn remove_double_star(v: &Vec<char>) -> (r: Vec<char>)
    ensures
        r@ == without_double_star(v@),
{
    let mut out: Vec<char> = Vec::new();
    let mut i: usize = 0;
    while i < v.len()
        invariant
            i <= v@.len(),
            out@ + without_double_star(v@.subrange(i as int, v@.len() as int)) == without_double_star(v@),
        decreases v.len() - i,
    {
        let ghost rest = v@.subrange(i as int, v@.len() as int);
        if i + 1 < v.len() && v[i] == '*' && v[i + 1] == '*' {
            proof {
                assert(rest.subrange(2, rest.len() as int) =~= v@.subrange(i + 2, v@.len() as int));
            }
            i = i + 2;
        } else {
            proof {
                assert(rest.drop_first() =~= v@.subrange(i + 1, v@.len() as int));
                assert(out@.push(v@[i as int]) + without_double_star(rest.drop_first()) =~= out@ + (
                seq![rest[0]] + without_double_star(rest.drop_first())));
            }
            out.push(v[i]);
            i = i + 1;
        }
    }
    proof {
        assert(v@.subrange(v@.len() as int, v@.len() as int) =~= Seq::<char>::empty());
        assert(out@ + Seq::<char>::empty() =~= out@);
    }
    out
}

pub fn matches_filter(pak_path: &str, filter: Option<&str>) -> (r: bool)
    ensures
        r == spec_matches_filter(
            pak_path@,
            match filter {
                Some(f) => Some(f@),
                None => None,
            },
        ),
{
    let f = match filter {
        Some(f) => f,
        None => return true,
    };
    let t = trim(f);
    if t.as_str().is_empty() {
        return true;
    }
    let tv = chars_of(t.as_str());
    let normalized = remove_double_star(&tv);
    if normalized.len() == 0 {
        return true;
    }
    let pv = chars_of(pak_path);
    vec_contains(&pv, &normalized)
}

/// Whether any piece is `..`.
pub open spec fn has_parent_piece(pieces: Seq<Seq<char>>) -> bool {
    exists|i: int| 0 <= i < pieces.len() && pieces[i] == seq!['.', '.']
}

/// The named pieces of a split path: empty pieces and `.` dropped.
pub open spec fn named_pieces(pieces: Seq<Seq<char>>) -> Seq<Seq<char>>
    decreases pieces.len(),
{
    if pieces.len() == 0 {
        Seq::empty()
    } else {
        let rest = named_pieces(pieces.drop_last());
        let p = pieces.last();
        if p.len() == 0 || p == seq!['.'] {
            rest
        } else {
            rest.push(p)
        }
    }
}

/// The pak path with `\\` read as the separator `/`.
pub open spec fn entry_slashed(pak_path: Seq<char>) -> Seq<char> {
    pak_path.map_values(|c: char| slash_char(c))
}

/// The path opens with a drive letter and `:`.
pub open spec fn has_drive_prefix(p: Seq<char>) -> bool {
    p.len() >= 2 && p[1] == ':' && (('a' <= p[0] && p[0] <= 'z') || ('A' <= p[0] && p[0] <= 'Z'))
}

/// Where a pak entry lands under the output directory: its named components, with
/// `/` and `\\` both separating them, joined by `/`; refused (`None`) for a rooted
/// path, a drive prefix, a `..` component, or no component at all.
pub open spec fn spec_entry_relative_path(pak_path: Seq<char>) -> Option<Seq<Seq<char>>> {
    let s = entry_slashed(pak_path);
    let pieces = split_on(s, '/');
    if s.len() > 0 && s[0] == '/' {
        None
    } else if has_drive_prefix(pak_path) {
        None
    } else if has_parent_piece(pieces) {
        None
    } else if named_pieces(pieces).len() == 0 {
        None
    } else {
        Some(named_pieces(pieces))
    }
}

/// The relative output path of a pak entry, `/`-joined, or `None` when it is unsafe or empty.
pub fn normalize_pak_entry_path(pak_path: &str) -> (r: Option<String>)
    ensures
        match r {
            Some(c) => spec_entry_relative_path(pak_path@) is Some && c@ == join_seq(
                spec_entry_relative_path(pak_path@)->0,
                "/"@,
            ),
            None => spec_entry_relative_path(pak_path@) is None,
        },
{
    let slashed = normalize_path_for_json(pak_path);
    let v = chars_of(slashed.as_str());
    if v.len() > 0 && v[0] == '/' {
        return None;
    }
    if v.len() >= 2 && v[1] == ':' && (('a' <= v[0] && v[0] <= 'z') || ('A' <= v[0] && v[0]
        <= 'Z')) {
        proof {
            assert(v@[0] == slash_char(pak_path@[0]) && v@[1] == slash_char(pak_path@[1]));
        }
        return None;
    }
    proof {
        if pak_path@.len() >= 2 {
            assert(v@[0] == slash_char(pak_path@[0]) && v@[1] == slash_char(pak_path@[1]));
        }
    }
    let pieces = split_chars(&v, '/');
    let ghost ps = split_on(v@, '/');
    let mut out: Vec<String> = Vec::new();
    let mut i: usize = 0;
    proof {
        assert(ps.take(0) =~= Seq::<Seq<char>>::empty());
        assert(views(out@) =~= Seq::<Seq<char>>::empty());
    }
    while i < pieces.len()
        invariant
            i <= pieces@.len(),
            v@ == entry_slashed(pak_path@),
            pieces@.len() == ps.len(),
            ps == split_on(v@, '/'),
            forall|k: int| 0 <= k < pieces@.len() ==> #[trigger] pieces@[k]@ == ps[k],
            forall|k: int| 0 <= k < i ==> #[trigger] ps[k] != seq!['.', '.'],
            views(out@) == named_pieces(ps.take(i as int)),
        decreases pieces.len() - i,
    {
        let p = &pieces[i];
        proof {
            assert(ps.take(i + 1).drop_last() =~= ps.take(i as int));
            assert(ps.take(i + 1).last() == ps[i as int]);
        }
        if p.len() == 2 && p[0] == '.' && p[1] == '.' {
            proof {
                assert(ps[i as int] =~= seq!['.', '.']);
            }
            return None;
        }
        proof {
            if ps[i as int] == seq!['.', '.'] {
                assert(p@[0] == '.' && p@[1] == '.');
            }
        }
        if !(p.len() == 0 || (p.len() == 1 && p[0] == '.')) {
            let s = string_of(p);
            proof {
                assert(views(out@.push(s)) =~= views(out@).push(s@));
                if p@.len() == 1 {
                    assert(p@ != seq!['.']);
                }
            }
            out.push(s);
        } else {
            proof {
                if p@.len() == 1 {
                    assert(p@ =~= seq!['.']);
                }
            }
        }
        i = i + 1;
    }
    proof {
        assert(ps.take(ps.len() as int) =~= ps);
    }
    if out.len() == 0 {
        None
    } else {
        Some(join(&out, "/"))
    }
}

proof fn lemma_named_pieces_are_plain(pieces: Seq<Seq<char>>)
    ensures
        forall|i: int|
            0 <= i < named_pieces(pieces).len() ==> {
                let n = #[trigger] named_pieces(pieces)[i];
                &&& n.len() > 0
                &&& n != seq!['.']
                &&& !has_parent_piece(pieces) ==> n != seq!['.', '.']
            },
    decreases pieces.len(),
{
    if pieces.len() > 0 {
        let init = pieces.drop_last();
        let rest = named_pieces(init);
        let p = pieces.last();
        lemma_named_pieces_are_plain(init);
        if !has_parent_piece(pieces) {
            assert(!has_parent_piece(init)) by {
                if has_parent_piece(init) {
                    let k = choose|k: int| 0 <= k < init.len() && init[k] == seq!['.', '.'];
                    assert(pieces[k] == init[k]);
                }
            }
            assert(pieces[pieces.len() - 1] != seq!['.', '.']);
        }
        assert forall|i: int| 0 <= i < named_pieces(pieces).len() implies {
            let n = #[trigger] named_pieces(pieces)[i];
            &&& n.len() > 0
            &&& n != seq!['.']
            &&& !has_parent_piece(pieces) ==> n != seq!['.', '.']
        } by {
            if i < rest.len() {
                assert(named_pieces(pieces)[i] == rest[i]);
            } else {
                assert(named_pieces(pieces) == rest.push(p));
                assert(named_pieces(pieces)[i] == p);
            }
        }
    }
}

/// An accepted pak entry never leaves the output directory: it has at least one
/// component, and each component is a plain name, neither empty nor `.` nor `..`,
/// with `/` and `\\` both read as separators.
pub proof fn accepted_entry_paths_stay_inside(pak_path: Seq<char>)
    requires
        spec_entry_relative_path(pak_path) is Some,
    ensures
        spec_entry_relative_path(pak_path)->0.len() > 0,
        forall|i: int|
            0 <= i < spec_entry_relative_path(pak_path)->0.len() ==> {
                let part = #[trigger] spec_entry_relative_path(pak_path)->0[i];
                &&& part.len() > 0
                &&& part != seq!['.']
                &&& part != seq!['.', '.']
            },
{
    lemma_named_pieces_are_plain(split_on(entry_slashed(pak_path), '/'));
}

pub open spec fn slash_char(c: char) -> char {
    if c == '\\' {
        '/'
    } else {
        c
    }
}

/// A path with backslashes written as `/`, as the manifest records paths.
pub fn normalize_path_for_json(path: &str) -> (r: String)
    ensures
        r@ == path@.map_values(|c: char| slash_char(c)),
{
    let v = chars_of(path);
    let mut out: Vec<char> = Vec::new();
    let mut i: usize = 0;
    while i < v.len()
        invariant
            i <= v@.len(),
            v@ == path@,
            out@ == v@.take(i as int).map_values(|c: char| slash_char(c)),
        decreases v.len() - i,
    {
        let c = v[i];
        out.push(
            if c == '\\' {
                '/'
            } else {
                c
            },
        );
        proof {
            assert(v@.take(i + 1).map_values(|c: char| slash_char(c)) =~= v@.take(
                i as int,
            ).map_values(|c: char| slash_char(c)).push(slash_char(c)));
        }
        i = i + 1;
    }
    proof {
        assert(v@.take(v@.len() as int) =~= v@);
    }
    string_of(&out)
}

// ---------------------------------------------------------------------------
// Requests, manifests and the extraction plan
// ---------------------------------------------------------------------------

pub struct PakExtractionRequest {
    pub pak_path: String,
    pub aes_key: Option<AesKey>,
    pub output_dir: String,
    pub path_filter: Option<String>,
}

#[derive(Debug, Clone, PartialEq, Eq)]
pub struct PakExtractionEntry {
    pub pak_path: String,
    pub output_relative_path: String,
    pub size_bytes: u64,
}

#[derive(Debug, Clone, PartialEq, Eq)]
pub struct PakExtractionSummary {
    pub total_entries_in_pak: usize,
    pub extracted_entries: usize,
    pub filtered_out_entries: usize,
    pub extracted_bytes: u64,
    pub duration_ms: u128,
}

#[derive(Debug, Clone, PartialEq, Eq)]
pub struct PakSourceInfo {
    pub path: String,
    pub size_bytes: u64,
    pub mount_point: String,
}

#[derive(Debug, Clone, PartialEq, Eq)]
pub struct PakExtractionManifest {
    pub schema_version: String,
    pub pak_source: PakSourceInfo,
    pub aes_key_used: bool,
    pub extracted_at_unix_ms: u128,
    pub filter_pattern: Option<String>,
    pub summary: PakExtractionSummary,
    pub entries: Vec<PakExtractionEntry>,
    pub truncated_entries: usize,
}

#[derive(Debug, Clone, PartialEq, Eq)]
pub struct PakExtractionResult {
    pub manifest: PakExtractionManifest,
    pub manifest_path: String,
}

pub const MANIFEST_SCHEMA_VERSION: &'static str = "whashreonator.pak-extraction-manifest.v1";

pub const MANIFEST_FILE_NAME: &'static str = "extraction_manifest.v1.json";

/// The manifest lists at most this many entries.
pub const MANIFEST_ENTRY_CAP: usize = 1000;

/// Records one extracted entry: listed while the manifest holds fewer than the cap,
/// counted either way.
pub fn record_extracted_entry(
    entries: &mut Vec<PakExtractionEntry>,
    extracted_entry_count: &mut usize,
    entry: PakExtractionEntry,
)
    requires
        *old(extracted_entry_count) < usize::MAX,
    ensures
        *final(extracted_entry_count) == *old(extracted_entry_count) + 1,
        old(entries)@.len() < MANIFEST_ENTRY_CAP ==> final(entries)@ == old(entries)@.push(entry),
        old(entries)@.len() >= MANIFEST_ENTRY_CAP ==> final(entries)@ == old(entries)@,
{
    *extracted_entry_count = *extracted_entry_count + 1;
    if entries.len() < MANIFEST_ENTRY_CAP {
        entries.push(entry);
    }
}

/// Entries extracted but left out of the manifest's list.
pub fn truncated_entry_count(extracted_entry_count: usize, listed: usize) -> (r: usize)
    ensures
        r == if extracted_entry_count >= listed {
            extracted_entry_count - listed
        } else {
            0
        },
{
    extracted_entry_count.saturating_sub(listed)
}


/// What becomes of one pak entry before anything is written: left out by the
/// filter, skipped for a path that would leave the output folder, or extracted to
/// its relative path.
pub enum PakEntryPlan {
    FilteredOut,
    UnsafePath,
    Extract(String),
}

pub fn plan_pak_entry(pak_path: &str, filter: Option<&str>) -> (r: PakEntryPlan)
    ensures
        match r {
            PakEntryPlan::FilteredOut => !spec_matches_filter(
                pak_path@,
                match filter {
                    Some(f) => Some(f@),
                    None => None,
                },
            ),
            PakEntryPlan::UnsafePath => spec_matches_filter(
                pak_path@,
                match filter {
                    Some(f) => Some(f@),
                    None => None,
                },
            ) && spec_entry_relative_path(pak_path@) is None,
            PakEntryPlan::Extract(rel) => spec_matches_filter(
                pak_path@,
                match filter {
                    Some(f) => Some(f@),
                    None => None,
                },
            ) && spec_entry_relative_path(pak_path@) is Some && rel@ == join_seq(
                spec_entry_relative_path(pak_path@)->0,
                "/"@,
            ),
        },
{
    if !matches_filter(pak_path, filter) {
        return PakEntryPlan::FilteredOut;
    }
    match normalize_pak_entry_path(pak_path) {
        Some(rel) => PakEntryPlan::Extract(rel),
        None => PakEntryPlan::UnsafePath,
    }
}

/// The running totals of an extraction: the entries listed so far (up to the
/// manifest's cap), how many were extracted and left out, and the bytes written.
pub struct PakExtractionTally {
    pub entries: Vec<PakExtractionEntry>,
    pub extracted_entry_count: usize,
    pub filtered_out_entries: usize,
    pub extracted_bytes: u64,
}

impl PakExtractionTally {
    pub fn new() -> (r: Self)
        ensures
            r.entries@.len() == 0,
            r.extracted_entry_count == 0,
            r.filtered_out_entries == 0,
            r.extracted_bytes == 0,
    {
        PakExtractionTally {
            entries: Vec::new(),
            extracted_entry_count: 0,
            filtered_out_entries: 0,
            extracted_bytes: 0,
        }
    }

    /// One more entry left out, by the filter or for its path.
    pub fn skip(&mut self)
        requires
            old(self).filtered_out_entries < usize::MAX,
        ensures
            final(self).filtered_out_entries == old(self).filtered_out_entries + 1,
            final(self).extracted_entry_count == old(self).extracted_entry_count,
            final(self).extracted_bytes == old(self).extracted_bytes,
            final(self).entries@ == old(self).entries@,
    {
        self.filtered_out_entries = self.filtered_out_entries + 1;
    }

    /// One more entry extracted: its bytes added, counted, and listed while the
    /// manifest holds fewer than the cap.
    pub fn record(&mut self, entry: PakExtractionEntry)
        requires
            old(self).extracted_entry_count < usize::MAX,
            old(self).extracted_bytes + entry.size_bytes <= u64::MAX,
        ensures
            final(self).extracted_entry_count == old(self).extracted_entry_count + 1,
            final(self).extracted_bytes == old(self).extracted_bytes + entry.size_bytes,
            final(self).filtered_out_entries == old(self).filtered_out_entries,
            old(self).entries@.len() < MANIFEST_ENTRY_CAP ==> final(self).entries@ == old(self).entries@.push(entry),
            old(self).entries@.len() >= MANIFEST_ENTRY_CAP ==> final(self).entries@ == old(self).entries@,
    {
        self.extracted_bytes = self.extracted_bytes + entry.size_bytes;
        record_extracted_entry(&mut self.entries, &mut self.extracted_entry_count, entry);
    }

    /// Entries extracted but left out of the manifest's list.
    pub fn truncated_entries(&self) -> (r: usize)
        ensures
            r == if self.extracted_entry_count >= self.entries@.len() {
                self.extracted_entry_count - self.entries@.len()
            } else {
                0
            },
    {
        truncated_entry_count(self.extracted_entry_count, self.entries.len())
    }
}

} // verus!
