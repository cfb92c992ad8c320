//! Splitting, searching and integer reading on character sequences, with the
//! meaning that `str::split`, `str::find`, `str::rfind` and `str::parse` give them.
use vstd::prelude::*;
use crate::text::{chars_of, is_ascii_digit, is_ws, vec_subrange};

verus! {

broadcast use vstd::seq_lib::group_seq_properties;

/// First position of `c` in `s`.
pub open spec fn first_index(s: Seq<char>, c: char) -> Option<int>
    decreases s.len(),
{
    if s.len() == 0 {
        None
    } else if s[0] == c {
        Some(0)
    } else {
        match first_index(s.drop_first(), c) {
            Some(i) => Some(i + 1),
            None => None,
        }
    }
}

/// Last position of `c` in `s`.
pub open spec fn last_index(s: Seq<char>, c: char) -> Option<int>
    decreases s.len(),
{
    if s.len() == 0 {
        None
    } else if s.last() == c {
        Some(s.len() - 1)
    } else {
        last_index(s.drop_last(), c)
    }
}

/// The pieces of `s` between occurrences of `c`; always at least one piece (`str::split`).
pub open spec fn split_on(s: Seq<char>, c: char) -> Seq<Seq<char>>
    decreases s.len(),
{
    if s.len() == 0 {
        seq![Seq::empty()]
    } else {
        let w = split_on(s.drop_last(), c);
        if s.last() == c {
            w.push(Seq::empty())
        } else {
            w.update(w.len() - 1, w.last().push(s.last()))
        }
    }
}

/// The maximal runs of non-whitespace characters (`str::split_whitespace`).
pub open spec fn ws_words(s: Seq<char>) -> Seq<Seq<char>>
    decreases s.len(),
{
    if s.len() == 0 {
        Seq::empty()
    } else {
        let w = ws_words(s.drop_last());
        let c = s.last();
        if is_ws(c) {
            w
        } else if s.len() >= 2 && !is_ws(s[s.len() - 2]) {
            w.update(w.len() - 1, w.last().push(c))
        } else {
            w.push(seq![c])
        }
    }
}

pub proof fn lemma_first_index_props(s: Seq<char>, c: char)
    ensures
        match first_index(s, c) {
            Some(i) => 0 <= i < s.len() && s[i] == c && forall|j: int| 0 <= j < i ==> s[j] != c,
            None => forall|j: int| 0 <= j < s.len() ==> s[j] != c,
        },
    decreases s.len(),
{
    if s.len() > 0 {
        lemma_first_index_props(s.drop_first(), c);
        if s[0] != c {
            assert forall|j: int| 0 < j < s.len() implies s[j] == s.drop_first()[j - 1] by {}
        }
    }
}

pub proof fn lemma_last_index_props(s: Seq<char>, c: char)
    ensures
        match last_index(s, c) {
            Some(i) => 0 <= i < s.len() && s[i] == c && forall|j: int| i < j < s.len() ==> s[j] != c,
            None => forall|j: int| 0 <= j < s.len() ==> s[j] != c,
        },
    decreases s.len(),
{
    if s.len() > 0 {
        lemma_last_index_props(s.drop_last(), c);
        assert forall|j: int| 0 <= j < s.len() - 1 implies s[j] == s.drop_last()[j] by {}
    }
}

pub proof fn lemma_split_nonempty(s: Seq<char>, c: char)
    ensures
        split_on(s, c).len() >= 1,
    decreases s.len(),
{
    if s.len() > 0 {
        lemma_split_nonempty(s.drop_last(), c);
    }
}

pub proof fn lemma_ws_words_nonempty_after(s: Seq<char>)
    requires
        s.len() > 0,
        !is_ws(s.last()),
    ensures
        ws_words(s).len() > 0,
    decreases s.len(),
{
    if s.len() >= 2 && !is_ws(s[s.len() - 2]) {
        lemma_ws_words_nonempty_after(s.drop_last());
    }
}

/// First position of `c`.
pub fn find_char(v: &Vec<char>, c: char) -> (r: Option<usize>)
    ensures
        match r {
            Some(i) => first_index(v@, c) == Some(i as int) && i < v@.len() && v@[i as int] == c,
            None => first_index(v@, c) is None,
        },
{
    proof {
        lemma_first_index_props(v@, c);
    }
    let mut i: usize = 0;
    while i < v.len()
        invariant
            i <= v.len(),
            forall|j: int| 0 <= j < i ==> v@[j] != c,
        decreases v.len() - i,
    {
        if v[i] == c {
            proof {
                lemma_first_index_props(v@, c);
                match first_index(v@, c) {
                    Some(k) => {
                        if k < i {
                            assert(v@[k] == c);
                        } else if k > i {
                            assert(v@[i as int] != c);
                        }
                    },
                    None => {
                        assert(v@[i as int] != c);
                    },
                }
            }
            return Some(i);
        }
        i = i + 1;
    }
    proof {
        lemma_first_index_props(v@, c);
        if first_index(v@, c) is Some {
            let k = first_index(v@, c)->0;
            assert(v@[k] == c);
        }
    }
    None
}

/// Last position of `c`.
pub fn rfind_char(v: &Vec<char>, c: char) -> (r: Option<usize>)
    ensures
        match r {
            Some(i) => last_index(v@, c) == Some(i as int) && i < v@.len() && v@[i as int] == c,
            None => last_index(v@, c) is None,
        },
{
    proof {
        lemma_last_index_props(v@, c);
    }
    let mut i: usize = v.len();
    while i > 0
        invariant
            i <= v.len(),
            forall|j: int| i <= j < v.len() ==> v@[j] != c,
        decreases i,
    {
        if v[i - 1] == c {
            proof {
                lemma_last_index_props(v@, c);
                match last_index(v@, c) {
                    Some(k) => {
                        if k < i - 1 {
                            assert(v@[i - 1] != c);
                        } else if k > i - 1 {
                            assert(v@[k] == c);
                        }
                    },
                    None => {
                        assert(v@[i - 1] != c);
                    },
                }
            }
            return Some(i - 1);
        }
        i = i - 1;
    }
    proof {
        lemma_last_index_props(v@, c);
        if last_index(v@, c) is Some {
            let k = last_index(v@, c)->0;
            assert(v@[k] == c);
        }
    }
    None
}

/// The pieces between occurrences of `c` (`str::split`).
pub fn split_chars(v: &Vec<char>, c: char) -> (r: Vec<Vec<char>>)
    ensures
        r@.len() == split_on(v@, c).len(),
        forall|i: int| 0 <= i < r@.len() ==> #[trigger] r@[i]@ == split_on(v@, c)[i],
{
    let mut pieces: Vec<Vec<char>> = Vec::new();
    let mut current: Vec<char> = Vec::new();
    let mut i: usize = 0;
    while i < v.len()
        invariant
            i <= v.len(),
            pieces@.len() + 1 == split_on(v@.take(i as int), c).len(),
            forall|k: int| 0 <= k < pieces@.len() ==> #[trigger] pieces@[k]@ == split_on(
                v@.take(i as int),
                c,
            )[k],
            current@ == split_on(v@.take(i as int), c).last(),
        decreases v.len() - i,
    {
        let ghost pre = v@.take(i as int);
        proof {
            assert(v@.take(i + 1).drop_last() =~= pre);
            lemma_split_nonempty(pre, c);
        }
        if v[i] == c {
            pieces.push(current);
            current = Vec::new();
        } else {
            current.push(v[i]);
        }
        i = i + 1;
    }
    pieces.push(current);
    proof {
        assert(v@.take(v.len() as int) =~= v@);
    }
    pieces
}

/// The whitespace-separated words (`str::split_whitespace`).
pub fn split_ws(v: &Vec<char>) -> (r: Vec<Vec<char>>)
    ensures
        r@.len() == ws_words(v@).len(),
        forall|i: int| 0 <= i < r@.len() ==> #[trigger] r@[i]@ == ws_words(v@)[i],
{
    let mut words: Vec<Vec<char>> = Vec::new();
    let mut current: Vec<char> = Vec::new();
    let mut in_word = false;
    let mut i: usize = 0;
    while i < v.len()
        invariant
            i <= v.len(),
            in_word == (i > 0 && !is_ws(v@[i - 1])),
            in_word ==> ws_words(v@.take(i as int)).len() > 0,
            in_word ==> words@.len() + 1 == ws_words(v@.take(i as int)).len() && current@
                == ws_words(v@.take(i as int)).last(),
            !in_word ==> words@.len() == ws_words(v@.take(i as int)).len(),
            forall|k: int| 0 <= k < words@.len() ==> #[trigger] words@[k]@ == ws_words(
                v@.take(i as int),
            )[k],
        decreases v.len() - i,
    {
        let c = v[i];
        let ghost pre = v@.take(i as int);
        proof {
            assert(v@.take(i + 1).drop_last() =~= pre);
            if i >= 1 {
                assert(v@.take(i + 1)[i - 1] == v@[i - 1]);
            }
            if in_word {
                lemma_ws_words_nonempty_after(pre);
            }
        }
        if !crate::text::char_is_ws(c) {
            if in_word {
                current.push(c);
            } else {
                current = Vec::new();
                current.push(c);
                in_word = true;
            }
        } else if in_word {
            words.push(current);
            current = Vec::new();
            in_word = false;
        }
        i = i + 1;
    }
    if in_word {
        words.push(current);
    }
    proof {
        assert(v@.take(v.len() as int) =~= v@);
    }
    words
}

// ---------------------------------------------------------------------------
// Integers
// ---------------------------------------------------------------------------

/// Why `str::parse` refused a text as an integer.
#[derive(Debug, Clone, Copy, PartialEq, Eq)]
pub enum IntErrorKind {
    Empty,
    InvalidDigit,
    PosOverflow,
    NegOverflow,
}

pub open spec fn digit_value(c: char) -> int {
    (c as int) - ('0' as int)
}

/// Digits read left to right into `acc`; the first non-digit, or the first prefix whose
/// value passes `max`, ends the reading with that error.
pub open spec fn read_digits(d: Seq<char>, acc: int, max: int) -> Result<int, IntErrorKind>
    decreases d.len(),
{
    if d.len() == 0 {
        Ok(acc)
    } else if !is_ascii_digit(d[0]) {
        Err(IntErrorKind::InvalidDigit)
    } else if acc * 10 + digit_value(d[0]) > max {
        Err(IntErrorKind::PosOverflow)
    } else {
        read_digits(d.drop_first(), acc * 10 + digit_value(d[0]), max)
    }
}

/// `str::parse::<u32>`: an optional `+`, then decimal digits.
pub open spec fn spec_parse_u32(s: Seq<char>) -> Result<int, IntErrorKind> {
    if s.len() == 0 {
        Err(IntErrorKind::Empty)
    } else if (s[0] == '+' || s[0] == '-') && s.len() == 1 {
        Err(IntErrorKind::InvalidDigit)
    } else if s[0] == '+' {
        read_digits(s.drop_first(), 0, u32::MAX as int)
    } else {
        read_digits(s, 0, u32::MAX as int)
    }
}

/// `str::parse::<i32>`: an optional sign, then decimal digits.
pub open spec fn spec_parse_i32(s: Seq<char>) -> Result<int, IntErrorKind> {
    if s.len() == 0 {
        Err(IntErrorKind::Empty)
    } else if (s[0] == '+' || s[0] == '-') && s.len() == 1 {
        Err(IntErrorKind::InvalidDigit)
    } else if s[0] == '+' {
        read_digits(s.drop_first(), 0, i32::MAX as int)
    } else if s[0] == '-' {
        match read_digits(s.drop_first(), 0, 2147483648) {
            Ok(v) => Ok(-v),
            Err(IntErrorKind::PosOverflow) => Err(IntErrorKind::NegOverflow),
            Err(e) => Err(e),
        }
    } else {
        read_digits(s, 0, i32::MAX as int)
    }
}

/// The text `ParseIntError` displays for each kind.
pub open spec fn int_error_text(k: IntErrorKind) -> Seq<char> {
    match k {
        IntErrorKind::Empty => "cannot parse integer from empty string"@,
        IntErrorKind::InvalidDigit => "invalid digit found in string"@,
        IntErrorKind::PosOverflow => "number too large to fit in target type"@,
        IntErrorKind::NegOverflow => "number too small to fit in target type"@,
    }
}

pub fn int_error_message(k: IntErrorKind) -> (r: &'static str)
    ensures
        r@ == int_error_text(k),
{
    match k {
        IntErrorKind::Empty => "cannot parse integer from empty string",
        IntErrorKind::InvalidDigit => "invalid digit found in string",
        IntErrorKind::PosOverflow => "number too large to fit in target type",
        IntErrorKind::NegOverflow => "number too small to fit in target type",
    }
}

proof fn lemma_read_digits_bounds(d: Seq<char>, acc: int, max: int)
    requires
        0 <= acc <= max,
    ensures
        read_digits(d, acc, max) matches Ok(v) ==> 0 <= v <= max,
    decreases d.len(),
{
    if d.len() > 0 && is_ascii_digit(d[0]) && acc * 10 + digit_value(d[0]) <= max {
        lemma_read_digits_bounds(d.drop_first(), acc * 10 + digit_value(d[0]), max);
    }
}

/// Reads `v[from..]` as digits (see `read_digits`), with values up to `max`.
fn read_digits_exec(v: &Vec<char>, from: usize, max: u64) -> (r: Result<u64, IntErrorKind>)
    requires
        from <= v.len(),
        max <= u32::MAX as u64 + 1,
    ensures
        match r {
            Ok(x) => read_digits(v@.subrange(from as int, v.len() as int), 0, max as int) == Ok::<
                int,
                IntErrorKind,
            >(x as int),
            Err(e) => read_digits(v@.subrange(from as int, v.len() as int), 0, max as int) == Err::<
                int,
                IntErrorKind,
            >(e),
        },
{
    let mut acc: u64 = 0;
    let mut i: usize = from;
    while i < v.len()
        invariant
            from <= i <= v.len(),
            acc <= max,
            max <= u32::MAX as u64 + 1,
            read_digits(v@.subrange(from as int, v.len() as int), 0, max as int) == read_digits(
                v@.subrange(i as int, v.len() as int),
                acc as int,
                max as int,
            ),
        decreases v.len() - i,
    {
        let ghost rest = v@.subrange(i as int, v.len() as int);
        let c = v[i];
        if !crate::text::char_is_ascii_digit(c) {
            return Err(IntErrorKind::InvalidDigit);
        }
        let d: u64 = ((c as u32) - ('0' as u32)) as u64;
        let next: u64 = acc * 10 + d;
        if next > max {
            return Err(IntErrorKind::PosOverflow);
        }
        proof {
            assert(rest.drop_first() =~= v@.subrange(i + 1, v.len() as int));
        }
        acc = next;
        i = i + 1;
    }
    proof {
        assert(v@.subrange(i as int, v.len() as int) =~= Seq::<char>::empty());
    }
    Ok(acc)
}

/// `str::parse::<u32>`.
pub fn parse_u32(s: &Vec<char>) -> (r: Result<u32, IntErrorKind>)
    ensures
        match r {
            Ok(x) => spec_parse_u32(s@) == Ok::<int, IntErrorKind>(x as int),
            Err(e) => spec_parse_u32(s@) == Err::<int, IntErrorKind>(e),
        },
{
    if s.len() == 0 {
        return Err(IntErrorKind::Empty);
    }
    if (s[0] == '+' || s[0] == '-') && s.len() == 1 {
        return Err(IntErrorKind::InvalidDigit);
    }
    let from: usize = if s[0] == '+' {
        1
    } else {
        0
    };
    proof {
        if from == 1 {
            assert(s@.drop_first() =~= s@.subrange(1, s@.len() as int));
        } else {
            assert(s@ =~= s@.subrange(0, s@.len() as int));
        }
        lemma_read_digits_bounds(s@.subrange(from as int, s@.len() as int), 0, u32::MAX as int);
    }
    match read_digits_exec(s, from, u32::MAX as u64) {
        Ok(x) => Ok(x as u32),
        Err(e) => Err(e),
    }
}

/// `str::parse::<i32>`.
pub fn parse_i32(s: &Vec<char>) -> (r: Result<i32, IntErrorKind>)
    ensures
        match r {
            Ok(x) => spec_parse_i32(s@) == Ok::<int, IntErrorKind>(x as int),
            Err(e) => spec_parse_i32(s@) == Err::<int, IntErrorKind>(e),
        },
{
    if s.len() == 0 {
        return Err(IntErrorKind::Empty);
    }
    if (s[0] == '+' || s[0] == '-') && s.len() == 1 {
        return Err(IntErrorKind::InvalidDigit);
    }
    if s[0] == '-' {
        proof {
            assert(s@.drop_first() =~= s@.subrange(1, s@.len() as int));
            lemma_read_digits_bounds(s@.subrange(1, s@.len() as int), 0, 2147483648);
        }
        return match read_digits_exec(s, 1, 2147483648) {
            Ok(x) => {
                let v: i64 = -(x as i64);
                Ok(v as i32)
            },
            Err(IntErrorKind::PosOverflow) => Err(IntErrorKind::NegOverflow),
            Err(e) => Err(e),
        };
    }
    let from: usize = if s[0] == '+' {
        1
    } else {
        0
    };
    proof {
        if from == 1 {
            assert(s@.drop_first() =~= s@.subrange(1, s@.len() as int));
        } else {
            assert(s@ =~= s@.subrange(0, s@.len() as int));
        }
        lemma_read_digits_bounds(s@.subrange(from as int, s@.len() as int), 0, i32::MAX as int);
    }
    match read_digits_exec(s, from, i32::MAX as u64) {
        Ok(x) => Ok(x as i32),
        Err(e) => Err(e),
    }
}

} // verus!
