//! Normalized names, tokens and layout markers of an asset record.
use vstd::prelude::*;
use crate::domain::{AssetInternalStructure, AssetRecord};
use crate::order::{sort_strings, sorted, sorted_set_of, sorted_strict};
use crate::text::{
    char_is_ascii_alnum, char_to_ascii_lower, chars_of, clone_opt_string, clone_string,
    is_ascii_alnum, join_seq, opt_view, string_of, to_ascii_lower, vec_subrange, views,
};

verus! {

broadcast use vstd::seq_lib::group_seq_properties;

/// The words of a text: maximal runs of ASCII letters and digits, lowercased.
pub open spec fn norm_words(s: Seq<char>) -> Seq<Seq<char>>
    decreases s.len(),
{
    if s.len() == 0 {
        Seq::empty()
    } else {
        let w = norm_words(s.drop_last());
        let c = s.last();
        if !is_ascii_alnum(c) {
            w
        } else if s.len() >= 2 && is_ascii_alnum(s[s.len() - 2]) {
            w.update(w.len() - 1, w.last().push(to_ascii_lower(c)))
        } else {
            w.push(seq![to_ascii_lower(c)])
        }
    }
}

/// The words joined by single spaces: what `normalize_text` returns.
pub open spec fn spec_normalize_text(s: Seq<char>) -> Seq<char> {
    join_seq(norm_words(s), seq![' '])
}

/// The distinct words of a text: what `tokenize` collects.
pub open spec fn spec_token_set(s: Seq<char>) -> Set<Seq<char>> {
    norm_words(s).to_set()
}

proof fn lemma_words_nonempty_after_alnum(s: Seq<char>)
    requires
        s.len() > 0,
        is_ascii_alnum(s.last()),
    ensures
        norm_words(s).len() > 0,
    decreases s.len(),
{
    if s.len() >= 2 && is_ascii_alnum(s[s.len() - 2]) {
        lemma_words_nonempty_after_alnum(s.drop_last());
    }
}

proof fn lemma_join_extend_last(w: Seq<Seq<char>>, sep: Seq<char>, x: char)
    requires
        w.len() > 0,
    ensures
        join_seq(w.update(w.len() - 1, w.last().push(x)), sep) == join_seq(w, sep).push(x),
{
    let u = w.update(w.len() - 1, w.last().push(x));
    if w.len() == 1 {
    } else {
        assert(u.drop_last() =~= w.drop_last());
        assert(join_seq(u, sep) == join_seq(u.drop_last(), sep) + sep + u.last());
        assert(join_seq(w, sep) == join_seq(w.drop_last(), sep) + sep + w.last());
        assert(join_seq(u, sep) =~= join_seq(w, sep).push(x));
    }
}

proof fn lemma_join_push_word(w: Seq<Seq<char>>, sep: Seq<char>, p: Seq<char>)
    ensures
        join_seq(w.push(p), sep) == if w.len() == 0 {
            p
        } else {
            join_seq(w, sep) + sep + p
        },
{
    assert(w.push(p).drop_last() =~= w);
}

/// The words of `v` (as `norm_words` defines them), each as a character vector.
fn words_of(v: &Vec<char>) -> (r: Vec<Vec<char>>)
    ensures
        r@.len() == norm_words(v@).len(),
        forall|i: int| 0 <= i < r@.len() ==> #[trigger] r@[i]@ == norm_words(v@)[i],
{
    let mut words: Vec<Vec<char>> = Vec::new();
    let mut current: Vec<char> = Vec::new();
    let mut in_word = false;
    let mut i: usize = 0;
    while i < v.len()
        invariant
            i <= v.len(),
            in_word == (i > 0 && is_ascii_alnum(v@[i - 1])),
            in_word ==> norm_words(v@.take(i as int)).len() > 0,
            in_word ==> words@.len() + 1 == norm_words(v@.take(i as int)).len() && current@
                == norm_words(v@.take(i as int)).last(),
            !in_word ==> words@.len() == norm_words(v@.take(i as int)).len(),
            forall|k: int| 0 <= k < words@.len() ==> #[trigger] words@[k]@ == norm_words(
                v@.take(i as int),
            )[k],
        decreases v.len() - i,
    {
        let c = v[i];
        let ghost pre = v@.take(i as int);
        let ghost next = v@.take(i + 1);
        proof {
            assert(next.drop_last() =~= pre);
            assert(next.last() == c);
            if i >= 1 {
                assert(next[next.len() - 2] == v@[i - 1]);
            }
        }
        if char_is_ascii_alnum(c) {
            let lc = char_to_ascii_lower(c);
            if in_word {
                current.push(lc);
            } else {
                current = Vec::new();
                current.push(lc);
                in_word = true;
            }
        } else if in_word {
            words.push(current);
            current = Vec::new();
            in_word = false;
        }
        i = i + 1;
    }
    if in_word {
        words.push(current);
    }
    proof {
        assert(v@.take(v.len() as int) =~= v@);
    }
    words
}

/// Letters and digits kept (lowercased), every other run of characters turned into
/// a single space, with no space at either end.
pub fn normalize_text(value: &str) -> (r: String)
    ensures
        r@ == spec_normalize_text(value@),
{
    let v = chars_of(value);
    let mut out: Vec<char> = Vec::new();
    let mut in_word = false;
    let mut any_word = false;
    let mut i: usize = 0;
    while i < v.len()
        invariant
            i <= v.len(),
            in_word == (i > 0 && is_ascii_alnum(v@[i - 1])),
            any_word == (norm_words(v@.take(i as int)).len() > 0),
            out@ == join_seq(norm_words(v@.take(i as int)), seq![' ']),
        decreases v.len() - i,
    {
        let c = v[i];
        let ghost pre = v@.take(i as int);
        let ghost next = v@.take(i + 1);
        proof {
            assert(next.drop_last() =~= pre);
            assert(next.last() == c);
            if i >= 1 {
                assert(next[next.len() - 2] == v@[i - 1]);
            }
        }
        if char_is_ascii_alnum(c) {
            let lc = char_to_ascii_lower(c);
            if in_word {
                proof {
                    lemma_words_nonempty_after_alnum(pre);
                    lemma_join_extend_last(norm_words(pre), seq![' '], lc);
                }
                out.push(lc);
            } else {
                proof {
                    lemma_join_push_word(norm_words(pre), seq![' '], seq![lc]);
                }
                if any_word {
                    out.push(' ');
                }
                out.push(lc);
                proof {
                    if any_word {
                        assert(out@ =~= join_seq(norm_words(pre), seq![' ']) + seq![' '] + seq![lc]);
                    } else {
                        assert(out@ =~= seq![lc]);
                    }
                }
                any_word = true;
            }
            in_word = true;
        } else {
            in_word = false;
        }
        i = i + 1;
    }
    proof {
        assert(v@.take(v.len() as int) =~= v@);
    }
    string_of(&out)
}

/// A word as `normalize_text` leaves it: not empty, only ASCII letters and digits,
/// and no uppercase letter.
pub open spec fn plain_word(w: Seq<char>) -> bool {
    &&& w.len() > 0
    &&& forall|i: int|
        0 <= i < w.len() ==> is_ascii_alnum(#[trigger] w[i]) && to_ascii_lower(w[i]) == w[i]
}

proof fn lemma_lower_is_plain(c: char)
    requires
        is_ascii_alnum(c),
    ensures
        is_ascii_alnum(to_ascii_lower(c)),
        to_ascii_lower(to_ascii_lower(c)) == to_ascii_lower(c),
{
}

proof fn lemma_norm_words_plain(s: Seq<char>)
    ensures
        forall|k: int| 0 <= k < norm_words(s).len() ==> plain_word(#[trigger] norm_words(s)[k]),
    decreases s.len(),
{
    if s.len() > 0 {
        let w = norm_words(s.drop_last());
        let c = s.last();
        lemma_norm_words_plain(s.drop_last());
        if is_ascii_alnum(c) {
            lemma_lower_is_plain(c);
            if s.len() >= 2 && is_ascii_alnum(s[s.len() - 2]) {
                lemma_words_nonempty_after_alnum(s.drop_last());
                let u = w.last().push(to_ascii_lower(c));
                assert(plain_word(w.last()));
                assert forall|i: int| 0 <= i < u.len() implies is_ascii_alnum(#[trigger] u[i])
                    && to_ascii_lower(u[i]) == u[i] by {
                    if i < u.len() - 1 {
                        assert(u[i] == w.last()[i]);
                    }
                }
                assert(plain_word(u));
            } else {
                assert(plain_word(seq![to_ascii_lower(c)]));
            }
        }
    }
}

proof fn lemma_norm_words_append_word(s: Seq<char>, word: Seq<char>)
    requires
        plain_word(word),
        s.len() == 0 || !is_ascii_alnum(s.last()),
    ensures
        norm_words(s + word) == norm_words(s).push(word),
    decreases word.len(),
{
    let t = s + word;
    let c = word.last();
    assert(t.drop_last() =~= s + word.drop_last());
    assert(t.last() == c);
    assert(is_ascii_alnum(word[word.len() - 1]));
    if word.len() == 1 {
        assert(s + word.drop_last() =~= s);
        assert(word =~= seq![to_ascii_lower(c)]);
        if t.len() >= 2 {
            assert(t[t.len() - 2] == s.last());
        }
    } else {
        let front = word.drop_last();
        assert forall|i: int| 0 <= i < front.len() implies is_ascii_alnum(#[trigger] front[i])
            && to_ascii_lower(front[i]) == front[i] by {
            assert(front[i] == word[i]);
        }
        lemma_norm_words_append_word(s, front);
        assert(t[t.len() - 2] == word[word.len() - 2]);
        let w = norm_words(s + front);
        assert(to_ascii_lower(word[word.len() - 1]) == word[word.len() - 1]);
        assert(front.push(c) =~= word);
        assert(w.update(w.len() - 1, w.last().push(to_ascii_lower(c))) =~= norm_words(s).push(
            word,
        ));
    }
}

proof fn lemma_words_of_join(w: Seq<Seq<char>>)
    requires
        forall|k: int| 0 <= k < w.len() ==> plain_word(#[trigger] w[k]),
    ensures
        norm_words(join_seq(w, seq![' '])) == w,
    decreases w.len(),
{
    if w.len() == 1 {
        assert(plain_word(w[0]));
        lemma_norm_words_append_word(Seq::empty(), w[0]);
        assert(Seq::<char>::empty() + w[0] =~= w[0]);
        assert(norm_words(Seq::<char>::empty()).push(w[0]) =~= w);
    } else if w.len() >= 2 {
        let front = w.drop_last();
        assert forall|k: int| 0 <= k < front.len() implies plain_word(#[trigger] front[k]) by {
            assert(front[k] == w[k]);
        }
        lemma_words_of_join(front);
        let spaced = join_seq(front, seq![' ']) + seq![' '];
        assert(spaced.drop_last() =~= join_seq(front, seq![' ']));
        assert(norm_words(spaced) == norm_words(join_seq(front, seq![' '])));
        assert(plain_word(w.last()));
        lemma_norm_words_append_word(spaced, w.last());
        assert(front.push(w.last()) =~= w);
    }
}

/// Normalizing a text that is already normalized changes nothing, and the
/// normalized text has the same tokens as the text it came from.
pub proof fn normalizing_twice_changes_nothing(s: Seq<char>)
    ensures
        spec_normalize_text(spec_normalize_text(s)) == spec_normalize_text(s),
        spec_token_set(spec_normalize_text(s)) == spec_token_set(s),
{
    lemma_norm_words_plain(s);
    lemma_words_of_join(norm_words(s));
}

/// The distinct words of a text, in ascending order.
pub fn tokenize(value: &str) -> (r: Vec<String>)
    ensures
        sorted_strict(views(r@)),
        views(r@).to_set() == spec_token_set(value@),
{
    let v = chars_of(value);
    let words = words_of(&v);
    let mut strings: Vec<String> = Vec::new();
    let mut i: usize = 0;
    while i < words.len()
        invariant
            i <= words.len(),
            strings@.len() == i,
            forall|k: int| 0 <= k < i ==> #[trigger] strings@[k]@ == norm_words(v@)[k],
            words@.len() == norm_words(v@).len(),
            forall|k: int| 0 <= k < words@.len() ==> #[trigger] words@[k]@ == norm_words(v@)[k],
        decreases words.len() - i,
    {
        strings.push(string_of(&words[i]));
        i = i + 1;
    }
    proof {
        assert(views(strings@) =~= norm_words(v@));
    }
    sorted_set_of(strings)
}

/// Keeps the characters after the last `/` (the whole text when there is none).
pub open spec fn after_last_slash(p: Seq<char>) -> Seq<char>
    decreases p.len(),
{
    if p.len() == 0 {
        p
    } else if p.last() == '/' {
        Seq::empty()
    } else {
        after_last_slash(p.drop_last()).push(p.last())
    }
}

/// Keeps the characters before the last `/` (nothing when there is none).
pub open spec fn before_last_slash(p: Seq<char>) -> Seq<char>
    decreases p.len(),
{
    if p.len() == 0 {
        p
    } else if p.last() == '/' {
        p.drop_last()
    } else {
        before_last_slash(p.drop_last())
    }
}

pub proof fn lemma_before_shorter(p: Seq<char>)
    requires
        p.len() > 0,
    ensures
        before_last_slash(p).len() < p.len(),
    decreases p.len(),
{
    if p.last() != '/' {
        assert(before_last_slash(p) == before_last_slash(p.drop_last()));
        if p.len() > 1 {
            lemma_before_shorter(p.drop_last());
        } else {
            assert(p.drop_last().len() == 0);
        }
    }
}

proof fn lemma_file_name_not_dotdot(p: Seq<char>)
    ensures
        spec_file_name(p) is Some ==> spec_file_name(p)->0 != seq!['.', '.'],
    decreases p.len(),
{
    if p.len() > 0 {
        if p.last() == '/' {
            lemma_file_name_not_dotdot(p.drop_last());
        } else if after_last_slash(p) == seq!['.'] {
            lemma_before_shorter(p);
            lemma_file_name_not_dotdot(before_last_slash(p));
        }
    }
}

/// The final component of a `/`-separated path, as `Path::file_name` finds it:
/// trailing separators and `.` components are skipped, and a final `..` has none.
pub open spec fn spec_file_name(p: Seq<char>) -> Option<Seq<char>>
    decreases p.len(),
{
    if p.len() == 0 {
        None
    } else if p.last() == '/' {
        spec_file_name(p.drop_last())
    } else {
        let seg = after_last_slash(p);
        if seg == seq!['.'] {
            proof {
                lemma_before_shorter(p);
            }
            spec_file_name(before_last_slash(p))
        } else if seg == seq!['.', '.'] {
            None
        } else {
            Some(seg)
        }
    }
}

/// The part of a file name before its last `.`, as `Path::file_stem` takes it:
/// a name without a dot, or whose only dot leads, is kept whole.
pub open spec fn spec_stem_of_name(name: Seq<char>) -> Seq<char> {
    if name == seq!['.', '.'] {
        name
    } else {
        let before = before_last_dot(name);
        if !name.contains('.') || before.len() == 0 {
            name
        } else {
            before
        }
    }
}

pub open spec fn before_last_dot(p: Seq<char>) -> Seq<char>
    decreases p.len(),
{
    if p.len() == 0 {
        p
    } else if p.last() == '.' {
        p.drop_last()
    } else {
        before_last_dot(p.drop_last())
    }
}

pub open spec fn spec_file_stem(p: Seq<char>) -> Option<Seq<char>> {
    match spec_file_name(p) {
        Some(name) => Some(spec_stem_of_name(name)),
        None => None,
    }
}

proof fn lemma_split_at_slash(p: Seq<char>, k: int)
    requires
        0 <= k <= p.len(),
        forall|j: int| k <= j < p.len() ==> p[j] != '/',
        k == 0 || p[k - 1] == '/',
    ensures
        after_last_slash(p) == p.subrange(k, p.len() as int),
        before_last_slash(p) == if k == 0 {
            Seq::<char>::empty()
        } else {
            p.take(k - 1)
        },
    decreases p.len(),
{
    if p.len() == 0 {
    } else if k == p.len() {
        assert(p.drop_last() =~= p.take(k - 1));
    } else {
        lemma_split_at_slash(p.drop_last(), k);
        assert(p.drop_last().subrange(k, p.len() - 1).push(p.last()) =~= p.subrange(
            k,
            p.len() as int,
        ));
        if k > 0 {
            assert(p.drop_last().take(k - 1) =~= p.take(k - 1));
        }
    }
}

/// The final component of a `/`-separated path.
pub fn file_name(path: &str) -> (r: Option<String>)
    ensures
        opt_view(r) == spec_file_name(path@),
{
    let v = chars_of(path);
    let mut end: usize = v.len();
    loop
        invariant
            end <= v.len(),
            v@ == path@,
            spec_file_name(v@) == spec_file_name(v@.take(end as int)),
        decreases end,
    {
        if end == 0 {
            proof {
                assert(v@.take(0) =~= Seq::<char>::empty());
            }
            return None;
        }
        let ghost p = v@.take(end as int);
        assert(p.len() == end);
        assert(p.last() == v@[end - 1]);
        if v[end - 1] == '/' {
            proof {
                assert(p.drop_last() =~= v@.take(end - 1));
            }
            end = end - 1;
            continue ;
        }
        let mut start: usize = end;
        while start > 0 && v[start - 1] != '/'
            invariant
                start <= end <= v.len(),
                forall|j: int| start <= j < end ==> v@[j] != '/',
            decreases start,
        {
            start = start - 1;
        }
        proof {
            assert forall|j: int| start <= j < p.len() implies p[j] != '/' by {
                assert(p[j] == v@[j]);
            }
            if start > 0 {
                assert(p[start - 1] == v@[start - 1]);
            }
            lemma_split_at_slash(p, start as int);
            assert(p.subrange(start as int, end as int) =~= v@.subrange(start as int, end as int));
            assert(after_last_slash(p) == v@.subrange(start as int, end as int));
        }
        let seg = vec_subrange(&v, start, end);
        if seg.len() == 1 && seg[0] == '.' {
            proof {
                assert(seg@ =~= seq!['.']);
            }
            if start == 0 {
                proof {
                    assert(spec_file_name(Seq::<char>::empty()) == None::<Seq<char>>);
                }
                return None;
            }
            proof {
                assert(p.take(start - 1) =~= v@.take(start - 1));
            }
            end = start - 1;
            continue ;
        }
        if seg.len() == 2 && seg[0] == '.' && seg[1] == '.' {
            proof {
                assert(seg@ =~= seq!['.', '.']);
            }
            return None;
        }
        proof {
            if seg@ == seq!['.'] {
                assert(seg@[0] == '.');
            }
            if seg@ == seq!['.', '.'] {
                assert(seg@[0] == '.' && seg@[1] == '.');
            }
        }
        return Some(string_of(&seg));
    }
}

proof fn lemma_split_at_dot(p: Seq<char>, k: int)
    requires
        0 <= k < p.len(),
        p[k] == '.',
        forall|j: int| k < j < p.len() ==> p[j] != '.',
    ensures
        before_last_dot(p) == p.take(k),
    decreases p.len(),
{
    if k == p.len() - 1 {
        assert(p.drop_last() =~= p.take(k));
    } else {
        lemma_split_at_dot(p.drop_last(), k);
        assert(p.drop_last().take(k) =~= p.take(k));
    }
}

/// The file name without its extension, as `Path::file_stem` gives it.
pub fn file_stem(path: &str) -> (r: Option<String>)
    ensures
        opt_view(r) == spec_file_stem(path@),
{
    let name = match file_name(path) {
        Some(name) => name,
        None => return None,
    };
    let v = chars_of(name.as_str());
    // position of the last dot
    let mut k: usize = v.len();
    while k > 0 && v[k - 1] != '.'
        invariant
            k <= v.len(),
            forall|j: int| k <= j < v.len() ==> v@[j] != '.',
        decreases k,
    {
        k = k - 1;
    }
    proof {
        lemma_file_name_not_dotdot(path@);
        assert(v@ == name@);
    }
    if k <= 1 {
        proof {
            if k == 1 {
                lemma_split_at_dot(v@, 0);
                assert(v@.take(0).len() == 0);
            } else {
                assert(!v@.contains('.'));
            }
        }
        return Some(name);
    }
    proof {
        lemma_split_at_dot(v@, k - 1);
        assert(v@.contains('.')) by {
            assert(v@[k - 1] == '.');
        }
    }
    Some(string_of(&vec_subrange(&v, 0, k - 1)))
}

/// The part of a file name after its last `.`, as `Path::extension` takes it: none
/// when the name has no dot or its only dot leads.
pub open spec fn spec_extension(p: Seq<char>) -> Option<Seq<char>> {
    match spec_file_name(p) {
        Some(name) => if !name.contains('.') || before_last_dot(name).len() == 0 {
            None
        } else {
            Some(name.subrange((before_last_dot(name).len() + 1) as int, name.len() as int))
        },
        None => None,
    }
}

/// The file name's extension, as `Path::extension` gives it.
pub fn extension(path: &str) -> (r: Option<String>)
    ensures
        opt_view(r) == spec_extension(path@),
{
    let name = match file_name(path) {
        Some(name) => name,
        None => return None,
    };
    let v = chars_of(name.as_str());
    let mut k: usize = v.len();
    while k > 0 && v[k - 1] != '.'
        invariant
            k <= v.len(),
            forall|j: int| k <= j < v.len() ==> v@[j] != '.',
        decreases k,
    {
        k = k - 1;
    }
    proof {
        assert(v@ == name@);
    }
    if k <= 1 {
        proof {
            if k == 1 {
                lemma_split_at_dot(v@, 0);
                assert(v@.take(0).len() == 0);
            } else {
                assert(!v@.contains('.'));
            }
        }
        return None;
    }
    proof {
        lemma_split_at_dot(v@, k - 1);
        assert(v@.contains('.')) by {
            assert(v@[k - 1] == '.');
        }
    }
    Some(string_of(&vec_subrange(&v, k, v.len())))
}

/// Normalized, non-empty entries of a text list in ascending order (repeats kept).
pub open spec fn normalized_nonempty(values: Seq<Seq<char>>) -> Seq<Seq<char>> {
    values.map_values(|s: Seq<char>| spec_normalize_text(s)).filter(|s: Seq<char>| s.len() > 0)
}

proof fn lemma_normalized_nonempty_push(values: Seq<Seq<char>>, x: Seq<char>)
    ensures
        normalized_nonempty(values.push(x)) == if spec_normalize_text(x).len() > 0 {
            normalized_nonempty(values).push(spec_normalize_text(x))
        } else {
            normalized_nonempty(values)
        },
{
    let f = |s: Seq<char>| spec_normalize_text(s);
    assert(values.push(x).map_values(f) =~= values.map_values(f).push(f(x)));
    values.map_values(f).lemma_filter_push(f(x), |s: Seq<char>| s.len() > 0);
}

/// Each entry normalized, empty results dropped; kept in input order.
fn normalize_nonempty(values: &Vec<String>) -> (r: Vec<String>)
    ensures
        views(r@) == normalized_nonempty(views(values@)),
{
    let mut r: Vec<String> = Vec::new();
    let mut i: usize = 0;
    while i < values.len()
        invariant
            i <= values.len(),
            views(r@) == normalized_nonempty(views(values@.take(i as int))),
        decreases values.len() - i,
    {
        let n = normalize_text(values[i].as_str());
        proof {
            assert(views(values@.take(i + 1)) =~= views(values@.take(i as int)).push(
                values@[i as int]@,
            ));
            lemma_normalized_nonempty_push(views(values@.take(i as int)), values@[i as int]@);
        }
        if !n.as_str().is_empty() {
            r.push(n);
        } else {
            proof {
                assert(n@.len() == 0);
            }
        }
        i = i + 1;
    }
    proof {
        assert(values@.take(values.len() as int) =~= values@);
    }
    r
}

/// Normalized, non-empty entries in ascending order, repeats kept.
pub fn normalize_text_list(values: &Vec<String>) -> (r: Vec<String>)
    ensures
        sorted(views(r@)),
        views(r@).to_multiset() == normalized_nonempty(views(values@)).to_multiset(),
{
    sort_strings(normalize_nonempty(values))
}

/// Normalized, non-empty entries as a sorted set.
pub fn normalize_text_set(values: &Vec<String>) -> (r: Vec<String>)
    ensures
        sorted_strict(views(r@)),
        views(r@).to_set() == normalized_nonempty(views(values@)).to_set(),
{
    sorted_set_of(normalize_nonempty(values))
}

/// The internal structure with every label list normalized and sorted.
pub open spec fn spec_normalized_structure(
    r: AssetInternalStructure,
    s: AssetInternalStructure,
) -> bool {
    &&& sorted(views(r.section_labels@))
    &&& views(r.section_labels@).to_multiset() == normalized_nonempty(
        views(s.section_labels@),
    ).to_multiset()
    &&& sorted(views(r.buffer_roles@))
    &&& views(r.buffer_roles@).to_multiset() == normalized_nonempty(
        views(s.buffer_roles@),
    ).to_multiset()
    &&& sorted(views(r.binding_targets@))
    &&& views(r.binding_targets@).to_multiset() == normalized_nonempty(
        views(s.binding_targets@),
    ).to_multiset()
    &&& sorted(views(r.subresource_roles@))
    &&& views(r.subresource_roles@).to_multiset() == normalized_nonempty(
        views(s.subresource_roles@),
    ).to_multiset()
    &&& r.has_skeleton == s.has_skeleton
    &&& r.has_shapekey_data == s.has_shapekey_data
}

pub fn normalize_internal_structure(structure: &AssetInternalStructure) -> (r:
    AssetInternalStructure)
    ensures
        spec_normalized_structure(r, *structure),
{
    AssetInternalStructure {
        section_labels: normalize_text_list(&structure.section_labels),
        buffer_roles: normalize_text_list(&structure.buffer_roles),
        binding_targets: normalize_text_list(&structure.binding_targets),
        subresource_roles: normalize_text_list(&structure.subresource_roles),
        has_skeleton: structure.has_skeleton,
        has_shapekey_data: structure.has_shapekey_data,
    }
}

/// The normalized signals of an asset record that matching and comparing use.
#[derive(Debug, Clone)]
pub struct AssetFingerprint {
    pub asset: AssetRecord,
    pub normalized_kind: Option<String>,
    pub normalized_name: Option<String>,
    pub name_tokens: Vec<String>,
    pub path_tokens: Vec<String>,
    pub tags: Vec<String>,
    pub vertex_count: Option<u32>,
    pub index_count: Option<u32>,
    pub material_slots: Option<u32>,
    pub section_count: Option<u32>,
    pub vertex_stride: Option<u32>,
    pub vertex_buffer_count: Option<u32>,
    pub index_format: Option<String>,
    pub primitive_topology: Option<String>,
    pub layout_markers: Vec<String>,
    pub internal_structure: AssetInternalStructure,
}

/// The name a record is known by: its logical name, else its file stem, else its id.
pub open spec fn spec_derived_name(asset: AssetRecord) -> Seq<char> {
    match asset.metadata.logical_name {
        Some(name) => name@,
        None => match spec_file_stem(asset.path@) {
            Some(stem) => stem,
            None => asset.id@,
        },
    }
}

/// The fingerprint fields as derived from the record, which the fingerprint carries.
pub open spec fn spec_fingerprint_of(fp: AssetFingerprint, asset: AssetRecord) -> bool {
    let name = spec_derived_name(asset);
    &&& fp.asset.same_as(&asset)
    &&& opt_view(fp.normalized_kind) == match asset.kind {
        Some(k) => Some(spec_normalize_text(k@)),
        None => None::<Seq<char>>,
    }
    &&& opt_view(fp.normalized_name) == Some(spec_normalize_text(name))
    &&& sorted_strict(views(fp.name_tokens@))
    &&& views(fp.name_tokens@).to_set() == spec_token_set(name)
    &&& sorted_strict(views(fp.path_tokens@))
    &&& views(fp.path_tokens@).to_set() == spec_token_set(asset.path@)
    &&& sorted_strict(views(fp.tags@))
    &&& views(fp.tags@).to_set() == normalized_nonempty(views(asset.metadata.tags@)).to_set()
    &&& fp.vertex_count == asset.metadata.vertex_count
    &&& fp.index_count == asset.metadata.index_count
    &&& fp.material_slots == asset.metadata.material_slots
    &&& fp.section_count == asset.metadata.section_count
    &&& fp.vertex_stride == asset.metadata.vertex_stride
    &&& fp.vertex_buffer_count == asset.metadata.vertex_buffer_count
    &&& opt_view(fp.index_format) == opt_view(asset.metadata.index_format)
    &&& opt_view(fp.primitive_topology) == opt_view(asset.metadata.primitive_topology)
    &&& sorted_strict(views(fp.layout_markers@))
    &&& views(fp.layout_markers@).to_set() == normalized_nonempty(
        views(asset.metadata.layout_markers@),
    ).to_set()
    &&& spec_normalized_structure(fp.internal_structure, asset.metadata.internal_structure)
}

pub trait Fingerprinter {
    fn fingerprint(&self, asset: &AssetRecord) -> (r: AssetFingerprint)
        ensures
            spec_fingerprint_of(r, *asset),
    ;
}

#[derive(Debug, Default, Clone)]
pub struct DefaultFingerprinter;

impl Fingerprinter for DefaultFingerprinter {
    fn fingerprint(&self, asset: &AssetRecord) -> (r: AssetFingerprint) {
        let derived_name: String = match &asset.metadata.logical_name {
            Some(name) => clone_string(name),
            None => match file_stem(asset.path.as_str()) {
                Some(stem) => stem,
                None => clone_string(&asset.id),
            },
        };
        let normalized_kind = match &asset.kind {
            Some(kind) => Some(normalize_text(kind.as_str())),
            None => None,
        };
        AssetFingerprint {
            asset: asset.copy(),
            normalized_kind,
            normalized_name: Some(normalize_text(derived_name.as_str())),
            name_tokens: tokenize(derived_name.as_str()),
            path_tokens: tokenize(asset.path.as_str()),
            tags: normalize_text_set(&asset.metadata.tags),
            vertex_count: asset.metadata.vertex_count,
            index_count: asset.metadata.index_count,
            material_slots: asset.metadata.material_slots,
            section_count: asset.metadata.section_count,
            vertex_stride: asset.metadata.vertex_stride,
            vertex_buffer_count: asset.metadata.vertex_buffer_count,
            index_format: clone_opt_string(&asset.metadata.index_format),
            primitive_topology: clone_opt_string(&asset.metadata.primitive_topology),
            layout_markers: normalize_text_set(&asset.metadata.layout_markers),
            internal_structure: normalize_internal_structure(&asset.metadata.internal_structure),
        }
    }
}


/// An asset with a logical name is known by it, whatever its path or id: the
/// fingerprint's normalized name is the normalized logical name and its name
/// tokens are the words of the logical name.
pub proof fn logical_name_names_the_asset(fp: AssetFingerprint, asset: AssetRecord)
    requires
        spec_fingerprint_of(fp, asset),
        asset.metadata.logical_name is Some,
    ensures
        opt_view(fp.normalized_name) == Some(spec_normalize_text(asset.metadata.logical_name->0@)),
        views(fp.name_tokens@).to_set() == norm_words(asset.metadata.logical_name->0@).to_set(),
{
}

/// Without a logical name, an asset whose path has a file stem is known by that
/// stem.
pub proof fn file_stem_names_an_unnamed_asset(fp: AssetFingerprint, asset: AssetRecord)
    requires
        spec_fingerprint_of(fp, asset),
        asset.metadata.logical_name is None,
        spec_file_stem(asset.path@) is Some,
    ensures
        opt_view(fp.normalized_name) == Some(spec_normalize_text(spec_file_stem(asset.path@)->0)),
        views(fp.name_tokens@).to_set() == norm_words(spec_file_stem(asset.path@)->0).to_set(),
{
}

/// An asset with neither a logical name nor a file stem is known by its id.
pub proof fn id_names_an_asset_without_name_or_stem(fp: AssetFingerprint, asset: AssetRecord)
    requires
        spec_fingerprint_of(fp, asset),
        asset.metadata.logical_name is None,
        spec_file_stem(asset.path@) is None,
    ensures
        opt_view(fp.normalized_name) == Some(spec_normalize_text(asset.id@)),
        views(fp.name_tokens@).to_set() == norm_words(asset.id@).to_set(),
{
}

} // verus!
