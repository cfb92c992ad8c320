//! Lexicographic order on text and the sorted string collections built on it.
//!
//! `String`'s `Ord` compares UTF-8 bytes, which orders strings exactly as
//! comparing their characters by code point does; `text_lt` is that order.
use vstd::prelude::*;
use crate::text::{chars_of, views};

verus! {

broadcast use vstd::seq_lib::group_seq_properties;

/// Strict lexicographic order on character sequences.
pub open spec fn text_lt(a: Seq<char>, b: Seq<char>) -> bool
    decreases a.len(),
{
    if a.len() == 0 {
        b.len() > 0
    } else if b.len() == 0 {
        false
    } else if a[0] < b[0] {
        true
    } else if a[0] == b[0] {
        text_lt(a.drop_first(), b.drop_first())
    } else {
        false
    }
}

pub open spec fn text_le(a: Seq<char>, b: Seq<char>) -> bool {
    text_lt(a, b) || a == b
}

/// Strictly ascending: a sorted set, as a `BTreeSet<String>` iterates.
pub open spec fn sorted_strict(s: Seq<Seq<char>>) -> bool {
    forall|i: int, j: int| 0 <= i < j < s.len() ==> text_lt(#[trigger] s[i], #[trigger] s[j])
}

/// Ascending with repeats allowed, as `sort` leaves a list.
pub open spec fn sorted(s: Seq<Seq<char>>) -> bool {
    forall|i: int, j: int| 0 <= i < j < s.len() ==> text_le(#[trigger] s[i], #[trigger] s[j])
}

pub proof fn lemma_lt_irreflexive(a: Seq<char>)
    ensures
        !text_lt(a, a),
    decreases a.len(),
{
    if a.len() > 0 {
        lemma_lt_irreflexive(a.drop_first());
    }
}

pub proof fn lemma_lt_asymmetric(a: Seq<char>, b: Seq<char>)
    requires
        text_lt(a, b),
    ensures
        !text_lt(b, a),
    decreases a.len(),
{
    if a.len() > 0 && b.len() > 0 && a[0] == b[0] {
        lemma_lt_asymmetric(a.drop_first(), b.drop_first());
    }
}

pub proof fn lemma_lt_transitive(a: Seq<char>, b: Seq<char>, c: Seq<char>)
    requires
        text_lt(a, b),
        text_lt(b, c),
    ensures
        text_lt(a, c),
    decreases a.len(),
{
    if a.len() > 0 && b.len() > 0 && c.len() > 0 && a[0] == b[0] && b[0] == c[0] {
        lemma_lt_transitive(a.drop_first(), b.drop_first(), c.drop_first());
    }
}

pub proof fn lemma_lt_total(a: Seq<char>, b: Seq<char>)
    ensures
        text_lt(a, b) || text_lt(b, a) || a == b,
    decreases a.len(),
{
    if a.len() > 0 && b.len() > 0 && a[0] == b[0] {
        lemma_lt_total(a.drop_first(), b.drop_first());
        if a.drop_first() == b.drop_first() {
            assert(a =~= seq![a[0]] + a.drop_first());
            assert(b =~= seq![b[0]] + b.drop_first());
        }
    } else if a.len() == 0 && b.len() == 0 {
        assert(a =~= b);
    }
}

/// Text order of two character vectors.
pub fn vec_lt(a: &Vec<char>, b: &Vec<char>) -> (r: bool)
    ensures
        r == text_lt(a@, b@),
{
    let mut i: usize = 0;
    while i < a.len() && i < b.len()
        invariant
            i <= a.len(),
            i <= b.len(),
            text_lt(a@, b@) == text_lt(a@.subrange(i as int, a.len() as int), b@.subrange(
                i as int,
                b.len() as int,
            )),
        decreases a.len() - i,
    {
        let ghost sa = a@.subrange(i as int, a.len() as int);
        let ghost sb = b@.subrange(i as int, b.len() as int);
        if a[i] < b[i] {
            return true;
        }
        if a[i] != b[i] {
            return false;
        }
        proof {
            assert(sa.drop_first() =~= a@.subrange(i + 1, a.len() as int));
            assert(sb.drop_first() =~= b@.subrange(i + 1, b.len() as int));
        }
        i = i + 1;
    }
    i < b.len()
}

/// Text order of two strings (`String`'s `<`).
pub fn string_lt(a: &String, b: &String) -> (r: bool)
    ensures
        r == text_lt(a@, b@),
{
    let va = chars_of(a.as_str());
    let vb = chars_of(b.as_str());
    vec_lt(&va, &vb)
}

/// Adds `x` to a strictly ascending list unless it is already there (`BTreeSet::insert`).
pub fn insert_unique_sorted(v: &mut Vec<String>, x: String)
    requires
        sorted_strict(views(old(v)@)),
    ensures
        sorted_strict(views(final(v)@)),
        views(final(v)@).to_set() == views(old(v)@).to_set().insert(x@),
{
    let ghost old_views = views(v@);
    let mut p: usize = 0;
    while p < v.len() && string_lt(&v[p], &x)
        invariant
            p <= v.len(),
            v@ == old(v)@,
            forall|k: int| 0 <= k < p ==> text_lt(#[trigger] views(v@)[k], x@),
        decreases v.len() - p,
    {
        p = p + 1;
    }
    if p < v.len() && string_lt(&x, &v[p]) == false {
        // neither smaller nor larger: equal
        proof {
            lemma_lt_total(v@[p as int]@, x@);
            assert(v@[p as int]@ == x@);
            assert(views(v@).to_set() =~= views(v@).to_set().insert(x@)) by {
                assert(views(v@)[p as int] == x@);
            }
        }
        return ;
    }
    proof {
        assert forall|k: int| p <= k < v.len() implies text_lt(x@, #[trigger] views(v@)[k]) by {
            if k > p {
                assert(text_lt(views(v@)[p as int], views(v@)[k]));
                lemma_lt_transitive(x@, views(v@)[p as int], views(v@)[k]);
            }
        }
    }
    let ghost xv = x@;
    v.insert(p, x);
    proof {
        assert(views(v@) =~= old_views.insert(p as int, xv));
        assert forall|i: int, j: int| 0 <= i < j < views(v@).len() implies text_lt(
            #[trigger] views(v@)[i],
            #[trigger] views(v@)[j],
        ) by {
            if j < p {
            } else if j == p {
            } else if i < p {
                lemma_lt_transitive(views(v@)[i], xv, views(v@)[j]);
            } else if i == p {
            } else {
                assert(views(v@)[i] == old_views[i - 1]);
                assert(views(v@)[j] == old_views[j - 1]);
            }
        }
        assert(views(v@).to_set() =~= old_views.to_set().insert(xv)) by {
            assert forall|e: Seq<char>| views(v@).contains(e) <==> old_views.to_set().insert(
                xv,
            ).contains(e) by {
                if views(v@).contains(e) {
                    let i = choose|i: int| 0 <= i < views(v@).len() && views(v@)[i] == e;
                    if i < p {
                        assert(old_views[i] == e);
                    } else if i > p {
                        assert(old_views[i - 1] == e);
                    }
                }
                if old_views.contains(e) {
                    let i = choose|i: int| 0 <= i < old_views.len() && old_views[i] == e;
                    if i < p {
                        assert(views(v@)[i] == e);
                    } else {
                        assert(views(v@)[i + 1] == e);
                    }
                }
            }
        }
    }
}

/// Adds `x` to an ascending list at its place among equals' end (one step of `sort`).
pub fn insert_sorted(v: &mut Vec<String>, x: String)
    requires
        sorted(views(old(v)@)),
    ensures
        sorted(views(final(v)@)),
        views(final(v)@).to_multiset() == views(old(v)@).to_multiset().insert(x@),
{
    let ghost old_views = views(v@);
    let mut p: usize = 0;
    while p < v.len() && !string_lt(&x, &v[p])
        invariant
            p <= v.len(),
            v@ == old(v)@,
            forall|k: int| 0 <= k < p ==> text_le(#[trigger] views(v@)[k], x@),
        decreases v.len() - p,
    {
        proof {
            lemma_lt_total(x@, v@[p as int]@);
        }
        p = p + 1;
    }
    proof {
        assert forall|k: int| p <= k < v.len() implies text_lt(x@, #[trigger] views(v@)[k]) by {
            if k > p {
                assert(text_le(views(v@)[p as int], views(v@)[k]));
                if views(v@)[p as int] != views(v@)[k] {
                    lemma_lt_transitive(x@, views(v@)[p as int], views(v@)[k]);
                }
            }
        }
    }
    let ghost xv = x@;
    v.insert(p, x);
    proof {
        assert(views(v@) =~= old_views.insert(p as int, xv));
        assert forall|i: int, j: int| 0 <= i < j < views(v@).len() implies text_le(
            #[trigger] views(v@)[i],
            #[trigger] views(v@)[j],
        ) by {
            if j < p {
            } else if j == p {
            } else if i < p {
                let a = views(v@)[i];
                let c = views(v@)[j];
                if a != xv {
                    lemma_lt_transitive(a, xv, c);
                }
            } else if i == p {
            } else {
                assert(views(v@)[i] == old_views[i - 1]);
                assert(views(v@)[j] == old_views[j - 1]);
            }
        }
        vstd::seq_lib::to_multiset_insert(old_views, p as int, xv);
    }
}

/// The strings in ascending order (`slice::sort_unstable` on `String`).
pub fn sort_strings(v: Vec<String>) -> (r: Vec<String>)
    ensures
        sorted(views(r@)),
        views(r@).to_multiset() == views(v@).to_multiset(),
{
    let mut r: Vec<String> = Vec::new();
    let mut i: usize = 0;
    let n = v.len();
    proof {
        assert(views(v@).take(0) =~= Seq::<Seq<char>>::empty());
    }
    for x in it: v
        invariant
            sorted(views(r@)),
            it.seq() == v@,
            views(r@).to_multiset() == views(v@.take(it.index() as int)).to_multiset(),
    {
        let ghost k = it.index();
        let ghost xv = x@;
        insert_sorted(&mut r, x);
        proof {
            assert(views(v@.take(k + 1)) =~= views(v@.take(k as int)).push(xv));
        }
    }
    proof {
        assert(v@.take(v@.len() as int) =~= v@);
    }
    r
}

/// The distinct strings in ascending order (`collect::<BTreeSet<String>>`).
pub fn sorted_set_of(v: Vec<String>) -> (r: Vec<String>)
    ensures
        sorted_strict(views(r@)),
        views(r@).to_set() == views(v@).to_set(),
{
    let mut r: Vec<String> = Vec::new();
    proof {
        assert(views(r@).to_set() =~= Set::<Seq<char>>::empty());
        assert(views(v@.take(0)).to_set() =~= Set::<Seq<char>>::empty());
    }
    for x in it: v
        invariant
            sorted_strict(views(r@)),
            it.seq() == v@,
            views(r@).to_set() == views(v@.take(it.index() as int)).to_set(),
    {
        let ghost k = it.index();
        let ghost xv = x@;
        insert_unique_sorted(&mut r, x);
        proof {
            assert(views(v@.take(k + 1)) =~= views(v@.take(k as int)).push(xv));
            assert(views(v@.take(k + 1)).to_set() =~= views(v@.take(k as int)).to_set().insert(
                xv,
            ));
        }
    }
    proof {
        assert(v@.take(v@.len() as int) =~= v@);
    }
    r
}

/// Whether the strictly ascending list holds `x` (`BTreeSet::contains`).
pub fn sorted_contains(v: &Vec<String>, x: &String) -> (r: bool)
    ensures
        r == views(v@).contains(x@),
{
    let mut i: usize = 0;
    while i < v.len()
        invariant
            i <= v.len(),
            forall|k: int| 0 <= k < i ==> views(v@)[k] != x@,
        decreases v.len() - i,
    {
        if v[i] == *x {
            proof {
                assert(views(v@)[i as int] == x@);
            }
            return true;
        }
        i = i + 1;
    }
    false
}

// ---------------------------------------------------------------------------
// Sorted sequences of a set
// ---------------------------------------------------------------------------

pub proof fn lemma_sorted_no_duplicates(s: Seq<Seq<char>>)
    requires
        sorted_strict(s),
    ensures
        s.no_duplicates(),
{
    assert forall|i: int, j: int| 0 <= i < s.len() && 0 <= j < s.len() && i != j implies s[i]
        != s[j] by {
        if i < j {
            assert(text_lt(s[i], s[j]));
        } else {
            assert(text_lt(s[j], s[i]));
        }
        if s[i] == s[j] {
            lemma_lt_irreflexive(s[i]);
        }
    }
}

pub proof fn lemma_sorted_unique(a: Seq<Seq<char>>, b: Seq<Seq<char>>)
    requires
        sorted_strict(a),
        sorted_strict(b),
        a.to_set() == b.to_set(),
    ensures
        a == b,
    decreases a.len(),
{
    if a.len() == 0 {
        if b.len() > 0 {
            assert(b.to_set().contains(b[0]));
        }
        assert(a =~= b);
    } else {
        assert(a.to_set().contains(a[0]));
        assert(b.len() > 0);
        assert(b.to_set().contains(b[0]));
        let k = choose|k: int| 0 <= k < b.len() && b[k] == a[0];
        let m = choose|m: int| 0 <= m < a.len() && a[m] == b[0];
        if k > 0 {
            assert(text_lt(b[0], b[k]));
            if m > 0 {
                assert(text_lt(a[0], a[m]));
                lemma_lt_transitive(a[0], b[0], a[0]);
                lemma_lt_irreflexive(a[0]);
            } else {
                lemma_lt_irreflexive(a[0]);
            }
        }
        assert(a[0] == b[0]);
        lemma_sorted_no_duplicates(a);
        lemma_sorted_no_duplicates(b);
        let a1 = a.drop_first();
        let b1 = b.drop_first();
        assert(sorted_strict(a1)) by {
            assert forall|i: int, j: int| 0 <= i < j < a1.len() implies text_lt(
                #[trigger] a1[i],
                #[trigger] a1[j],
            ) by {
                assert(a1[i] == a[i + 1] && a1[j] == a[j + 1]);
            }
        }
        assert(sorted_strict(b1)) by {
            assert forall|i: int, j: int| 0 <= i < j < b1.len() implies text_lt(
                #[trigger] b1[i],
                #[trigger] b1[j],
            ) by {
                assert(b1[i] == b[i + 1] && b1[j] == b[j + 1]);
            }
        }
        assert(a1.to_set() =~= b1.to_set()) by {
            assert forall|x: Seq<char>| a1.to_set().contains(x) <==> b1.to_set().contains(x) by {
                if a1.to_set().contains(x) {
                    let i = choose|i: int| 0 <= i < a1.len() && a1[i] == x;
                    assert(a[i + 1] == x);
                    assert(x != a[0]);
                    assert(b.to_set().contains(x));
                    let j = choose|j: int| 0 <= j < b.len() && b[j] == x;
                    assert(j != 0);
                    assert(b1[j - 1] == x);
                }
                if b1.to_set().contains(x) {
                    let i = choose|i: int| 0 <= i < b1.len() && b1[i] == x;
                    assert(b[i + 1] == x);
                    assert(x != b[0]);
                    assert(a.to_set().contains(x));
                    let j = choose|j: int| 0 <= j < a.len() && a[j] == x;
                    assert(j != 0);
                    assert(a1[j - 1] == x);
                }
            }
        }
        lemma_sorted_unique(a1, b1);
        assert(a =~= seq![a[0]] + a1);
        assert(b =~= seq![b[0]] + b1);
    }
}

/// The members of a finite set of texts in ascending order.
pub open spec fn ascending(s: Set<Seq<char>>) -> Seq<Seq<char>> {
    choose|q: Seq<Seq<char>>| sorted_strict(q) && q.to_set() == s
}

pub proof fn lemma_ascending_is(q: Seq<Seq<char>>, s: Set<Seq<char>>)
    requires
        sorted_strict(q),
        q.to_set() == s,
    ensures
        ascending(s) == q,
{
    let c = ascending(s);
    assert(sorted_strict(c) && c.to_set() == s);
    lemma_sorted_unique(c, q);
}

pub proof fn lemma_singleton_of(v: Seq<Seq<char>>, s: Set<Seq<char>>)
    requires
        sorted_strict(v),
        v.to_set() == s,
    ensures
        s.len() == v.len(),
        v.len() == 1 ==> s.choose() == v[0],
{
    lemma_sorted_no_duplicates(v);
    v.unique_seq_to_set();
    if v.len() == 1 {
        assert(s.contains(v[0]));
        assert(s.contains(s.choose()));
    }
}


/// `q` with `x` put in its place among texts smaller and larger than it.
pub open spec fn placed(q: Seq<Seq<char>>, x: Seq<char>) -> Seq<Seq<char>>
    decreases q.len(),
{
    if q.len() == 0 {
        seq![x]
    } else if text_lt(q.last(), x) {
        q.push(x)
    } else {
        placed(q.drop_last(), x).push(q.last())
    }
}

proof fn lemma_placed(q: Seq<Seq<char>>, x: Seq<char>)
    requires
        sorted_strict(q),
        !q.contains(x),
    ensures
        sorted_strict(placed(q, x)),
        placed(q, x).to_set() == q.to_set().insert(x),
    decreases q.len(),
{
    if q.len() == 0 {
        assert(placed(q, x).to_set() =~= q.to_set().insert(x));
    } else if text_lt(q.last(), x) {
        let r = q.push(x);
        assert forall|i: int, j: int| 0 <= i < j < r.len() implies text_lt(
            #[trigger] r[i],
            #[trigger] r[j],
        ) by {
            if j == q.len() && i < q.len() - 1 {
                lemma_lt_transitive(q[i], q.last(), x);
            }
        }
        assert(r.to_set() =~= q.to_set().insert(x));
    } else {
        let init = q.drop_last();
        let last = q.last();
        lemma_placed(init, x);
        let m = placed(init, x);
        lemma_lt_total(last, x);
        assert(text_lt(x, last));
        assert forall|e: Seq<char>| m.contains(e) implies text_lt(e, last) by {
            assert(m.to_set().contains(e));
            if e != x {
                assert(init.to_set().contains(e));
                let k = choose|k: int| 0 <= k < init.len() && init[k] == e;
                assert(q[k] == e);
            }
        }
        let r = m.push(last);
        assert forall|i: int, j: int| 0 <= i < j < r.len() implies text_lt(
            #[trigger] r[i],
            #[trigger] r[j],
        ) by {
            if j == m.len() {
                assert(m.contains(m[i]));
            }
        }
        assert(q =~= init.push(last));
        assert forall|e: Seq<char>| r.contains(e) <==> m.contains(e) || e == last by {
            if r.contains(e) {
                let k = choose|k: int| 0 <= k < r.len() && r[k] == e;
                if k < m.len() {
                    assert(m[k] == e);
                }
            }
            if m.contains(e) {
                let k = choose|k: int| 0 <= k < m.len() && m[k] == e;
                assert(r[k] == e);
            }
            if e == last {
                assert(r[m.len() as int] == e);
            }
        }
        assert forall|e: Seq<char>| q.contains(e) <==> init.contains(e) || e == last by {
            if q.contains(e) {
                let k = choose|k: int| 0 <= k < q.len() && q[k] == e;
                if k < init.len() {
                    assert(init[k] == e);
                }
            }
            if init.contains(e) {
                let k = choose|k: int| 0 <= k < init.len() && init[k] == e;
                assert(q[k] == e);
            }
            if e == last {
                assert(q[init.len() as int] == e);
            }
        }
        assert forall|e: Seq<char>| #[trigger] r.to_set().contains(e) <==> q.to_set().insert(
            x,
        ).contains(e) by {
            assert(m.to_set().contains(e) <==> init.to_set().insert(x).contains(e));
        }
        assert(r.to_set() =~= q.to_set().insert(x));
    }
}

/// Every finite set of texts has its ascending listing.
pub proof fn lemma_ascending_exists(s: Set<Seq<char>>)
    requires
        s.finite(),
    ensures
        sorted_strict(ascending(s)),
        ascending(s).to_set() == s,
    decreases s.len(),
{
    if s.len() == 0 {
        let q = Seq::<Seq<char>>::empty();
        assert(q.to_set() =~= s);
        lemma_ascending_is(q, s);
    } else {
        let x = s.choose();
        let rest = s.remove(x);
        lemma_ascending_exists(rest);
        let q = ascending(rest);
        assert(!q.contains(x)) by {
            if q.contains(x) {
                assert(q.to_set().contains(x));
            }
        }
        lemma_placed(q, x);
        assert(placed(q, x).to_set() =~= s);
        lemma_ascending_is(placed(q, x), s);
    }
}

// ---------------------------------------------------------------------------
// Stable ordering by a review order
// ---------------------------------------------------------------------------

/// A strict "comes first" relation between items of one kind, as a review list
/// orders them.
pub trait ReviewOrder: Sized {
    spec fn goes_before(&self, other: &Self) -> bool;

    fn before(&self, other: &Self) -> (r: bool)
        ensures
            r == self.goes_before(other),
    ;
}

/// Where `x` goes into `t`: in front of the first item it comes before, else at the end.
pub open spec fn insert_pos<T: ReviewOrder>(t: Seq<T>, x: T) -> nat
    decreases t.len(),
{
    if t.len() == 0 {
        0
    } else if x.goes_before(&t[0]) {
        0
    } else {
        1 + insert_pos(t.drop_first(), x)
    }
}

/// The items stably ordered: each is placed, in turn, in front of the first item
/// already placed that it comes before; items that tie keep their order.
pub open spec fn stable_sort<T: ReviewOrder>(s: Seq<T>) -> Seq<T>
    decreases s.len(),
{
    if s.len() == 0 {
        s
    } else {
        let t = stable_sort(s.drop_last());
        t.insert(insert_pos(t, s.last()) as int, s.last())
    }
}

/// The items that the indices pick, in the indices' order.
pub open spec fn picked<T>(items: Seq<T>, idx: Seq<usize>) -> Seq<T> {
    idx.map_values(|i: usize| items[i as int])
}

proof fn lemma_insert_pos<T: ReviewOrder>(t: Seq<T>, x: T, j: int)
    requires
        0 <= j <= t.len(),
        forall|k: int| 0 <= k < j ==> !x.goes_before(&#[trigger] t[k]),
        j == t.len() || x.goes_before(&t[j]),
    ensures
        insert_pos(t, x) == j,
    decreases j,
{
    if j > 0 {
        assert(!x.goes_before(&t[0]));
        let d = t.drop_first();
        assert forall|k: int| 0 <= k < j - 1 implies !x.goes_before(&#[trigger] d[k]) by {
            assert(d[k] == t[k + 1]);
        }
        if j < t.len() {
            assert(d[j - 1] == t[j]);
        }
        lemma_insert_pos(d, x, j - 1);
    }
}

/// The positions `sel` picks out of `items`, put in stable review order.
pub fn stable_order<T: ReviewOrder>(items: &Vec<T>, sel: &Vec<usize>) -> (r: Vec<usize>)
    requires
        forall|k: int| 0 <= k < sel@.len() ==> #[trigger] sel@[k] < items@.len(),
    ensures
        forall|k: int| 0 <= k < r@.len() ==> #[trigger] r@[k] < items@.len(),
        picked(items@, r@) == stable_sort(picked(items@, sel@)),
{
    let ghost s = picked(items@, sel@);
    let mut out: Vec<usize> = Vec::new();
    let mut i: usize = 0;
    proof {
        assert(s.take(0) =~= Seq::<T>::empty());
        assert(picked(items@, out@) =~= Seq::<T>::empty());
    }
    while i < sel.len()
        invariant
            i <= sel@.len(),
            s == picked(items@, sel@),
            forall|k: int| 0 <= k < sel@.len() ==> #[trigger] sel@[k] < items@.len(),
            forall|k: int| 0 <= k < out@.len() ==> #[trigger] out@[k] < items@.len(),
            picked(items@, out@) == stable_sort(s.take(i as int)),
        decreases sel.len() - i,
    {
        let ghost t = picked(items@, out@);
        let x = sel[i];
        let mut j: usize = 0;
        while j < out.len() && !items[x].before(&items[out[j]])
            invariant
                x < items@.len(),
                j <= out@.len(),
                t == picked(items@, out@),
                forall|k: int| 0 <= k < out@.len() ==> #[trigger] out@[k] < items@.len(),
                forall|k: int| 0 <= k < j ==> !items@[x as int].goes_before(&#[trigger] t[k]),
            decreases out.len() - j,
        {
            j = j + 1;
        }
        proof {
            lemma_insert_pos(t, items@[x as int], j as int);
            assert(s.take(i + 1).drop_last() =~= s.take(i as int));
            assert(s.take(i + 1).last() == items@[x as int]);
        }
        out.insert(j, x);
        proof {
            assert(picked(items@, out@) =~= t.insert(j as int, items@[x as int]));
        }
        i = i + 1;
    }
    proof {
        assert(s.take(sel@.len() as int) =~= s);
    }
    out
}

/// The positions `0..n`, in order.
pub fn all_positions(n: usize) -> (r: Vec<usize>)
    ensures
        r@.len() == n,
        forall|k: int| 0 <= k < n ==> #[trigger] r@[k] == k,
{
    let mut out: Vec<usize> = Vec::new();
    let mut i: usize = 0;
    while i < n
        invariant
            i <= n,
            out@.len() == i,
            forall|k: int| 0 <= k < i ==> #[trigger] out@[k] == k,
        decreases n - i,
    {
        out.push(i);
        i = i + 1;
    }
    out
}


// ---------------------------------------------------------------------------
// Stable ordering by a rank, items moved rather than picked
// ---------------------------------------------------------------------------

/// Where `x` goes into `t` under `before`: in front of the first item it comes
/// before, else at the end.
pub open spec fn insert_pos_by<T>(t: Seq<T>, x: T, before: spec_fn(T, T) -> bool) -> nat
    decreases t.len(),
{
    if t.len() == 0 {
        0
    } else if before(x, t[0]) {
        0
    } else {
        1 + insert_pos_by(t.drop_first(), x, before)
    }
}

/// The items stably sorted by `before`: each is placed, in turn, in front of the
/// first item already placed that it comes before; items that tie keep their order.
pub open spec fn sort_by<T>(s: Seq<T>, before: spec_fn(T, T) -> bool) -> Seq<T>
    decreases s.len(),
{
    if s.len() == 0 {
        s
    } else {
        let t = sort_by(s.drop_last(), before);
        t.insert(insert_pos_by(t, s.last(), before) as int, s.last())
    }
}

/// A strict "ranks higher" relation, as a report orders its findings.
pub trait RankOrder: Sized {
    spec fn ranks_before(self, other: Self) -> bool;

    fn ranks_first(&self, other: &Self) -> (r: bool)
        ensures
            r == self.ranks_before(*other),
    ;
}

pub open spec fn rank_rel<T: RankOrder>() -> spec_fn(T, T) -> bool {
    |a: T, b: T| a.ranks_before(b)
}

proof fn lemma_insert_pos_by<T>(t: Seq<T>, x: T, before: spec_fn(T, T) -> bool, j: int)
    requires
        0 <= j <= t.len(),
        forall|k: int| 0 <= k < j ==> !before(x, #[trigger] t[k]),
        j == t.len() || before(x, t[j]),
    ensures
        insert_pos_by(t, x, before) == j,
    decreases j,
{
    if j > 0 {
        assert(!before(x, t[0]));
        let d = t.drop_first();
        assert forall|k: int| 0 <= k < j - 1 implies !before(x, #[trigger] d[k]) by {
            assert(d[k] == t[k + 1]);
        }
        if j < t.len() {
            assert(d[j - 1] == t[j]);
        }
        lemma_insert_pos_by(d, x, before, j - 1);
    }
}

/// The items, stably sorted by their rank.
pub fn rank_sort<T: RankOrder>(items: Vec<T>) -> (r: Vec<T>)
    ensures
        r@ == sort_by(items@, rank_rel::<T>()),
{
    let ghost s = items@;
    let ghost rel = rank_rel::<T>();
    let mut rest = items;
    let mut out: Vec<T> = Vec::new();
    let mut i: usize = 0;
    proof {
        assert(s.take(0) =~= Seq::<T>::empty());
        assert(rest@ =~= s.skip(0));
        assert(s.len() == rest.len());
    }
    while rest.len() > 0
        invariant
            i <= s.len() <= usize::MAX,
            rest@ == s.skip(i as int),
            out@ == sort_by(s.take(i as int), rel),
            rel == rank_rel::<T>(),
        decreases rest.len(),
    {
        let x = rest.remove(0);
        let ghost t = out@;
        let mut j: usize = 0;
        while j < out.len() && !x.ranks_first(&out[j])
            invariant
                j <= out@.len(),
                t == out@,
                rel == rank_rel::<T>(),
                forall|k: int| 0 <= k < j ==> !rel(x, #[trigger] t[k]),
            decreases out.len() - j,
        {
            j = j + 1;
        }
        proof {
            lemma_insert_pos_by(t, x, rel, j as int);
            assert(x == s[i as int]);
            assert(s.take(i + 1).drop_last() =~= s.take(i as int));
            assert(s.take(i + 1).last() == x);
            assert(rest@ =~= s.skip(i + 1));
        }
        out.insert(j, x);
        i = i + 1;
    }
    proof {
        assert(s.take(i as int) =~= s);
    }
    out
}

/// Sorting commutes with a map that keeps the order: ranking the images equals
/// imaging the ranked items.
pub proof fn lemma_sort_by_map<A, B>(
    s: Seq<A>,
    f: spec_fn(A) -> B,
    ba: spec_fn(A, A) -> bool,
    bb: spec_fn(B, B) -> bool,
)
    requires
        forall|x: A, y: A| #[trigger] ba(x, y) == bb(f(x), f(y)),
    ensures
        sort_by(s, ba).map_values(f) == sort_by(s.map_values(f), bb),
        sort_by(s, ba).len() == s.len(),
    decreases s.len(),
{
    if s.len() > 0 {
        let t = sort_by(s.drop_last(), ba);
        lemma_sort_by_map(s.drop_last(), f, ba, bb);
        assert(s.map_values(f).drop_last() =~= s.drop_last().map_values(f));
        lemma_insert_pos_map(t, s.last(), f, ba, bb);
        let p = insert_pos_by(t, s.last(), ba) as int;
        assert(t.insert(p, s.last()).map_values(f) =~= t.map_values(f).insert(p, f(s.last())));
    }
}

proof fn lemma_insert_pos_map<A, B>(
    t: Seq<A>,
    x: A,
    f: spec_fn(A) -> B,
    ba: spec_fn(A, A) -> bool,
    bb: spec_fn(B, B) -> bool,
)
    requires
        forall|x: A, y: A| #[trigger] ba(x, y) == bb(f(x), f(y)),
    ensures
        insert_pos_by(t, x, ba) == insert_pos_by(t.map_values(f), f(x), bb),
        insert_pos_by(t, x, ba) <= t.len(),
    decreases t.len(),
{
    if t.len() > 0 {
        assert(ba(x, t[0]) == bb(f(x), f(t[0])));
        assert(t.map_values(f).drop_first() =~= t.drop_first().map_values(f));
        lemma_insert_pos_map(t.drop_first(), x, f, ba, bb);
    }
}

/// An insertion-ordered sequence under a transitive relation is ordered: no item
/// comes before one placed ahead of it.
pub proof fn lemma_sort_by_ordered<T>(s: Seq<T>, before: spec_fn(T, T) -> bool)
    requires
        forall|a: T| !#[trigger] before(a, a),
        forall|a: T, b: T, c: T|
            #[trigger] before(a, b) && #[trigger] before(b, c) ==> before(a, c),
    ensures
        forall|i: int, j: int|
            0 <= i < j < sort_by(s, before).len() ==> !before(
                #[trigger] sort_by(s, before)[j],
                #[trigger] sort_by(s, before)[i],
            ),
        sort_by(s, before).len() == s.len(),
    decreases s.len(),
{
    if s.len() > 0 {
        let t = sort_by(s.drop_last(), before);
        let x = s.last();
        lemma_sort_by_ordered(s.drop_last(), before);
        lemma_insert_pos_by_props(t, x, before);
        let p = insert_pos_by(t, x, before) as int;
        let u = t.insert(p, x);
        assert forall|i: int, j: int| 0 <= i < j < u.len() implies !before(#[trigger] u[j], #[trigger] u[i]) by {
            if j < p {
                assert(u[i] == t[i] && u[j] == t[j]);
            } else if j == p {
                assert(u[i] == t[i]);
            } else if i == p {
                assert(u[i] == x);
                assert(u[j] == t[j - 1]);
                assert(p < t.len());
                if before(t[j - 1], x) {
                    assert(before(x, t[p]));
                    assert(before(t[j - 1], t[p]));
                    if p < j - 1 {
                        assert(!before(t[j - 1], t[p]));
                    } else {
                        assert(!before(t[p], t[p]));
                    }
                }
            } else if i < p {
                assert(u[i] == t[i] && u[j] == t[j - 1]);
            } else {
                assert(u[i] == t[i - 1] && u[j] == t[j - 1]);
            }
        }
    }
}

proof fn lemma_insert_pos_by_props<T>(t: Seq<T>, x: T, before: spec_fn(T, T) -> bool)
    ensures
        insert_pos_by(t, x, before) <= t.len(),
        forall|k: int| 0 <= k < insert_pos_by(t, x, before) ==> !before(x, #[trigger] t[k]),
        insert_pos_by(t, x, before) < t.len() ==> before(x, t[insert_pos_by(t, x, before) as int]),
    decreases t.len(),
{
    if t.len() > 0 && !before(x, t[0]) {
        let d = t.drop_first();
        lemma_insert_pos_by_props(d, x, before);
        assert forall|k: int| 0 <= k < insert_pos_by(t, x, before) implies !before(x, #[trigger] t[k]) by {
            if k > 0 {
                assert(t[k] == d[k - 1]);
            }
        }
        if insert_pos_by(t, x, before) < t.len() {
            assert(t[insert_pos_by(t, x, before) as int] == d[insert_pos_by(d, x, before) as int]);
        }
    }
}

/// Sorting only reorders: every item of the sorted sequence is an item of `s`.
pub proof fn lemma_sort_by_members<T>(s: Seq<T>, before: spec_fn(T, T) -> bool)
    ensures
        forall|i: int|
            0 <= i < sort_by(s, before).len() ==> exists|j: int| 0 <= j < s.len() && #[trigger] sort_by(s, before)[i] == s[j],
    decreases s.len(),
{
    if s.len() > 0 {
        let d = s.drop_last();
        let t = sort_by(d, before);
        lemma_sort_by_members(d, before);
        lemma_insert_pos_by_props(t, s.last(), before);
        let p = insert_pos_by(t, s.last(), before) as int;
        assert forall|i: int| 0 <= i < sort_by(s, before).len() implies exists|j: int|
            0 <= j < s.len() && #[trigger] sort_by(s, before)[i] == s[j] by {
            let u = sort_by(s, before);
            if i < p {
                assert(u[i] == t[i]);
                let j = choose|j: int| 0 <= j < d.len() && t[i] == d[j];
                assert(d[j] == s[j]);
            } else if i == p {
                assert(u[i] == s[s.len() - 1]);
            } else {
                assert(u[i] == t[i - 1]);
                let j = choose|j: int| 0 <= j < d.len() && t[i - 1] == d[j];
                assert(d[j] == s[j]);
            }
        }
    }
}

proof fn lemma_insert_pos_props<T: ReviewOrder>(t: Seq<T>, x: T)
    ensures
        insert_pos(t, x) <= t.len(),
        forall|k: int| #![trigger t[k]] 0 <= k < insert_pos(t, x) ==> !x.goes_before(&t[k]),
        insert_pos(t, x) < t.len() ==> x.goes_before(&t[insert_pos(t, x) as int]),
    decreases t.len(),
{
    if t.len() > 0 && !x.goes_before(&t[0]) {
        let d = t.drop_first();
        lemma_insert_pos_props(d, x);
        assert forall|k: int| #![trigger t[k]] 0 <= k < insert_pos(t, x) implies !x.goes_before(&t[k]) by {
            if k > 0 {
                assert(t[k] == d[k - 1]);
            }
        }
        if insert_pos(t, x) < t.len() {
            assert(t[insert_pos(t, x) as int] == d[insert_pos(d, x) as int]);
        }
    }
}

/// A stable review order under a strict, transitive relation is ordered: no item
/// comes before one placed ahead of it.
pub proof fn lemma_stable_sort_ordered<T: ReviewOrder>(s: Seq<T>)
    requires
        forall|a: T| !#[trigger] a.goes_before(&a),
        forall|a: T, b: T, c: T|
            #[trigger] a.goes_before(&b) && #[trigger] b.goes_before(&c) ==> a.goes_before(&c),
    ensures
        stable_sort(s).len() == s.len(),
        forall|i: int, j: int|
            #![trigger stable_sort(s)[i], stable_sort(s)[j]]
            0 <= i < j < stable_sort(s).len() ==> !stable_sort(s)[j].goes_before(&stable_sort(s)[i]),
    decreases s.len(),
{
    if s.len() > 0 {
        let t = stable_sort(s.drop_last());
        let x = s.last();
        lemma_stable_sort_ordered(s.drop_last());
        lemma_insert_pos_props(t, x);
        let p = insert_pos(t, x) as int;
        let u = t.insert(p, x);
        assert forall|i: int, j: int|
            #![trigger u[i], u[j]]
            0 <= i < j < u.len() implies !u[j].goes_before(&u[i]) by {
            if j < p {
                assert(u[i] == t[i] && u[j] == t[j]);
            } else if j == p {
                assert(u[i] == t[i]);
            } else if i == p {
                assert(u[i] == x);
                assert(u[j] == t[j - 1]);
                if t[j - 1].goes_before(&x) {
                    assert(x.goes_before(&t[p]));
                    assert(t[j - 1].goes_before(&t[p]));
                    if p < j - 1 {
                        assert(!t[j - 1].goes_before(&t[p]));
                    } else {
                        assert(!t[p].goes_before(&t[p]));
                    }
                }
            } else if i < p {
                assert(u[i] == t[i] && u[j] == t[j - 1]);
            } else {
                assert(u[i] == t[i - 1] && u[j] == t[j - 1]);
            }
        }
    }
}

} // verus!
