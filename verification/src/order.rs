//! The ordering of strings (`Ord` for `String`) and a sort of string lists.
//!
//! `String` compares its UTF-8 bytes lexicographically; UTF-8 preserves the
//! order of code points, so the order below compares characters by code point.

use vstd::prelude::*;
use vstd::string::*;
use crate::text::texts;

verus! {

/// `a < b` in the order of `String`.
pub open spec fn text_less(a: Seq<char>, b: Seq<char>) -> bool
    decreases a.len(),
{
    if a.len() == 0 {
        b.len() > 0
    } else if b.len() == 0 {
        false
    } else if a[0] != b[0] {
        (a[0] as int) < (b[0] as int)
    } else {
        text_less(a.drop_first(), b.drop_first())
    }
}

/// No text is below itself.
pub proof fn lemma_text_less_irreflexive(a: Seq<char>)
    ensures
        !text_less(a, a),
    decreases a.len(),
{
    if a.len() > 0 {
        lemma_text_less_irreflexive(a.drop_first());
    }
}

/// Two different texts are ordered one way or the other, never both.
pub proof fn lemma_text_less_total(a: Seq<char>, b: Seq<char>)
    ensures
        a != b ==> (text_less(a, b) || text_less(b, a)),
        !(text_less(a, b) && text_less(b, a)),
    decreases a.len(),
{
    if a.len() > 0 && b.len() > 0 {
        if a[0] == b[0] {
            lemma_text_less_total(a.drop_first(), b.drop_first());
            if a.drop_first() == b.drop_first() {
                assert(a =~= seq![a[0]] + a.drop_first());
                assert(b =~= seq![b[0]] + b.drop_first());
            }
        }
    } else if a.len() == 0 && b.len() == 0 {
        assert(a =~= b);
    }
}

/// The order is transitive.
pub proof fn lemma_text_less_transitive(a: Seq<char>, b: Seq<char>, c: Seq<char>)
    requires
        text_less(a, b),
        text_less(b, c),
    ensures
        text_less(a, c),
    decreases a.len(),
{
    if a.len() > 0 && b.len() > 0 && c.len() > 0 {
        if a[0] == b[0] && b[0] == c[0] {
            lemma_text_less_transitive(a.drop_first(), b.drop_first(), c.drop_first());
        }
    }
}

/// `a <= b`.
pub open spec fn text_le(a: Seq<char>, b: Seq<char>) -> bool {
    !text_less(b, a)
}

/// Every element is at most every later one.
pub open spec fn is_sorted(s: Seq<Seq<char>>) -> bool {
    forall|i: int, j: int| 0 <= i < j < s.len() ==> text_le(#[trigger] s[i], #[trigger] s[j])
}

/// `x` inserted after the elements of the sorted `s` that are not above it.
pub open spec fn insert_text(x: Seq<char>, s: Seq<Seq<char>>) -> Seq<Seq<char>>
    decreases s.len(),
{
    if s.len() == 0 {
        seq![x]
    } else if text_less(x, s[0]) {
        seq![x] + s
    } else {
        seq![s[0]] + insert_text(x, s.drop_first())
    }
}

/// The elements of `s` in ascending order (a stable insertion sort).
pub open spec fn sort_texts(s: Seq<Seq<char>>) -> Seq<Seq<char>>
    decreases s.len(),
{
    if s.len() == 0 {
        seq![]
    } else {
        insert_text(s.last(), sort_texts(s.drop_last()))
    }
}

proof fn lemma_insert_text_facts(x: Seq<char>, s: Seq<Seq<char>>)
    requires
        is_sorted(s),
    ensures
        is_sorted(insert_text(x, s)),
        insert_text(x, s).to_multiset() == s.to_multiset().insert(x),
        insert_text(x, s).len() == s.len() + 1,
    decreases s.len(),
{
    broadcast use vstd::multiset::group_multiset_axioms, vstd::seq_lib::group_to_multiset_ensures;

    if s.len() == 0 {
        assert(seq![x] =~= Seq::<Seq<char>>::empty().push(x));
    } else {
        let r = insert_text(x, s);
        if text_less(x, s[0]) {
            assert(r =~= seq![x] + s);
            assert forall|i: int, j: int| 0 <= i < j < r.len() implies text_le(#[trigger] r[i], #[trigger] r[j]) by {
                if i == 0 {
                    assert(r[j] == s[j - 1]);
                    lemma_text_less_total(x, s[j - 1]);
                    if j - 1 > 0 {
                        assert(text_le(s[0], s[j - 1]));
                        lemma_text_less_total(s[0], s[j - 1]);
                        if text_less(s[j - 1], x) {
                            lemma_text_less_transitive(s[j - 1], x, s[0]);
                            lemma_text_less_total(s[0], s[j - 1]);
                        }
                    } else {
                        lemma_text_less_total(x, s[0]);
                    }
                } else {
                    assert(r[i] == s[i - 1]);
                    assert(r[j] == s[j - 1]);
                }
            }
            lemma_multiset_prepend(x, s);
        } else {
            let t = s.drop_first();
            assert(is_sorted(t)) by {
                assert forall|i: int, j: int| 0 <= i < j < t.len() implies text_le(#[trigger] t[i], #[trigger] t[j]) by {
                    assert(t[i] == s[i + 1]);
                    assert(t[j] == s[j + 1]);
                }
            }
            lemma_insert_text_facts(x, t);
            let rt = insert_text(x, t);
            assert(r =~= seq![s[0]] + rt);
            assert forall|i: int, j: int| 0 <= i < j < r.len() implies text_le(#[trigger] r[i], #[trigger] r[j]) by {
                if i == 0 {
                    assert(r[j] == rt[j - 1]);
                    // rt holds x and the elements of t, none of them below s[0]
                    lemma_element_of_insert(x, t, j - 1);
                    if rt[j - 1] == x {
                        lemma_text_less_total(x, s[0]);
                    } else {
                        let k = choose|k: int| 0 <= k < t.len() && t[k] == rt[j - 1];
                        assert(t[k] == s[k + 1]);
                    }
                } else {
                    assert(r[i] == rt[i - 1]);
                    assert(r[j] == rt[j - 1]);
                }
            }
            lemma_multiset_prepend(s[0], rt);
            lemma_multiset_prepend(s[0], t);
            assert(s =~= seq![s[0]] + t);
        }
    }
}

/// Prepending adds one occurrence.
proof fn lemma_multiset_prepend(x: Seq<char>, s: Seq<Seq<char>>)
    ensures
        (seq![x] + s).to_multiset() == s.to_multiset().insert(x),
{
    broadcast use vstd::multiset::group_multiset_axioms, vstd::seq_lib::group_to_multiset_ensures;

    vstd::seq_lib::lemma_multiset_commutative(seq![x], s);
    vstd::seq_lib::lemma_multiset_commutative(s, seq![x]);
    assert(s + seq![x] =~= s.push(x));
}

/// Each element of an insertion is `x` or an element of `s`.
proof fn lemma_element_of_insert(x: Seq<char>, s: Seq<Seq<char>>, i: int)
    requires
        0 <= i < insert_text(x, s).len(),
    ensures
        insert_text(x, s)[i] == x || exists|k: int| 0 <= k < s.len() && s[k] == insert_text(x, s)[i],
    decreases s.len(),
{
    if s.len() == 0 {
    } else if text_less(x, s[0]) {
        let r = seq![x] + s;
        if i > 0 {
            assert(r[i] == s[i - 1]);
        }
    } else {
        let t = s.drop_first();
        let r = seq![s[0]] + insert_text(x, t);
        if i > 0 {
            lemma_insert_text_len(x, t);
            lemma_element_of_insert(x, t, i - 1);
            if insert_text(x, t)[i - 1] != x {
                let k = choose|k: int| 0 <= k < t.len() && t[k] == insert_text(x, t)[i - 1];
                assert(s[k + 1] == t[k]);
            }
        } else {
            assert(r[0] == s[0]);
        }
    }
}

proof fn lemma_insert_text_len(x: Seq<char>, s: Seq<Seq<char>>)
    ensures
        insert_text(x, s).len() == s.len() + 1,
    decreases s.len(),
{
    if s.len() > 0 && !text_less(x, s[0]) {
        lemma_insert_text_len(x, s.drop_first());
    }
}

/// The sort gives an ascending arrangement of exactly the given elements.
pub proof fn lemma_sort_texts_sorted_permutation(s: Seq<Seq<char>>)
    ensures
        is_sorted(sort_texts(s)),
        sort_texts(s).to_multiset() == s.to_multiset(),
        sort_texts(s).len() == s.len(),
    decreases s.len(),
{
    broadcast use vstd::multiset::group_multiset_axioms, vstd::seq_lib::group_to_multiset_ensures;

    if s.len() > 0 {
        lemma_sort_texts_sorted_permutation(s.drop_last());
        lemma_insert_text_facts(s.last(), sort_texts(s.drop_last()));
        assert(s.drop_last().push(s.last()) =~= s);
    }
}

/// Two ascending arrangements of the same elements are the same sequence.
pub proof fn lemma_sorted_unique(a: Seq<Seq<char>>, b: Seq<Seq<char>>)
    requires
        is_sorted(a),
        is_sorted(b),
        a.to_multiset() == b.to_multiset(),
    ensures
        a == b,
    decreases a.len(),
{
    broadcast use vstd::multiset::group_multiset_axioms, vstd::seq_lib::group_to_multiset_ensures;

    assert(a.len() == a.to_multiset().len());
    assert(b.len() == b.to_multiset().len());
    if a.len() == 0 {
        assert(a =~= b);
    } else {
        let x = a[0];
        let y = b[0];
        assert(a.contains(x));
        assert(b.contains(y));
        assert(b.to_multiset().count(x) > 0);
        assert(a.to_multiset().count(y) > 0);
        let k = choose|k: int| 0 <= k < b.len() && b[k] == x;
        let m = choose|m: int| 0 <= m < a.len() && a[m] == y;
        if k > 0 {
            assert(text_le(b[0], b[k]));
        }
        if m > 0 {
            assert(text_le(a[0], a[m]));
        }
        lemma_text_less_irreflexive(x);
        lemma_text_less_total(x, y);
        assert(x == y);
        let a1 = a.remove(0);
        let b1 = b.remove(0);
        assert(a1.to_multiset() == a.to_multiset().remove(x));
        assert(b1.to_multiset() == b.to_multiset().remove(y));
        assert forall|i: int, j: int| 0 <= i < j < a1.len() implies text_le(#[trigger] a1[i], #[trigger] a1[j]) by {
            assert(a1[i] == a[i + 1]);
            assert(a1[j] == a[j + 1]);
        }
        assert forall|i: int, j: int| 0 <= i < j < b1.len() implies text_le(#[trigger] b1[i], #[trigger] b1[j]) by {
            assert(b1[i] == b[i + 1]);
            assert(b1[j] == b[j + 1]);
        }
        lemma_sorted_unique(a1, b1);
        assert(a =~= seq![x] + a1);
        assert(b =~= seq![y] + b1);
    }
}

/// `a < b` for two strings, in the order of `String`.
pub fn text_lt(a: &str, b: &str) -> (r: bool)
    ensures
        r == text_less(a@, b@),
{
    let n = a.unicode_len();
    let m = b.unicode_len();
    let mut i: usize = 0;
    assert(a@.subrange(0, n as int) =~= a@);
    assert(b@.subrange(0, m as int) =~= b@);
    while i < n && i < m
        invariant
            n == a@.len(),
            m == b@.len(),
            i <= n,
            i <= m,
            text_less(a@, b@) == text_less(a@.subrange(i as int, n as int), b@.subrange(i as int, m as int)),
        decreases n - i,
    {
        let x = a.get_char(i);
        let y = b.get_char(i);
        if x != y {
            return (x as u32) < (y as u32);
        }
        assert(a@.subrange(i as int, n as int).drop_first() =~= a@.subrange(i + 1, n as int));
        assert(b@.subrange(i as int, m as int).drop_first() =~= b@.subrange(i + 1, m as int));
        i = i + 1;
    }
    i < m
}

/// Sorts strings in ascending order, equal strings keeping their order.
pub fn sort_strings(items: Vec<String>) -> (r: Vec<String>)
    ensures
        texts(r@) == sort_texts(texts(items@)),
{
    let mut r: Vec<String> = Vec::new();
    let n = items.len();
    let mut i: usize = 0;
    while i < n
        invariant
            n == items@.len(),
            i <= n,
            texts(r@) == sort_texts(texts(items@.subrange(0, i as int))),
        decreases n - i,
    {
        let x = items[i].clone();
        proof {
            let pre = texts(items@.subrange(0, i as int));
            let nxt = texts(items@.subrange(0, i + 1));
            assert(nxt.drop_last() =~= pre);
            assert(nxt.last() == x@);
        }
        insert_sorted(&mut r, x);
        i = i + 1;
    }
    assert(items@.subrange(0, n as int) =~= items@);
    r
}

/// Inserts `x` into `v` where `insert_text` puts it.
fn insert_sorted(v: &mut Vec<String>, x: String)
    ensures
        texts(final(v)@) == insert_text(x@, texts(old(v)@)),
{
    let n = v.len();
    let mut k: usize = 0;
    while k < n && !text_lt(x.as_str(), v[k].as_str())
        invariant
            n == v@.len(),
            k <= n,
            forall|j: int| 0 <= j < k ==> !text_less(x@, #[trigger] v@[j]@),
        decreases n - k,
    {
        k = k + 1;
    }
    let ghost before = texts(v@);
    proof {
        lemma_insert_at_first_greater(x@, before, k as int);
    }
    v.insert(k, x);
    assert(texts(v@) =~= before.subrange(0, k as int).push(x@) + before.subrange(k as int, n as int));
}

/// `insert_text` places `x` just before the first element above it.
proof fn lemma_insert_at_first_greater(x: Seq<char>, s: Seq<Seq<char>>, k: int)
    requires
        0 <= k <= s.len(),
        forall|j: int| 0 <= j < k ==> !text_less(x, #[trigger] s[j]),
        k < s.len() ==> text_less(x, s[k]),
    ensures
        insert_text(x, s) == s.subrange(0, k).push(x) + s.subrange(k, s.len() as int),
    decreases s.len(),
{
    if s.len() == 0 {
        assert(s.subrange(0, 0).push(x) + s.subrange(0, 0) =~= seq![x]);
    } else if k == 0 {
        assert(s.subrange(0, 0).push(x) + s.subrange(0, s.len() as int) =~= seq![x] + s);
    } else {
        let t = s.drop_first();
        assert forall|j: int| 0 <= j < k - 1 implies !text_less(x, #[trigger] t[j]) by {
            assert(t[j] == s[j + 1]);
        }
        if k - 1 < t.len() {
            assert(t[k - 1] == s[k]);
        }
        lemma_insert_at_first_greater(x, t, k - 1);
        assert(!text_less(x, s[0]));
        assert(seq![s[0]] + (t.subrange(0, k - 1).push(x) + t.subrange(k - 1, t.len() as int))
            =~= s.subrange(0, k).push(x) + s.subrange(k, s.len() as int));
    }
}

} // verus!
