//! The order of `String`s (code point by code point, which is the order of their UTF-8
//! bytes) and sorting by it.
use vstd::prelude::*;

verus! {

/// `a <= b` in `String`'s order.
pub open spec fn str_le(a: Seq<char>, b: Seq<char>) -> bool
    decreases a.len(),
{
    if a.len() == 0 {
        true
    } else if b.len() == 0 {
        false
    } else if a[0] != b[0] {
        a[0] < b[0]
    } else {
        str_le(a.drop_first(), b.drop_first())
    }
}

pub proof fn lemma_str_le_total(a: Seq<char>, b: Seq<char>)
    ensures
        str_le(a, b) || str_le(b, a),
    decreases a.len(),
{
    if a.len() > 0 && b.len() > 0 {
        if a[0] == b[0] {
            lemma_str_le_total(a.drop_first(), b.drop_first());
        } else {
        }
    }
}

pub proof fn lemma_str_le_trans(a: Seq<char>, b: Seq<char>, c: Seq<char>)
    requires
        str_le(a, b),
        str_le(b, c),
    ensures
        str_le(a, c),
    decreases a.len(),
{
    if a.len() > 0 && b.len() > 0 && c.len() > 0 && a[0] == b[0] && b[0] == c[0] {
        lemma_str_le_trans(a.drop_first(), b.drop_first(), c.drop_first());
    }
}

/// Compares two strings in `String`'s order.
pub fn le(a: &str, b: &str) -> (r: bool)
    ensures
        r == str_le(a@, b@),
{
    let n = a.unicode_len();
    let m = b.unicode_len();
    let mut i: usize = 0;
    assert(a@.subrange(0, n as int) =~= a@);
    assert(b@.subrange(0, m as int) =~= b@);
    while i < n && i < m && a.get_char(i) == b.get_char(i)
        invariant
            n == a@.len(),
            m == b@.len(),
            i <= n,
            i <= m,
            forall|j: int| 0 <= j < i ==> a@[j] == b@[j],
            str_le(a@, b@) == str_le(a@.subrange(i as int, n as int), b@.subrange(i as int, m as int)),
        decreases n - i,
    {
        proof {
            let x = a@.subrange(i as int, n as int);
            let y = b@.subrange(i as int, m as int);
            assert(x.drop_first() =~= a@.subrange(i + 1, n as int));
            assert(y.drop_first() =~= b@.subrange(i + 1, m as int));
        }
        i += 1;
    }
    if i == n {
        true
    } else if i == m {
        false
    } else {
        a.get_char(i) < b.get_char(i)
    }
}

/// The character sequences of a list of strings.
pub open spec fn strs_view(s: Seq<String>) -> Seq<Seq<char>> {
    s.map_values(|x: String| x@)
}

/// In `String`'s order.
pub open spec fn sorted(s: Seq<Seq<char>>) -> bool {
    forall|i: int, j: int| 0 <= i < j < s.len() ==> str_le(s[i], s[j])
}

/// `v` sorted in `String`'s order (stably; the result is a permutation of `v`).
pub fn sort_strings(v: Vec<String>) -> (r: Vec<String>)
    ensures
        sorted(strs_view(r@)),
        strs_view(r@).to_multiset() == strs_view(v@).to_multiset(),
{
    broadcast use vstd::seq_lib::group_to_multiset_ensures;
    let mut r: Vec<String> = Vec::new();
    let mut i: usize = 0;
    while i < v.len()
        invariant
            i <= v@.len(),
            sorted(strs_view(r@)),
            strs_view(r@).to_multiset() == strs_view(v@.subrange(0, i as int)).to_multiset(),
        decreases v.len() - i,
    {
        let x = v[i].clone();
        let mut k: usize = r.len();
        while k > 0 && !le(r[k - 1].as_str(), x.as_str())
            invariant
                k <= r@.len(),
                forall|j: int| k <= j < r@.len() ==> !str_le(#[trigger] r@[j]@, x@),
            decreases k,
        {
            k -= 1;
        }
        let ghost before = strs_view(r@);
        proof {
            assert forall|j: int| k <= j < r@.len() implies str_le(x@, #[trigger] r@[j]@) by {
                lemma_str_le_total(r@[j]@, x@);
            }
        }
        r.insert(k, x);
        proof {
            let after = strs_view(r@);
            assert(after =~= before.insert(k as int, x@));
            assert forall|a: int, b: int| 0 <= a < b < after.len() implies str_le(after[a], after[b]) by {
                if a < k && b == k {
                    if k > 0 {
                        assert(str_le(before[k - 1], x@));
                        if a < k - 1 {
                            lemma_str_le_trans(before[a], before[k - 1], x@);
                        }
                    }
                } else if a == k {
                    assert(after[b] == before[b - 1]);
                    assert(str_le(x@, before[b - 1]));
                } else if a < k && b > k {
                    assert(after[b] == before[b - 1]);
                    assert(str_le(before[a], before[b - 1]));
                } else if a > k {
                    assert(after[a] == before[a - 1]);
                    assert(after[b] == before[b - 1]);
                }
            }
            before.to_multiset_ensures();
            strs_view(v@.subrange(0, i as int)).to_multiset_ensures();
            vstd::seq_lib::to_multiset_insert(before, k as int, x@);
            assert(strs_view(v@.subrange(0, i + 1)) =~= strs_view(v@.subrange(0, i as int)).push(x@));
        }
        i += 1;
    }
    proof {
        assert(v@.subrange(0, v@.len() as int) =~= v@);
    }
    r
}


pub proof fn lemma_str_le_refl(a: Seq<char>)
    ensures
        str_le(a, a),
    decreases a.len(),
{
    if a.len() > 0 {
        lemma_str_le_refl(a.drop_first());
    }
}

pub proof fn lemma_str_le_antisym(a: Seq<char>, b: Seq<char>)
    requires
        str_le(a, b),
        str_le(b, a),
    ensures
        a == b,
    decreases a.len(),
{
    if a.len() > 0 && b.len() > 0 && a[0] == b[0] {
        lemma_str_le_antisym(a.drop_first(), b.drop_first());
        assert(a =~= seq![a[0]] + a.drop_first());
        assert(b =~= seq![b[0]] + b.drop_first());
    } else if a.len() == 0 && b.len() == 0 {
        assert(a =~= b);
    }
}

/// Two sorted sequences with the same elements are the same sequence.
pub proof fn lemma_sorted_unique(a: Seq<Seq<char>>, b: Seq<Seq<char>>)
    requires
        sorted(a),
        sorted(b),
        a.to_multiset() == b.to_multiset(),
    ensures
        a == b,
    decreases a.len(),
{
    broadcast use vstd::seq_lib::group_to_multiset_ensures;
    a.to_multiset_ensures();
    b.to_multiset_ensures();
    if a.len() == 0 {
        if b.len() > 0 {
            assert(b.to_multiset().count(b[0]) > 0) by {
                assert(b.contains(b[0]));
            }
        }
        assert(a =~= b);
    } else {
        assert(a.contains(a[0]));
        assert(b.to_multiset().count(a[0]) > 0);
        assert(b.len() > 0);
        assert(b.contains(b[0]));
        assert(a.to_multiset().count(b[0]) > 0);
        let j = choose|j: int| 0 <= j < b.len() && b[j] == a[0];
        let i = choose|i: int| 0 <= i < a.len() && a[i] == b[0];
        lemma_str_le_refl(a[0]);
        lemma_str_le_refl(b[0]);
        if i > 0 {
            assert(str_le(a[0], a[i]));
        }
        if j > 0 {
            assert(str_le(b[0], b[j]));
        }
        lemma_str_le_antisym(a[0], b[0]);
        vstd::seq_lib::to_multiset_remove(a, 0);
        vstd::seq_lib::to_multiset_remove(b, 0);
        assert(a.remove(0) =~= a.drop_first());
        assert(b.remove(0) =~= b.drop_first());
        assert(sorted(a.drop_first()));
        assert(sorted(b.drop_first()));
        lemma_sorted_unique(a.drop_first(), b.drop_first());
        assert(a =~= seq![a[0]] + a.drop_first());
        assert(b =~= seq![b[0]] + b.drop_first());
    }
}

/// The sorted arrangement of `s`.
pub open spec fn sort_spec(s: Seq<Seq<char>>) -> Seq<Seq<char>> {
    choose|t: Seq<Seq<char>>| sorted(t) && t.to_multiset() == s.to_multiset()
}

/// Every list of texts has a sorted arrangement (insertion of each text in turn).
pub proof fn lemma_sort_exists(s: Seq<Seq<char>>)
    ensures
        exists|t: Seq<Seq<char>>| sorted(t) && t.to_multiset() == s.to_multiset(),
    decreases s.len(),
{
    broadcast use vstd::seq_lib::group_to_multiset_ensures;
    if s.len() == 0 {
        assert(sorted(s));
    } else {
        let pre = s.drop_last();
        let x = s.last();
        lemma_sort_exists(pre);
        let t0 = choose|t: Seq<Seq<char>>| sorted(t) && t.to_multiset() == pre.to_multiset();
        let k: int = if exists|i: int| 0 <= i < t0.len() && !str_le(t0[i], x) {
            choose|i: int| 0 <= i < t0.len() && !str_le(t0[i], x) && forall|j: int| 0 <= j < i ==> str_le(t0[j], x)
        } else {
            t0.len() as int
        };
        if exists|i: int| 0 <= i < t0.len() && !str_le(t0[i], x) {
            lemma_first_above(t0, x);
        }
        assert(0 <= k <= t0.len());
        assert(forall|j: int| 0 <= j < k ==> str_le(t0[j], x));
        assert(k < t0.len() ==> !str_le(t0[k], x));
        let t = t0.insert(k, x);
        assert(sorted(t)) by {
            assert forall|i: int, j: int| 0 <= i < j < t.len() implies str_le(t[i], t[j]) by {
                if j < k {
                    assert(t[i] == t0[i] && t[j] == t0[j]);
                } else if j == k {
                    assert(t[i] == t0[i] && t[j] == x);
                } else if i == k {
                    assert(t[j] == t0[j - 1] && t[i] == x);
                    lemma_str_le_total(t0[k], x);
                    if j - 1 > k {
                        lemma_str_le_trans(x, t0[k], t0[j - 1]);
                    }
                } else if i < k {
                    assert(t[i] == t0[i] && t[j] == t0[j - 1]);
                } else {
                    assert(t[i] == t0[i - 1] && t[j] == t0[j - 1]);
                }
            }
        }
        assert(s == pre.push(x));
        assert(t.to_multiset() == s.to_multiset());
    }
}

/// The first text of a sorted list that is not at most `x`, with all before it at most `x`.
proof fn lemma_first_above(t: Seq<Seq<char>>, x: Seq<char>)
    requires
        exists|i: int| 0 <= i < t.len() && !str_le(t[i], x),
    ensures
        exists|i: int| 0 <= i < t.len() && !str_le(t[i], x) && forall|j: int| 0 <= j < i ==> str_le(t[j], x),
    decreases t.len(),
{
    if str_le(t[0], x) {
        let rest = t.drop_first();
        let w = choose|i: int| 0 <= i < t.len() && !str_le(t[i], x);
        assert(rest[w - 1] == t[w]);
        lemma_first_above(rest, x);
        let i = choose|i: int| 0 <= i < rest.len() && !str_le(rest[i], x) && forall|j: int| 0 <= j < i ==> str_le(rest[j], x);
        assert(t[i + 1] == rest[i]);
        assert forall|j: int| 0 <= j < i + 1 implies str_le(t[j], x) by {
            if j > 0 {
                assert(t[j] == rest[j - 1]);
            }
        }
    } else {
        assert(!str_le(t[0], x));
    }
}

/// Lists of the same texts, in any order, sort to the same list.
pub proof fn lemma_sort_spec_of_permutation(a: Seq<Seq<char>>, b: Seq<Seq<char>>)
    requires
        a.to_multiset() == b.to_multiset(),
    ensures
        sort_spec(a) == sort_spec(b),
{
    lemma_sort_exists(a);
    let c = sort_spec(a);
    assert(sorted(c) && c.to_multiset() == a.to_multiset());
    lemma_sort_spec(b, c);
}

/// Mapping each element of two lists holding the same elements gives lists holding the same
/// elements.
pub proof fn lemma_map_to_multiset<A, B>(a: Seq<A>, b: Seq<A>, f: spec_fn(A) -> B)
    requires
        a.to_multiset() == b.to_multiset(),
    ensures
        a.map_values(f).to_multiset() == b.map_values(f).to_multiset(),
    decreases a.len(),
{
    broadcast use vstd::seq_lib::group_to_multiset_ensures;
    broadcast use vstd::multiset::group_multiset_axioms;
    if a.len() == 0 {
        assert(b.to_multiset().len() == 0);
        assert(b.len() == 0);
        assert(a.map_values(f) =~= Seq::<B>::empty());
        assert(b.map_values(f) =~= Seq::<B>::empty());
    } else {
        let x = a.last();
        let a1 = a.drop_last();
        assert(a == a1.push(x));
        assert(a.to_multiset().count(x) > 0);
        assert(b.contains(x));
        let j = choose|j: int| 0 <= j < b.len() && b[j] == x;
        let b1 = b.remove(j);
        assert(b1.to_multiset() == b.to_multiset().remove(x));
        assert(a1.to_multiset() =~= b1.to_multiset());
        lemma_map_to_multiset(a1, b1, f);
        assert(a.map_values(f) =~= a1.map_values(f).push(f(x)));
        assert(b.map_values(f).remove(j) =~= b1.map_values(f));
        assert(b.map_values(f)[j] == f(x));
        let bm = b.map_values(f);
        assert(bm.remove(j).to_multiset() == bm.to_multiset().remove(f(x)));
        assert(bm.to_multiset().count(f(x)) > 0) by {
            assert(bm.contains(f(x)));
        }
        assert(bm.to_multiset() =~= bm.to_multiset().remove(f(x)).insert(f(x)));
    }
}

/// A sorted arrangement of `s` is `sort_spec(s)`.
pub proof fn lemma_sort_spec(s: Seq<Seq<char>>, t: Seq<Seq<char>>)
    requires
        sorted(t),
        t.to_multiset() == s.to_multiset(),
    ensures
        sort_spec(s) == t,
{
    let c = sort_spec(s);
    assert(sorted(c) && c.to_multiset() == s.to_multiset());
    lemma_sorted_unique(c, t);
}


/// The members of a set of names in `String`'s order.
pub open spec fn set_listing(s: Set<Seq<char>>) -> Seq<Seq<char>> {
    choose|t: Seq<Seq<char>>| sorted(t) && t.no_duplicates() && t.to_set() == s
}

/// Sorting a list of distinct names lists their set.
pub proof fn lemma_set_listing(names: Seq<Seq<char>>, t: Seq<Seq<char>>)
    requires
        names.no_duplicates(),
        sorted(t),
        t.to_multiset() == names.to_multiset(),
    ensures
        set_listing(names.to_set()) == t,
{
    broadcast use vstd::seq_lib::group_to_multiset_ensures;
    broadcast use vstd::multiset::group_multiset_axioms;
    names.lemma_multiset_has_no_duplicates();
    t.lemma_multiset_has_no_duplicates_conv();
    assert(t.to_set() =~= names.to_set()) by {
        assert forall|x: Seq<char>| t.to_set().contains(x) <==> names.to_set().contains(x) by {
            assert(t.to_set().contains(x) <==> t.contains(x));
            assert(names.to_set().contains(x) <==> names.contains(x));
            assert(t.contains(x) <==> t.to_multiset().count(x) > 0);
            assert(names.contains(x) <==> names.to_multiset().count(x) > 0);
        }
    }
    let c = set_listing(names.to_set());
    assert(sorted(c) && c.no_duplicates() && c.to_set() == names.to_set());
    c.lemma_multiset_has_no_duplicates();
    assert(c.to_multiset() =~= t.to_multiset()) by {
        assert forall|x: Seq<char>| c.to_multiset().count(x) == t.to_multiset().count(x) by {
            assert(c.to_set().contains(x) <==> c.contains(x));
            assert(t.to_set().contains(x) <==> t.contains(x));
            assert(c.contains(x) <==> c.to_multiset().count(x) > 0);
            assert(t.contains(x) <==> t.to_multiset().count(x) > 0);
            if c.contains(x) {
                assert(c.to_multiset().contains(x));
                assert(t.to_multiset().contains(x));
            }
        }
    }
    lemma_sorted_unique(c, t);
}

} // verus!
