//! JSON values as the library reads them, and their canonical form (object keys sorted).
use vstd::prelude::*;

use crate::order::{lemma_str_le_antisym, lemma_str_le_refl, lemma_str_le_total, lemma_str_le_trans, le, str_le};

verus! {

broadcast use vstd::std_specs::vec::group_vec_axioms;

/// A JSON number: its value when it is an integer that fits in `i64`, and its text.
#[derive(Debug)]
pub struct JsonNumber {
    pub as_i64: Option<i64>,
    pub text: String,
}

/// A JSON value. An object keeps its entries in order.
#[derive(Debug)]
pub enum Json {
    Null,
    Bool(bool),
    Number(JsonNumber),
    Str(String),
    List(Vec<Json>),
    Object(Vec<(String, Json)>),
}

/// Model of a `Json` value.
pub enum SpecJson {
    Null,
    Bool(bool),
    Number(Option<int>, Seq<char>),
    Str(Seq<char>),
    List(Seq<SpecJson>),
    Object(Seq<(Seq<char>, SpecJson)>),
}

pub open spec fn json_view(j: Json) -> SpecJson
    decreases j,
{
    match j {
        Json::Null => SpecJson::Null,
        Json::Bool(b) => SpecJson::Bool(b),
        Json::Number(n) => SpecJson::Number(
            match n.as_i64 {
                Some(i) => Some(i as int),
                None => None,
            },
            n.text@,
        ),
        Json::Str(s) => SpecJson::Str(s@),
        Json::List(items) => SpecJson::List(json_items_view(items@)),
        Json::Object(entries) => SpecJson::Object(json_entries_view(entries@)),
    }
}

pub open spec fn json_items_view(items: Seq<Json>) -> Seq<SpecJson>
    decreases items,
{
    Seq::new(items.len(), |i: int| if 0 <= i < items.len() { json_view(items[i]) } else { SpecJson::Null })
}

pub open spec fn json_entries_view(entries: Seq<(String, Json)>) -> Seq<(Seq<char>, SpecJson)>
    decreases entries,
{
    Seq::new(
        entries.len(),
        |i: int|
            if 0 <= i < entries.len() {
                (entries[i].0@, json_view(entries[i].1))
            } else {
                (Seq::empty(), SpecJson::Null)
            },
    )
}

impl View for Json {
    type V = SpecJson;

    open spec fn view(&self) -> SpecJson {
        json_view(*self)
    }
}

/// No two entries share a key.
pub open spec fn distinct_keys<V>(es: Seq<(Seq<char>, V)>) -> bool {
    forall|i: int, j: int| 0 <= i < j < es.len() ==> es[i].0 != es[j].0
}

/// Every object within the value has distinct keys (as every parsed JSON object has).
pub open spec fn json_wf(j: SpecJson) -> bool
    decreases j,
{
    match j {
        SpecJson::List(items) => items_wf(items),
        SpecJson::Object(es) => distinct_keys(es) && entries_wf(es),
        _ => true,
    }
}

pub open spec fn items_wf(items: Seq<SpecJson>) -> bool
    decreases items,
{
    items.len() == 0 || (items_wf(items.subrange(0, items.len() - 1)) && json_wf(items[items.len() - 1]))
}

pub open spec fn entries_wf(es: Seq<(Seq<char>, SpecJson)>) -> bool
    decreases es,
{
    es.len() == 0 || (entries_wf(es.subrange(0, es.len() - 1)) && json_wf(es[es.len() - 1].1))
}

pub proof fn lemma_items_wf(items: Seq<SpecJson>, i: int)
    requires
        items_wf(items),
        0 <= i < items.len(),
    ensures
        json_wf(items[i]),
    decreases items.len(),
{
    if i < items.len() - 1 {
        lemma_items_wf(items.subrange(0, items.len() - 1), i);
    }
}

pub proof fn lemma_entries_wf(es: Seq<(Seq<char>, SpecJson)>, i: int)
    requires
        entries_wf(es),
        0 <= i < es.len(),
    ensures
        json_wf(es[i].1),
    decreases es.len(),
{
    if i < es.len() - 1 {
        lemma_entries_wf(es.subrange(0, es.len() - 1), i);
    }
}

/// The entries are in `String`'s order of their keys.
pub open spec fn keys_sorted<V>(es: Seq<(Seq<char>, V)>) -> bool {
    forall|i: int, j: int| 0 <= i < j < es.len() ==> str_le(es[i].0, es[j].0)
}

/// The entries ordered by key.
pub open spec fn sort_entries_spec(es: Seq<(Seq<char>, SpecJson)>) -> Seq<(Seq<char>, SpecJson)> {
    choose|t: Seq<(Seq<char>, SpecJson)>| keys_sorted(t) && t.to_multiset() == es.to_multiset()
}

/// The canonical form of a value: every object's entries ordered by key, at any depth; arrays
/// keep their order.
pub open spec fn canon_spec(j: SpecJson) -> SpecJson
    decreases j,
{
    match j {
        SpecJson::List(items) => SpecJson::List(canon_items(items)),
        SpecJson::Object(es) => SpecJson::Object(sort_entries_spec(canon_entries(es))),
        other => other,
    }
}

/// Each item in canonical form.
pub open spec fn canon_items(items: Seq<SpecJson>) -> Seq<SpecJson>
    decreases items,
{
    if items.len() == 0 {
        Seq::empty()
    } else {
        canon_items(items.subrange(0, items.len() - 1)).push(canon_spec(items[items.len() - 1]))
    }
}

/// Each entry's value in canonical form.
pub open spec fn canon_entries(es: Seq<(Seq<char>, SpecJson)>) -> Seq<(Seq<char>, SpecJson)>
    decreases es,
{
    if es.len() == 0 {
        Seq::empty()
    } else {
        canon_entries(es.subrange(0, es.len() - 1)).push((es[es.len() - 1].0, canon_spec(es[es.len() - 1].1)))
    }
}

/// Two arrangements of entries sorted by distinct keys are the same arrangement.
pub proof fn lemma_sorted_entries_unique<V>(a: Seq<(Seq<char>, V)>, b: Seq<(Seq<char>, V)>)
    requires
        keys_sorted(a),
        keys_sorted(b),
        distinct_keys(a),
        a.to_multiset() == b.to_multiset(),
    ensures
        a == b,
    decreases a.len(),
{
    broadcast use vstd::seq_lib::group_to_multiset_ensures;
    a.to_multiset_ensures();
    b.to_multiset_ensures();
    if a.len() == 0 {
        if b.len() > 0 {
            assert(b.contains(b[0]));
        }
        assert(a =~= b);
    } else {
        assert(a.contains(a[0]));
        assert(b.to_multiset().count(a[0]) > 0);
        assert(b.contains(b[0]));
        assert(a.to_multiset().count(b[0]) > 0);
        let j = choose|j: int| 0 <= j < b.len() && b[j] == a[0];
        let i = choose|i: int| 0 <= i < a.len() && a[i] == b[0];
        lemma_str_le_refl(a[0].0);
        lemma_str_le_refl(b[0].0);
        if i > 0 {
            assert(str_le(a[0].0, a[i].0));
        }
        if j > 0 {
            assert(str_le(b[0].0, b[j].0));
        }
        lemma_str_le_antisym(a[0].0, b[0].0);
        assert(a[i].0 == a[0].0);
        assert(i == 0);
        assert(a[0] == b[0]);
        vstd::seq_lib::to_multiset_remove(a, 0);
        vstd::seq_lib::to_multiset_remove(b, 0);
        assert(a.remove(0) =~= a.drop_first());
        assert(b.remove(0) =~= b.drop_first());
        lemma_sorted_entries_unique(a.drop_first(), b.drop_first());
        assert(a =~= seq![a[0]] + a.drop_first());
        assert(b =~= seq![b[0]] + b.drop_first());
    }
}

/// A permutation keeps the keys distinct.
pub proof fn lemma_distinct_keys_permutation<V>(a: Seq<(Seq<char>, V)>, b: Seq<(Seq<char>, V)>)
    requires
        distinct_keys(a),
        a.to_multiset() == b.to_multiset(),
    ensures
        distinct_keys(b),
{
    broadcast use vstd::seq_lib::group_to_multiset_ensures;
    broadcast use vstd::multiset::group_multiset_axioms;
    a.to_multiset_ensures();
    b.to_multiset_ensures();
    assert(a.no_duplicates()) by {
        assert forall|i: int, j: int| 0 <= i < a.len() && 0 <= j < a.len() && i != j implies a[i] != a[j] by {
            if i < j {
                assert(a[i].0 != a[j].0);
            } else {
                assert(a[j].0 != a[i].0);
            }
        }
    }
    a.lemma_multiset_has_no_duplicates();
    b.lemma_multiset_has_no_duplicates_conv();
    assert forall|p: int, q: int| 0 <= p < q < b.len() implies b[p].0 != b[q].0 by {
        if b[p].0 == b[q].0 {
            assert(b.contains(b[p]));
            assert(b.contains(b[q]));
            assert(a.to_multiset().count(b[p]) > 0);
            assert(a.to_multiset().count(b[q]) > 0);
            let pi = choose|x: int| 0 <= x < a.len() && a[x] == b[p];
            let qi = choose|x: int| 0 <= x < a.len() && a[x] == b[q];
            assert(b[p] != b[q]);
            assert(pi != qi);
            if pi < qi {
                assert(a[pi].0 != a[qi].0);
            } else {
                assert(a[qi].0 != a[pi].0);
            }
        }
    }
}


/// Orders object entries by key (stably; the result is a permutation of `v`).
pub fn sort_entries(v: Vec<(String, Json)>) -> (r: Vec<(String, Json)>)
    ensures
        keys_sorted(json_entries_view(r@)),
        json_entries_view(r@).to_multiset() == json_entries_view(v@).to_multiset(),
{
    broadcast use vstd::seq_lib::group_to_multiset_ensures;
    let ghost vv = json_entries_view(v@);
    let mut r: Vec<(String, Json)> = Vec::new();
    let mut rest = v;
    assert(json_entries_view(r@) =~= Seq::<(Seq<char>, SpecJson)>::empty());
    // Take entries from the back of `rest`; insert each before the first larger key.
    let n = rest.len();
    while rest.len() > 0
        invariant
            rest@.len() <= n,
            n == vv.len(),
            json_entries_view(rest@) == vv.subrange(0, rest@.len() as int),
            keys_sorted(json_entries_view(r@)),
            json_entries_view(r@).to_multiset() == vv.subrange(rest@.len() as int, n as int).to_multiset(),
        decreases rest.len(),
    {
        let ghost before_rest = rest@;
        let x = rest.pop().unwrap();
        proof {
            assert(rest@ =~= before_rest.drop_last());
            assert(json_entries_view(rest@) =~= vv.subrange(0, rest@.len() as int));
            let m = rest@.len() as int;
            assert(before_rest[m] == x);
            assert(json_entries_view(before_rest)[m] == (x.0@, x.1@));
            assert(vv.subrange(0, m + 1)[m] == vv[m]);
            assert(vv[m] == (x.0@, x.1@));
        }
        let mut k: usize = r.len();
        while k > 0 && !le(r[k - 1].0.as_str(), x.0.as_str())
            invariant
                k <= r@.len(),
                forall|j: int| k <= j < r@.len() ==> !str_le(#[trigger] r@[j].0@, x.0@),
            decreases k,
        {
            k -= 1;
        }
        let ghost before = json_entries_view(r@);
        let ghost xv = (x.0@, x.1@);
        proof {
            assert forall|j: int| k <= j < r@.len() implies str_le(x.0@, #[trigger] r@[j].0@) by {
                lemma_str_le_total(r@[j].0@, x.0@);
            }
        }
        r.insert(k, x);
        proof {
            let after = json_entries_view(r@);
            assert(after =~= before.insert(k as int, xv));
            assert forall|a: int, b: int| 0 <= a < b < after.len() implies str_le(after[a].0, after[b].0) by {
                if a < k && b == k {
                    if k > 0 {
                        assert(str_le(before[k - 1].0, xv.0));
                        if a < k - 1 {
                            lemma_str_le_trans(before[a].0, before[k - 1].0, xv.0);
                        }
                    }
                } else if a == k {
                    assert(after[b] == before[b - 1]);
                    assert(str_le(xv.0, before[b - 1].0));
                } else if a < k && b > k {
                    assert(after[b] == before[b - 1]);
                    assert(str_le(before[a].0, before[b - 1].0));
                } else if a > k {
                    assert(after[a] == before[a - 1]);
                    assert(after[b] == before[b - 1]);
                }
            }
            before.to_multiset_ensures();
            vstd::seq_lib::to_multiset_insert(before, k as int, xv);
            let m = rest@.len() as int;
            assert(vv.subrange(m, n as int) =~= vv.subrange(m + 1, n as int).insert(0, xv));
            vstd::seq_lib::to_multiset_insert(vv.subrange(m + 1, n as int), 0, xv);
        }
    }
    proof {
        assert(vv.subrange(0, n as int) =~= vv);
    }
    r
}


impl JsonNumber {
    pub fn clone_number(&self) -> (r: JsonNumber)
        ensures
            r.as_i64 == self.as_i64,
            r.text@ == self.text@,
    {
        JsonNumber { as_i64: self.as_i64, text: self.text.clone() }
    }
}

/// The canonical form of `value` (see `canon_spec`).
pub fn canonical_json(value: &Json) -> (r: Json)
    requires
        json_wf(value@),
    ensures
        r@ == canon_spec(value@),
    decreases *value,
{
    match value {
        Json::Null => Json::Null,
        Json::Bool(b) => Json::Bool(*b),
        Json::Number(n) => Json::Number(n.clone_number()),
        Json::Str(s) => Json::Str(s.clone()),
        Json::List(items) => Json::List(canonical_items(items)),
        Json::Object(entries) => {
            let mapped = canonical_entries(entries);
            let ghost ev = json_entries_view(entries@);
            let ghost mv = canon_entries(ev);
            proof {
                lemma_canon_entries_keys(ev);
                assert(distinct_keys(mv)) by {
                    assert forall|a: int, b: int| 0 <= a < b < mv.len() implies mv[a].0 != mv[b].0 by {
                        assert(ev[a].0 != ev[b].0);
                    }
                }
            }
            let sorted = sort_entries(mapped);
            proof {
                let sv = json_entries_view(sorted@);
                lemma_distinct_keys_permutation(mv, sv);
                let c = sort_entries_spec(mv);
                assert(keys_sorted(c) && c.to_multiset() == mv.to_multiset());
                lemma_sorted_entries_unique(sv, c);
            }
            Json::Object(sorted)
        },
    }
}

fn canonical_items(items: &Vec<Json>) -> (r: Vec<Json>)
    requires
        items_wf(json_items_view(items@)),
    ensures
        json_items_view(r@) == canon_items(json_items_view(items@)),
    decreases *items,
{
    let ghost iv = json_items_view(items@);
    let mut out: Vec<Json> = Vec::new();
    let mut i: usize = 0;
    assert(iv.subrange(0, 0) =~= Seq::<SpecJson>::empty());
    while i < items.len()
        invariant
            i <= items@.len(),
            iv == json_items_view(items@),
            items_wf(iv),
            json_items_view(out@) == canon_items(iv.subrange(0, i as int)),
        decreases items.len() - i,
    {
        proof {
            assert(iv[i as int] == items@[i as int]@);
            lemma_items_wf(iv, i as int);
            assert(decreases_to!(*items => items[i as int]));
            let next = iv.subrange(0, i + 1);
            assert(next.subrange(0, next.len() - 1) =~= iv.subrange(0, i as int));
            assert(next[next.len() - 1] == iv[i as int]);
        }
        let c = canonical_json(&items[i]);
        let ghost before = out@;
        out.push(c);
        proof {
            assert(json_items_view(out@) =~= json_items_view(before).push(c@));
        }
        i += 1;
    }
    proof {
        assert(iv.subrange(0, items@.len() as int) =~= iv);
    }
    out
}

fn canonical_entries(entries: &Vec<(String, Json)>) -> (r: Vec<(String, Json)>)
    requires
        entries_wf(json_entries_view(entries@)),
    ensures
        json_entries_view(r@) == canon_entries(json_entries_view(entries@)),
    decreases *entries,
{
    let ghost ev = json_entries_view(entries@);
    let mut mapped: Vec<(String, Json)> = Vec::new();
    let mut i: usize = 0;
    assert(ev.subrange(0, 0) =~= Seq::<(Seq<char>, SpecJson)>::empty());
    while i < entries.len()
        invariant
            i <= entries@.len(),
            ev == json_entries_view(entries@),
            entries_wf(ev),
            json_entries_view(mapped@) == canon_entries(ev.subrange(0, i as int)),
        decreases entries.len() - i,
    {
        proof {
            assert(ev[i as int] == (entries@[i as int].0@, entries@[i as int].1@));
            lemma_entries_wf(ev, i as int);
            assert(decreases_to!(*entries => entries[i as int]));
            let next = ev.subrange(0, i + 1);
            assert(next.subrange(0, next.len() - 1) =~= ev.subrange(0, i as int));
            assert(next[next.len() - 1] == ev[i as int]);
        }
        let c = canonical_json(&entries[i].1);
        let ghost before = mapped@;
        mapped.push((entries[i].0.clone(), c));
        proof {
            assert(json_entries_view(mapped@) =~= json_entries_view(before).push((entries@[i as int].0@, c@)));
        }
        i += 1;
    }
    proof {
        assert(ev.subrange(0, entries@.len() as int) =~= ev);
    }
    mapped
}

/// Canonicalising entry values keeps the keys.
pub proof fn lemma_canon_entries_keys(es: Seq<(Seq<char>, SpecJson)>)
    ensures
        canon_entries(es).len() == es.len(),
        forall|i: int| 0 <= i < es.len() ==> #[trigger] canon_entries(es)[i].0 == es[i].0,
    decreases es.len(),
{
    if es.len() > 0 {
        let pre = es.subrange(0, es.len() - 1);
        lemma_canon_entries_keys(pre);
        assert forall|i: int| 0 <= i < es.len() implies #[trigger] canon_entries(es)[i].0 == es[i].0 by {
            if i < es.len() - 1 {
                assert(pre[i] == es[i]);
            }
        }
    }
}

/// Canonicalising entry values keeps each key and puts each value in canonical form.
proof fn lemma_canon_entries_at(es: Seq<(Seq<char>, SpecJson)>)
    ensures
        canon_entries(es).len() == es.len(),
        forall|i: int| 0 <= i < es.len() ==> #[trigger] canon_entries(es)[i] == (es[i].0, canon_spec(es[i].1)),
    decreases es.len(),
{
    if es.len() > 0 {
        let pre = es.subrange(0, es.len() - 1);
        lemma_canon_entries_at(pre);
        assert forall|i: int| 0 <= i < es.len() implies #[trigger] canon_entries(es)[i] == (es[i].0, canon_spec(es[i].1)) by {
            if i < es.len() - 1 {
                assert(pre[i] == es[i]);
            }
        }
    }
}

/// Two sequences without repeats, of one length, the first's elements all in the second, are
/// permutations of each other.
proof fn lemma_no_dup_permutation<A>(a: Seq<A>, b: Seq<A>)
    requires
        a.no_duplicates(),
        b.no_duplicates(),
        a.len() == b.len(),
        forall|i: int| 0 <= i < a.len() ==> b.contains(#[trigger] a[i]),
    ensures
        a.to_multiset() == b.to_multiset(),
    decreases a.len(),
{
    broadcast use vstd::seq_lib::group_to_multiset_ensures;
    broadcast use vstd::multiset::group_multiset_axioms;
    if a.len() == 0 {
        assert(a =~= Seq::<A>::empty());
        assert(b =~= Seq::<A>::empty());
    } else {
        let x = a.last();
        assert(b.contains(a[a.len() - 1]));
        let j = choose|j: int| 0 <= j < b.len() && b[j] == x;
        let a2 = a.drop_last();
        let b2 = b.remove(j);
        assert forall|i: int| 0 <= i < a2.len() implies b2.contains(#[trigger] a2[i]) by {
            assert(a2[i] == a[i]);
            assert(b.contains(a[i]));
            let k = choose|k: int| 0 <= k < b.len() && b[k] == a[i];
            assert(a[i] != a[a.len() - 1]);
            if k < j {
                assert(b2[k] == b[k]);
            } else {
                assert(b2[k - 1] == b[k]);
            }
        }
        assert(a2.no_duplicates()) by {
            assert forall|p: int, q: int| 0 <= p < a2.len() && 0 <= q < a2.len() && p != q implies a2[p] != a2[q] by {
                assert(a2[p] == a[p] && a2[q] == a[q]);
            }
        }
        assert(b2.no_duplicates()) by {
            assert forall|p: int, q: int| 0 <= p < b2.len() && 0 <= q < b2.len() && p != q implies b2[p] != b2[q] by {
                let pp = if p < j { p } else { p + 1 };
                let qq = if q < j { q } else { q + 1 };
                assert(b2[p] == b[pp] && b2[q] == b[qq]);
            }
        }
        lemma_no_dup_permutation(a2, b2);
        assert(a =~= a2.push(x));
        vstd::seq_lib::to_multiset_remove(b, j);
        assert(b.to_multiset().count(x) > 0);
        assert(b.to_multiset() =~= b.to_multiset().remove(x).insert(x));
    }
}

/// An object's canonical form depends only on its keys and the canonical forms of their
/// values: two objects with distinct keys, the same keys, and under each key values of the
/// same canonical form have the same canonical form, whatever the order of their entries.
/// Applied at each level, this makes the order of keys irrelevant at any depth.
pub proof fn lemma_canon_ignores_key_order(a: Seq<(Seq<char>, SpecJson)>, b: Seq<(Seq<char>, SpecJson)>)
    requires
        distinct_keys(a),
        distinct_keys(b),
        a.len() == b.len(),
        forall|i: int|
            #![trigger a[i]]
            0 <= i < a.len() ==> exists|j: int|
                #![trigger b[j]]
                0 <= j < b.len() && b[j].0 == a[i].0 && canon_spec(b[j].1) == canon_spec(a[i].1),
    ensures
        canon_spec(SpecJson::Object(a)) == canon_spec(SpecJson::Object(b)),
{
    let ca = canon_entries(a);
    let cb = canon_entries(b);
    lemma_canon_entries_at(a);
    lemma_canon_entries_at(b);
    assert(ca.no_duplicates()) by {
        assert forall|p: int, q: int| 0 <= p < ca.len() && 0 <= q < ca.len() && p != q implies ca[p] != ca[q] by {
            assert(ca[p].0 == a[p].0 && ca[q].0 == a[q].0);
            if p < q {
                assert(a[p].0 != a[q].0);
            } else {
                assert(a[q].0 != a[p].0);
            }
        }
    }
    assert(cb.no_duplicates()) by {
        assert forall|p: int, q: int| 0 <= p < cb.len() && 0 <= q < cb.len() && p != q implies cb[p] != cb[q] by {
            assert(cb[p].0 == b[p].0 && cb[q].0 == b[q].0);
            if p < q {
                assert(b[p].0 != b[q].0);
            } else {
                assert(b[q].0 != b[p].0);
            }
        }
    }
    assert forall|i: int| 0 <= i < ca.len() implies cb.contains(#[trigger] ca[i]) by {
        assert(a[i] == a[i]);
        let j = choose|j: int| #![trigger b[j]] 0 <= j < b.len() && b[j].0 == a[i].0 && canon_spec(b[j].1) == canon_spec(a[i].1);
        assert(cb[j] == ca[i]);
    }
    lemma_no_dup_permutation(ca, cb);
    assert(sort_entries_spec(ca) == sort_entries_spec(cb));
}

/// The canonical form of an array keeps its items in their order, each in canonical form.
pub proof fn lemma_canon_keeps_array_order(items: Seq<SpecJson>)
    ensures
        canon_spec(SpecJson::List(items)) matches SpecJson::List(c) && c.len() == items.len() && forall|i: int|
            0 <= i < items.len() ==> #[trigger] c[i] == canon_spec(items[i]),
    decreases items.len(),
{
    if items.len() > 0 {
        let pre = items.subrange(0, items.len() - 1);
        lemma_canon_keeps_array_order(pre);
        assert forall|i: int| 0 <= i < items.len() implies #[trigger] canon_items(items)[i] == canon_spec(items[i]) by {
            if i < items.len() - 1 {
                assert(pre[i] == items[i]);
            }
        }
    }
}

/// Two values that are the same up to the order of object keys, at any depth: arrays of
/// such values item by item, in the same order; objects with distinct keys, as many on each
/// side, each key of the first found in the second with such a value; anything else equal.
pub open spec fn same_up_to_key_order(a: SpecJson, b: SpecJson) -> bool
    decreases a,
{
    match a {
        SpecJson::List(xs) => match b {
            SpecJson::List(ys) => xs.len() == ys.len() && forall|i: int|
                #![trigger xs[i]]
                0 <= i < xs.len() ==> same_up_to_key_order(xs[i], ys[i]),
            _ => false,
        },
        SpecJson::Object(es) => match b {
            SpecJson::Object(fs) => distinct_keys(es) && distinct_keys(fs) && es.len() == fs.len() && forall|i: int|
                #![trigger es[i]]
                0 <= i < es.len() ==> exists|j: int|
                    #![trigger fs[j]]
                    0 <= j < fs.len() && fs[j].0 == es[i].0 && same_up_to_key_order(es[i].1, fs[j].1),
            _ => false,
        },
        _ => a == b,
    }
}

/// Values that are the same up to the order of object keys have the same canonical form.
pub proof fn lemma_canon_same_up_to_key_order(a: SpecJson, b: SpecJson)
    requires
        same_up_to_key_order(a, b),
    ensures
        canon_spec(a) == canon_spec(b),
    decreases a,
{
    match a {
        SpecJson::List(xs) => {
            if let SpecJson::List(ys) = b {
                lemma_canon_keeps_array_order(xs);
                lemma_canon_keeps_array_order(ys);
                assert forall|i: int| 0 <= i < xs.len() implies canon_spec(xs[i]) == canon_spec(ys[i]) by {
                    lemma_canon_same_up_to_key_order(xs[i], ys[i]);
                }
                assert(canon_items(xs) =~= canon_items(ys));
            }
        },
        SpecJson::Object(es) => {
            if let SpecJson::Object(fs) = b {
                assert forall|i: int| #![trigger es[i]] 0 <= i < es.len() implies exists|j: int|
                    #![trigger fs[j]]
                    0 <= j < fs.len() && fs[j].0 == es[i].0 && canon_spec(fs[j].1) == canon_spec(es[i].1) by {
                    let j = choose|j: int|
                        #![trigger fs[j]]
                        0 <= j < fs.len() && fs[j].0 == es[i].0 && same_up_to_key_order(es[i].1, fs[j].1);
                    lemma_canon_same_up_to_key_order(es[i].1, fs[j].1);
                }
                lemma_canon_ignores_key_order(es, fs);
            }
        },
        _ => {},
    }
}

/// Orders the keys of every object within `value`, in place (see `canon_spec`).
pub fn sort_object_keys(value: &mut Json)
    requires
        json_wf(old(value)@),
    ensures
        final(value)@ == canon_spec(old(value)@),
{
    let c = canonical_json(value);
    *value = c;
}

/// The word for a value's kind used in messages: `null`, `boolean`, `number`, `string`,
/// `list` or `object`.
pub open spec fn json_kind_spec(j: SpecJson) -> Seq<char> {
    match j {
        SpecJson::Null => "null"@,
        SpecJson::Bool(_) => "boolean"@,
        SpecJson::Number(..) => "number"@,
        SpecJson::Str(_) => "string"@,
        SpecJson::List(_) => "list"@,
        SpecJson::Object(_) => "object"@,
    }
}

pub fn json_kind(value: &Json) -> (r: &'static str)
    ensures
        r@ == json_kind_spec(value@),
{
    match value {
        Json::Null => "null",
        Json::Bool(_) => "boolean",
        Json::Number(_) => "number",
        Json::Str(_) => "string",
        Json::List(_) => "list",
        Json::Object(_) => "object",
    }
}

/// The value of the first entry with key `key`.
pub open spec fn entry_get(es: Seq<(Seq<char>, SpecJson)>, key: Seq<char>) -> Option<SpecJson>
    decreases es.len(),
{
    if es.len() == 0 {
        None
    } else if es[0].0 == key {
        Some(es[0].1)
    } else {
        entry_get(es.drop_first(), key)
    }
}

/// The value of the first entry of `entries` with key `key`.
pub fn object_get<'a>(entries: &'a Vec<(String, Json)>, key: &str) -> (r: Option<&'a Json>)
    ensures
        r matches Some(v) ==> entry_get(json_entries_view(entries@), key@) == Some(v@),
        r is None ==> entry_get(json_entries_view(entries@), key@) is None,
{
    let ghost ev = json_entries_view(entries@);
    let mut i: usize = 0;
    assert(ev.subrange(0, ev.len() as int) =~= ev);
    while i < entries.len()
        invariant
            i <= entries@.len(),
            ev == json_entries_view(entries@),
            entry_get(ev, key@) == entry_get(ev.subrange(i as int, ev.len() as int), key@),
        decreases entries.len() - i,
    {
        let ghost rest = ev.subrange(i as int, ev.len() as int);
        proof {
            assert(rest[0] == ev[i as int]);
            assert(ev[i as int] == (entries@[i as int].0@, entries@[i as int].1@));
            assert(rest.drop_first() =~= ev.subrange(i + 1, ev.len() as int));
        }
        if crate::text::str_eq(entries[i].0.as_str(), key) {
            return Some(&entries[i].1);
        }
        i += 1;
    }
    None
}

/// A deep copy of a value.
pub fn clone_json(value: &Json) -> (r: Json)
    ensures
        r@ == value@,
    decreases *value,
{
    match value {
        Json::Null => Json::Null,
        Json::Bool(b) => Json::Bool(*b),
        Json::Number(n) => Json::Number(n.clone_number()),
        Json::Str(s) => Json::Str(s.clone()),
        Json::List(items) => Json::List(clone_items(items)),
        Json::Object(entries) => Json::Object(clone_entries(entries)),
    }
}

fn clone_items(items: &Vec<Json>) -> (r: Vec<Json>)
    ensures
        json_items_view(r@) == json_items_view(items@),
    decreases *items,
{
    let mut out: Vec<Json> = Vec::new();
    let mut i: usize = 0;
    while i < items.len()
        invariant
            i <= items@.len(),
            out@.len() == i,
            forall|k: int| 0 <= k < i ==> #[trigger] out@[k]@ == items@[k]@,
        decreases items.len() - i,
    {
        proof {
            assert(decreases_to!(*items => items[i as int]));
        }
        out.push(clone_json(&items[i]));
        i += 1;
    }
    proof {
        assert forall|k: int| 0 <= k < out@.len() implies json_items_view(out@)[k] == json_items_view(items@)[k] by {
            assert(out@[k]@ == items@[k]@);
        }
        assert(json_items_view(out@) =~= json_items_view(items@));
    }
    out
}

fn clone_entries(entries: &Vec<(String, Json)>) -> (r: Vec<(String, Json)>)
    ensures
        json_entries_view(r@) == json_entries_view(entries@),
    decreases *entries,
{
    let mut out: Vec<(String, Json)> = Vec::new();
    let mut i: usize = 0;
    while i < entries.len()
        invariant
            i <= entries@.len(),
            out@.len() == i,
            forall|k: int| 0 <= k < i ==> #[trigger] out@[k].0@ == entries@[k].0@ && out@[k].1@ == entries@[k].1@,
        decreases entries.len() - i,
    {
        proof {
            assert(decreases_to!(*entries => entries[i as int]));
        }
        out.push((entries[i].0.clone(), clone_json(&entries[i].1)));
        i += 1;
    }
    proof {
        assert(json_entries_view(out@) =~= json_entries_view(entries@));
    }
    out
}

} // verus!
