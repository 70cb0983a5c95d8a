//! Association lists keyed by name, and sets of names: the maps and sets of the schema model.
use vstd::prelude::*;

verus! {

/// No two entries share a key.
pub open spec fn keys_distinct<V>(s: Seq<(String, V)>) -> bool {
    forall|i: int, j: int| 0 <= i < j < s.len() ==> s[i].0@ != s[j].0@
}

/// The map an association list stands for: later entries win.
pub open spec fn assoc_view<V: View>(s: Seq<(String, V)>) -> Map<Seq<char>, V::V>
    decreases s.len(),
{
    if s.len() == 0 {
        Map::empty()
    } else {
        assoc_view(s.drop_last()).insert(s.last().0@, s.last().1@)
    }
}

pub proof fn lemma_assoc_dom<V: View>(s: Seq<(String, V)>, k: Seq<char>)
    ensures
        assoc_view(s).contains_key(k) <==> exists|i: int| 0 <= i < s.len() && s[i].0@ == k,
    decreases s.len(),
{
    if s.len() > 0 {
        lemma_assoc_dom(s.drop_last(), k);
        if assoc_view(s).contains_key(k) && k != s.last().0@ {
            let i = choose|i: int| 0 <= i < s.len() - 1 && s.drop_last()[i].0@ == k;
            assert(s[i].0@ == k);
        }
        if exists|i: int| 0 <= i < s.len() && s[i].0@ == k {
            let i = choose|i: int| 0 <= i < s.len() && s[i].0@ == k;
            if i < s.len() - 1 {
                assert(s.drop_last()[i].0@ == k);
            }
        }
    }
}

/// An association list with distinct keys has exactly as many keys as entries.
pub proof fn lemma_assoc_len<V: View>(s: Seq<(String, V)>)
    requires
        keys_distinct(s),
    ensures
        assoc_view(s).dom().finite(),
        assoc_view(s).dom().len() == s.len(),
    decreases s.len(),
{
    if s.len() > 0 {
        let prefix = s.drop_last();
        assert(keys_distinct(prefix)) by {
            assert forall|i: int, j: int| 0 <= i < j < prefix.len() implies prefix[i].0@ != prefix[j].0@ by {
                assert(prefix[i] == s[i] && prefix[j] == s[j]);
            }
        }
        lemma_assoc_len(prefix);
        lemma_assoc_dom(prefix, s.last().0@);
        if assoc_view(prefix).contains_key(s.last().0@) {
            let i = choose|i: int| 0 <= i < prefix.len() && prefix[i].0@ == s.last().0@;
            assert(prefix[i] == s[i]);
            assert(false);
        }
    }
}

pub proof fn lemma_assoc_lookup<V: View>(s: Seq<(String, V)>, i: int)
    requires
        keys_distinct(s),
        0 <= i < s.len(),
    ensures
        assoc_view(s).contains_key(s[i].0@),
        assoc_view(s)[s[i].0@] == s[i].1@,
    decreases s.len(),
{
    if i < s.len() - 1 {
        lemma_assoc_lookup(s.drop_last(), i);
        assert(s.drop_last()[i] == s[i]);
    }
}

pub proof fn lemma_assoc_update<V: View>(s: Seq<(String, V)>, i: int, v: V)
    requires
        keys_distinct(s),
        0 <= i < s.len(),
    ensures
        assoc_view(s.update(i, (s[i].0, v))) == assoc_view(s).insert(s[i].0@, v@),
        keys_distinct(s.update(i, (s[i].0, v))),
    decreases s.len(),
{
    let t = s.update(i, (s[i].0, v));
    if i == s.len() - 1 {
        assert(t.drop_last() =~= s.drop_last());
        lemma_assoc_dom(s.drop_last(), s[i].0@);
        assert(assoc_view(t) =~= assoc_view(s).insert(s[i].0@, v@));
    } else {
        lemma_assoc_update(s.drop_last(), i, v);
        assert(t.drop_last() =~= s.drop_last().update(i, (s[i].0, v)));
        assert(s.last() == t.last());
        assert(assoc_view(t) =~= assoc_view(s).insert(s[i].0@, v@));
    }
}

/// `new` is `old` with the value of an existing entry replaced by `value`, or with
/// `(key, value)` appended.
pub open spec fn upserted<V>(old: Seq<(String, V)>, new: Seq<(String, V)>, key: String, value: V) -> bool {
    ||| exists|i: int| 0 <= i < old.len() && new == old.update(i, (old[i].0, value))
    ||| new == old.push((key, value))
}

/// A property of every value of `old` and of `value` holds of every value of an upsert.
pub proof fn lemma_upsert_preserves<V>(
    old: Seq<(String, V)>,
    new: Seq<(String, V)>,
    key: String,
    value: V,
    p: spec_fn(V) -> bool,
)
    requires
        upserted(old, new, key, value),
        forall|k: int| 0 <= k < old.len() ==> p(#[trigger] old[k].1),
        p(value),
    ensures
        forall|j: int| 0 <= j < new.len() ==> p(#[trigger] new[j].1),
{
    if exists|i: int| 0 <= i < old.len() && new == old.update(i, (old[i].0, value)) {
        let i = choose|i: int| 0 <= i < old.len() && new == old.update(i, (old[i].0, value));
        assert forall|j: int| 0 <= j < new.len() implies p(#[trigger] new[j].1) by {
            if j != i {
                assert(new[j] == old[j]);
            }
        }
    } else {
        assert forall|j: int| 0 <= j < new.len() implies p(#[trigger] new[j].1) by {
            if j < old.len() {
                assert(new[j] == old[j]);
            }
        }
    }
}

/// Position of `key` in `s`, if present.
pub fn assoc_find<V>(s: &Vec<(String, V)>, key: &str) -> (r: Option<usize>)
    ensures
        r matches Some(i) ==> i < s@.len() && s@[i as int].0@ == key@,
        r is None ==> forall|i: int| 0 <= i < s@.len() ==> s@[i].0@ != key@,
{
    let mut i: usize = 0;
    while i < s.len()
        invariant
            i <= s@.len(),
            forall|j: int| 0 <= j < i ==> s@[j].0@ != key@,
        decreases s.len() - i,
    {
        if crate::text::str_eq(s[i].0.as_str(), key) {
            return Some(i);
        }
        i += 1;
    }
    None
}

/// Inserts or replaces the entry for `key`.
pub fn assoc_upsert<V: View>(s: &mut Vec<(String, V)>, key: String, value: V)
    requires
        keys_distinct(old(s)@),
    ensures
        keys_distinct(final(s)@),
        assoc_view(final(s)@) == assoc_view(old(s)@).insert(key@, value@),
        upserted(old(s)@, final(s)@, key, value),
{
    match assoc_find(s, key.as_str()) {
        Some(i) => {
            proof {
                lemma_assoc_update(s@, i as int, value);
            }
            let ghost k0 = s@[i as int].0;
            let old_entry = s.remove(i);
            s.insert(i, (old_entry.0, value));
            proof {
                assert(s@ =~= old(s)@.update(i as int, (k0, value)));
                assert(upserted(old(s)@, s@, key, value));
            }
        },
        None => {
            proof {
                lemma_assoc_dom(s@, key@);
            }
            s.push((key, value));
            proof {
                assert(s@.drop_last() =~= old(s)@);
            }
        },
    }
}

/// The names of `ns`, as character sequences.
pub open spec fn names_view(ns: Seq<String>) -> Seq<Seq<char>> {
    ns.map_values(|s: String| s@)
}

/// A set of names; no name occurs twice.
pub struct NameSet {
    pub names: Vec<String>,
}

impl View for NameSet {
    type V = Set<Seq<char>>;

    open spec fn view(&self) -> Set<Seq<char>> {
        names_view(self.names@).to_set()
    }
}

impl NameSet {
    pub open spec fn wf(&self) -> bool {
        names_view(self.names@).no_duplicates()
    }

    pub fn new() -> (r: NameSet)
        ensures
            r.wf(),
            r@ == Set::<Seq<char>>::empty(),
    {
        let r = NameSet { names: Vec::new() };
        assert(r@ =~= Set::<Seq<char>>::empty());
        r
    }

    /// Whether `name` is a member.
    pub fn contains(&self, name: &str) -> (r: bool)
        ensures
            r == self@.contains(name@),
    {
        let mut i: usize = 0;
        while i < self.names.len()
            invariant
                i <= self.names@.len(),
                forall|j: int| 0 <= j < i ==> self.names@[j]@ != name@,
            decreases self.names.len() - i,
        {
            if crate::text::str_eq(self.names[i].as_str(), name) {
                assert(names_view(self.names@)[i as int] == name@);
                return true;
            }
            i += 1;
        }
        proof {
            if names_view(self.names@).contains(name@) {
                let j = choose|j: int|
                    0 <= j < names_view(self.names@).len() && names_view(self.names@)[j] == name@;
                assert(self.names@[j]@ == name@);
            }
        }
        false
    }

    /// The number of members.
    pub fn len(&self) -> (r: usize)
        requires
            self.wf(),
        ensures
            r == self@.len(),
    {
        proof {
            names_view(self.names@).unique_seq_to_set();
        }
        self.names.len()
    }

    /// Adds `name` if it is not already a member.
    pub fn insert(&mut self, name: String)
        requires
            old(self).wf(),
        ensures
            final(self).wf(),
            final(self)@ == old(self)@.insert(name@),
    {
        if !self.contains(name.as_str()) {
            let ghost before = names_view(self.names@);
            self.names.push(name);
            proof {
                assert(names_view(self.names@) =~= before.push(name@));
                before.lemma_push_to_set_commute(name@);
                assert(names_view(self.names@).to_set() =~= before.to_set().insert(name@));
            }
        } else {
            assert(self@ =~= old(self)@.insert(name@));
        }
    }

    /// Adds every name of `names`.
    pub fn extend(&mut self, names: &Vec<String>)
        requires
            old(self).wf(),
        ensures
            final(self).wf(),
            final(self)@ == old(self)@.union(names_view(names@).to_set()),
    {
        let mut i: usize = 0;
        while i < names.len()
            invariant
                i <= names@.len(),
                self.wf(),
                self@ == old(self)@.union(names_view(names@.subrange(0, i as int)).to_set()),
            decreases names.len() - i,
        {
            self.insert(names[i].clone());
            proof {
                assert(names_view(names@.subrange(0, i + 1)) =~= names_view(
                    names@.subrange(0, i as int),
                ).push(names@[i as int]@));
                names_view(names@.subrange(0, i as int)).lemma_push_to_set_commute(names@[i as int]@);
                assert(names_view(names@.subrange(0, i + 1)).to_set() =~= names_view(
                    names@.subrange(0, i as int),
                ).to_set().insert(names@[i as int]@));
            }
            i += 1;
        }
        proof {
            assert(names@.subrange(0, names@.len() as int) =~= names@);
        }
        assert(self@ =~= old(self)@.union(names_view(names@).to_set()));
    }

    /// Adds every member of `other`.
    pub fn union_with(&mut self, other: &NameSet)
        requires
            old(self).wf(),
        ensures
            final(self).wf(),
            final(self)@ == old(self)@.union(other@),
    {
        self.extend(&other.names);
    }

    /// A copy of this set.
    pub fn clone_set(&self) -> (r: NameSet)
        requires
            self.wf(),
        ensures
            r.wf(),
            r@ == self@,
    {
        let mut r = NameSet::new();
        r.extend(&self.names);
        assert(r@ =~= self@);
        r
    }
}

} // verus!
