//! A small verified association list: string-keyed, order-preserving, with a
//! `Map` view. The configuration store and the typed command matches are both
//! built from it.

use vstd::prelude::*;
use crate::text::str_eq;
use vstd::string::StringExecFns;

verus! {

/// The map described by a key/value entry sequence; later entries win.
pub open spec fn assoc_view<V>(s: Seq<(String, V)>) -> Map<Seq<char>, V>
    decreases s.len(),
{
    if s.len() == 0 {
        Map::empty()
    } else {
        assoc_view(s.drop_last()).insert(s.last().0@, s.last().1)
    }
}

/// No two entries share a key.
pub open spec fn keys_distinct<V>(s: Seq<(String, V)>) -> bool {
    forall|i: int, j: int| 0 <= i < j < s.len() ==> (#[trigger] s[i]).0@ != (#[trigger] s[j]).0@
}

/// A key is in the map exactly when some entry carries it.
pub proof fn lemma_assoc_contains<V>(s: Seq<(String, V)>, k: Seq<char>)
    ensures
        assoc_view(s).contains_key(k) <==> exists|i: int| 0 <= i < s.len() && (#[trigger] s[i]).0@
            == k,
    decreases s.len(),
{
    if s.len() > 0 {
        lemma_assoc_contains(s.drop_last(), k);
        assert(forall|i: int|
            0 <= i < s.len() - 1 ==> (#[trigger] s[i]).0@ == (s.drop_last()[i]).0@);
        if s.last().0@ == k {
            assert((s[s.len() - 1]).0@ == k);
        } else if assoc_view(s).contains_key(k) {
            let i = choose|i: int| 0 <= i < s.len() - 1 && (#[trigger] s.drop_last()[i]).0@ == k;
            assert((s[i]).0@ == k);
        } else {
            if exists|i: int| 0 <= i < s.len() && (#[trigger] s[i]).0@ == k {
                let i = choose|i: int| 0 <= i < s.len() && (#[trigger] s[i]).0@ == k;
                assert(i < s.len() - 1);
                assert((s.drop_last()[i]).0@ == k);
            }
        }
    }
}

/// With distinct keys, the entry that carries a key decides its value.
pub proof fn lemma_assoc_at<V>(s: Seq<(String, V)>, i: int)
    requires
        keys_distinct(s),
        0 <= i < s.len(),
    ensures
        assoc_view(s).contains_key((s[i]).0@),
        assoc_view(s)[(s[i]).0@] == (s[i]).1,
    decreases s.len(),
{
    if i == s.len() - 1 {
    } else {
        assert(keys_distinct(s.drop_last())) by {
            assert(forall|a: int, b: int|
                0 <= a < b < s.len() - 1 ==> ((#[trigger] s.drop_last()[a]).0@ == (s[a]).0@
                    && (#[trigger] s.drop_last()[b]).0@ == (s[b]).0@));
        }
        assert(s.drop_last()[i] == s[i]);
        lemma_assoc_at(s.drop_last(), i);
        assert((s.last()).0@ != (s[i]).0@);
    }
}

/// An order-preserving list of key/value entries with unique keys.
#[derive(Debug)]
pub struct AssocList<V> {
    entries: Vec<(String, V)>,
}

impl<V> View for AssocList<V> {
    type V = Map<Seq<char>, V>;

    closed spec fn view(&self) -> Map<Seq<char>, V> {
        assoc_view(self.entries@)
    }
}

impl<V> AssocList<V> {
    /// Keys are pairwise distinct; every operation preserves this.
    pub closed spec fn wf(&self) -> bool {
        keys_distinct(self.entries@)
    }

    /// How many entries the list holds.
    pub closed spec fn spec_len(&self) -> nat {
        self.entries@.len()
    }

    /// The key of the entry at position `i`.
    pub closed spec fn spec_key(&self, i: int) -> Seq<char> {
        (self.entries@[i]).0@
    }

    /// The value of the entry at position `i`.
    pub closed spec fn spec_value(&self, i: int) -> V {
        (self.entries@[i]).1
    }

    /// Each held entry is in the map, under its own key.
    pub proof fn lemma_entry(&self, i: int)
        requires
            self.wf(),
            0 <= i < self.spec_len(),
        ensures
            self@.contains_key(self.spec_key(i)),
            self@[self.spec_key(i)] == self.spec_value(i),
    {
        lemma_assoc_at(self.entries@, i);
    }

    /// Every key in the map is the key of some entry.
    pub proof fn lemma_contained_key_has_entry(&self, k: Seq<char>)
        requires
            self@.contains_key(k),
        ensures
            exists|i: int| 0 <= i < self.spec_len() && #[trigger] self.spec_key(i) == k,
    {
        lemma_assoc_contains(self.entries@, k);
        let i = choose|i: int| 0 <= i < self.entries@.len() && (#[trigger] self.entries@[i]).0@
            == k;
        assert(self.spec_key(i) == k);
    }

    /// An empty list.
    pub fn new() -> (r: Self)
        ensures
            r.wf(),
            r@ == Map::<Seq<char>, V>::empty(),
            r.spec_len() == 0,
    {
        AssocList { entries: Vec::new() }
    }

    /// The number of entries.
    pub fn len(&self) -> (n: usize)
        ensures
            n == self.spec_len(),
    {
        self.entries.len()
    }

    /// The key at position `i`, for walking the list in order.
    pub fn key_at(&self, i: usize) -> (k: &String)
        requires
            i < self.spec_len(),
        ensures
            k@ == self.spec_key(i as int),
    {
        &self.entries[i].0
    }

    /// The value at position `i`, for walking the list in order.
    pub fn value_at(&self, i: usize) -> (v: &V)
        requires
            i < self.spec_len(),
        ensures
            *v == self.spec_value(i as int),
    {
        &self.entries[i].1
    }

    /// Looks a key up.
    pub fn get<'a>(&'a self, key: &str) -> (r: Option<&'a V>)
        requires
            self.wf(),
        ensures
            match r {
                Some(v) => self@.contains_key(key@) && *v == self@[key@],
                None => !self@.contains_key(key@),
            },
    {
        let n = self.entries.len();
        let mut i: usize = 0;
        while i < n
            invariant
                n == self.entries@.len(),
                i <= n,
                self.wf(),
                forall|j: int| 0 <= j < i ==> (#[trigger] self.entries@[j]).0@ != key@,
            decreases n - i,
        {
            if str_eq(self.entries[i].0.as_str(), key) {
                proof {
                    lemma_assoc_at(self.entries@, i as int);
                }
                return Some(&self.entries[i].1);
            }
            i += 1;
        }
        proof {
            lemma_assoc_contains(self.entries@, key@);
        }
        None
    }

    /// Binds a key to a value, replacing any earlier binding.
    pub fn set(&mut self, key: &str, value: V)
        requires
            old(self).wf(),
        ensures
            final(self).wf(),
            final(self)@ == old(self)@.insert(key@, value),
    {
        let n = self.entries.len();
        let mut i: usize = 0;
        while i < n
            invariant
                n == self.entries@.len(),
                i <= n,
                self.wf(),
                self.entries@ == old(self).entries@,
                forall|j: int| 0 <= j < i ==> (#[trigger] self.entries@[j]).0@ != key@,
            decreases n - i,
        {
            if str_eq(self.entries[i].0.as_str(), key) {
                let owned = String::from_str(key);
                self.entries[i] = (owned, value);
                proof {
                    lemma_assoc_update(old(self).entries@, i as int, self.entries@[i as int]);
                }
                return ;
            }
            i += 1;
        }
        let owned = String::from_str(key);
        self.entries.push((owned, value));
        proof {
            assert(self.entries@.drop_last() =~= old(self).entries@);
            assert(forall|a: int, b: int|
                0 <= a < b < self.entries@.len() ==> (#[trigger] self.entries@[a]).0@
                    != (#[trigger] self.entries@[b]).0@) by {
                assert(forall|a: int|
                    0 <= a < old(self).entries@.len() ==> (#[trigger] self.entries@[a])
                        == old(self).entries@[a]);
            }
        }
    }
}

impl<V> AssocList<V> {
    /// Decides well-formedness for a list of unknown provenance.
    pub fn check_wf(&self) -> (r: bool)
        ensures
            r == self.wf(),
    {
        let n = self.entries.len();
        let mut i: usize = 0;
        while i < n
            invariant
                n == self.entries@.len(),
                i <= n,
                forall|a: int, b: int|
                    0 <= a < b < n && a < i ==> (#[trigger] self.entries@[a]).0@
                        != (#[trigger] self.entries@[b]).0@,
            decreases n - i,
        {
            let mut j: usize = i + 1;
            while j < n
                invariant
                    n == self.entries@.len(),
                    i < j <= n,
                    forall|b: int|
                        i < b < j ==> (#[trigger] self.entries@[b]).0@ != self.entries@[i as int].0@,
                decreases n - j,
            {
                if str_eq(self.entries[i].0.as_str(), self.entries[j].0.as_str()) {
                    return false;
                }
                j += 1;
            }
            i += 1;
        }
        true
    }

    /// Removes a key's entry and hands its value out.
    pub fn take(&mut self, key: &str) -> (r: Option<V>)
        requires
            old(self).wf(),
        ensures
            final(self).wf(),
            match r {
                Some(v) => old(self)@.contains_key(key@) && v == old(self)@[key@] && final(self)@
                    == old(self)@.remove(key@),
                None => !old(self)@.contains_key(key@) && final(self)@ == old(self)@,
            },
    {
        let n = self.entries.len();
        let mut i: usize = 0;
        while i < n
            invariant
                n == self.entries@.len(),
                i <= n,
                self.wf(),
                self.entries@ == old(self).entries@,
                forall|j: int| 0 <= j < i ==> (#[trigger] self.entries@[j]).0@ != key@,
            decreases n - i,
        {
            if str_eq(self.entries[i].0.as_str(), key) {
                proof {
                    lemma_assoc_at(self.entries@, i as int);
                    lemma_assoc_remove(self.entries@, i as int);
                }
                let pair = self.entries.remove(i);
                return Some(pair.1);
            }
            i += 1;
        }
        proof {
            lemma_assoc_contains(self.entries@, key@);
        }
        None
    }
}

/// Dropping the entry that carries a key is a removal on the map.
proof fn lemma_assoc_remove<V>(s: Seq<(String, V)>, i: int)
    requires
        keys_distinct(s),
        0 <= i < s.len(),
    ensures
        keys_distinct(s.remove(i)),
        assoc_view(s.remove(i)) == assoc_view(s).remove((s[i]).0@),
    decreases s.len(),
{
    let t = s.remove(i);
    assert(forall|a: int| 0 <= a < i ==> #[trigger] t[a] == s[a]);
    assert(forall|a: int| i <= a < t.len() ==> #[trigger] t[a] == s[a + 1]);
    assert(keys_distinct(t));
    if i == s.len() - 1 {
        assert(t =~= s.drop_last());
        lemma_assoc_not_contained(s.drop_last(), (s[i]).0@);
        assert(assoc_view(s) == assoc_view(s.drop_last()).insert(s.last().0@, s.last().1));
        assert(assoc_view(s).remove((s[i]).0@) =~= assoc_view(s.drop_last()));
    } else {
        assert(keys_distinct(s.drop_last())) by {
            assert(forall|a: int, b: int|
                0 <= a < b < s.len() - 1 ==> ((#[trigger] s.drop_last()[a]).0@ == (s[a]).0@
                    && (#[trigger] s.drop_last()[b]).0@ == (s[b]).0@));
        }
        assert(s.drop_last()[i] == s[i]);
        lemma_assoc_remove(s.drop_last(), i);
        assert(t.drop_last() =~= s.drop_last().remove(i));
        assert(t.last() == s.last());
        assert(assoc_view(t) == assoc_view(s.drop_last()).remove((s[i]).0@).insert(
            s.last().0@,
            s.last().1,
        ));
        assert((s.last()).0@ != (s[i]).0@);
        assert(assoc_view(s.drop_last()).remove((s[i]).0@).insert(s.last().0@, s.last().1)
            =~= assoc_view(s.drop_last()).insert(s.last().0@, s.last().1).remove((s[i]).0@));
    }
}

/// A key carried by no entry is not in the map.
proof fn lemma_assoc_not_contained<V>(s: Seq<(String, V)>, k: Seq<char>)
    requires
        forall|i: int| 0 <= i < s.len() ==> (#[trigger] s[i]).0@ != k,
    ensures
        !assoc_view(s).contains_key(k),
{
    lemma_assoc_contains(s, k);
}

/// Updating the entry that carries a key is an insertion on the map.
proof fn lemma_assoc_update<V>(s: Seq<(String, V)>, i: int, p: (String, V))
    requires
        keys_distinct(s),
        0 <= i < s.len(),
        p.0@ == (s[i]).0@,
    ensures
        keys_distinct(s.update(i, p)),
        assoc_view(s.update(i, p)) == assoc_view(s).insert(p.0@, p.1),
    decreases s.len(),
{
    let t = s.update(i, p);
    assert(forall|a: int|
        0 <= a < s.len() ==> (#[trigger] t[a]).0@ == (s[a]).0@);
    assert(keys_distinct(t));
    if i == s.len() - 1 {
        assert(t.drop_last() =~= s.drop_last());
        assert(t.last() == p);
        assert(assoc_view(t) == assoc_view(s.drop_last()).insert(p.0@, p.1));
        assert(assoc_view(s).insert(p.0@, p.1) =~= assoc_view(s.drop_last()).insert(p.0@, p.1));
    } else {
        assert(keys_distinct(s.drop_last())) by {
            assert(forall|a: int, b: int|
                0 <= a < b < s.len() - 1 ==> ((#[trigger] s.drop_last()[a]).0@ == (s[a]).0@
                    && (#[trigger] s.drop_last()[b]).0@ == (s[b]).0@));
        }
        assert(s.drop_last()[i] == s[i]);
        lemma_assoc_update(s.drop_last(), i, p);
        assert(t.drop_last() =~= s.drop_last().update(i, p));
        assert(t.last() == s.last());
        assert(assoc_view(t) == assoc_view(s.drop_last()).insert(p.0@, p.1).insert(
            s.last().0@,
            s.last().1,
        ));
        assert((s.last()).0@ != p.0@);
        assert(assoc_view(s.drop_last()).insert(p.0@, p.1).insert(s.last().0@, s.last().1)
            =~= assoc_view(s.drop_last()).insert(s.last().0@, s.last().1).insert(p.0@, p.1));
    }
}

} // verus!
