//! An association map keyed by `String`, the registry shape used throughout
//! the gateway (device configs, connection states, event histories,
//! subscriber lists). Keys are unique; lookup is by character content.

use vstd::prelude::*;

verus! {

/// The value under `key`, scanning entry views front to back.
pub open spec fn al_get<V>(s: Seq<(String, V)>, key: Seq<char>) -> Option<V>
    decreases s.len(),
{
    if s.len() == 0 {
        None
    } else if s[0].0@ == key {
        Some(s[0].1)
    } else {
        al_get(s.drop_first(), key)
    }
}

/// Whether `key` is bound.
pub open spec fn al_has<V>(s: Seq<(String, V)>, key: Seq<char>) -> bool {
    al_get(s, key) is Some
}

/// Entry keys are pairwise distinct.
pub open spec fn al_unique<V>(s: Seq<(String, V)>) -> bool {
    forall|i: int, j: int| 0 <= i < j < s.len() ==> s[i].0@ != s[j].0@
}

/// A map from device or client identifiers to values, with unique keys.
pub struct AList<V> {
    pub entries: Vec<(String, V)>,
}

impl<V> AList<V> {
    /// The entries, as the map's model.
    pub open spec fn view(&self) -> Seq<(String, V)> {
        self.entries@
    }

    /// Key uniqueness, the type's invariant.
    pub open spec fn wf(&self) -> bool {
        al_unique(self.entries@)
    }

    /// The value bound to `key`.
    pub open spec fn spec_get(&self, key: Seq<char>) -> Option<V> {
        al_get(self.entries@, key)
    }

    pub fn new() -> (r: Self)
        ensures
            r.wf(),
            r@ =~= Seq::<(String, V)>::empty(),
    {
        AList { entries: Vec::new() }
    }

    pub fn len(&self) -> (r: usize)
        ensures
            r == self@.len(),
    {
        self.entries.len()
    }

    /// The position of `key` among the entries, if bound.
    fn index_of(&self, key: &str) -> (r: Option<usize>)
        ensures
            match r {
                Some(i) => {
                    &&& i < self@.len()
                    &&& self@[i as int].0@ == key@
                    &&& self.spec_get(key@) == Some(self@[i as int].1)
                },
                None => self.spec_get(key@) is None,
            },
    {
        let mut i: usize = 0;
        assert(self.entries@.skip(0) =~= self.entries@);
        while i < self.entries.len()
            invariant
                i <= self.entries@.len(),
                al_get(self.entries@, key@) == al_get(self.entries@.skip(i as int), key@),
                forall|j: int| 0 <= j < i ==> self.entries@[j].0@ != key@,
            decreases self.entries@.len() - i,
        {
            assert(self.entries@.skip(i as int).drop_first() =~= self.entries@.skip(i + 1));
            assert(self.entries@.skip(i as int)[0] == self.entries@[i as int]);
            if crate::strutil::str_eq(self.entries[i].0.as_str(), key) {
                return Some(i);
            }
            i += 1;
        }
        None
    }

    pub fn contains_key(&self, key: &str) -> (r: bool)
        ensures
            r == al_has(self@, key@),
    {
        self.index_of(key).is_some()
    }

    pub fn get(&self, key: &str) -> (r: Option<&V>)
        ensures
            match r {
                Some(v) => self.spec_get(key@) == Some(*v),
                None => self.spec_get(key@) is None,
            },
    {
        match self.index_of(key) {
            Some(i) => Some(&self.entries[i].1),
            None => None,
        }
    }

    /// Bind `key` to `value`: replace the bound value in place, or append a
    /// new entry at the back.
    pub fn set(&mut self, key: String, value: V)
        requires
            old(self).wf(),
        ensures
            final(self).wf(),
            final(self).spec_get(key@) == Some(value),
            forall|k: Seq<char>| k != key@ ==>
                final(self).spec_get(k) == old(self).spec_get(k),
            old(self).spec_get(key@) is Some ==> final(self)@.len() == old(self)@.len(),
            old(self).spec_get(key@) is None ==>
                final(self)@ =~= old(self)@.push((key, value)),
    {
        let ghost pre = self.entries@;
        match self.index_of(key.as_str()) {
            Some(i) => {
                let ghost k0 = self.entries@[i as int].0;
                self.entries[i].1 = value;
                proof {
                    assert(self.entries@ =~= pre.update(i as int, (k0, value)));
                    lemma_al_update(pre, i as int, value, key@);
                }
            }
            None => {
                self.entries.push((key, value));
                proof {
                    lemma_al_push(pre, key, value);
                }
            }
        }
    }

    /// Unbind `key` and hand its value out, for callers that put an updated
    /// value back with `set`.
    pub fn take(&mut self, key: &str) -> (r: Option<V>)
        requires
            old(self).wf(),
        ensures
            final(self).wf(),
            r == old(self).spec_get(key@),
            final(self).spec_get(key@) is None,
            forall|k: Seq<char>| k != key@ ==>
                final(self).spec_get(k) == old(self).spec_get(k),
    {
        let ghost pre = self.entries@;
        match self.index_of(key) {
            Some(i) => {
                let entry = self.entries.remove(i);
                proof {
                    assert(self.entries@ =~= pre.remove(i as int));
                    lemma_al_remove(pre, i as int, key@);
                }
                Some(entry.1)
            }
            None => None,
        }
    }

    /// Unbind `key`; the remaining entries keep their order.
    pub fn remove(&mut self, key: &str)
        requires
            old(self).wf(),
        ensures
            final(self).wf(),
            final(self).spec_get(key@) is None,
            forall|k: Seq<char>| k != key@ ==>
                final(self).spec_get(k) == old(self).spec_get(k),
            old(self).spec_get(key@) is None ==> final(self)@ == old(self)@,
            old(self).spec_get(key@) is Some ==> final(self)@.len() == old(self)@.len() - 1,
    {
        let ghost pre = self.entries@;
        match self.index_of(key) {
            Some(i) => {
                self.entries.remove(i);
                proof {
                    assert(self.entries@ =~= pre.remove(i as int));
                    lemma_al_remove(pre, i as int, key@);
                }
            }
            None => {}
        }
    }
}

/// Updating the value at `i` rebinds exactly the key at `i`.
proof fn lemma_al_update<V>(s: Seq<(String, V)>, i: int, value: V, key: Seq<char>)
    requires
        al_unique(s),
        0 <= i < s.len(),
        s[i].0@ == key,
    ensures
        al_unique(s.update(i, (s[i].0, value))),
        al_get(s.update(i, (s[i].0, value)), key) == Some(value),
        forall|k: Seq<char>| k != key ==>
            al_get(s.update(i, (s[i].0, value)), k) == al_get(s, k),
    decreases s.len(),
{
    let t = s.update(i, (s[i].0, value));
    assert(al_unique(t)) by {
        assert(forall|a: int, b: int| 0 <= a < b < t.len() ==> t[a].0@ != t[b].0@) by {
            assert(forall|a: int| 0 <= a < t.len() ==> t[a].0@ == s[a].0@);
        }
    }
    if i == 0 {
        assert(t[0].0@ == key);
        assert(t.drop_first() =~= s.drop_first());
        assert forall|k: Seq<char>| k != key implies al_get(t, k) == al_get(s, k) by {
            assert(t[0].0@ != k && s[0].0@ != k);
        }
    } else {
        assert(t[0] == s[0]);
        assert(s[0].0@ != key);
        assert(t.drop_first() =~= s.drop_first().update(i - 1, (s[i].0, value)));
        assert(s.drop_first()[i - 1] == s[i]);
        lemma_al_remove_unique_sub(s);
        lemma_al_update(s.drop_first(), i - 1, value, key);
        assert forall|k: Seq<char>| k != key implies al_get(t, k) == al_get(s, k) by {
            if t[0].0@ != k {
                assert(al_get(t, k) == al_get(t.drop_first(), k));
                assert(al_get(s, k) == al_get(s.drop_first(), k));
            }
        }
    }
}

/// Dropping the first entry keeps keys unique.
proof fn lemma_al_remove_unique_sub<V>(s: Seq<(String, V)>)
    requires
        al_unique(s),
        s.len() > 0,
    ensures
        al_unique(s.drop_first()),
{
    assert forall|a: int, b: int| 0 <= a < b < s.drop_first().len()
        implies s.drop_first()[a].0@ != s.drop_first()[b].0@ by {
        assert(s.drop_first()[a] == s[a + 1]);
        assert(s.drop_first()[b] == s[b + 1]);
    }
}

/// Appending a fresh key binds it and nothing else.
proof fn lemma_al_push<V>(s: Seq<(String, V)>, key: String, value: V)
    requires
        al_unique(s),
        al_get(s, key@) is None,
    ensures
        al_unique(s.push((key, value))),
        al_get(s.push((key, value)), key@) == Some(value),
        forall|k: Seq<char>| k != key@ ==> al_get(s.push((key, value)), k) == al_get(s, k),
    decreases s.len(),
{
    let t = s.push((key, value));
    lemma_al_absent_when_none(s, key@);
    assert(al_unique(t)) by {
        assert forall|a: int, b: int| 0 <= a < b < t.len() implies t[a].0@ != t[b].0@ by {
            if b < s.len() {
                assert(t[a] == s[a] && t[b] == s[b]);
            } else {
                assert(t[a] == s[a] && t[b] == (key, value));
            }
        }
    }
    if s.len() == 0 {
        assert(t[0] == (key, value));
        assert(t.drop_first() =~= Seq::<(String, V)>::empty());
        assert forall|k: Seq<char>| k != key@ implies al_get(t, k) == al_get(s, k) by {
            assert(al_get(t, k) == al_get(t.drop_first(), k));
        }
    } else {
        assert(t[0] == s[0]);
        assert(s[0].0@ != key@);
        assert(t.drop_first() =~= s.drop_first().push((key, value)));
        lemma_al_remove_unique_sub(s);
        lemma_al_push(s.drop_first(), key, value);
        assert forall|k: Seq<char>| k != key@ implies al_get(t, k) == al_get(s, k) by {
            if t[0].0@ != k {
                assert(al_get(t, k) == al_get(t.drop_first(), k));
                assert(al_get(s, k) == al_get(s.drop_first(), k));
            }
        }
    }
}

/// A `None` lookup means no entry holds the key.
proof fn lemma_al_absent_when_none<V>(s: Seq<(String, V)>, key: Seq<char>)
    requires
        al_get(s, key) is None,
    ensures
        forall|j: int| 0 <= j < s.len() ==> s[j].0@ != key,
    decreases s.len(),
{
    if s.len() > 0 {
        lemma_al_absent_when_none(s.drop_first(), key);
        assert(forall|j: int| 1 <= j < s.len() ==> s[j] == s.drop_first()[j - 1]);
    }
}

/// Removing the entry at `i` unbinds exactly its key.
proof fn lemma_al_remove<V>(s: Seq<(String, V)>, i: int, key: Seq<char>)
    requires
        al_unique(s),
        0 <= i < s.len(),
        s[i].0@ == key,
    ensures
        al_unique(s.remove(i)),
        al_get(s.remove(i), key) is None,
        forall|k: Seq<char>| k != key ==> al_get(s.remove(i), k) == al_get(s, k),
    decreases s.len(),
{
    let t = s.remove(i);
    assert(al_unique(t)) by {
        assert forall|a: int, b: int| 0 <= a < b < t.len() implies t[a].0@ != t[b].0@ by {
            let a2 = if a < i { a } else { a + 1 };
            let b2 = if b < i { b } else { b + 1 };
            assert(t[a] == s[a2] && t[b] == s[b2]);
        }
    }
    if i == 0 {
        assert(t =~= s.drop_first());
        lemma_al_none_when_key_absent(t, key);
        assert forall|k: Seq<char>| k != key implies al_get(t, k) == al_get(s, k) by {
            assert(s[0].0@ != k);
        }
    } else {
        assert(t[0] == s[0]);
        assert(s[0].0@ != key);
        assert(t.drop_first() =~= s.drop_first().remove(i - 1));
        assert(s.drop_first()[i - 1] == s[i]);
        lemma_al_remove_unique_sub(s);
        lemma_al_remove(s.drop_first(), i - 1, key);
        assert forall|k: Seq<char>| k != key implies al_get(t, k) == al_get(s, k) by {
            if t[0].0@ != k {
                assert(al_get(t, k) == al_get(t.drop_first(), k));
                assert(al_get(s, k) == al_get(s.drop_first(), k));
            }
        }
    }
}

/// A key bound nowhere in the entries looks up to `None`.
proof fn lemma_al_none_when_key_absent<V>(s: Seq<(String, V)>, key: Seq<char>)
    requires
        forall|j: int| 0 <= j < s.len() ==> s[j].0@ != key,
    ensures
        al_get(s, key) is None,
    decreases s.len(),
{
    if s.len() > 0 {
        assert(forall|j: int| 0 <= j < s.drop_first().len()
            ==> s.drop_first()[j].0@ != key);
        lemma_al_none_when_key_absent(s.drop_first(), key);
    }
}

} // verus!
