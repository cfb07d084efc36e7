//! Maps from text to values, kept as a list of entries in the order of their keys.
use vstd::prelude::*;

use crate::text::{less_text, text_eq, text_less};
use crate::text::{text_less_irreflexive, text_less_total, text_less_transitive};

verus! {

// ---------------------------------------------------------------------------
// The model: a sequence of entries
// ---------------------------------------------------------------------------

/// The value at a key: that of the first entry with the key.
pub open spec fn assoc<T>(m: Seq<(Seq<char>, T)>, key: Seq<char>) -> Option<T>
    decreases m.len(),
{
    if m.len() == 0 {
        None
    } else if m[0].0 == key {
        Some(m[0].1)
    } else {
        assoc(m.skip(1), key)
    }
}

/// The entries after a value was put at a key: in place of the first entry with
/// the key, else in front of the first entry with a greater key.
pub open spec fn assoc_insert<T>(m: Seq<(Seq<char>, T)>, key: Seq<char>, v: T) -> Seq<
    (Seq<char>, T),
>
    decreases m.len(),
{
    if m.len() == 0 {
        seq![(key, v)]
    } else if m[0].0 == key {
        m.update(0, (key, v))
    } else if text_less(key, m[0].0) {
        seq![(key, v)] + m
    } else {
        seq![m[0]] + assoc_insert(m.skip(1), key, v)
    }
}

/// The entries with another value in the first entry that has the key.
pub open spec fn assoc_update<T>(m: Seq<(Seq<char>, T)>, key: Seq<char>, v: T) -> Seq<
    (Seq<char>, T),
>
    decreases m.len(),
{
    if m.len() == 0 {
        m
    } else if m[0].0 == key {
        m.update(0, (key, v))
    } else {
        seq![m[0]] + assoc_update(m.skip(1), key, v)
    }
}

/// The keys of the entries, in order.
pub open spec fn keys_of<T>(m: Seq<(Seq<char>, T)>) -> Seq<Seq<char>> {
    Seq::new(m.len(), |i: int| m[i].0)
}

/// Whether every key is less than every later key, so that no key occurs twice.
pub open spec fn sorted<T>(m: Seq<(Seq<char>, T)>) -> bool {
    forall|i: int, j: int| 0 <= i < j < m.len() ==> text_less(#[trigger] m[i].0, #[trigger] m[j].0)
}

/// A value that was put at a key is found there, and the other keys keep theirs.
pub proof fn assoc_after_insert<T>(m: Seq<(Seq<char>, T)>, key: Seq<char>, v: T, other: Seq<char>)
    ensures
        assoc(assoc_insert(m, key, v), other) == (if other == key {
            Some(v)
        } else {
            assoc(m, other)
        }),
    decreases m.len(),
{
    let r = assoc_insert(m, key, v);
    if m.len() == 0 {
        assert(r.skip(1) =~= m);
    } else if m[0].0 == key {
        assert(r.skip(1) =~= m.skip(1));
    } else if text_less(key, m[0].0) {
        assert(r.skip(1) =~= m);
    } else {
        assoc_after_insert(m.skip(1), key, v, other);
        assert(r.skip(1) =~= assoc_insert(m.skip(1), key, v));
    }
}

/// A changed value is found at its key, the other keys keep theirs, and no key
/// comes or goes.
pub proof fn assoc_after_update<T>(m: Seq<(Seq<char>, T)>, key: Seq<char>, v: T, other: Seq<char>)
    ensures
        assoc(assoc_update(m, key, v), other) == (if other == key && assoc(m, key) is Some {
            Some(v)
        } else {
            assoc(m, other)
        }),
        keys_of(assoc_update(m, key, v)) == keys_of(m),
    decreases m.len(),
{
    let r = assoc_update(m, key, v);
    if m.len() == 0 {
    } else if m[0].0 == key {
        assert(r.skip(1) =~= m.skip(1));
        assert(keys_of(r) =~= keys_of(m));
    } else {
        assoc_after_update(m.skip(1), key, v, other);
        assert(r.skip(1) =~= assoc_update(m.skip(1), key, v));
        assert(keys_of(r) =~= seq![m[0].0] + keys_of(r.skip(1)));
        assert(keys_of(m) =~= seq![m[0].0] + keys_of(m.skip(1)));
    }
}

/// Changing the value at a key of sorted entries is putting the value there.
pub proof fn update_is_insert<T>(m: Seq<(Seq<char>, T)>, key: Seq<char>, v: T)
    requires
        sorted(m),
        assoc(m, key) is Some,
    ensures
        assoc_update(m, key, v) == assoc_insert(m, key, v),
        sorted(assoc_update(m, key, v)),
    decreases m.len(),
{
    insert_keeps_sorted(m, key, v);
    if m[0].0 != key {
        sorted_skip(m);
        assoc_some_iff(m.skip(1), key);
        let j = choose|j: int| 0 <= j < m.skip(1).len() && (#[trigger] m.skip(1)[j]).0 == key;
        assert(text_less(m[0].0, m[j + 1].0));
        if text_less(key, m[0].0) {
            text_less_transitive(key, m[0].0, key);
            text_less_irreflexive(key);
        }
        update_is_insert(m.skip(1), key, v);
    }
}

/// Where no entry has the key, nothing is found there.
pub proof fn assoc_none<T>(m: Seq<(Seq<char>, T)>, key: Seq<char>)
    requires
        forall|i: int| 0 <= i < m.len() ==> (#[trigger] m[i]).0 != key,
    ensures
        assoc(m, key) is None,
    decreases m.len(),
{
    if m.len() > 0 {
        assert forall|i: int| 0 <= i < m.skip(1).len() implies (#[trigger] m.skip(1)[i]).0
            != key by {
            assert(m.skip(1)[i] == m[i + 1]);
        }
        assoc_none(m.skip(1), key);
    }
}

/// A value is found at a key exactly where some entry has the key.
pub proof fn assoc_some_iff<T>(m: Seq<(Seq<char>, T)>, key: Seq<char>)
    ensures
        assoc(m, key) is Some <==> exists|i: int| 0 <= i < m.len() && (#[trigger] m[i]).0 == key,
    decreases m.len(),
{
    if m.len() > 0 {
        if m[0].0 == key {
        } else {
            assoc_some_iff(m.skip(1), key);
            if assoc(m, key) is Some {
                let j = choose|j: int|
                    0 <= j < m.skip(1).len() && (#[trigger] m.skip(1)[j]).0 == key;
                assert(m[j + 1].0 == key);
            }
            if exists|i: int| 0 <= i < m.len() && (#[trigger] m[i]).0 == key {
                let i = choose|i: int| 0 <= i < m.len() && (#[trigger] m[i]).0 == key;
                assert(m.skip(1)[i - 1].0 == key);
            }
        }
    }
}

/// In sorted entries each entry is the one found at its key.
pub proof fn assoc_of_entry<T>(m: Seq<(Seq<char>, T)>, i: int)
    requires
        sorted(m),
        0 <= i < m.len(),
    ensures
        assoc(m, m[i].0) == Some(m[i].1),
    decreases m.len(),
{
    if i > 0 {
        assert(text_less(m[0].0, m[i].0));
        text_less_irreflexive(m[0].0);
        sorted_skip(m);
        assoc_of_entry(m.skip(1), i - 1);
    }
}

proof fn sorted_skip<T>(m: Seq<(Seq<char>, T)>)
    requires
        sorted(m),
        m.len() > 0,
    ensures
        sorted(m.skip(1)),
{
    let s = m.skip(1);
    assert forall|i: int, j: int| 0 <= i < j < s.len() implies text_less(
        #[trigger] s[i].0,
        #[trigger] s[j].0,
    ) by {
        assert(text_less(m[i + 1].0, m[j + 1].0));
    }
}

/// Putting a value at a key keeps the entries sorted.
pub proof fn insert_keeps_sorted<T>(m: Seq<(Seq<char>, T)>, key: Seq<char>, v: T)
    requires
        sorted(m),
    ensures
        sorted(assoc_insert(m, key, v)),
        forall|low: Seq<char>|
            text_less(low, key) && (forall|i: int|
                0 <= i < m.len() ==> text_less(low, (#[trigger] m[i]).0)) ==> (forall|i: int|
                0 <= i < assoc_insert(m, key, v).len() ==> #[trigger] text_less(
                    low,
                    assoc_insert(m, key, v)[i].0,
                )),
    decreases m.len(),
{
    let r = assoc_insert(m, key, v);
    if m.len() == 0 {
    } else if m[0].0 == key {
        assert forall|i: int, j: int| 0 <= i < j < r.len() implies text_less(
            #[trigger] r[i].0,
            #[trigger] r[j].0,
        ) by {
            assert(text_less(m[i].0, m[j].0));
        }
        assert forall|low: Seq<char>|
            text_less(low, key) && (forall|i: int|
                0 <= i < m.len() ==> text_less(low, (#[trigger] m[i]).0)) implies (forall|i: int|
            0 <= i < r.len() ==> #[trigger] text_less(low, r[i].0)) by {
            assert forall|i: int| 0 <= i < r.len() implies #[trigger] text_less(low, r[i].0) by {
                assert(text_less(low, m[i].0));
            }
        }
    } else if text_less(key, m[0].0) {
        assert forall|i: int, j: int| 0 <= i < j < r.len() implies text_less(
            #[trigger] r[i].0,
            #[trigger] r[j].0,
        ) by {
            if i == 0 {
                if j > 1 {
                    assert(text_less(m[0].0, m[j - 1].0));
                    text_less_transitive(key, m[0].0, m[j - 1].0);
                }
            } else {
                assert(text_less(m[i - 1].0, m[j - 1].0));
            }
        }
        assert forall|low: Seq<char>|
            text_less(low, key) && (forall|i: int|
                0 <= i < m.len() ==> text_less(low, (#[trigger] m[i]).0)) implies (forall|i: int|
            0 <= i < r.len() ==> #[trigger] text_less(low, r[i].0)) by {
            assert forall|i: int| 0 <= i < r.len() implies #[trigger] text_less(low, r[i].0) by {
                if i > 0 {
                    assert(text_less(low, m[i - 1].0));
                }
            }
        }
    } else {
        text_less_total(key, m[0].0);
        sorted_skip(m);
        insert_keeps_sorted(m.skip(1), key, v);
        let rest = assoc_insert(m.skip(1), key, v);
        assert forall|i: int| 0 <= i < m.skip(1).len() implies text_less(
            m[0].0,
            (#[trigger] m.skip(1)[i]).0,
        ) by {
            assert(text_less(m[0].0, m[i + 1].0));
        }
        assert forall|i: int| 0 <= i < rest.len() implies #[trigger] text_less(
            m[0].0,
            rest[i].0,
        ) by {}
        assert forall|i: int, j: int| 0 <= i < j < r.len() implies text_less(
            #[trigger] r[i].0,
            #[trigger] r[j].0,
        ) by {
            if i == 0 {
                assert(text_less(m[0].0, rest[j - 1].0));
            } else {
                assert(text_less(rest[i - 1].0, rest[j - 1].0));
            }
        }
        assert forall|low: Seq<char>|
            text_less(low, key) && (forall|i: int|
                0 <= i < m.len() ==> text_less(low, (#[trigger] m[i]).0)) implies (forall|i: int|
            0 <= i < r.len() ==> #[trigger] text_less(low, r[i].0)) by {
            assert forall|i: int| 0 <= i < m.skip(1).len() implies text_less(
                low,
                (#[trigger] m.skip(1)[i]).0,
            ) by {
                assert(text_less(low, m[i + 1].0));
            }
            assert forall|i: int| 0 <= i < r.len() implies #[trigger] text_less(low, r[i].0) by {
                if i > 0 {
                    assert(text_less(low, rest[i - 1].0));
                } else {
                    assert(text_less(low, m[0].0));
                }
            }
        }
    }
}

/// Changing a value keeps the entries sorted.
pub proof fn update_keeps_sorted<T>(m: Seq<(Seq<char>, T)>, key: Seq<char>, v: T)
    requires
        sorted(m),
    ensures
        sorted(assoc_update(m, key, v)),
{
    let r = assoc_update(m, key, v);
    assoc_after_update(m, key, v, key);
    assert(keys_of(r).len() == r.len());
    assert(keys_of(m).len() == m.len());
    assert forall|i: int, j: int| 0 <= i < j < r.len() implies text_less(
        #[trigger] r[i].0,
        #[trigger] r[j].0,
    ) by {
        assert(keys_of(r)[i] == keys_of(m)[i]);
        assert(keys_of(r)[j] == keys_of(m)[j]);
        assert(text_less(m[i].0, m[j].0));
    }
}

proof fn update_at<T>(m: Seq<(Seq<char>, T)>, key: Seq<char>, i: int)
    requires
        0 <= i < m.len(),
        m[i].0 == key,
        forall|j: int| 0 <= j < i ==> (#[trigger] m[j]).0 != key,
    ensures
        forall|v: T| #[trigger] assoc_update(m, key, v) == m.update(i, (key, v)),
    decreases m.len(),
{
    assert forall|v: T| #[trigger] assoc_update(m, key, v) == m.update(i, (key, v)) by {
        if i > 0 {
            let s = m.skip(1);
            assert forall|j: int| 0 <= j < i - 1 implies (#[trigger] s[j]).0 != key by {
                assert(m[j + 1].0 != key);
            }
            update_at(s, key, i - 1);
            assert(m[0].0 != key);
            assert(assoc_update(s, key, v) == s.update(i - 1, (key, v)));
            assert(seq![m[0]] + s.update(i - 1, (key, v)) =~= m.update(i, (key, v)));
        }
    }
}

// ---------------------------------------------------------------------------
// The map
// ---------------------------------------------------------------------------

/// A value that can be copied: the copy has the same view.
pub trait Duplicate: View + Sized {
    /// The copy.
    fn duplicate(&self) -> (r: Self)
        ensures
            r@ == self@,
    ;
}

impl Duplicate for String {
    fn duplicate(&self) -> (r: String) {
        self.clone()
    }
}

/// A map from text to values. Its entries stand in the order of their keys.
#[derive(Debug)]
pub struct StringMap<V> {
    /// The entries.
    pub entries: Vec<(String, V)>,
}

impl<V: View> View for StringMap<V> {
    type V = Seq<(Seq<char>, V::V)>;

    open spec fn view(&self) -> Seq<(Seq<char>, V::V)> {
        Seq::new(self.entries@.len(), |i: int| (self.entries@[i].0@, self.entries@[i].1@))
    }
}

impl<V: View> StringMap<V> {
    /// Whether the entries stand in the order of their keys, each key once.
    pub open spec fn wf(&self) -> bool {
        sorted(self@)
    }

    /// A map without entries.
    pub fn new() -> (r: Self)
        ensures
            r@ == Seq::<(Seq<char>, V::V)>::empty(),
            r.wf(),
    {
        let r = StringMap { entries: Vec::new() };
        proof {
            assert(r@ =~= Seq::<(Seq<char>, V::V)>::empty());
        }
        r
    }

    /// The number of entries.
    pub fn len(&self) -> (r: usize)
        ensures
            r == self@.len(),
    {
        self.entries.len()
    }

    /// Whether there are no entries.
    pub fn is_empty(&self) -> (r: bool)
        ensures
            r == (self@.len() == 0),
    {
        self.entries.len() == 0
    }

    /// The key of an entry.
    pub fn key_at(&self, i: usize) -> (r: &str)
        requires
            i < self@.len(),
        ensures
            r@ == self@[i as int].0,
    {
        self.entries[i].0.as_str()
    }

    /// The value of an entry.
    pub fn value_at(&self, i: usize) -> (r: &V)
        requires
            i < self@.len(),
        ensures
            r@ == self@[i as int].1,
            *r == self.entries@[i as int].1,
    {
        &self.entries[i].1
    }

    fn position(&self, key: &str) -> (r: Option<usize>)
        ensures
            match r {
                Some(i) => i < self@.len() && self@[i as int].0 == key@ && (forall|j: int|
                    0 <= j < i ==> (#[trigger] self@[j]).0 != key@) && assoc(self@, key@) == Some(
                    self@[i as int].1,
                ),
                None => assoc(self@, key@) is None,
            },
    {
        let mut i: usize = 0;
        proof {
            assert(self@.skip(0) =~= self@);
        }
        while i < self.entries.len()
            invariant
                i <= self@.len(),
                forall|j: int| 0 <= j < i ==> (#[trigger] self@[j]).0 != key@,
                assoc(self@, key@) == assoc(self@.skip(i as int), key@),
            decreases self@.len() - i,
        {
            if text_eq(self.entries[i].0.as_str(), key) {
                return Some(i);
            }
            proof {
                assert(self@.skip(i as int).skip(1) =~= self@.skip(i + 1));
            }
            i = i + 1;
        }
        None
    }

    /// The value at a key.
    pub fn get(&self, key: &str) -> (r: Option<&V>)
        ensures
            match r {
                Some(v) => assoc(self@, key@) == Some(v@),
                None => assoc(self@, key@) is None,
            },
    {
        match self.position(key) {
            Some(i) => Some(&self.entries[i].1),
            None => None,
        }
    }

    /// The value at a key, to be changed in place.
    pub fn get_mut(&mut self, key: &str) -> (r: Option<&mut V>)
        ensures
            match r {
                Some(v) => {
                    &&& assoc(old(self)@, key@) == Some((*v)@)
                    &&& final(self)@ == assoc_update(old(self)@, key@, (*final(v))@)
                },
                None => assoc(old(self)@, key@) is None && *final(self) == *old(self),
            },
    {
        match self.position(key) {
            Some(i) => {
                let ghost m = self@;
                proof {
                    update_at(m, key@, i as int);
                }
                Some(&mut self.entries[i].1)
            },
            None => None,
        }
    }

    /// Whether some entry has the key.
    pub fn contains_key(&self, key: &str) -> (r: bool)
        ensures
            r == (assoc(self@, key@) is Some),
    {
        self.position(key).is_some()
    }

    /// Puts a value at a key.
    pub fn insert(&mut self, key: String, value: V)
        ensures
            final(self)@ == assoc_insert(old(self)@, key@, value@),
            old(self).wf() ==> final(self).wf(),
    {
        let ghost m = self@;
        let ghost k = key@;
        let ghost v = value@;
        proof {
            if sorted(m) {
                insert_keeps_sorted(m, k, v);
            }
            assert(m.skip(0) =~= m);
            assert(m.take(0) + assoc_insert(m.skip(0), k, v) =~= assoc_insert(m, k, v));
        }
        let mut i: usize = 0;
        while i < self.entries.len()
            invariant
                *self == *old(self),
                i <= self@.len(),
                m == self@,
                k == key@,
                v == value@,
                assoc_insert(m, k, v) == m.take(i as int) + assoc_insert(m.skip(i as int), k, v),
                sorted(m) ==> sorted(assoc_insert(m, k, v)),
            decreases self@.len() - i,
        {
            if text_eq(self.entries[i].0.as_str(), key.as_str()) {
                self.entries.set(i, (key, value));
                proof {
                    assert(self@ =~= m.update(i as int, (k, v)));
                    assert(self@ =~= m.take(i as int) + m.skip(i as int).update(0, (k, v)));
                }
                return ;
            }
            if less_text(key.as_str(), self.entries[i].0.as_str()) {
                self.entries.insert(i, (key, value));
                proof {
                    assert(self@ =~= m.insert(i as int, (k, v)));
                    assert(self@ =~= m.take(i as int) + (seq![(k, v)] + m.skip(i as int)));
                }
                return ;
            }
            proof {
                let tail = assoc_insert(m.skip(i + 1), k, v);
                assert(m.skip(i as int).skip(1) =~= m.skip(i + 1));
                assert(m.take(i as int) + (seq![m[i as int]] + tail) =~= m.take(i + 1) + tail);
            }
            i = i + 1;
        }
        self.entries.push((key, value));
        proof {
            assert(self@ =~= m.take(i as int) + seq![(k, v)]);
        }
    }

    /// The keys, in order.
    pub fn keys(&self) -> (r: Vec<String>)
        ensures
            crate::text::texts(r@) == keys_of(self@),
    {
        let mut out: Vec<String> = Vec::new();
        let mut i: usize = 0;
        while i < self.entries.len()
            invariant
                i <= self@.len(),
                out@.len() == i,
                forall|j: int| 0 <= j < i ==> (#[trigger] out@[j])@ == self@[j].0,
            decreases self@.len() - i,
        {
            out.push(self.entries[i].0.clone());
            i = i + 1;
        }
        proof {
            assert(crate::text::texts(out@) =~= keys_of(self@));
        }
        out
    }
}

impl<V: Duplicate> Duplicate for StringMap<V> {
    fn duplicate(&self) -> (r: StringMap<V>) {
        let mut out: Vec<(String, V)> = Vec::new();
        let mut i: usize = 0;
        while i < self.entries.len()
            invariant
                i <= self@.len(),
                out@.len() == i,
                forall|j: int|
                    0 <= j < i ==> (#[trigger] out@[j]).0@ == self@[j].0 && out@[j].1@
                        == self@[j].1,
            decreases self@.len() - i,
        {
            out.push((self.entries[i].0.clone(), self.entries[i].1.duplicate()));
            i = i + 1;
        }
        let r = StringMap { entries: out };
        proof {
            assert(r@ =~= self@);
        }
        r
    }
}

/// The keys of entries are theirs, in order.
pub proof fn keys_stand_in_order<T>(m: Seq<(Seq<char>, T)>, key: Seq<char>)
    ensures
        keys_of(m).len() == m.len(),
        forall|i: int| 0 <= i < m.len() ==> #[trigger] keys_of(m)[i] == m[i].0,
        keys_of(m).contains(key) <==> assoc(m, key) is Some,
{
    assoc_some_iff(m, key);
    if keys_of(m).contains(key) {
        let i = choose|i: int| 0 <= i < keys_of(m).len() && keys_of(m)[i] == key;
        assert(m[i].0 == key);
    }
    if assoc(m, key) is Some {
        let i = choose|i: int| 0 <= i < m.len() && (#[trigger] m[i]).0 == key;
        assert(keys_of(m)[i] == key);
    }
}

} // verus!
