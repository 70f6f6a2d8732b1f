//! Tables of values by key that remember in which order they were last used.
use vstd::prelude::*;

use crate::text::same_text;

verus! {

/// The position of `key` among the entries, or their number where it is absent.
pub open spec fn position<T>(t: Seq<(Seq<char>, T)>, key: Seq<char>) -> int
    decreases t.len(),
{
    if t.len() == 0 {
        0
    } else if t[0].0 == key {
        0
    } else {
        1 + position(t.drop_first(), key)
    }
}

/// Whether `key` has an entry.
pub open spec fn has_key<T>(t: Seq<(Seq<char>, T)>, key: Seq<char>) -> bool {
    position(t, key) < t.len()
}

/// The value under `key`.
pub open spec fn value_of<T>(t: Seq<(Seq<char>, T)>, key: Seq<char>) -> T {
    t[position(t, key)].1
}

/// The entries without that of `key`.
pub open spec fn without<T>(t: Seq<(Seq<char>, T)>, key: Seq<char>) -> Seq<(Seq<char>, T)> {
    if has_key(t, key) {
        t.remove(position(t, key))
    } else {
        t
    }
}

/// The entries with that of `key` as the one used last.
pub open spec fn touched<T>(t: Seq<(Seq<char>, T)>, key: Seq<char>) -> Seq<(Seq<char>, T)> {
    if has_key(t, key) {
        without(t, key).push((key, value_of(t, key)))
    } else {
        t
    }
}

/// The entries with room for one more under a limit of `max`: where the limit
/// is reached, the entry that was not used for longest goes.
pub open spec fn with_room<T>(t: Seq<(Seq<char>, T)>, max: nat) -> Seq<(Seq<char>, T)> {
    if t.len() >= max && t.len() > 0 {
        t.drop_first()
    } else {
        t
    }
}

/// Whether no key occurs twice.
pub open spec fn unique_keys<T>(t: Seq<(Seq<char>, T)>) -> bool {
    forall|i: int, j: int| 0 <= i < j < t.len() ==> (#[trigger] t[i]).0 != (#[trigger] t[j]).0
}

/// The position is that of the first entry under the key.
pub proof fn position_is_first<T>(t: Seq<(Seq<char>, T)>, key: Seq<char>)
    ensures
        0 <= position(t, key) <= t.len(),
        has_key(t, key) ==> t[position(t, key)].0 == key,
        forall|i: int| 0 <= i < position(t, key) ==> (#[trigger] t[i]).0 != key,
    decreases t.len(),
{
    if t.len() > 0 && t[0].0 != key {
        position_is_first(t.drop_first(), key);
        assert forall|i: int| 0 <= i < position(t, key) implies (#[trigger] t[i]).0 != key by {
            if i > 0 {
                assert(t.drop_first()[i - 1] == t[i]);
            }
        }
        if has_key(t, key) {
            assert(t.drop_first()[position(t, key) - 1] == t[position(t, key)]);
        }
    }
}


/// An entry at which the key stands is its position where keys are unique.
pub proof fn position_of_entry<T>(t: Seq<(Seq<char>, T)>, key: Seq<char>, i: int)
    requires
        unique_keys(t),
        0 <= i < t.len(),
        t[i].0 == key,
    ensures
        position(t, key) == i,
{
    position_is_first(t, key);
    let p = position(t, key);
    if p > i {
        assert(t[i].0 != key);
    } else if p < i {
        assert(t[p].0 == key);
    }
}

/// Entries under the same keys give the same positions.
pub proof fn position_by_keys<T, U>(
    t: Seq<(Seq<char>, T)>,
    u: Seq<(Seq<char>, U)>,
    key: Seq<char>,
)
    requires
        t.len() == u.len(),
        forall|i: int| 0 <= i < t.len() ==> (#[trigger] t[i]).0 == u[i].0,
    ensures
        position(t, key) == position(u, key),
    decreases t.len(),
{
    if t.len() > 0 {
        assert(t[0].0 == u[0].0);
        if t[0].0 != key {
            assert forall|i: int| 0 <= i < t.drop_first().len() implies (#[trigger] t.drop_first()[i]).0
                == u.drop_first()[i].0 by {
                assert(t[i + 1].0 == u[i + 1].0);
            }
            position_by_keys(t.drop_first(), u.drop_first(), key);
        }
    }
}

/// Removing an entry and adding one under a key that is absent keep keys unique.
pub proof fn unique_keys_kept<T>(t: Seq<(Seq<char>, T)>, key: Seq<char>, value: T)
    requires
        unique_keys(t),
    ensures
        unique_keys(without(t, key)),
        !has_key(without(t, key), key),
        unique_keys(without(t, key).push((key, value))),
        t.len() > 0 ==> unique_keys(t.drop_first()),
        without(t, key).len() == if has_key(t, key) {
            t.len() - 1
        } else {
            t.len() as int
        },
{
    position_is_first(t, key);
    let w = without(t, key);
    position_is_first(w, key);
    let p = position(t, key);
    assert forall|i: int| 0 <= i < w.len() implies (#[trigger] w[i]).0 != key by {
        if has_key(t, key) {
            let j = if i < p {
                i
            } else {
                i + 1
            };
            assert(w[i] == t[j]);
            assert(t[p].0 == key);
            if t[j].0 == key {
                if j < p {
                    assert(t[j].0 != t[p].0);
                } else {
                    assert(t[p].0 != t[j].0);
                }
            }
        }
    }
    assert forall|i: int, j: int| 0 <= i < j < w.len() implies (#[trigger] w[i]).0 != (
    #[trigger] w[j]).0 by {
        if has_key(t, key) {
            let a = if i < p {
                i
            } else {
                i + 1
            };
            let b = if j < p {
                j
            } else {
                j + 1
            };
            assert(w[i] == t[a] && w[j] == t[b]);
        }
    }
    if has_key(w, key) {
        assert(w[position(w, key)].0 == key);
    }
}

/// A table of values by key. The entry used last stands last.
pub struct LruTable<V> {
    entries: Vec<(String, V)>,
}

impl<V> View for LruTable<V> {
    type V = Seq<(Seq<char>, V)>;

    closed spec fn view(&self) -> Seq<(Seq<char>, V)> {
        self.entries@.map_values(|e: (String, V)| (e.0@, e.1))
    }
}

impl<V> LruTable<V> {
    /// An empty table.
    pub fn new() -> (r: Self)
        ensures
            r@ == Seq::<(Seq<char>, V)>::empty(),
    {
        let r = LruTable { entries: Vec::new() };
        assert(r@ =~= Seq::<(Seq<char>, V)>::empty());
        r
    }

    /// The number of entries.
    pub fn len(&self) -> (r: usize)
        ensures
            r == self@.len(),
    {
        self.entries.len()
    }

    /// The position of an entry, or their number.
    fn find(&self, key: &str) -> (r: usize)
        ensures
            r == position(self@, key@),
            r <= self@.len(),
    {
        let mut i: usize = 0;
        assert(self@.skip(0) =~= self@);
        while i < self.entries.len()
            invariant
                i <= self@.len(),
                self@.len() == self.entries@.len(),
                position(self@, key@) == i + position(self@.skip(i as int), key@),
            decreases self.entries.len() - i,
        {
            assert(self@.skip(i as int)[0] == self@[i as int]);
            assert(self@[i as int].0 == self.entries@[i as int].0@);
            if same_text(self.entries[i].0.as_str(), key) {
                return i;
            }
            assert(self@.skip(i as int).drop_first() =~= self@.skip(i + 1));
            i += 1;
        }
        i
    }

    /// Whether a key has an entry.
    pub fn contains_key(&self, key: &str) -> (r: bool)
        ensures
            r == has_key(self@, key@),
    {
        self.find(key) < self.entries.len()
    }

    /// The value under a key.
    pub fn get(&self, key: &str) -> (r: Option<&V>)
        ensures
            r is Some <==> has_key(self@, key@),
            r matches Some(v) ==> *v == value_of(self@, key@),
    {
        let i = self.find(key);
        if i < self.entries.len() {
            assert(self@[i as int].1 == self.entries@[i as int].1);
            Some(&self.entries[i].1)
        } else {
            None
        }
    }

    /// Takes the entry of a key out of the table.
    pub fn take(&mut self, key: &str) -> (r: Option<V>)
        ensures
            final(self)@ == without(old(self)@, key@),
            r is Some <==> has_key(old(self)@, key@),
            r matches Some(v) ==> v == value_of(old(self)@, key@),
    {
        let i = self.find(key);
        if i < self.entries.len() {
            let ghost before = self@;
            assert(before[i as int].1 == self.entries@[i as int].1);
            let (_, v) = self.entries.remove(i);
            assert(self@ =~= before.remove(i as int));
            Some(v)
        } else {
            None
        }
    }

    /// Adds an entry as the one used last.
    pub fn push(&mut self, key: &str, value: V)
        ensures
            final(self)@ == old(self)@.push((key@, value)),
    {
        let ghost before = self@;
        self.entries.push((key.to_string(), value));
        assert(self@ =~= before.push((key@, value)));
    }

    /// Makes the entry of a key the one used last.
    pub fn touch(&mut self, key: &str)
        ensures
            final(self)@ == touched(old(self)@, key@),
    {
        match self.take(key) {
            Some(v) => self.push(key, v),
            None => {},
        }
    }

    /// Makes room for one more entry under a limit.
    pub fn make_room(&mut self, max: usize)
        ensures
            final(self)@ == with_room(old(self)@, max as nat),
    {
        if self.entries.len() >= max && self.entries.len() > 0 {
            let ghost before = self@;
            let _ = self.entries.remove(0);
            assert(self@ =~= before.drop_first());
        }
    }

    /// The entry at a position.
    pub fn at(&self, i: usize) -> (r: (&String, &V))
        requires
            i < self@.len(),
        ensures
            r.0@ == self@[i as int].0,
            *r.1 == self@[i as int].1,
    {
        (&self.entries[i].0, &self.entries[i].1)
    }

    /// Takes the entry at a position out of the table.
    pub fn remove_at(&mut self, i: usize)
        requires
            i < old(self)@.len(),
        ensures
            final(self)@ == old(self)@.remove(i as int),
    {
        let ghost before = self@;
        let _ = self.entries.remove(i);
        assert(self@ =~= before.remove(i as int));
    }
}

} // verus!
