//! The key/value map payload of a `Value`.
//!
//! An `Object` maps unique `ValueKey`s to `Value`s behind one capability
//! surface with two backends chosen at construction: a hash-indexed
//! backend whose iteration order is its insertion order (unspecified to
//! callers but stable within an unmodified instance), and an
//! order-preserving backend that keeps its entries sorted by key.  Both
//! are held as an entry sequence whose well-formedness invariant states
//! the backend's discipline, and both answer every lookup through one
//! map model, `lookup`.

use vstd::prelude::*;

verus! {

use crate::key::{bytes_lt, key_bytes, key_matches, ValueKey};
use crate::value::Value;

/// The value the first entry with the given key holds, searching from
/// the front.
pub open spec fn lookup(s: Seq<(ValueKey, Value)>, k: Seq<char>) -> Option<Value>
    decreases s.len(),
{
    if s.len() == 0 {
        None
    } else if s[0].0@ == k {
        Some(s[0].1)
    } else {
        lookup(s.drop_first(), k)
    }
}

/// True when no two entries share a key.
pub open spec fn keys_distinct(s: Seq<(ValueKey, Value)>) -> bool {
    forall|i: int, j: int|
        0 <= i < j < s.len() ==> (#[trigger] s[i]).0@ != (#[trigger] s[j]).0@
}

/// True when the entries are strictly ascending by key bytes.
pub open spec fn keys_sorted(s: Seq<(ValueKey, Value)>) -> bool {
    forall|i: int, j: int|
        0 <= i < j < s.len() ==> bytes_lt(
            key_bytes((#[trigger] s[i]).0@),
            key_bytes((#[trigger] s[j]).0@),
        )
}

/// The backend-independent effect of inserting `k -> v`: `k` now maps
/// to `v`, every other key is untouched, and the length grew exactly
/// when `k` was absent.
pub open spec fn insert_effect(
    pre: Seq<(ValueKey, Value)>,
    post: Seq<(ValueKey, Value)>,
    k: Seq<char>,
    v: Value,
) -> bool {
    &&& lookup(post, k) == Some(v)
    &&& (forall|k2: Seq<char>| k2 != k ==> #[trigger] lookup(post, k2) == lookup(pre, k2))
    &&& post.len() == pre.len() + (if lookup(pre, k) is Some {
        0int
    } else {
        1int
    })
}

/// The backend-independent effect of removing `k`: `k` is now absent,
/// every other key is untouched, and the length shrank exactly when `k`
/// was present.
pub open spec fn remove_effect(
    pre: Seq<(ValueKey, Value)>,
    post: Seq<(ValueKey, Value)>,
    k: Seq<char>,
) -> bool {
    &&& lookup(post, k) is None
    &&& (forall|k2: Seq<char>| k2 != k ==> #[trigger] lookup(post, k2) == lookup(pre, k2))
    &&& post.len() == pre.len() - (if lookup(pre, k) is Some {
        1int
    } else {
        0int
    })
}

/// The entries after the first sit one position earlier.
proof fn lemma_drop_first_entries(s: Seq<(ValueKey, Value)>)
    requires
        s.len() > 0,
    ensures
        s.drop_first().len() == s.len() - 1,
        forall|i: int| 0 <= i < s.len() - 1 ==> #[trigger] s.drop_first()[i] == s[i + 1],
{
}

/// The value of a key's last occurrence in a pair list, searching from
/// the back.
pub open spec fn last_binding(s: Seq<(ValueKey, Value)>, k: Seq<char>) -> Option<Value>
    decreases s.len(),
{
    if s.len() == 0 {
        None
    } else if s.last().0@ == k {
        Some(s.last().1)
    } else {
        last_binding(s.drop_last(), k)
    }
}

/// A key's absence is the same as no entry carrying it.
pub proof fn lemma_lookup_none(s: Seq<(ValueKey, Value)>, k: Seq<char>)
    ensures
        (lookup(s, k) is None) <==> (forall|i: int|
            0 <= i < s.len() ==> (#[trigger] s[i]).0@ != k),
    decreases s.len(),
{
    if s.len() > 0 {
        let t = s.drop_first();
        lemma_drop_first_entries(s);
        lemma_lookup_none(t, k);
        if lookup(s, k) is None {
            assert forall|i: int| 0 <= i < s.len() implies (#[trigger] s[i]).0@ != k by {
                if i > 0 {
                    assert(t[i - 1] == s[i]);
                    assert(t[i - 1].0@ != k);
                }
            }
        } else {
            if s[0].0@ != k {
                assert(lookup(t, k) is Some);
                let j = choose|j: int| 0 <= j < t.len() && (#[trigger] t[j]).0@ == k;
                assert(s[j + 1].0@ == k);
            }
        }
    }
}

/// In a duplicate-free sequence, an entry's key looks up that entry's
/// value.
pub proof fn lemma_lookup_at(s: Seq<(ValueKey, Value)>, i: int)
    requires
        keys_distinct(s),
        0 <= i < s.len(),
    ensures
        lookup(s, s[i].0@) == Some(s[i].1),
    decreases s.len(),
{
    if i > 0 {
        let t = s.drop_first();
        lemma_drop_first_entries(s);
        assert(keys_distinct(t)) by {
            assert forall|x: int, y: int| 0 <= x < y < t.len() implies (#[trigger] t[x]).0@ != (
            #[trigger] t[y]).0@ by {
                assert(t[x] == s[x + 1]);
                assert(t[y] == s[y + 1]);
            }
        }
        lemma_lookup_at(t, i - 1);
        assert(t[i - 1] == s[i]);
        assert(s[0].0@ != s[i].0@);
    }
}

/// Replacing the value of entry `i` leaves every other key's image
/// untouched.
proof fn lemma_lookup_update_other(s: Seq<(ValueKey, Value)>, i: int, v: Value, k2: Seq<char>)
    requires
        0 <= i < s.len(),
        k2 != s[i].0@,
    ensures
        lookup(s.update(i, (s[i].0, v)), k2) == lookup(s, k2),
    decreases s.len(),
{
    let u = s.update(i, (s[i].0, v));
    if i == 0 {
        assert(u[0].0 == s[0].0);
        assert(u.drop_first() =~= s.drop_first());
    } else {
        let t = s.drop_first();
        lemma_drop_first_entries(s);
        assert(u[0] == s[0]);
        if s[0].0@ != k2 {
            assert(t[i - 1] == s[i]);
            lemma_lookup_update_other(t, i - 1, v, k2);
            assert(u.drop_first() =~= t.update(i - 1, (t[i - 1].0, v)));
        }
    }
}

/// Replacing the value of entry `i` rewrites that entry's key's image
/// and nothing else, and keeps the backend disciplines.
pub proof fn lemma_lookup_update(s: Seq<(ValueKey, Value)>, i: int, v: Value)
    requires
        keys_distinct(s),
        0 <= i < s.len(),
    ensures
        lookup(s.update(i, (s[i].0, v)), s[i].0@) == Some(v),
        forall|k2: Seq<char>|
            k2 != s[i].0@ ==> #[trigger] lookup(s.update(i, (s[i].0, v)), k2) == lookup(s, k2),
        keys_distinct(s.update(i, (s[i].0, v))),
        keys_sorted(s) ==> keys_sorted(s.update(i, (s[i].0, v))),
{
    let u = s.update(i, (s[i].0, v));
    assert(u.len() == s.len());
    assert(forall|j: int| 0 <= j < s.len() ==> (#[trigger] u[j]).0 == s[j].0);
    assert(keys_distinct(u));
    if keys_sorted(s) {
        assert(keys_sorted(u));
    }
    lemma_lookup_at(u, i);
    assert forall|k2: Seq<char>| k2 != s[i].0@ implies #[trigger] lookup(u, k2) == lookup(
        s,
        k2,
    ) by {
        lemma_lookup_update_other(s, i, v, k2);
    }
}

/// Appending a fresh key binds it and leaves every other key untouched.
pub proof fn lemma_lookup_push(s: Seq<(ValueKey, Value)>, kk: ValueKey, v: Value)
    requires
        lookup(s, kk@) is None,
    ensures
        lookup(s.push((kk, v)), kk@) == Some(v),
        forall|k2: Seq<char>|
            k2 != kk@ ==> #[trigger] lookup(s.push((kk, v)), k2) == lookup(s, k2),
        keys_distinct(s) ==> keys_distinct(s.push((kk, v))),
    decreases s.len(),
{
    let u = s.push((kk, v));
    lemma_lookup_none(s, kk@);
    if s.len() == 0 {
        assert(u.len() == 1);
        assert(u[0] == (kk, v));
        assert(lookup(u, kk@) == Some(v));
        assert forall|k2: Seq<char>| k2 != kk@ implies #[trigger] lookup(u, k2) == lookup(
            s,
            k2,
        ) by {
            assert(u.drop_first() =~= Seq::<(ValueKey, Value)>::empty());
            assert(lookup(u.drop_first(), k2) is None);
        }
    } else {
        let t = s.drop_first();
        lemma_drop_first_entries(s);
        assert(lookup(t, kk@) is None) by {
            lemma_lookup_none(t, kk@);
            assert forall|j: int| 0 <= j < t.len() implies (#[trigger] t[j]).0@ != kk@ by {
                assert(t[j] == s[j + 1]);
            }
        }
        lemma_lookup_push(t, kk, v);
        assert(u[0] == s[0]);
        assert(u.drop_first() =~= t.push((kk, v)));
        assert(lookup(u, kk@) == Some(v));
        assert forall|k2: Seq<char>| k2 != kk@ implies #[trigger] lookup(u, k2) == lookup(
            s,
            k2,
        ) by {
            if s[0].0@ != k2 {
                assert(lookup(u, k2) == lookup(t.push((kk, v)), k2));
            }
        }
    }
    if keys_distinct(s) {
        assert(keys_distinct(u)) by {
            assert forall|x: int, y: int| 0 <= x < y < u.len() implies (#[trigger] u[x]).0@ != (
            #[trigger] u[y]).0@ by {
                if y < s.len() {
                    assert(u[x] == s[x]);
                    assert(u[y] == s[y]);
                } else {
                    assert(u[x] == s[x]);
                    assert(u[y] == (kk, v));
                    assert(s[x].0@ != kk@);
                }
            }
        }
    }
}

/// Inserting a fresh key at any position binds it and leaves every
/// other key untouched.
pub proof fn lemma_lookup_insert(s: Seq<(ValueKey, Value)>, p: int, kk: ValueKey, v: Value)
    requires
        lookup(s, kk@) is None,
        0 <= p <= s.len(),
    ensures
        lookup(s.insert(p, (kk, v)), kk@) == Some(v),
        forall|k2: Seq<char>|
            k2 != kk@ ==> #[trigger] lookup(s.insert(p, (kk, v)), k2) == lookup(s, k2),
        keys_distinct(s) ==> keys_distinct(s.insert(p, (kk, v))),
    decreases s.len(),
{
    let u = s.insert(p, (kk, v));
    lemma_lookup_none(s, kk@);
    assert(u.len() == s.len() + 1);
    assert(forall|j: int| 0 <= j < p ==> #[trigger] u[j] == s[j]);
    assert(u[p] == (kk, v));
    assert(forall|j: int| p < j < u.len() ==> #[trigger] u[j] == s[j - 1]);
    if p == 0 {
        assert(u.drop_first() =~= s);
        assert(lookup(u, kk@) == Some(v));
        assert forall|k2: Seq<char>| k2 != kk@ implies #[trigger] lookup(u, k2) == lookup(
            s,
            k2,
        ) by {
            assert(lookup(u, k2) == lookup(u.drop_first(), k2));
        }
    } else {
        let t = s.drop_first();
        lemma_drop_first_entries(s);
        assert(lookup(t, kk@) is None) by {
            lemma_lookup_none(t, kk@);
            assert forall|j: int| 0 <= j < t.len() implies (#[trigger] t[j]).0@ != kk@ by {
                assert(t[j] == s[j + 1]);
            }
        }
        lemma_lookup_insert(t, p - 1, kk, v);
        assert(u[0] == s[0]);
        assert(u.drop_first() =~= t.insert(p - 1, (kk, v)));
        assert(lookup(u, kk@) == Some(v));
        assert forall|k2: Seq<char>| k2 != kk@ implies #[trigger] lookup(u, k2) == lookup(
            s,
            k2,
        ) by {
            if s[0].0@ != k2 {
                assert(lookup(u, k2) == lookup(t.insert(p - 1, (kk, v)), k2));
            }
        }
    }
    if keys_distinct(s) {
        assert(keys_distinct(u)) by {
            assert forall|x: int, y: int| 0 <= x < y < u.len() implies (#[trigger] u[x]).0@ != (
            #[trigger] u[y]).0@ by {
                if x == p {
                    assert(u[y] == s[y - 1]);
                    assert(s[y - 1].0@ != kk@);
                } else if y == p {
                    assert(u[x] == s[x]);
                    assert(s[x].0@ != kk@);
                } else {
                    let x0: int = if x < p {
                        x
                    } else {
                        x - 1
                    };
                    let y0: int = if y < p {
                        y
                    } else {
                        y - 1
                    };
                    assert(u[x] == s[x0]);
                    assert(u[y] == s[y0]);
                    assert(s[x0].0@ != s[y0].0@);
                }
            }
        }
    }
}

/// Removing entry `i` unbinds its key and leaves every other key
/// untouched, and keeps the backend disciplines.
pub proof fn lemma_lookup_remove(s: Seq<(ValueKey, Value)>, i: int)
    requires
        keys_distinct(s),
        0 <= i < s.len(),
    ensures
        lookup(s.remove(i), s[i].0@) is None,
        forall|k2: Seq<char>|
            k2 != s[i].0@ ==> #[trigger] lookup(s.remove(i), k2) == lookup(s, k2),
        keys_distinct(s.remove(i)),
        keys_sorted(s) ==> keys_sorted(s.remove(i)),
    decreases s.len(),
{
    let u = s.remove(i);
    assert(u.len() == s.len() - 1);
    assert(forall|j: int| 0 <= j < i ==> #[trigger] u[j] == s[j]);
    assert(forall|j: int| i <= j < u.len() ==> #[trigger] u[j] == s[j + 1]);
    assert(keys_distinct(u)) by {
        assert forall|x: int, y: int| 0 <= x < y < u.len() implies (#[trigger] u[x]).0@ != (
        #[trigger] u[y]).0@ by {
            let x0: int = if x < i {
                x
            } else {
                x + 1
            };
            let y0: int = if y < i {
                y
            } else {
                y + 1
            };
            assert(u[x] == s[x0]);
            assert(u[y] == s[y0]);
            assert(s[x0].0@ != s[y0].0@);
        }
    }
    if keys_sorted(s) {
        assert(keys_sorted(u)) by {
            assert forall|x: int, y: int| 0 <= x < y < u.len() implies bytes_lt(
                key_bytes((#[trigger] u[x]).0@),
                key_bytes((#[trigger] u[y]).0@),
            ) by {
                let x0: int = if x < i {
                    x
                } else {
                    x + 1
                };
                let y0: int = if y < i {
                    y
                } else {
                    y + 1
                };
                assert(u[x] == s[x0]);
                assert(u[y] == s[y0]);
            }
        }
    }
    assert(lookup(u, s[i].0@) is None) by {
        lemma_lookup_none(u, s[i].0@);
        assert forall|j: int| 0 <= j < u.len() implies (#[trigger] u[j]).0@ != s[i].0@ by {
            if j < i {
                assert(u[j] == s[j]);
            } else {
                assert(u[j] == s[j + 1]);
            }
        }
    }
    assert forall|k2: Seq<char>| k2 != s[i].0@ implies #[trigger] lookup(u, k2) == lookup(
        s,
        k2,
    ) by {
        lemma_lookup_remove_other(s, i, k2);
    }
}

/// Removing entry `i` leaves every other key's image untouched.
proof fn lemma_lookup_remove_other(s: Seq<(ValueKey, Value)>, i: int, k2: Seq<char>)
    requires
        0 <= i < s.len(),
        k2 != s[i].0@,
    ensures
        lookup(s.remove(i), k2) == lookup(s, k2),
    decreases s.len(),
{
    let u = s.remove(i);
    if i == 0 {
        assert(u =~= s.drop_first());
    } else {
        let t = s.drop_first();
        lemma_drop_first_entries(s);
        assert(u[0] == s[0]);
        if s[0].0@ != k2 {
            assert(t[i - 1] == s[i]);
            lemma_lookup_remove_other(t, i - 1, k2);
            assert(u.drop_first() =~= t.remove(i - 1));
        }
    }
}

/// Strict byte order is transitive.
pub proof fn lemma_bytes_lt_trans(a: Seq<u8>, b: Seq<u8>, c: Seq<u8>)
    requires
        bytes_lt(a, b),
        bytes_lt(b, c),
    ensures
        bytes_lt(a, c),
    decreases a.len(),
{
    if a.len() > 0 && b.len() > 0 && c.len() > 0 {
        if a[0] == b[0] && b[0] == c[0] {
            lemma_bytes_lt_trans(a.drop_first(), b.drop_first(), c.drop_first());
        }
    }
}

/// Two byte sequences are equal or strictly ordered one way.
pub proof fn lemma_bytes_lt_trichotomy(a: Seq<u8>, b: Seq<u8>)
    ensures
        bytes_lt(a, b) || bytes_lt(b, a) || a == b,
    decreases a.len(),
{
    if a.len() == 0 && b.len() == 0 {
        assert(a =~= b);
    } else if a.len() > 0 && b.len() > 0 && a[0] == b[0] {
        let a1 = a.drop_first();
        let b1 = b.drop_first();
        lemma_bytes_lt_trichotomy(a1, b1);
        if !bytes_lt(a1, b1) && !bytes_lt(b1, a1) {
            assert(a1 == b1);
            assert forall|j: int| 0 <= j < a.len() implies a[j] == b[j] by {
                if j > 0 {
                    assert(a1[j - 1] == a[j]);
                    assert(b1[j - 1] == b[j]);
                }
            }
            assert(a =~= b);
        }
    }
}

/// An owned map from unique keys to values, over one of two backends
/// fixed at construction.
#[derive(Debug)]
pub struct Object {
    pub ordered: bool,
    pub entries: Vec<(ValueKey, Value)>,
}

impl View for Object {
    type V = Seq<(ValueKey, Value)>;

    open spec fn view(&self) -> Seq<(ValueKey, Value)> {
        self.entries@
    }
}

impl Object {
    /// True of the order-preserving backend, false of the hash-indexed
    /// one.
    pub open spec fn is_ordered_spec(self) -> bool {
        self.ordered
    }

    /// The backend's discipline: keys are unique, and the
    /// order-preserving backend keeps its entries sorted.
    pub open spec fn wf(self) -> bool {
        keys_distinct(self@) && (self.is_ordered_spec() ==> keys_sorted(self@))
    }

    /// The map model: what the given key maps to.
    pub open spec fn get_spec(self, k: Seq<char>) -> Option<Value> {
        lookup(self@, k)
    }

    /// An empty object over the hash-indexed backend (the default).
    pub fn new() -> (r: Object)
        ensures
            r@ == Seq::<(ValueKey, Value)>::empty(),
            !r.is_ordered_spec(),
            r.wf(),
    {
        Object { ordered: false, entries: Vec::new() }
    }

    /// An empty object over the order-preserving backend.
    pub fn new_ordered() -> (r: Object)
        ensures
            r@ == Seq::<(ValueKey, Value)>::empty(),
            r.is_ordered_spec(),
            r.wf(),
    {
        Object { ordered: true, entries: Vec::new() }
    }

    /// Which backend this object was constructed over.
    pub fn is_ordered(&self) -> (r: bool)
        ensures
            r == self.is_ordered_spec(),
    {
        self.ordered
    }

    /// The number of entries held.
    pub fn len(&self) -> (r: usize)
        ensures
            r == self@.len(),
    {
        self.entries.len()
    }

    /// True when no entry is held.
    pub fn is_empty(&self) -> (r: bool)
        ensures
            r == (self@.len() == 0),
    {
        self.entries.len() == 0
    }

    /// Removes every entry; the backend is kept.
    pub fn clear(&mut self)
        ensures
            final(self)@ == Seq::<(ValueKey, Value)>::empty(),
            final(self).is_ordered_spec() == old(self).is_ordered_spec(),
            final(self).wf(),
    {
        self.entries.clear();
    }

    /// The position of the entry carrying the given key, when one does.
    fn find_index(&self, key: &str) -> (r: Option<usize>)
        ensures
            match r {
                Some(i) => i < self@.len() && self@[i as int].0@ == key@ && lookup(self@, key@)
                    == Some(self@[i as int].1),
                None => lookup(self@, key@) is None,
            },
    {
        let ghost s = self@;
        let mut i: usize = 0;
        proof {
            assert(s.skip(0) =~= s);
        }
        while i < self.entries.len()
            invariant
                s == self@,
                0 <= i <= s.len(),
                lookup(s, key@) == lookup(s.skip(i as int), key@),
                forall|j: int| 0 <= j < i ==> (#[trigger] s[j]).0@ != key@,
            decreases s.len() - i,
        {
            proof {
                assert(s.skip(i as int).len() > 0);
                assert(s.skip(i as int)[0] == s[i as int]);
            }
            if key_matches(&self.entries[i].0, key) {
                proof {
                    assert(lookup(s.skip(i as int), key@) == Some(s[i as int].1));
                }
                return Some(i);
            }
            proof {
                assert(s.skip(i as int).drop_first() =~= s.skip(i as int + 1));
            }
            i = i + 1;
        }
        proof {
            assert(s.skip(i as int).len() == 0);
        }
        None
    }

    /// The value the given key maps to, when it is present.
    pub fn get(&self, key: &str) -> (r: Option<&Value>)
        ensures
            match r {
                Some(v) => self.get_spec(key@) == Some(*v),
                None => self.get_spec(key@) is None,
            },
    {
        match self.find_index(key) {
            Some(i) => Some(&self.entries[i].1),
            None => None,
        }
    }

    /// Whether the given key is present.
    pub fn contains_key(&self, key: &str) -> (r: bool)
        ensures
            r == (self.get_spec(key@) is Some),
    {
        self.find_index(key).is_some()
    }

    /// The position a fresh key takes in the sorted backend: the first
    /// position whose entry does not come before the key.
    fn sorted_position(&self, kk: &ValueKey) -> (r: usize)
        ensures
            r <= self@.len(),
            forall|t: int|
                0 <= t < r ==> bytes_lt(key_bytes((#[trigger] self@[t]).0@), key_bytes(kk@)),
            r < self@.len() ==> !bytes_lt(key_bytes(self@[r as int].0@), key_bytes(kk@)),
    {
        let mut j: usize = 0;
        while j < self.entries.len()
            invariant
                0 <= j <= self@.len(),
                forall|t: int|
                    0 <= t < j ==> bytes_lt(key_bytes((#[trigger] self@[t]).0@), key_bytes(kk@)),
            decreases self@.len() - j,
        {
            let c = crate::key::key_cmp(&self.entries[j].0, kk);
            if c != -1 {
                return j;
            }
            j = j + 1;
        }
        j
    }

    /// Maps `key` to `value`, returning the value it previously mapped
    /// to, if any.  The map model changes only at `key`; in the
    /// hash-indexed backend a fresh key is appended after all existing
    /// entries.
    pub fn insert(&mut self, key: &str, value: Value) -> (r: Option<Value>)
        requires
            old(self).wf(),
        ensures
            final(self).wf(),
            final(self).is_ordered_spec() == old(self).is_ordered_spec(),
            r == lookup(old(self)@, key@),
            insert_effect(old(self)@, final(self)@, key@, value),
            !old(self).is_ordered_spec() && lookup(old(self)@, key@) is None ==> (
            final(self)@.len() == old(self)@.len() + 1
                && final(self)@.subrange(0, old(self)@.len() as int) == old(self)@
                && final(self)@.last().0@ == key@ && final(self)@.last().1 == value),
            forall|j: int|
                0 <= j < final(self)@.len() ==> (#[trigger] final(self)@[j]).1 == value
                    || exists|t: int| 0 <= t < old(self)@.len() && final(self)@[j] == old(self)@[t],
    {
        let ghost pre = self@;
        match self.find_index(key) {
            Some(i) => {
                let pair = self.entries.remove(i);
                self.entries.insert(i, (pair.0, value));
                proof {
                    assert(self@ =~= pre.update(i as int, (pre[i as int].0, value)));
                    lemma_lookup_update(pre, i as int, value);
                }
                Some(pair.1)
            },
            None => {
                let kk = ValueKey::from_str(key);
                if !self.ordered {
                    self.entries.push((kk, value));
                    proof {
                        assert(self@ =~= pre.push((self@.last().0, value)));
                        lemma_lookup_push(pre, self@.last().0, value);
                    }
                    None
                } else {
                    let ghost kkv = kk@;
                    let p = self.sorted_position(&kk);
                    self.entries.insert(p, (kk, value));
                    proof {
                        let u = self@;
                        let kv = u[p as int].0;
                        assert(u =~= pre.insert(p as int, (kv, value)));
                        lemma_lookup_insert(pre, p as int, kv, value);
                        lemma_lookup_none(pre, key@);
                        // A fresh key's bytes differ from every stored key's.
                        assert forall|t: int| 0 <= t < pre.len() implies key_bytes(
                            (#[trigger] pre[t]).0@,
                        ) != key_bytes(kkv) by {
                            if key_bytes(pre[t].0@) == key_bytes(kkv) {
                                crate::key::lemma_key_bytes_injective(pre[t].0@, kkv);
                            }
                        }
                        // The fresh key comes strictly before everything at and
                        // after its position.
                        assert forall|t: int| p <= t < pre.len() implies bytes_lt(
                            key_bytes(kkv),
                            key_bytes((#[trigger] pre[t]).0@),
                        ) by {
                            lemma_bytes_lt_trichotomy(key_bytes(pre[p as int].0@), key_bytes(kkv));
                            assert(bytes_lt(key_bytes(kkv), key_bytes(pre[p as int].0@)));
                            if t > p {
                                lemma_bytes_lt_trans(
                                    key_bytes(kkv),
                                    key_bytes(pre[p as int].0@),
                                    key_bytes(pre[t].0@),
                                );
                            }
                        }
                        assert(keys_sorted(u)) by {
                            assert(forall|j: int| 0 <= j < p ==> #[trigger] u[j] == pre[j]);
                            assert(u[p as int] == (kv, value));
                            assert(forall|j: int|
                                p < j < u.len() ==> #[trigger] u[j] == pre[j - 1]);
                            assert(kv@ == kkv);
                        }
                    }
                    None
                }
            },
        }
    }

    /// Unbinds the given key, returning the value it mapped to, if any.
    /// The map model changes only at `key`; every other entry keeps its
    /// position and order.
    pub fn remove(&mut self, key: &str) -> (r: Option<Value>)
        requires
            old(self).wf(),
        ensures
            final(self).wf(),
            final(self).is_ordered_spec() == old(self).is_ordered_spec(),
            r == lookup(old(self)@, key@),
            remove_effect(old(self)@, final(self)@, key@),
            forall|j: int|
                0 <= j < final(self)@.len() ==> exists|t: int|
                    0 <= t < old(self)@.len() && #[trigger] final(self)@[j] == old(self)@[t],
    {
        let ghost pre = self@;
        match self.find_index(key) {
            Some(i) => {
                let pair = self.entries.remove(i);
                proof {
                    assert(self@ =~= pre.remove(i as int));
                    lemma_lookup_remove(pre, i as int);
                }
                Some(pair.1)
            },
            None => None,
        }
    }

    /// References to the keys, in the object's own entry order.
    pub fn keys(&self) -> (r: Vec<&ValueKey>)
        ensures
            r@.len() == self@.len(),
            forall|i: int| 0 <= i < r@.len() ==> (#[trigger] r@[i])@ == self@[i].0@,
    {
        let mut out: Vec<&ValueKey> = Vec::new();
        let mut i: usize = 0;
        while i < self.entries.len()
            invariant
                0 <= i <= self@.len(),
                out@.len() == i,
                forall|j: int| 0 <= j < i ==> (#[trigger] out@[j])@ == self@[j].0@,
            decreases self@.len() - i,
        {
            out.push(&self.entries[i].0);
            i = i + 1;
        }
        out
    }

    /// References to the values, in the object's own entry order.
    pub fn values(&self) -> (r: Vec<&Value>)
        ensures
            r@.len() == self@.len(),
            forall|i: int| 0 <= i < r@.len() ==> *(#[trigger] r@[i]) == self@[i].1,
    {
        let mut out: Vec<&Value> = Vec::new();
        let mut i: usize = 0;
        while i < self.entries.len()
            invariant
                0 <= i <= self@.len(),
                out@.len() == i,
                forall|j: int| 0 <= j < i ==> *(#[trigger] out@[j]) == self@[j].1,
            decreases self@.len() - i,
        {
            out.push(&self.entries[i].1);
            i = i + 1;
        }
        out
    }

    /// The entry at the given position, in the object's own entry
    /// order: the tool the restartable iterator is built from.
    pub fn entry_at(&self, i: usize) -> (r: Option<(&ValueKey, &Value)>)
        ensures
            match r {
                Some(p) => i < self@.len() && p.0@ == self@[i as int].0@ && *p.1
                    == self@[i as int].1,
                None => i >= self@.len(),
            },
    {
        if i < self.entries.len() {
            let e = &self.entries[i];
            Some((&e.0, &e.1))
        } else {
            None
        }
    }

    /// An object over the hash-indexed backend holding the given
    /// pairs: each key maps to the value of its last occurrence, and
    /// first occurrences fix the entry order.
    pub fn from_pairs(pairs: Vec<(ValueKey, Value)>) -> (r: Object)
        ensures
            r.wf(),
            !r.is_ordered_spec(),
            forall|k: Seq<char>| #[trigger] lookup(r@, k) == last_binding(pairs@, k),
            r@.len() <= pairs@.len(),
    {
        let ghost ps = pairs@;
        let mut obj = Object::new();
        let mut pairs = pairs;
        let ghost n = ps.len();
        proof {
            assert(ps.take(0) =~= Seq::<(ValueKey, Value)>::empty());
        }
        while pairs.len() > 0
            invariant
                n == ps.len(),
                obj.wf(),
                !obj.is_ordered_spec(),
                pairs@.len() <= n,
                pairs@ == ps.skip(n - pairs@.len()),
                obj@.len() <= n - pairs@.len(),
                forall|k: Seq<char>| #[trigger] lookup(obj@, k) == last_binding(
                    ps.take(n - pairs@.len()),
                    k,
                ),
            decreases pairs@.len(),
        {
            let ghost done = n - pairs@.len();
            proof {
                assert(pairs@[0] == ps.skip(done)[0]);
                assert(ps.skip(done)[0] == ps[done]);
            }
            let p = pairs.remove(0);
            proof {
                assert(p == ps[done]);
                assert(pairs@ =~= ps.skip(done + 1));
            }
            let key_text = p.0.as_str().to_owned();
            obj.insert(key_text.as_str(), p.1);
            proof {
                assert(ps.take(done + 1).drop_last() =~= ps.take(done));
                assert(ps.take(done + 1).last() == ps[done]);
                assert forall|k: Seq<char>| #[trigger] lookup(obj@, k) == last_binding(
                    ps.take(done + 1),
                    k,
                ) by {
                    if k != ps[done].0@ {
                        assert(lookup(obj@, k) == last_binding(ps.take(done), k));
                    }
                }
            }
        }
        proof {
            assert(ps.take(n as int) =~= ps);
        }
        obj
    }

    /// A restartable forward iterator over the entries.
    pub fn iter(&self) -> (r: ObjectIter<'_>)
        ensures
            r.object@ == self@,
            r.pos == 0,
    {
        ObjectIter { object: self, pos: 0 }
    }
}

impl Default for Object {
    /// An empty object over the hash-indexed backend.
    fn default() -> (r: Object)
        ensures
            r@ == Seq::<(ValueKey, Value)>::empty(),
            !r.is_ordered_spec(),
            r.wf(),
    {
        Object::new()
    }
}

/// The capability surface a key/value backend answers through: one
/// entry-sequence model, whatever the backend, with the map effects
/// every implementation must deliver.
pub trait ObjectBehavior {
    /// The entry sequence the map model is read from.
    spec fn model(&self) -> Seq<(ValueKey, Value)>;

    /// The discipline the operations preserve.
    spec fn model_wf(&self) -> bool;

    /// Maps `key` to `value`, returning the value it previously
    /// mapped to, if any.
    fn insert(&mut self, key: &str, value: Value) -> (r: Option<Value>)
        requires
            old(self).model_wf(),
        ensures
            final(self).model_wf(),
            r == lookup(old(self).model(), key@),
            insert_effect(old(self).model(), final(self).model(), key@, value),
    ;

    /// Unbinds `key`, returning the value it mapped to, if any.
    fn remove(&mut self, key: &str) -> (r: Option<Value>)
        requires
            old(self).model_wf(),
        ensures
            final(self).model_wf(),
            r == lookup(old(self).model(), key@),
            remove_effect(old(self).model(), final(self).model(), key@),
    ;

    /// Whether `key` is bound.
    fn contains_key(&self, key: &str) -> (r: bool)
        ensures
            r == (lookup(self.model(), key@) is Some),
    ;

    /// References to the keys, in entry order.
    fn keys(&self) -> (r: Vec<&ValueKey>)
        ensures
            r@.len() == self.model().len(),
            forall|i: int| 0 <= i < r@.len() ==> (#[trigger] r@[i])@ == self.model()[i].0@,
    ;

    /// References to the values, in entry order.
    fn values(&self) -> (r: Vec<&Value>)
        ensures
            r@.len() == self.model().len(),
            forall|i: int| 0 <= i < r@.len() ==> *(#[trigger] r@[i]) == self.model()[i].1,
    ;

    /// The number of entries.
    fn len(&self) -> (r: usize)
        ensures
            r == self.model().len(),
    ;

    /// True when no entry is held.
    fn is_empty(&self) -> (r: bool)
        ensures
            r == (self.model().len() == 0),
    ;
}

impl ObjectBehavior for Object {
    open spec fn model(&self) -> Seq<(ValueKey, Value)> {
        self@
    }

    open spec fn model_wf(&self) -> bool {
        self.wf()
    }

    fn insert(&mut self, key: &str, value: Value) -> (r: Option<Value>) {
        Object::insert(self, key, value)
    }

    fn remove(&mut self, key: &str) -> (r: Option<Value>) {
        Object::remove(self, key)
    }

    fn contains_key(&self, key: &str) -> (r: bool) {
        Object::contains_key(self, key)
    }

    fn keys(&self) -> (r: Vec<&ValueKey>) {
        Object::keys(self)
    }

    fn values(&self) -> (r: Vec<&Value>) {
        Object::values(self)
    }

    fn len(&self) -> (r: usize) {
        Object::len(self)
    }

    fn is_empty(&self) -> (r: bool) {
        Object::is_empty(self)
    }
}

/// A forward iterator over an object's entries, in the object's own
/// entry order.
pub struct ObjectIter<'a> {
    pub object: &'a Object,
    pub pos: usize,
}

impl<'a> ObjectIter<'a> {
    /// The next entry, until the entries are exhausted.
    pub fn next(&mut self) -> (r: Option<(&'a ValueKey, &'a Value)>)
        ensures
            final(self).object == old(self).object,
            match r {
                Some(p) => {
                    &&& old(self).pos < old(self).object@.len()
                    &&& final(self).pos == old(self).pos + 1
                    &&& p.0@ == old(self).object@[old(self).pos as int].0@
                    &&& *p.1 == old(self).object@[old(self).pos as int].1
                },
                None => {
                    &&& old(self).pos >= old(self).object@.len()
                    &&& final(self).pos == old(self).pos
                },
            },
    {
        let r = self.object.entry_at(self.pos);
        if r.is_some() {
            let n = self.object.len();
            self.pos = self.pos + 1;
        }
        r
    }
}

/// Object backend equivalence, first half: two objects that agree on
/// length and on the image of every key keep agreeing after inserting
/// the same key and value into both, whichever backend each is over.
pub proof fn lemma_backend_agreement_insert(
    a_pre: Seq<(ValueKey, Value)>,
    a_post: Seq<(ValueKey, Value)>,
    b_pre: Seq<(ValueKey, Value)>,
    b_post: Seq<(ValueKey, Value)>,
    k: Seq<char>,
    v: Value,
)
    requires
        a_pre.len() == b_pre.len(),
        forall|k2: Seq<char>| #[trigger] lookup(a_pre, k2) == lookup(b_pre, k2),
        insert_effect(a_pre, a_post, k, v),
        insert_effect(b_pre, b_post, k, v),
    ensures
        a_post.len() == b_post.len(),
        forall|k2: Seq<char>| #[trigger] lookup(a_post, k2) == lookup(b_post, k2),
{
    assert(lookup(a_pre, k) == lookup(b_pre, k));
    assert forall|k2: Seq<char>| #[trigger] lookup(a_post, k2) == lookup(b_post, k2) by {
        if k2 != k {
            assert(lookup(a_post, k2) == lookup(a_pre, k2));
            assert(lookup(b_post, k2) == lookup(b_pre, k2));
        }
    }
}

/// Object backend equivalence, second half: the same agreement is kept
/// by removing the same key from both.
pub proof fn lemma_backend_agreement_remove(
    a_pre: Seq<(ValueKey, Value)>,
    a_post: Seq<(ValueKey, Value)>,
    b_pre: Seq<(ValueKey, Value)>,
    b_post: Seq<(ValueKey, Value)>,
    k: Seq<char>,
)
    requires
        a_pre.len() == b_pre.len(),
        forall|k2: Seq<char>| #[trigger] lookup(a_pre, k2) == lookup(b_pre, k2),
        remove_effect(a_pre, a_post, k),
        remove_effect(b_pre, b_post, k),
    ensures
        a_post.len() == b_post.len(),
        forall|k2: Seq<char>| #[trigger] lookup(a_post, k2) == lookup(b_post, k2),
{
    assert(lookup(a_pre, k) == lookup(b_pre, k));
    assert forall|k2: Seq<char>| #[trigger] lookup(a_post, k2) == lookup(b_post, k2) by {
        if k2 != k {
            assert(lookup(a_post, k2) == lookup(a_pre, k2));
            assert(lookup(b_post, k2) == lookup(b_pre, k2));
        }
    }
}

} // verus!
