//! Change tracking for redraw optimisation: values and lists report a
//! change only when they differ from what was seen last.

use std::hash::Hash;
use vstd::hash_map::StringHashMap;
use vstd::prelude::*;
use vstd::std_specs::cmp::PartialEqSpec;

verus! {

/// Tracks the last value seen under each key.
#[verifier::reject_recursive_types(T)]
pub struct ChangeDetector<T: Eq + Hash + Clone> {
    values: StringHashMap<T>,
}

impl<T: Eq + Hash + Clone> View for ChangeDetector<T> {
    type V = Map<Seq<char>, T>;

    closed spec fn view(&self) -> Map<Seq<char>, T> {
        self.values@
    }
}

/// True when `key` already holds a value equal (by `==`) to `value`.
pub open spec fn holds_equal<T: Eq>(m: Map<Seq<char>, T>, key: Seq<char>, value: T) -> bool {
    m.contains_key(key) && m[key].eq_spec(&value)
}

/// What the detector remembers after being shown `value` under `key`.
pub open spec fn after_change<T: Eq>(m: Map<Seq<char>, T>, key: Seq<char>, value: T) -> Map<Seq<char>, T> {
    if holds_equal(m, key, value) {
        m
    } else {
        m.insert(key, value)
    }
}

impl<T: Eq + Hash + Clone> ChangeDetector<T> {
    pub fn new() -> (r: Self)
        ensures
            r@ == Map::<Seq<char>, T>::empty(),
    {
        ChangeDetector { values: StringHashMap::new() }
    }

    /// Returns `true` if the value is new or different from the previous
    /// value; the new value is then remembered. An equal value leaves the
    /// detector as it was.
    pub fn changed(&mut self, key: &str, value: T) -> (r: bool)
        ensures
            !old(self)@.contains_key(key@) ==> r,
            T::obeys_eq_spec() ==> r == !holds_equal(old(self)@, key@, value),
            T::obeys_eq_spec() ==> final(self)@ == after_change(old(self)@, key@, value),
            r ==> final(self)@ == old(self)@.insert(key@, value),
            !r ==> final(self)@ == old(self)@,
    {
        let same = match self.values.get(key) {
            Some(prev) => *prev == value,
            None => false,
        };
        if same {
            false
        } else {
            self.values.insert(key.to_owned(), value);
            true
        }
    }
}

/// Showing a value a second time under the same key reports no change
/// (for a value that `==` finds equal to itself).
pub proof fn lemma_repeat_unchanged<T: Eq>(m: Map<Seq<char>, T>, key: Seq<char>, value: T)
    requires
        value.eq_spec(&value),
    ensures
        holds_equal(after_change(m, key, value), key, value),
{
}

/// Keys are independent: what is shown under one key does not change what
/// another key reports.
pub proof fn lemma_keys_independent<T: Eq>(
    m: Map<Seq<char>, T>,
    k1: Seq<char>,
    v1: T,
    k2: Seq<char>,
    v2: T,
)
    requires
        k1 != k2,
    ensures
        holds_equal(after_change(m, k1, v1), k2, v2) == holds_equal(m, k2, v2),
{
}

/// What the detector remembers after being shown each `(key, value)` of
/// `calls` in turn, starting from a new detector.
pub open spec fn replay<T: Eq>(calls: Seq<(Seq<char>, T)>) -> Map<Seq<char>, T>
    decreases calls.len(),
{
    if calls.len() == 0 {
        Map::empty()
    } else {
        after_change(replay(calls.drop_last()), calls.last().0, calls.last().1)
    }
}

/// After any history of calls, a key is known exactly when some call was
/// made under it: the first call under a key always reports a change.
pub proof fn lemma_history_keys<T: Eq>(calls: Seq<(Seq<char>, T)>, key: Seq<char>)
    ensures
        replay(calls).contains_key(key) <==> exists|i: int| 0 <= i < calls.len() && #[trigger] calls[i].0 == key,
    decreases calls.len(),
{
    if calls.len() > 0 {
        let front = calls.drop_last();
        lemma_history_keys(front, key);
        if replay(front).contains_key(key) {
            let i = choose|i: int| 0 <= i < front.len() && #[trigger] front[i].0 == key;
            assert(calls[i].0 == key);
        }
        if exists|i: int| 0 <= i < calls.len() && #[trigger] calls[i].0 == key {
            let i = choose|i: int| 0 <= i < calls.len() && #[trigger] calls[i].0 == key;
            if i < calls.len() - 1 {
                assert(front[i].0 == key);
            }
        }
    }
}

/// For a type whose `==` is equality, the value remembered under a key is
/// the one given by the last call under that key; calls under other keys
/// do not touch it. So the next call under `key` reports a change exactly
/// when no call was made under it or its value differs from that one.
pub proof fn lemma_history_last_value<T: Eq>(calls: Seq<(Seq<char>, T)>, key: Seq<char>, j: int)
    requires
        forall|x: T, y: T| #[trigger] x.eq_spec(&y) <==> x == y,
        0 <= j < calls.len(),
        calls[j].0 == key,
        forall|i: int| j < i < calls.len() ==> #[trigger] calls[i].0 != key,
    ensures
        replay(calls).contains_key(key),
        replay(calls)[key] == calls[j].1,
        forall|v: T| #[trigger] holds_equal(replay(calls), key, v) <==> v == calls[j].1,
    decreases calls.len(),
{
    let front = calls.drop_last();
    if j < calls.len() - 1 {
        assert forall|i: int| j < i < front.len() implies #[trigger] front[i].0 != key by {
            assert(calls[i].0 != key);
        }
        lemma_history_last_value(front, key, j);
        assert(calls.last().0 != key);
    }
}

/// Element-wise equality (by `==`) of two lists of the same length.
pub open spec fn same_items<T: Eq>(a: Seq<T>, b: Seq<T>) -> bool {
    &&& a.len() == b.len()
    &&& forall|i: int| 0 <= i < a.len() ==> #[trigger] a[i].eq_spec(&b[i])
}

/// Tracks structural changes to a list of items.
pub struct ListChangeDetector<T: Eq + Hash + Clone> {
    snapshot: Vec<T>,
}

impl<T: Eq + Hash + Clone> View for ListChangeDetector<T> {
    type V = Seq<T>;

    closed spec fn view(&self) -> Seq<T> {
        self.snapshot@
    }
}

/// Copies every item of a slice with `Clone`.
fn clone_items<T: Clone>(items: &[T]) -> (r: Vec<T>)
    ensures
        r@.len() == items@.len(),
        forall|i: int| 0 <= i < items@.len() ==> cloned::<T>(items@[i], #[trigger] r@[i]),
{
    let mut out: Vec<T> = Vec::new();
    let mut i: usize = 0;
    while i < items.len()
        invariant
            i <= items@.len(),
            out@.len() == i,
            forall|j: int| 0 <= j < i ==> cloned::<T>(items@[j], #[trigger] out@[j]),
        decreases items@.len() - i,
    {
        let c = items[i].clone();
        out.push(c);
        i += 1;
    }
    out
}

impl<T: Eq + Hash + Clone> ListChangeDetector<T> {
    pub fn new() -> (r: Self)
        ensures
            r@ == Seq::<T>::empty(),
    {
        ListChangeDetector { snapshot: Vec::new() }
    }

    /// Returns `true` if the list contents changed since the last check
    /// (another length, or some position holding an unequal item); the
    /// snapshot then becomes a copy of `items`. Otherwise nothing changes.
    pub fn changed(&mut self, items: &[T]) -> (r: bool)
        ensures
            old(self)@.len() != items@.len() ==> r,
            old(self)@.len() == 0 && items@.len() == 0 ==> !r,
            T::obeys_eq_spec() ==> r == !same_items(old(self)@, items@),
            r ==> final(self)@.len() == items@.len(),
            r ==> forall|i: int|
                0 <= i < items@.len() ==> cloned::<T>(items@[i], #[trigger] final(self)@[i]),
            !r ==> final(self)@ == old(self)@,
    {
        if self.snapshot.len() != items.len() {
            self.snapshot = clone_items(items);
            return true;
        }
        let n = items.len();
        let mut i: usize = 0;
        while i < n
            invariant
                n == items@.len(),
                n == self.snapshot@.len(),
                i <= n,
                self.snapshot@ == old(self)@,
                T::obeys_eq_spec() ==> forall|j: int|
                    0 <= j < i ==> #[trigger] self.snapshot@[j].eq_spec(&items@[j]),
            decreases n - i,
        {
            if self.snapshot[i] != items[i] {
                self.snapshot = clone_items(items);
                return true;
            }
            i += 1;
        }
        false
    }
}

/// Showing a list a second time reports no change, whether the first time
/// kept the old snapshot (equal to the list) or took a copy of it (for item
/// types whose copies are `==` to their originals).
pub proof fn lemma_list_repeat_unchanged<T: Eq + Clone>(old_snapshot: Seq<T>, snapshot: Seq<T>, items: Seq<T>)
    requires
        forall|x: T, y: T| cloned::<T>(x, y) ==> #[trigger] y.eq_spec(&x),
        (same_items(old_snapshot, items) && snapshot == old_snapshot) || (snapshot.len() == items.len()
            && forall|i: int| 0 <= i < items.len() ==> cloned::<T>(items[i], #[trigger] snapshot[i])),
    ensures
        same_items(snapshot, items),
{
    if !(same_items(old_snapshot, items) && snapshot == old_snapshot) {
        assert forall|i: int| 0 <= i < snapshot.len() implies #[trigger] snapshot[i].eq_spec(&items[i]) by {
            assert(cloned::<T>(items[i], snapshot[i]));
        }
    }
}

} // verus!
