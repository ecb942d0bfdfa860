use vstd::prelude::*;
use crate::envelope::Rational;

verus! {

/// One auxiliary value a stage may leave for other stages or for the
/// scheduler: the closed set of payloads the runtime knows how to carry.
#[derive(Clone, Debug)]
pub enum AttrValue {
    Int(i64),
    Size { width: u32, height: u32 },
    Rate(Rational),
    Text(String),
    Flag(bool),
}

/// The chain's key/value attribute store: auxiliary derived state passed
/// between stages or back to the scheduler.  Keys are unique; setting an
/// existing key overwrites its value.
pub struct AttributeMap {
    pub entries: Vec<(String, AttrValue)>,
}

impl AttributeMap {
    /// True when no two entries share a key.
    pub open spec fn wf(self) -> bool {
        forall|i: int, j: int|
            0 <= i < j < self.entries@.len() ==> self.entries@[i].0@ != self.entries@[j].0@
    }

    /// Whether some entry holds this key.
    pub open spec fn spec_contains(self, key: Seq<char>) -> bool {
        exists|i: int| 0 <= i < self.entries@.len() && self.entries@[i].0@ == key
    }

    /// The index of the entry holding this key.
    pub open spec fn index_of(self, key: Seq<char>) -> int {
        choose|i: int| 0 <= i < self.entries@.len() && self.entries@[i].0@ == key
    }

    /// The value stored under this key.
    pub open spec fn spec_get(self, key: Seq<char>) -> AttrValue {
        self.entries@[self.index_of(key)].1
    }

    pub fn new() -> (r: AttributeMap)
        ensures
            r.wf(),
            r.entries@.len() == 0,
    {
        AttributeMap { entries: Vec::new() }
    }

    /// Finds the position of a key, scanning in entry order.
    fn position(&self, key: &String) -> (r: Option<usize>)
        requires
            self.wf(),
        ensures
            match r {
                Some(i) => i < self.entries@.len() && self.entries@[i as int].0@ == key@,
                None => !self.spec_contains(key@),
            },
    {
        let n = self.entries.len();
        let mut i: usize = 0;
        while i < n
            invariant
                n == self.entries@.len(),
                i <= n,
                forall|j: int| 0 <= j < i ==> self.entries@[j].0@ != key@,
            decreases n - i,
        {
            if self.entries[i].0 == *key {
                return Some(i);
            }
            i = i + 1;
        }
        None
    }

    /// Stores `value` under `key`, replacing any value already there.
    pub fn set_attribute(&mut self, key: String, value: AttrValue)
        requires
            old(self).wf(),
        ensures
            final(self).wf(),
            final(self).spec_contains(key@),
            final(self).spec_get(key@) == value,
            forall|k: Seq<char>| k != key@ ==>
                (final(self).spec_contains(k) <==> old(self).spec_contains(k)),
            forall|k: Seq<char>| k != key@ && old(self).spec_contains(k) ==>
                final(self).spec_get(k) == old(self).spec_get(k),
    {
        let ghost keyv = key@;
        let pos = self.position(&key);
        match pos {
            Some(i) => {
                self.entries[i] = (key, value);
                proof {
                    let oldm = *old(self);
                    let newm = *self;
                    assert forall|j: int| 0 <= j < newm.entries@.len() implies
                        #[trigger] newm.entries@[j].0@ == oldm.entries@[j].0@ by {
                        if j == i {
                            assert(oldm.entries@[j].0@ == keyv);
                        }
                    }
                    lemma_unique_get(oldm);
                    assert(newm.wf());
                    lemma_unique_get(newm);
                    assert forall|k: Seq<char>| k != keyv && oldm.spec_contains(k) implies
                        newm.spec_contains(k) && newm.spec_get(k) == oldm.spec_get(k) by {
                        let j = oldm.index_of(k);
                        assert(newm.entries@[j].0@ == k);
                        assert(newm.index_of(k) == j);
                        assert(j != i);
                    }
                    assert forall|k: Seq<char>| k != keyv && newm.spec_contains(k) implies
                        oldm.spec_contains(k) by {
                        let j = newm.index_of(k);
                        assert(oldm.entries@[j].0@ == k);
                    }
                    assert(newm.entries@[i as int].0@ == keyv);
                    assert(newm.index_of(keyv) == i);
                }
            }
            None => {
                self.entries.push((key, value));
                proof {
                    let oldm = *old(self);
                    let newm = *self;
                    let n = oldm.entries@.len() as int;
                    assert forall|a: int, b: int| 0 <= a < b < newm.entries@.len() implies
                        newm.entries@[a].0@ != newm.entries@[b].0@ by {
                        if b < n {
                            assert(oldm.entries@[a].0@ != oldm.entries@[b].0@);
                        } else {
                            assert(newm.entries@[b].0@ == keyv);
                            assert(oldm.entries@[a].0@ != keyv);
                            assert(newm.entries@[a].0@ == oldm.entries@[a].0@);
                        }
                    }
                    assert(newm.wf());
                    lemma_unique_get(oldm);
                    lemma_unique_get(newm);
                    assert(newm.entries@[n].0@ == keyv);
                    assert(newm.spec_contains(keyv));
                    assert(newm.index_of(keyv) == n);
                    assert forall|k: Seq<char>| k != keyv && oldm.spec_contains(k) implies
                        newm.spec_contains(k) && newm.spec_get(k) == oldm.spec_get(k) by {
                        let j = oldm.index_of(k);
                        assert(newm.entries@[j].0@ == k);
                        assert(newm.index_of(k) == j);
                    }
                    assert forall|k: Seq<char>| k != keyv && newm.spec_contains(k) implies
                        oldm.spec_contains(k) by {
                        let j = newm.index_of(k);
                        assert(j != n);
                        assert(oldm.entries@[j].0@ == k);
                    }
                }
            }
        }
    }

    /// Reads the value stored under `key`, if any.
    pub fn get_attribute(&self, key: &String) -> (r: Option<&AttrValue>)
        requires
            self.wf(),
        ensures
            match r {
                Some(v) => self.spec_contains(key@) && *v == self.spec_get(key@),
                None => !self.spec_contains(key@),
            },
    {
        proof {
            lemma_unique_get(*self);
        }
        match self.position(key) {
            Some(i) => Some(&self.entries[i].1),
            None => None,
        }
    }

    /// Removes the entry stored under `key`, returning its value.
    pub fn remove_attribute(&mut self, key: &String) -> (r: Option<AttrValue>)
        requires
            old(self).wf(),
        ensures
            final(self).wf(),
            !final(self).spec_contains(key@),
            match r {
                Some(v) => old(self).spec_contains(key@) && v == old(self).spec_get(key@),
                None => !old(self).spec_contains(key@),
            },
            forall|k: Seq<char>| k != key@ ==>
                (final(self).spec_contains(k) <==> old(self).spec_contains(k)),
            forall|k: Seq<char>| k != key@ && old(self).spec_contains(k) ==>
                final(self).spec_get(k) == old(self).spec_get(k),
    {
        proof {
            lemma_unique_get(*old(self));
        }
        let ghost keyv = key@;
        match self.position(key) {
            Some(i) => {
                let entry = self.entries.remove(i);
                proof {
                    let oldm = *old(self);
                    let newm = *self;
                    let n = oldm.entries@.len() as int;
                    assert(newm.entries@ == oldm.entries@.remove(i as int));
                    assert forall|j: int| 0 <= j < newm.entries@.len() implies
                        #[trigger] newm.entries@[j] == (if j < i { oldm.entries@[j] } else {
                            oldm.entries@[j + 1]
                        }) by {}
                    assert forall|a: int, b: int| 0 <= a < b < newm.entries@.len() implies
                        newm.entries@[a].0@ != newm.entries@[b].0@ by {}
                    assert(newm.wf());
                    lemma_unique_get(newm);
                    assert(oldm.index_of(keyv) == i);
                    assert forall|k: Seq<char>| newm.spec_contains(k) implies k != keyv
                        && oldm.spec_contains(k) by {
                        let j = newm.index_of(k);
                        if j < i {
                            assert(oldm.entries@[j].0@ == k);
                        } else {
                            assert(oldm.entries@[j + 1].0@ == k);
                        }
                    }
                    assert forall|k: Seq<char>| k != keyv && oldm.spec_contains(k) implies
                        newm.spec_contains(k) && newm.spec_get(k) == oldm.spec_get(k) by {
                        let j = oldm.index_of(k);
                        assert(j != i);
                        if j < i {
                            assert(newm.entries@[j].0@ == k);
                            assert(newm.index_of(k) == j);
                        } else {
                            assert(newm.entries@[j - 1].0@ == k);
                            assert(newm.index_of(k) == j - 1);
                        }
                    }
                }
                Some(entry.1)
            }
            None => None,
        }
    }
}

/// In a map whose keys are unique, any entry holding a key sits at
/// `index_of` that key, so `spec_get` reads exactly that entry.
proof fn lemma_unique_get(m: AttributeMap)
    requires
        m.wf(),
    ensures
        forall|i: int| 0 <= i < m.entries@.len() ==>
            m.spec_contains(#[trigger] m.entries@[i].0@),
        forall|i: int| 0 <= i < m.entries@.len() ==>
            m.index_of(#[trigger] m.entries@[i].0@) == i,
{
    assert forall|i: int| 0 <= i < m.entries@.len() implies
        m.spec_contains(#[trigger] m.entries@[i].0@) by {
        assert(0 <= i < m.entries@.len() && m.entries@[i].0@ == m.entries@[i].0@);
    }
    assert forall|i: int| 0 <= i < m.entries@.len() implies
        m.index_of(#[trigger] m.entries@[i].0@) == i by {
        let k = m.entries@[i].0@;
        assert(0 <= i < m.entries@.len() && m.entries@[i].0@ == k);
        let j = m.index_of(k);
        assert(0 <= j < m.entries@.len() && m.entries@[j].0@ == k);
        if i != j {
            assert(false);
        }
    }
}

} // verus!
