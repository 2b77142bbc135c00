//! In-memory storage of variables under one vendor: a mapping from variable
//! name to its stored flags and bytes, with unique names. It gives the
//! capability contract a zero-I/O implementation to test against.

use vstd::prelude::*;
use vstd::string::*;

use crate::flags::VariableFlags;
use crate::text::str_eq;

verus! {

/// One stored variable: its flags and its raw bytes.
pub struct StoreValue {
    pub flags: VariableFlags,
    pub data: Vec<u8>,
}

impl StoreValue {
    /// An empty value: no flags, no bytes.
    pub fn new() -> (r: Self)
        ensures
            r.flags.bits == 0,
            r.data@ == Seq::<u8>::empty(),
    {
        StoreValue { flags: VariableFlags::empty(), data: Vec::new() }
    }
}

/// No two entries share a name.
pub open spec fn unique_keys(s: Seq<(Seq<char>, StoreValue)>) -> bool {
    forall|i: int, j: int| 0 <= i < j < s.len() ==> (#[trigger] s[i]).0 != (#[trigger] s[j]).0
}

/// The variables of one vendor, keyed by name.
pub struct GuidGroup {
    values: Vec<(String, StoreValue)>,
}

impl GuidGroup {
    /// The stored entries, as name view and value, in insertion order.
    pub closed spec fn entries(&self) -> Seq<(Seq<char>, StoreValue)> {
        self.values@.map_values(|p: (String, StoreValue)| (p.0@, p.1))
    }

    /// Names are unique.
    pub open spec fn wf(&self) -> bool {
        unique_keys(self.entries())
    }

    /// Whether a name is stored.
    pub open spec fn contains_key(&self, name: Seq<char>) -> bool {
        exists|i: int| 0 <= i < self.entries().len() && (#[trigger] self.entries()[i]).0 == name
    }

    /// The position of a stored name.
    pub open spec fn index_of(&self, name: Seq<char>) -> int {
        choose|i: int| 0 <= i < self.entries().len() && (#[trigger] self.entries()[i]).0 == name
    }

    /// The value stored under a name.
    pub open spec fn value_of(&self, name: Seq<char>) -> StoreValue {
        self.entries()[self.index_of(name)].1
    }

    /// An empty group.
    pub fn new() -> (r: Self)
        ensures
            r.entries() == Seq::<(Seq<char>, StoreValue)>::empty(),
            r.wf(),
    {
        let r = GuidGroup { values: Vec::new() };
        proof {
            assert(r.entries() =~= Seq::<(Seq<char>, StoreValue)>::empty());
        }
        r
    }

    /// The position of a name, if it is stored.
    fn find_index(&self, name: &str) -> (r: Option<usize>)
        ensures
            r matches Some(i) ==> i < self.entries().len() && self.entries()[i as int].0
                == name@,
            r is None ==> !self.contains_key(name@),
    {
        let mut i: usize = 0;
        while i < self.values.len()
            invariant
                i <= self.values.len(),
                self.entries().len() == self.values@.len(),
                forall|j: int|
                    0 <= j < self.entries().len() ==> (#[trigger] self.entries()[j]).0
                        == self.values@[j].0@,
                forall|j: int| 0 <= j < i ==> (#[trigger] self.entries()[j]).0 != name@,
            decreases self.values.len() - i,
        {
            if str_eq(name, self.values[i].0.as_str()) {
                return Some(i);
            }
            i += 1;
        }
        None
    }

    /// Look a name up.
    pub fn variable(&self, name: &str) -> (r: Option<&StoreValue>)
        requires
            self.wf(),
        ensures
            r is Some <==> self.contains_key(name@),
            r matches Some(v) ==> *v == self.value_of(name@),
    {
        match self.find_index(name) {
            Some(i) => {
                let v = &self.values[i].1;
                proof {
                    assert(self.contains_key(name@));
                    let j = self.index_of(name@);
                    assert(0 <= j < self.entries().len() && self.entries()[j].0 == name@);
                    assert(j == i as int);
                    assert(self.entries()[i as int].1 == self.values@[i as int].1);
                }
                Some(v)
            },
            None => None,
        }
    }

    /// The value stored under a name, inserting an empty value first when the
    /// name is new. The returned reference edits the stored entry in place.
    pub fn variable_mut(&mut self, name: &str) -> (r: &mut StoreValue)
        requires
            old(self).wf(),
        ensures
            old(self).contains_key(name@) ==> *r == old(self).value_of(name@)
                && final(self).entries() == old(self).entries().update(
                old(self).index_of(name@),
                (name@, *final(r)),
            ) && unique_keys(
                old(self).entries().update(old(self).index_of(name@), (name@, *final(r))),
            ),
            !old(self).contains_key(name@) ==> r.flags.bits == 0 && r.data@ == Seq::<u8>::empty()
                && final(self).entries() == old(self).entries().push((name@, *final(r)))
                && unique_keys(old(self).entries().push((name@, *final(r)))),
    {
        match self.find_index(name) {
            Some(i) => {
                proof {
                    assert(old(self).contains_key(name@));
                    let j = old(self).index_of(name@);
                    assert(0 <= j < old(self).entries().len() && old(self).entries()[j].0
                        == name@);
                    assert(j == i as int);
                    assert forall|v2: StoreValue|
                        #[trigger] unique_keys(
                            old(self).entries().update(i as int, (name@, v2)),
                        ) by {
                        let e = old(self).entries().update(i as int, (name@, v2));
                        assert forall|x: int, y: int|
                            0 <= x < y < e.len() implies (#[trigger] e[x]).0 != (
                        #[trigger] e[y]).0 by {
                            assert(e[x].0 == old(self).entries()[x].0);
                            assert(e[y].0 == old(self).entries()[y].0);
                        }
                    }
                }
                &mut self.values[i].1
            },
            None => {
                proof {
                    assert forall|v2: StoreValue|
                        #[trigger] unique_keys(old(self).entries().push((name@, v2))) by {
                        let e = old(self).entries().push((name@, v2));
                        assert forall|x: int, y: int|
                            0 <= x < y < e.len() implies (#[trigger] e[x]).0 != (
                        #[trigger] e[y]).0 by {
                            assert(e[x].0 == old(self).entries()[x].0);
                            if y < e.len() - 1 {
                                assert(e[y].0 == old(self).entries()[y].0);
                            } else {
                                assert(!old(self).contains_key(name@));
                            }
                        }
                    }
                }
                self.values.push((name.to_owned(), StoreValue::new()));
                let n = self.values.len() - 1;
                &mut self.values[n].1
            },
        }
    }
}

impl Default for GuidGroup {
    /// The default group is empty.
    fn default() -> (r: Self)
        ensures
            r.entries() == Seq::<(Seq<char>, StoreValue)>::empty(),
            r.wf(),
    {
        GuidGroup::new()
    }
}

} // verus!
