//! The values that the named groups of a pattern captured from one file name.

use vstd::prelude::*;
use vstd::string::StringExecFns;

verus! {

/// A finite map from group name to captured text. No name occurs twice.
#[derive(Debug)]
pub struct CaptureMap {
    entries: Vec<(String, String)>,
}

impl View for CaptureMap {
    type V = Map<Seq<char>, Seq<char>>;

    closed spec fn view(&self) -> Map<Seq<char>, Seq<char>> {
        Map::new(
            |k: Seq<char>| self.has_key(k),
            |k: Seq<char>| self.entries@[self.position(k)].1@,
        )
    }
}

impl CaptureMap {
    spec fn has_key(&self, k: Seq<char>) -> bool {
        exists|i: int| 0 <= i < self.entries@.len() && (#[trigger] self.entries@[i]).0@ == k
    }

    spec fn position(&self, k: Seq<char>) -> int {
        choose|i: int| 0 <= i < self.entries@.len() && (#[trigger] self.entries@[i]).0@ == k
    }

    /// The invariant of the type: every name stands once, so the number of
    /// entries is the number of names.
    pub closed spec fn wf(&self) -> bool {
        &&& forall|i: int, j: int|
            0 <= i < j < self.entries@.len() ==> (#[trigger] self.entries@[i]).0@ != (
            #[trigger] self.entries@[j]).0@
        &&& self@.dom().finite()
        &&& self@.dom().len() == self.entries@.len()
    }

    /// The map without any entry.
    pub fn new() -> (m: CaptureMap)
        ensures
            m.wf(),
            m@ == Map::<Seq<char>, Seq<char>>::empty(),
    {
        let m = CaptureMap { entries: Vec::new() };
        proof {
            assert(m@ =~= Map::<Seq<char>, Seq<char>>::empty());
        }
        m
    }

    fn find(&self, name: &String) -> (r: Option<usize>)
        requires
            self.wf(),
        ensures
            match r {
                Some(i) => i < self.entries@.len() && self.entries@[i as int].0@ == name@
                    && self.position(name@) == i && self.has_key(name@),
                None => !self.has_key(name@),
            },
    {
        let mut i: usize = 0;
        while i < self.entries.len()
            invariant
                self.wf(),
                i <= self.entries@.len(),
                forall|j: int| 0 <= j < i ==> (#[trigger] self.entries@[j]).0@ != name@,
            decreases self.entries@.len() - i,
        {
            if self.entries[i].0 == *name {
                proof {
                    assert(self.entries@[i as int].0@ == name@);
                    let p = self.position(name@);
                    assert(self.entries@[p].0@ == name@);
                    assert(p == i);
                }
                return Some(i);
            }
            i += 1;
        }
        None
    }

    /// Binds `name` to `value`, in place of what it was bound to before.
    pub fn insert(&mut self, name: String, value: String)
        requires
            old(self).wf(),
        ensures
            final(self).wf(),
            final(self)@ == old(self)@.insert(name@, value@),
    {
        let ghost before = *self;
        match self.find(&name) {
            Some(i) => {
                self.entries.set(i, (name, value));
                proof {
                    assert forall|k: Seq<char>| self.has_key(k) == before.has_key(k) by {
                        if self.has_key(k) {
                            let j = self.position(k);
                            assert(before.entries@[j].0@ == k);
                        }
                        if before.has_key(k) {
                            let j = before.position(k);
                            assert(self.entries@[j].0@ == k);
                        }
                    }
                    assert forall|k: Seq<char>| self.has_key(k) implies self.position(k)
                        == before.position(k) by {
                        let a = self.position(k);
                        let b = before.position(k);
                        assert(before.entries@[a].0@ == k);
                        assert(before.entries@[b].0@ == k);
                    }
                    assert(self@ =~= before@.insert(name@, value@));
                    assert(self@.dom() =~= before@.dom());
                }
            },
            None => {
                self.entries.push((name, value));
                proof {
                    let n = before.entries@.len() as int;
                    assert(self.entries@[n].0@ == name@);
                    assert forall|k: Seq<char>| self.has_key(k) == (before.has_key(k) || k
                        == name@) by {
                        if self.has_key(k) {
                            let j = self.position(k);
                            if j < n {
                                assert(before.entries@[j].0@ == k);
                            }
                        }
                        if before.has_key(k) {
                            let j = before.position(k);
                            assert(self.entries@[j].0@ == k);
                        }
                    }
                    assert forall|i: int, j: int| 0 <= i < j < self.entries@.len() implies (
                    #[trigger] self.entries@[i]).0@ != (#[trigger] self.entries@[j]).0@ by {
                        if j == n {
                            assert(before.entries@[i].0@ != name@);
                        } else {
                            assert(before.entries@[i].0@ != before.entries@[j].0@);
                        }
                    }
                    assert forall|k: Seq<char>| before.has_key(k) implies self.position(k)
                        == before.position(k) by {
                        let a = self.position(k);
                        let b = before.position(k);
                        assert(self.entries@[a].0@ == k);
                        assert(self.entries@[b].0@ == k);
                    }
                    assert(self.position(name@) == n);
                    assert(self@ =~= before@.insert(name@, value@));
                    assert(self@.dom() =~= before@.dom().insert(name@));
                }
            },
        }
    }

    /// The text bound to `name`, if any.
    pub fn get(&self, name: &str) -> (r: Option<&String>)
        requires
            self.wf(),
        ensures
            match r {
                Some(v) => self@.contains_key(name@) && v@ == self@[name@],
                None => !self@.contains_key(name@),
            },
    {
        let key = String::from_str(name);
        match self.find(&key) {
            Some(i) => Some(&self.entries[i].1),
            None => None,
        }
    }

    /// The number of names that are bound.
    pub fn len(&self) -> (n: usize)
        requires
            self.wf(),
        ensures
            n == self@.len(),
    {
        self.entries.len()
    }

    /// Whether no name is bound.
    pub fn is_empty(&self) -> (r: bool)
        requires
            self.wf(),
        ensures
            r == (self@.len() == 0),
    {
        self.entries.len() == 0
    }
}

} // verus!
