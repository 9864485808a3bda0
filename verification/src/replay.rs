//! Idempotent requests: the results of requests that were answered already,
//! by the key that the client gave them.

use crate::text::text_equal;
use vstd::prelude::*;

verus! {

/// One answered request: whose it was, its key, and what it led to.
#[derive(Debug)]
pub struct Answered<T> {
    pub scope: u128,
    pub key: String,
    pub result: T,
}

/// The requests that were answered already.
#[derive(Debug)]
pub struct ReplayLog<T> {
    entries: Vec<Answered<T>>,
}

impl<T> ReplayLog<T> {
    closed spec fn holds(self, scope: u128, key: Seq<char>, i: int) -> bool {
        &&& 0 <= i < self.entries@.len()
        &&& self.entries@[i].scope == scope
        &&& self.entries@[i].key@ == key
    }

    /// Whether no key of a scope occurs twice.
    pub closed spec fn well_formed(self) -> bool {
        forall|i: int, j: int|
            0 <= i < j < self.entries@.len() ==> !((#[trigger] self.entries@[i]).scope == (
            #[trigger] self.entries@[j]).scope && self.entries@[i].key@ == self.entries@[j].key@)
    }

    /// What the request with this key led to.
    pub closed spec fn lookup(self, scope: u128, key: Seq<char>) -> Option<T> {
        if exists|i: int| self.holds(scope, key, i) {
            Some(self.entries@[choose|i: int| self.holds(scope, key, i)].result)
        } else {
            None
        }
    }

    /// A log without entries.
    pub fn new() -> (r: ReplayLog<T>)
        ensures
            r.well_formed(),
            forall|scope: u128, key: Seq<char>| #[trigger] r.lookup(scope, key) is None,
    {
        ReplayLog { entries: Vec::new() }
    }

    fn find(&self, scope: u128, key: &str) -> (r: Option<usize>)
        ensures
            match r {
                Some(i) => self.holds(scope, key@, i as int),
                None => forall|i: int| !self.holds(scope, key@, i),
            },
    {
        let mut i: usize = 0;
        while i < self.entries.len()
            invariant
                i <= self.entries@.len(),
                forall|j: int| 0 <= j < i ==> !self.holds(scope, key@, j),
            decreases self.entries@.len() - i,
        {
            if self.entries[i].scope == scope && text_equal(self.entries[i].key.as_str(), key) {
                return Some(i);
            }
            i = i + 1;
        }
        None
    }

    /// What the request with this key led to.
    pub fn get(&self, scope: u128, key: &str) -> (r: Option<&T>)
        requires
            self.well_formed(),
        ensures
            match r {
                Some(result) => self.lookup(scope, key@) == Some(*result),
                None => self.lookup(scope, key@) is None,
            },
    {
        match self.find(scope, key) {
            Some(i) => {
                proof {
                    let k = choose|k: int| self.holds(scope, key@, k);
                    assert(self.holds(scope, key@, k));
                    assert(k == i);
                }
                Some(&self.entries[i].result)
            },
            None => None,
        }
    }

    /// Notes what the request with this key led to.
    pub fn insert(&mut self, scope: u128, key: String, result: T)
        requires
            old(self).well_formed(),
        ensures
            final(self).well_formed(),
            forall|other: u128, name: Seq<char>| #[trigger]
                final(self).lookup(other, name) == if other == scope && name == key@ {
                    Some(result)
                } else {
                    old(self).lookup(other, name)
                },
    {
        let ghost before = *self;
        let ghost text = key@;
        match self.find(scope, key.as_str()) {
            Some(i) => {
                let ghost at = i as int;
                self.entries.set(i, Answered { scope, key, result });
                proof {
                    let after = *self;
                    assert forall|other: u128, name: Seq<char>| #[trigger]
                        after.lookup(other, name) == if other == scope && name == text {
                            Some(result)
                        } else {
                            before.lookup(other, name)
                        } by {
                        assert forall|k: int| before.holds(other, name, k) == after.holds(
                            other,
                            name,
                            k,
                        ) by {}
                        if other == scope && name == text {
                            assert(after.holds(other, name, at));
                            let k = choose|k: int| after.holds(other, name, k);
                            assert(after.holds(other, name, k));
                            assert(k == at);
                        } else if exists|k: int| after.holds(other, name, k) {
                            let k = choose|k: int| after.holds(other, name, k);
                            let m = choose|m: int| before.holds(other, name, m);
                            assert(after.holds(other, name, k));
                            assert(before.holds(other, name, k));
                            assert(before.holds(other, name, m));
                            assert(k == m);
                            assert(k != at);
                        }
                    }
                }
            },
            None => {
                self.entries.push(Answered { scope, key, result });
                proof {
                    let after = *self;
                    let at = before.entries@.len() as int;
                    assert forall|i: int, j: int| 0 <= i < j < after.entries@.len() implies !((
                    #[trigger] after.entries@[i]).scope == (#[trigger] after.entries@[j]).scope
                        && after.entries@[i].key@ == after.entries@[j].key@) by {
                        if j == at {
                            assert(!before.holds(scope, text, i));
                        }
                    }
                    assert forall|other: u128, name: Seq<char>| #[trigger]
                        after.lookup(other, name) == if other == scope && name == text {
                            Some(result)
                        } else {
                            before.lookup(other, name)
                        } by {
                        assert forall|k: int| 0 <= k < at implies before.holds(other, name, k)
                            == after.holds(other, name, k) by {}
                        if other == scope && name == text {
                            assert(after.holds(other, name, at));
                            let k = choose|k: int| after.holds(other, name, k);
                            assert(after.holds(other, name, k));
                            assert(k == at) by {
                                if k < at {
                                    assert(before.holds(other, name, k));
                                }
                            }
                        } else if exists|k: int| after.holds(other, name, k) {
                            let k = choose|k: int| after.holds(other, name, k);
                            assert(after.holds(other, name, k));
                            assert(k < at);
                            assert(before.holds(other, name, k));
                            let m = choose|m: int| before.holds(other, name, m);
                            assert(before.holds(other, name, m));
                            assert(k == m);
                        } else {
                            assert forall|k: int| !before.holds(other, name, k) by {
                                if before.holds(other, name, k) {
                                    assert(after.holds(other, name, k));
                                }
                            }
                        }
                    }
                }
            },
        }
    }
}

} // verus!
