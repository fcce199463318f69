//! The registry of builtin commands: for each registered name, the function
//! that stands in for an executable of that name.
//!
//! The registry is an ordinary value. A program that wants one registry for
//! the whole process keeps it behind a lock and holds the lock for the length
//! of one lookup or one registration.

use vstd::prelude::*;
use vstd::string::*;

verus! {

/// Builtin commands by name. `F` is the type of the functions.
pub struct Registry<F> {
    entries: Vec<(String, F)>,
}

/// `i` is the first position at which `entries` names `name`.
pub open spec fn first_named<F>(entries: Seq<(String, F)>, name: Seq<char>, i: int) -> bool {
    &&& 0 <= i < entries.len()
    &&& entries[i].0@ == name
    &&& forall|j: int| 0 <= j < i ==> (#[trigger] entries[j]).0@ != name
}

impl<F> View for Registry<F> {
    type V = Map<Seq<char>, F>;

    closed spec fn view(&self) -> Map<Seq<char>, F> {
        Map::new(
            |name: Seq<char>| exists|i: int| first_named(self.entries@, name, i),
            |name: Seq<char>| self.entries@[choose|i: int| first_named(self.entries@, name, i)].1,
        )
    }
}

impl<F> Registry<F> {
    /// A registry without entries.
    pub fn new() -> (r: Registry<F>)
        ensures
            r@ == Map::<Seq<char>, F>::empty(),
    {
        let r = Registry { entries: Vec::new() };
        proof {
            assert(r@ =~= Map::<Seq<char>, F>::empty());
        }
        r
    }

    fn position(&self, name: &str) -> (r: Option<usize>)
        ensures
            r matches Some(i) ==> first_named(self.entries@, name@, i as int),
            r is None ==> forall|j: int|
                0 <= j < self.entries.len() ==> (#[trigger] self.entries@[j]).0@ != name@,
            r is Some == self@.contains_key(name@),
            r matches Some(i) ==> self@[name@] == self.entries@[i as int].1,
    {
        let mut i: usize = 0;
        while i < self.entries.len()
            invariant
                i <= self.entries.len(),
                forall|j: int| 0 <= j < i ==> (#[trigger] self.entries@[j]).0@ != name@,
            decreases self.entries.len() - i,
        {
            if self.entries[i].0.as_str().eq(name) {
                proof {
                    let k = choose|k: int| first_named(self.entries@, name@, k);
                    assert(first_named(self.entries@, name@, i as int));
                    assert(k == i) by {
                        if k < i {
                            assert(self.entries@[k].0@ != name@);
                        } else if i < k {
                            assert(self.entries@[i as int].0@ != name@);
                        }
                    }
                }
                return Some(i);
            }
            i += 1;
        }
        proof {
            if self@.contains_key(name@) {
                let k = choose|k: int| first_named(self.entries@, name@, k);
                assert(self.entries@[k].0@ != name@);
            }
        }
        None
    }

    /// Registers `func` under `name`. An earlier entry for that name is
    /// overwritten; every other entry stays.
    pub fn insert(&mut self, name: &str, func: F)
        ensures
            final(self)@ == old(self)@.insert(name@, func),
    {
        let ghost before = self.entries@;
        let found = self.position(name);
        match found {
            Some(i) => {
                self.entries.set(i, (String::from_str(name), func));
            },
            None => {
                self.entries.push((String::from_str(name), func));
            },
        }
        proof {
            let after = self.entries@;
            let at = match found {
                Some(i) => i as int,
                None => before.len() as int,
            };
            assert(first_named(after, name@, at));
            assert forall|other: Seq<char>, k: int| other != name@ implies (first_named(
                before,
                other,
                k,
            ) <==> first_named(after, other, k)) by {
                if first_named(before, other, k) {
                    assert(after[k] == before[k]);
                    assert forall|j: int| 0 <= j < k implies (#[trigger] after[j]).0@ != other by {
                        if j != at {
                            assert(after[j] == before[j]);
                        }
                    }
                }
                if first_named(after, other, k) {
                    assert(k != at);
                    assert(after[k] == before[k]);
                    assert forall|j: int| 0 <= j < k implies (#[trigger] before[j]).0@
                        != other by {
                        if j != at {
                            assert(after[j] == before[j]);
                        } else {
                            assert(before[j].0@ == name@);
                        }
                    }
                }
            }
            let target = old(self)@.insert(name@, func);
            assert forall|other: Seq<char>| self@.dom().contains(other) <==> target.dom().contains(
                other,
            ) by {
                if other != name@ {
                    if self@.dom().contains(other) {
                        let k = choose|k: int| first_named(after, other, k);
                        assert(first_named(before, other, k));
                    }
                    if target.dom().contains(other) {
                        let k = choose|k: int| first_named(before, other, k);
                        assert(first_named(after, other, k));
                    }
                }
            }
            assert forall|other: Seq<char>| self@.dom().contains(other) implies self@[other]
                == target[other] by {
                let k = choose|k: int| first_named(after, other, k);
                if other == name@ {
                    assert(k == at) by {
                        if k < at {
                            assert(after[k].0@ != name@);
                        } else if at < k {
                            assert(after[at].0@ != name@);
                        }
                    }
                } else {
                    assert(first_named(before, other, k));
                    let b = choose|b: int| first_named(before, other, b);
                    assert(b == k) by {
                        if b < k {
                            assert(before[b].0@ != other);
                        } else if k < b {
                            assert(before[k].0@ != other);
                        }
                    }
                    assert(after[k] == before[k]);
                }
            }
            assert(self@ =~= target);
        }
    }

    /// Whether a function is registered under `name`.
    pub fn contains_key(&self, name: &str) -> (r: bool)
        ensures
            r == self@.contains_key(name@),
    {
        self.position(name).is_some()
    }

    /// The function registered under `name`.
    pub fn get(&self, name: &str) -> (r: Option<&F>)
        ensures
            match r {
                Some(f) => self@.contains_key(name@) && *f == self@[name@],
                None => !self@.contains_key(name@),
            },
    {
        match self.position(name) {
            Some(i) => Some(&self.entries[i].1),
            None => None,
        }
    }
}

/// Registers `func` as the builtin command `cmd`, in place of any function
/// registered under that name before.
pub fn export_cmd<F>(registry: &mut Registry<F>, cmd: &str, func: F)
    ensures
        final(registry)@ == old(registry)@.insert(cmd@, func),
{
    registry.insert(cmd, func);
}

} // verus!
