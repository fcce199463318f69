//! Variable overrides of a stage: a map from names to values that remembers
//! the order in which names first came.

use vstd::prelude::*;
use vstd::string::*;
use crate::text::views;

verus! {

/// No two of `keys` are equal.
pub open spec fn distinct(keys: Seq<Seq<char>>) -> bool {
    forall|i: int, j: int| 0 <= i < j < keys.len() ==> keys[i] != keys[j]
}

/// The keys of a list of entries, in order.
pub open spec fn keys_of(entries: Seq<(Seq<char>, Seq<char>)>) -> Seq<Seq<char>> {
    Seq::new(entries.len(), |i: int| entries[i].0)
}

/// Whether `entries` holds an entry for `key`.
pub open spec fn has_key(entries: Seq<(Seq<char>, Seq<char>)>, key: Seq<char>) -> bool {
    exists|i: int| 0 <= i < entries.len() && (#[trigger] entries[i]).0 == key
}

/// A position at which `entries` holds `key`.
pub open spec fn key_index(entries: Seq<(Seq<char>, Seq<char>)>, key: Seq<char>) -> int {
    choose|i: int| 0 <= i < entries.len() && (#[trigger] entries[i]).0 == key
}

/// The value that `entries` holds for `key`, if any.
pub open spec fn lookup(entries: Seq<(Seq<char>, Seq<char>)>, key: Seq<char>) -> Option<
    Seq<char>,
> {
    if has_key(entries, key) {
        Some(entries[key_index(entries, key)].1)
    } else {
        None
    }
}

/// `entries` after `key` was set to `value`: an entry for `key` is replaced
/// where it stands, a new key goes to the end.
pub open spec fn with_entry(
    entries: Seq<(Seq<char>, Seq<char>)>,
    key: Seq<char>,
    value: Seq<char>,
) -> Seq<(Seq<char>, Seq<char>)> {
    if has_key(entries, key) {
        entries.update(key_index(entries, key), (key, value))
    } else {
        entries.push((key, value))
    }
}

/// With distinct keys, the entry at `i` is the one that is found for its key.
pub proof fn lemma_key_index(entries: Seq<(Seq<char>, Seq<char>)>, i: int)
    requires
        distinct(keys_of(entries)),
        0 <= i < entries.len(),
    ensures
        has_key(entries, entries[i].0),
        key_index(entries, entries[i].0) == i,
        lookup(entries, entries[i].0) == Some(entries[i].1),
{
    let key = entries[i].0;
    assert(0 <= i < entries.len() && entries[i].0 == key);
    let k = key_index(entries, key);
    assert(0 <= k < entries.len() && entries[k].0 == key);
    if k != i {
        assert(keys_of(entries)[k] == keys_of(entries)[i]);
    }
}

/// Setting a key keeps the keys distinct, makes that key's value the new one
/// and leaves every other key as it was.
pub proof fn lemma_with_entry(
    entries: Seq<(Seq<char>, Seq<char>)>,
    key: Seq<char>,
    value: Seq<char>,
)
    requires
        distinct(keys_of(entries)),
    ensures
        distinct(keys_of(with_entry(entries, key, value))),
        lookup(with_entry(entries, key, value), key) == Some(value),
        forall|other: Seq<char>|
            other != key ==> lookup(with_entry(entries, key, value), other) == lookup(
                entries,
                other,
            ),
{
    let after = with_entry(entries, key, value);
    // where the entry for `key` stands afterwards
    let at = if has_key(entries, key) {
        key_index(entries, key)
    } else {
        entries.len() as int
    };
    assert(0 <= at < after.len() && after[at] == (key, value));
    assert forall|k: int| 0 <= k < after.len() && k != at implies after[k] == entries[k]
        && entries[k].0 != key by {
        if has_key(entries, key) {
            if entries[k].0 == key {
                lemma_key_index(entries, k);
            }
        }
    }
    assert forall|i: int, j: int| 0 <= i < j < after.len() implies keys_of(after)[i] != keys_of(
        after,
    )[j] by {
        if i != at && j != at {
            assert(keys_of(entries)[i] != keys_of(entries)[j]);
        }
    }
    lemma_key_index(after, at);
    assert forall|other: Seq<char>| other != key implies lookup(after, other) == lookup(
        entries,
        other,
    ) by {
        if has_key(entries, other) {
            let k = key_index(entries, other);
            assert(after[k] == entries[k]);
            lemma_key_index(after, k);
            lemma_key_index(entries, k);
        } else if has_key(after, other) {
            let k = key_index(after, other);
            assert(after[k] == entries[k]);
        }
    }
}

/// Position of the first of `keys` that reads `key`.
pub fn find_key(keys: &Vec<String>, key: &str) -> (r: Option<usize>)
    ensures
        r matches Some(i) ==> i < keys.len() && keys@[i as int]@ == key@ && forall|j: int|
            0 <= j < i ==> keys@[j]@ != key@,
        r is None ==> forall|j: int| 0 <= j < keys.len() ==> keys@[j]@ != key@,
{
    let mut i: usize = 0;
    while i < keys.len()
        invariant
            i <= keys.len(),
            forall|j: int| 0 <= j < i ==> keys@[j]@ != key@,
        decreases keys.len() - i,
    {
        if keys[i].as_str().eq(key) {
            return Some(i);
        }
        i += 1;
    }
    None
}

/// Variable overrides: each name once, with its value.
#[derive(Debug)]
pub struct CmdVars {
    keys: Vec<String>,
    values: Vec<String>,
}

impl View for CmdVars {
    type V = Seq<(Seq<char>, Seq<char>)>;

    closed spec fn view(&self) -> Seq<(Seq<char>, Seq<char>)> {
        Seq::new(self.keys.len() as nat, |i: int| (self.keys@[i]@, self.values@[i]@))
    }
}

impl CmdVars {
    #[verifier::type_invariant]
    spec fn well_formed(&self) -> bool {
        &&& self.keys.len() == self.values.len()
        &&& distinct(views(self.keys@))
    }

    /// No overrides.
    pub fn new() -> (r: CmdVars)
        ensures
            r@ == Seq::<(Seq<char>, Seq<char>)>::empty(),
    {
        CmdVars { keys: Vec::new(), values: Vec::new() }
    }

    /// Number of names.
    pub fn len(&self) -> (r: usize)
        ensures
            r == self@.len(),
    {
        self.keys.len()
    }

    /// Whether there is no override.
    pub fn is_empty(&self) -> (r: bool)
        ensures
            r == (self@.len() == 0),
    {
        self.keys.len() == 0
    }

    /// These overrides with `key` set to `value`. A name that is there keeps
    /// its place.
    pub fn insert(self, key: &str, value: &str) -> (r: CmdVars)
        ensures
            r@ == with_entry(self@, key@, value@),
            distinct(keys_of(r@)),
    {
        proof {
            use_type_invariant(&self);
        }
        let ghost before = self@;
        let CmdVars { mut keys, mut values } = self;
        match find_key(&keys, key) {
            Some(i) => {
                proof {
                    assert(keys_of(before) =~= views(keys@));
                    lemma_key_index(before, i as int);
                }
                values.set(i, String::from_str(value));
                let r = CmdVars { keys, values };
                proof {
                    assert(r@ =~= before.update(i as int, (key@, value@)));
                    assert(keys_of(r@) =~= views(r.keys@));
                }
                r
            },
            None => {
                proof {
                    assert forall|k: int| 0 <= k < before.len() implies before[k].0 != key@ by {}
                }
                let ghost old_keys = keys@;
                keys.push(String::from_str(key));
                values.push(String::from_str(value));
                proof {
                    assert forall|a: int, b: int| 0 <= a < b < keys.len() implies views(keys@)[a]
                        != views(keys@)[b] by {
                        if b < before.len() {
                            assert(views(old_keys)[a] != views(old_keys)[b]);
                        } else {
                            assert(before[a].0 != key@);
                        }
                    }
                }
                let r = CmdVars { keys, values };
                proof {
                    assert(r@ =~= before.push((key@, value@)));
                    assert(keys_of(r@) =~= views(r.keys@));
                }
                r
            },
        }
    }

    /// The value set for `key`.
    pub fn get(&self, key: &str) -> (r: Option<&String>)
        ensures
            match r {
                Some(v) => lookup(self@, key@) == Some(v@),
                None => lookup(self@, key@) is None,
            },
    {
        proof {
            use_type_invariant(self);
            assert(keys_of(self@) =~= views(self.keys@));
        }
        match find_key(&self.keys, key) {
            Some(i) => {
                proof {
                    assert(self@[i as int] == (key@, self.values@[i as int]@));
                    lemma_key_index(self@, i as int);
                }
                Some(&self.values[i])
            },
            None => {
                assert forall|k: int| 0 <= k < self@.len() implies self@[k].0 != key@ by {}
                None
            },
        }
    }

    /// The name at position `i`.
    pub fn key_at(&self, i: usize) -> (r: &str)
        requires
            i < self@.len(),
        ensures
            r@ == self@[i as int].0,
    {
        proof {
            use_type_invariant(self);
        }
        self.keys[i].as_str()
    }

    /// The value at position `i`.
    pub fn value_at(&self, i: usize) -> (r: &str)
        requires
            i < self@.len(),
        ensures
            r@ == self@[i as int].1,
    {
        proof {
            use_type_invariant(self);
        }
        self.values[i].as_str()
    }

    /// A copy of these overrides.
    pub fn duplicate(&self) -> (r: CmdVars)
        ensures
            r@ == self@,
    {
        proof {
            use_type_invariant(self);
        }
        let mut keys: Vec<String> = Vec::new();
        let mut values: Vec<String> = Vec::new();
        let mut i: usize = 0;
        while i < self.keys.len()
            invariant
                i <= self.keys.len(),
                self.keys.len() == self.values.len(),
                keys.len() == i,
                values.len() == i,
                forall|j: int| 0 <= j < i ==> keys@[j]@ == self.keys@[j]@,
                forall|j: int| 0 <= j < i ==> values@[j]@ == self.values@[j]@,
            decreases self.keys.len() - i,
        {
            keys.push(self.keys[i].clone());
            values.push(self.values[i].clone());
            i += 1;
        }
        proof {
            assert(views(keys@) =~= views(self.keys@));
        }
        let r = CmdVars { keys, values };
        proof {
            assert(r@ =~= self@);
        }
        r
    }
}

} // verus!
