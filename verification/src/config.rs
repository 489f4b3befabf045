//! The immutable key/value configuration a strategy is built from.
//!
//! A `Config` is produced by an external parser (or by hand in tests) and is
//! read-only afterwards.  Keys are unique; inserting an existing key
//! replaces its value, as a map would.

use vstd::prelude::*;
use vstd::string::StringExecFns;

verus! {

/// A sequence of key/value pairs with unique keys.
pub struct Config {
    entries: Vec<(String, String)>,
}

/// First value bound to `key` in `pairs`, if any.
pub open spec fn lookup_pairs(pairs: Seq<(Seq<char>, Seq<char>)>, key: Seq<char>) -> Option<
    Seq<char>,
>
    decreases pairs.len(),
{
    if pairs.len() == 0 {
        None
    } else if pairs[0].0 == key {
        Some(pairs[0].1)
    } else {
        lookup_pairs(pairs.drop_first(), key)
    }
}

impl Config {
    /// The pairs held, as mathematical sequences.
    pub closed spec fn pairs(&self) -> Seq<(Seq<char>, Seq<char>)> {
        self.entries@.map_values(|p: (String, String)| (p.0@, p.1@))
    }

    /// The value bound to `key`, if any.
    pub open spec fn spec_get(&self, key: Seq<char>) -> Option<Seq<char>> {
        lookup_pairs(self.pairs(), key)
    }

    pub fn new() -> (r: Config)
        ensures
            r.pairs() == Seq::<(Seq<char>, Seq<char>)>::empty(),
    {
        let entries: Vec<(String, String)> = Vec::new();
        let r = Config { entries };
        proof {
            assert(r.pairs() =~= Seq::<(Seq<char>, Seq<char>)>::empty());
        }
        r
    }

    /// Bind `key` to `value`; an earlier binding of the same key is replaced.
    pub fn insert(&mut self, key: String, value: String)
        ensures
            final(self).spec_get(key@) == Some::<Seq<char>>(value@),
            forall|k: Seq<char>|
                k != key@ ==> final(self).spec_get(k) == old(self).spec_get(k),
    {
        let mut i: usize = 0;
        let n = self.entries.len();
        while i < n
            invariant
                n == self.entries.len(),
                i <= n,
                *self == *old(self),
                forall|j: int| 0 <= j < i ==> #[trigger] self.pairs()[j].0 != key@,
            decreases n - i,
        {
            if self.entries[i].0 == key {
                let old_key = self.entries[i].0.clone();
                self.entries.set(i, (old_key, value));
                proof {
                    assert(self.pairs() =~= old(self).pairs().update(i as int, (key@, value@)));
                    lemma_lookup_update(old(self).pairs(), self.pairs(), i as int, key@, value@);
                }
                return ;
            }
            i += 1;
        }
        self.entries.push((key, value));
        proof {
            assert(self.pairs() =~= old(self).pairs().push((key@, value@)));
            lemma_lookup_push(old(self).pairs(), self.pairs(), key@, value@);
        }
    }

    /// How many pairs are held.
    pub fn len(&self) -> (n: usize)
        ensures
            n == self.pairs().len(),
    {
        self.entries.len()
    }

    /// The key of pair `i`, as a copy.
    pub fn key_at(&self, i: usize) -> (k: String)
        requires
            i < self.pairs().len(),
        ensures
            k@ == self.pairs()[i as int].0,
    {
        self.entries[i].0.clone()
    }

    /// The value of pair `i`, as a copy.
    pub fn value_at(&self, i: usize) -> (v: String)
        requires
            i < self.pairs().len(),
        ensures
            v@ == self.pairs()[i as int].1,
    {
        self.entries[i].1.clone()
    }

    /// Look a key up; the value comes back as a copy.
    pub fn get(&self, key: &str) -> (r: Option<String>)
        ensures
            match r {
                Some(v) => self.spec_get(key@) == Some(v@),
                None => self.spec_get(key@) is None,
            },
    {
        let key_string = String::from_str(key);
        let mut i: usize = 0;
        let n = self.entries.len();
        while i < n
            invariant
                n == self.entries.len(),
                i <= n,
                key_string@ == key@,
                forall|j: int| 0 <= j < i ==> #[trigger] self.pairs()[j].0 != key@,
            decreases n - i,
        {
            if self.entries[i].0 == key_string {
                proof {
                    lemma_lookup_found(self.pairs(), i as int, key@);
                }
                return Some(self.entries[i].1.clone());
            }
            i += 1;
        }
        proof {
            lemma_lookup_missing(self.pairs(), key@);
        }
        None
    }
}

/// If no pair before `i` has `key` and pair `i` has it, the lookup yields pair `i`'s value.
proof fn lemma_lookup_found(pairs: Seq<(Seq<char>, Seq<char>)>, i: int, key: Seq<char>)
    requires
        0 <= i < pairs.len(),
        forall|j: int| 0 <= j < i ==> #[trigger] pairs[j].0 != key,
        pairs[i].0 == key,
    ensures
        lookup_pairs(pairs, key) == Some(pairs[i].1),
    decreases i,
{
    if i > 0 {
        lemma_lookup_found(pairs.drop_first(), i - 1, key);
    }
}

/// If no pair has `key`, the lookup yields nothing.
proof fn lemma_lookup_missing(pairs: Seq<(Seq<char>, Seq<char>)>, key: Seq<char>)
    requires
        forall|j: int| 0 <= j < pairs.len() ==> #[trigger] pairs[j].0 != key,
    ensures
        lookup_pairs(pairs, key) is None,
    decreases pairs.len(),
{
    if pairs.len() > 0 {
        lemma_lookup_missing(pairs.drop_first(), key);
    }
}

/// Replacing the value of the first pair that holds `key` updates that key
/// and leaves every other key's lookup unchanged.
proof fn lemma_lookup_update(
    before: Seq<(Seq<char>, Seq<char>)>,
    after: Seq<(Seq<char>, Seq<char>)>,
    i: int,
    key: Seq<char>,
    value: Seq<char>,
)
    requires
        before.len() == after.len(),
        0 <= i < before.len(),
        forall|j: int| 0 <= j < i ==> #[trigger] before[j].0 != key,
        before[i].0 == key,
        after == before.update(i, (key, value)),
    ensures
        lookup_pairs(after, key) == Some(value),
        forall|k: Seq<char>| k != key ==> lookup_pairs(after, k) == lookup_pairs(before, k),
    decreases i,
{
    if i == 0 {
        assert(after[0] == (key, value));
        assert forall|k: Seq<char>| k != key implies lookup_pairs(after, k) == lookup_pairs(
            before,
            k,
        ) by {
            assert(after.drop_first() =~= before.drop_first());
        }
    } else {
        assert(after.drop_first() =~= before.drop_first().update(i - 1, (key, value)));
        lemma_lookup_update(before.drop_first(), after.drop_first(), i - 1, key, value);
        assert(after[0] == before[0]);
        assert forall|k: Seq<char>| k != key implies lookup_pairs(after, k) == lookup_pairs(
            before,
            k,
        ) by {
            assert(lookup_pairs(after.drop_first(), k) == lookup_pairs(before.drop_first(), k));
        }
    }
}

/// Appending a pair whose key occurs nowhere earlier binds that key and
/// leaves every other key's lookup unchanged.
proof fn lemma_lookup_push(
    before: Seq<(Seq<char>, Seq<char>)>,
    after: Seq<(Seq<char>, Seq<char>)>,
    key: Seq<char>,
    value: Seq<char>,
)
    requires
        forall|j: int| 0 <= j < before.len() ==> #[trigger] before[j].0 != key,
        after == before.push((key, value)),
    ensures
        lookup_pairs(after, key) == Some(value),
        forall|k: Seq<char>| k != key ==> lookup_pairs(after, k) == lookup_pairs(before, k),
    decreases before.len(),
{
    if before.len() == 0 {
        assert(after.len() == 1);
        assert(after[0] == (key, value));
        assert forall|k: Seq<char>| k != key implies lookup_pairs(after, k) == lookup_pairs(
            before,
            k,
        ) by {
            assert(after.drop_first().len() == 0);
            assert(lookup_pairs(after.drop_first(), k) is None);
        }
    } else {
        assert(after[0] == before[0]);
        assert(after.drop_first() =~= before.drop_first().push((key, value)));
        lemma_lookup_push(before.drop_first(), after.drop_first(), key, value);
        assert forall|k: Seq<char>| k != key implies lookup_pairs(after, k) == lookup_pairs(
            before,
            k,
        ) by {
            assert(lookup_pairs(after.drop_first(), k) == lookup_pairs(before.drop_first(), k));
        }
    }
}

} // verus!
