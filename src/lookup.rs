//! Lookup of an entry by id in a list of entries that carry their id.

use vstd::prelude::*;

use crate::model::{DmxFixtureDefinition, Group, Output, Patch, PaletteEntry, PhysicalDmxFixture, Scene, Sequence};

verus! {

/// An entry that carries its id.
pub trait Keyed {
    spec fn key(&self) -> u64;

    fn get_key(&self) -> (r: u64)
        ensures
            r == self.key(),
    ;
}

/// The position of the first entry with id `id`.
pub open spec fn first_index<T: Keyed>(s: Seq<T>, id: u64) -> Option<int>
    decreases s.len(),
{
    if s.len() == 0 {
        None
    } else {
        match first_index(s.drop_last(), id) {
            Some(i) => Some(i),
            None => if s.last().key() == id {
                Some(s.len() - 1)
            } else {
                None
            },
        }
    }
}

/// A found position is in range and holds the id.
pub proof fn lemma_first_index_valid<T: Keyed>(s: Seq<T>, id: u64)
    ensures
        first_index(s, id) matches Some(i) ==> 0 <= i < s.len() && s[i].key() == id,
    decreases s.len(),
{
    if s.len() > 0 {
        lemma_first_index_valid(s.drop_last(), id);
    }
}

/// The position of the first entry of `s` with id `id`.
pub fn find_index<T: Keyed>(s: &Vec<T>, id: u64) -> (r: Option<usize>)
    ensures
        r matches Some(i) ==> first_index(s@, id) == Some(i as int),
        r is None ==> first_index(s@, id) is None,
        r matches Some(i) ==> i < s.len() && s@[i as int].key() == id,
{
    let mut i: usize = 0;
    while i < s.len()
        invariant
            0 <= i <= s.len(),
            first_index(s@.take(i as int), id) is None,
        decreases s.len() - i,
    {
        assert(s@.take(i as int + 1).drop_last() =~= s@.take(i as int));
        if s[i].get_key() == id {
            assert(first_index(s@.take(i as int + 1), id) == Some(i as int));
            proof {
                lemma_first_index_prefix(s@, i as int + 1, id);
            }
            return Some(i);
        }
        i = i + 1;
    }
    assert(s@.take(i as int) =~= s@);
    None
}

/// A position found in a prefix is the position found in the whole list.
pub proof fn lemma_first_index_prefix<T: Keyed>(s: Seq<T>, n: int, id: u64)
    requires
        0 <= n <= s.len(),
        first_index(s.take(n), id) is Some,
    ensures
        first_index(s, id) == first_index(s.take(n), id),
    decreases s.len() - n,
{
    if n < s.len() {
        assert(s.take(n + 1).drop_last() =~= s.take(n));
        lemma_first_index_prefix(s, n + 1, id);
    } else {
        assert(s.take(n) =~= s);
    }
}

impl Keyed for PhysicalDmxFixture {
    open spec fn key(&self) -> u64 {
        self.id
    }

    fn get_key(&self) -> (r: u64) {
        self.id
    }
}

impl Keyed for DmxFixtureDefinition {
    open spec fn key(&self) -> u64 {
        self.id
    }

    fn get_key(&self) -> (r: u64) {
        self.id
    }
}

impl Keyed for Output {
    open spec fn key(&self) -> u64 {
        self.id
    }

    fn get_key(&self) -> (r: u64) {
        self.id
    }
}

impl Keyed for Patch {
    open spec fn key(&self) -> u64 {
        self.id
    }

    fn get_key(&self) -> (r: u64) {
        self.id
    }
}

impl Keyed for Group {
    open spec fn key(&self) -> u64 {
        self.id
    }

    fn get_key(&self) -> (r: u64) {
        self.id
    }
}

impl Keyed for Scene {
    open spec fn key(&self) -> u64 {
        self.id
    }

    fn get_key(&self) -> (r: u64) {
        self.id
    }
}

impl Keyed for Sequence {
    open spec fn key(&self) -> u64 {
        self.id
    }

    fn get_key(&self) -> (r: u64) {
        self.id
    }
}

impl Keyed for PaletteEntry {
    open spec fn key(&self) -> u64 {
        self.id
    }

    fn get_key(&self) -> (r: u64) {
        self.id
    }
}

} // verus!
