//! A single-owner registry of values keyed by chunk coordinate.

use std::collections::HashMap;
use vstd::prelude::*;

verus! {

/// The key under which chunk coordinate `(x, z)` is stored: the two
/// coordinates, each moved into the unsigned range, side by side.
pub open spec fn spec_key(x: int, z: int) -> int {
    (x + 0x8000_0000) * 0x1_0000_0000 + (z + 0x8000_0000)
}

/// Whether `v` is a 32-bit signed integer.
pub open spec fn is_coord(v: int) -> bool {
    i32::MIN <= v <= i32::MAX
}

/// Different chunk coordinates have different keys.
pub proof fn lemma_key_injective(x1: int, z1: int, x2: int, z2: int)
    requires
        is_coord(x1) && is_coord(z1) && is_coord(x2) && is_coord(z2),
        spec_key(x1, z1) == spec_key(x2, z2),
    ensures
        x1 == x2 && z1 == z2,
{
}

/// The key of chunk coordinate `(x, z)`.
fn key(x: i32, z: i32) -> (k: u64)
    ensures
        k == spec_key(x as int, z as int),
{
    let hi: u64 = (x as i64 + 0x8000_0000) as u64;
    let lo: u64 = (z as i64 + 0x8000_0000) as u64;
    hi * 0x1_0000_0000 + lo
}

/// Values keyed by chunk coordinate, owned by one registry and reached
/// only through its methods.
pub struct Registry<T> {
    cells: HashMap<u64, T>,
}

impl<T> View for Registry<T> {
    type V = Map<(int, int), T>;

    closed spec fn view(&self) -> Map<(int, int), T> {
        Map::new(
            |p: (int, int)| is_coord(p.0) && is_coord(p.1) && self.cells@.contains_key(spec_key(p.0, p.1) as u64),
            |p: (int, int)| self.cells@[spec_key(p.0, p.1) as u64],
        )
    }
}

impl<T> Registry<T> {
    /// The empty registry.
    pub fn new() -> (registry: Registry<T>)
        ensures
            registry@ == Map::<(int, int), T>::empty(),
    {
        let registry = Registry { cells: HashMap::new() };
        assert(registry@ =~= Map::<(int, int), T>::empty());
        registry
    }

    /// Every key of the registry is a pair of 32-bit coordinates.
    pub proof fn lemma_keys_are_coords(&self)
        ensures
            forall|p: (int, int)| #[trigger] self@.contains_key(p) ==> is_coord(p.0) && is_coord(p.1),
    {
    }

    /// Whether a value is stored at `(x, z)`.
    pub fn contains(&self, x: i32, z: i32) -> (present: bool)
        ensures
            present == self@.contains_key((x as int, z as int)),
    {
        let k = key(x, z);
        self.cells.contains_key(&k)
    }

    /// The value stored at `(x, z)`.
    pub fn get(&self, x: i32, z: i32) -> (value: Option<&T>)
        ensures
            value.is_some() == self@.contains_key((x as int, z as int)),
            value.is_some() ==> *value.unwrap() == self@[(x as int, z as int)],
    {
        let k = key(x, z);
        self.cells.get(&k)
    }

    /// Stores `value` at `(x, z)` and returns what was stored there.
    pub fn insert(&mut self, x: i32, z: i32, value: T) -> (previous: Option<T>)
        ensures
            final(self)@ == old(self)@.insert((x as int, z as int), value),
            previous.is_some() == old(self)@.contains_key((x as int, z as int)),
            previous.is_some() ==> previous.unwrap() == old(self)@[(x as int, z as int)],
    {
        let k = key(x, z);
        let previous = self.cells.insert(k, value);
        proof {
            assert forall|p: (int, int)| is_coord(p.0) && is_coord(p.1) && spec_key(p.0, p.1) == k implies p == (
                x as int,
                z as int,
            ) by {
                lemma_key_injective(p.0, p.1, x as int, z as int);
            }
            assert(self@ =~= old(self)@.insert((x as int, z as int), value));
        }
        previous
    }

    /// Takes the value stored at `(x, z)` out of the registry.
    pub fn remove(&mut self, x: i32, z: i32) -> (value: Option<T>)
        ensures
            final(self)@ == old(self)@.remove((x as int, z as int)),
            value.is_some() == old(self)@.contains_key((x as int, z as int)),
            value.is_some() ==> value.unwrap() == old(self)@[(x as int, z as int)],
    {
        let k = key(x, z);
        let value = self.cells.remove(&k);
        proof {
            assert forall|p: (int, int)| is_coord(p.0) && is_coord(p.1) && spec_key(p.0, p.1) == k implies p == (
                x as int,
                z as int,
            ) by {
                lemma_key_injective(p.0, p.1, x as int, z as int);
            }
            assert(self@ =~= old(self)@.remove((x as int, z as int)));
        }
        value
    }
}

} // verus!
