use crate::chunk::chunk::Chunk;
use crate::chunk::chunk_grid::ChunkGridCoordinate;
use std::collections::HashMap;
use std::collections::HashSet;
use vstd::prelude::*;
use vstd::std_specs::iter::IteratorSpec;

verus! {

/// The number under which a chunk at `coords` is filed: its two axes, each
/// moved up to be no less than zero, side by side.
pub open spec fn spec_key(coords: ChunkGridCoordinate) -> u128 {
    ((coords.x + 0x8000_0000_0000_0000) * 0x1_0000_0000_0000_0000 + (coords.z
        + 0x8000_0000_0000_0000)) as u128
}

/// The coordinate that is filed under `key`.
pub open spec fn spec_unkey(key: u128) -> ChunkGridCoordinate {
    ChunkGridCoordinate {
        x: (key / 0x1_0000_0000_0000_0000 - 0x8000_0000_0000_0000) as i64,
        z: (key % 0x1_0000_0000_0000_0000 - 0x8000_0000_0000_0000) as i64,
    }
}

/// A key leads back to the coordinate it was made from, so no two
/// coordinates share a key.
pub proof fn lemma_key_round_trip(coords: ChunkGridCoordinate)
    ensures
        spec_unkey(spec_key(coords)) == coords,
{
}

/// Two coordinates with the same key are the same coordinate.
pub proof fn lemma_key_injective(a: ChunkGridCoordinate, b: ChunkGridCoordinate)
    requires
        spec_key(a) == spec_key(b),
    ensures
        a == b,
{
    lemma_key_round_trip(a);
    lemma_key_round_trip(b);
}

/// Every number is the key of the coordinate it leads to.
pub proof fn lemma_unkey_round_trip(key: u128)
    ensures
        spec_key(spec_unkey(key)) == key,
{
}

/// Computes the number under which a chunk at `coords` is filed.
pub fn key(coords: ChunkGridCoordinate) -> (k: u128)
    ensures
        k == spec_key(coords),
{
    let x: u128 = (coords.x as i128 + 0x8000_0000_0000_0000) as u128;
    let z: u128 = (coords.z as i128 + 0x8000_0000_0000_0000) as u128;
    x * 0x1_0000_0000_0000_0000 + z
}

/// Computes the coordinate that is filed under `key`.
pub fn unkey(key: u128) -> (coords: ChunkGridCoordinate)
    ensures
        coords == spec_unkey(key),
{
    let x: i128 = (key / 0x1_0000_0000_0000_0000) as i128 - 0x8000_0000_0000_0000;
    let z: i128 = (key % 0x1_0000_0000_0000_0000) as i128 - 0x8000_0000_0000_0000;
    ChunkGridCoordinate { x: x as i64, z: z as i64 }
}

/// The chunks that are resident, each under its coordinate.
pub struct ChunkGrid {
    map: HashMap<u128, Chunk>,
}

impl View for ChunkGrid {
    type V = Map<ChunkGridCoordinate, Chunk>;

    closed spec fn view(&self) -> Map<ChunkGridCoordinate, Chunk> {
        Map::new(
            |coords: ChunkGridCoordinate| self.map@.contains_key(spec_key(coords)),
            |coords: ChunkGridCoordinate| self.map@[spec_key(coords)],
        )
    }
}

impl ChunkGrid {
    /// Each chunk is well formed and filed under its own coordinate.
    pub closed spec fn wf(&self) -> bool {
        forall|k: u128| #[trigger]
            self.map@.contains_key(k) ==> self.map@[k].wf() && spec_key(self.map@[k].coords())
                == k
    }

    pub fn new() -> (grid: Self)
        ensures
            grid.wf(),
            grid@ == Map::<ChunkGridCoordinate, Chunk>::empty(),
    {
        let grid = Self { map: HashMap::new() };
        assert(grid@ =~= Map::<ChunkGridCoordinate, Chunk>::empty());
        grid
    }

    /// What holds of each resident chunk: it is well formed and filed under
    /// its own coordinate.
    pub proof fn lemma_entries(&self)
        requires
            self.wf(),
        ensures
            forall|coords: ChunkGridCoordinate| #[trigger]
                self@.contains_key(coords) ==> self@[coords].wf() && self@[coords].coords()
                    == coords,
    {
        assert forall|coords: ChunkGridCoordinate| #[trigger]
            self@.contains_key(coords) implies self@[coords].wf() && self@[coords].coords()
            == coords by {
            lemma_key_injective(self@[coords].coords(), coords);
        }
    }

    /// The number of resident chunks.
    pub fn len(&self) -> (count: usize)
        requires
            self.wf(),
        ensures
            count == self@.dom().len(),
            self@.dom().finite(),
    {
        proof {
            self.lemma_dom();
        }
        self.map.len()
    }

    /// The resident coordinates are as many as the keys on file.
    proof fn lemma_dom(&self)
        ensures
            self@.dom().finite(),
            self@.dom().len() == self.map@.dom().len(),
    {
        let keys = self.map@.dom();
        let coords = keys.map(|k: u128| spec_unkey(k));
        assert(coords =~= self@.dom()) by {
            assert forall|c: ChunkGridCoordinate| coords.contains(c) == self@.dom().contains(
                c,
            ) by {
                if coords.contains(c) {
                    let k = choose|k: u128| keys.contains(k) && spec_unkey(k) == c;
                    lemma_unkey_round_trip(k);
                }
                if self@.dom().contains(c) {
                    lemma_key_round_trip(c);
                    assert(keys.contains(spec_key(c)));
                }
            }
        }
        assert(vstd::relations::injective(|k: u128| spec_unkey(k))) by {
            assert forall|a: u128, b: u128| spec_unkey(a) == spec_unkey(b) implies a == b by {
                lemma_unkey_round_trip(a);
                lemma_unkey_round_trip(b);
            }
        }
        vstd::set_lib::lemma_map_size(keys, coords, |k: u128| spec_unkey(k));
        keys.lemma_map_finite(|k: u128| spec_unkey(k));
    }

    /// Whether the chunk at `coords` is resident.
    pub fn contains_key(&self, coords: &ChunkGridCoordinate) -> (resident: bool)
        ensures
            resident == self@.contains_key(*coords),
    {
        let k = key(*coords);
        self.map.contains_key(&k)
    }

    /// The chunk at `coords`, if it is resident.
    pub fn get(&self, coords: &ChunkGridCoordinate) -> (found: Option<&Chunk>)
        requires
            self.wf(),
        ensures
            match found {
                Some(chunk) => self@.contains_key(*coords) && *chunk == self@[*coords]
                    && chunk.wf() && chunk.coords() == *coords,
                None => !self@.contains_key(*coords),
            },
    {
        let k = key(*coords);
        let found = self.map.get(&k);
        proof {
            if found is Some {
                lemma_key_injective(self.map@[k].coords(), *coords);
            }
        }
        found
    }

    /// Files `chunk` under its own coordinate, in place of the chunk that
    /// was resident there, if one was.
    pub fn insert(&mut self, chunk: Chunk)
        requires
            old(self).wf(),
            chunk.wf(),
        ensures
            final(self).wf(),
            final(self)@ == old(self)@.insert(chunk.coords(), chunk),
    {
        let k = key(chunk.coords());
        let ghost coords = chunk.coords();
        self.map.insert(k, chunk);
        proof {
            assert forall|c: ChunkGridCoordinate| c != coords implies spec_key(c) != k by {
                if spec_key(c) == k {
                    lemma_key_injective(c, coords);
                }
            }
            assert(self@ =~= old(self)@.insert(coords, chunk));
        }
    }

    /// Takes the chunk at `coords` out of the grid, if it is resident.
    pub fn remove(&mut self, coords: &ChunkGridCoordinate) -> (removed: Option<Chunk>)
        requires
            old(self).wf(),
        ensures
            final(self).wf(),
            final(self)@ == old(self)@.remove(*coords),
            match removed {
                Some(chunk) => old(self)@.contains_key(*coords) && chunk == old(self)@[*coords],
                None => !old(self)@.contains_key(*coords),
            },
    {
        let k = key(*coords);
        let removed = self.map.remove(&k);
        proof {
            assert forall|c: ChunkGridCoordinate| c != *coords implies spec_key(c) != k by {
                if spec_key(c) == k {
                    lemma_key_injective(c, *coords);
                }
            }
            assert(self@ =~= old(self)@.remove(*coords));
        }
        removed
    }

    /// Takes out of the grid each chunk whose coordinate is not in `keep`.
    pub fn retain(&mut self, keep: &CoordinateSet)
        requires
            old(self).wf(),
        ensures
            final(self).wf(),
            final(self)@ == old(self)@.restrict(keep@),
    {
        let resident = self.coordinates();
        let mut i: usize = 0;
        while i < resident.len()
            invariant
                self.wf(),
                i <= resident.len(),
                resident@.to_set() == old(self)@.dom(),
                forall|c: ChunkGridCoordinate| #[trigger]
                    self@.contains_key(c) ==> old(self)@.contains_key(c) && self@[c] == old(
                        self,
                    )@[c],
                forall|c: ChunkGridCoordinate|
                    old(self)@.contains_key(c) && keep@.contains(c) ==> #[trigger] self@.contains_key(
                        c,
                    ),
                forall|j: int|
                    0 <= j < i && !keep@.contains(resident@[j]) ==> !self@.contains_key(
                        #[trigger] resident@[j],
                    ),
            decreases resident.len() - i,
        {
            let coords = resident[i];
            if !keep.contains(&coords) {
                self.remove(&coords);
            }
            i = i + 1;
        }
        proof {
            assert forall|c: ChunkGridCoordinate|
                self@.contains_key(c) == old(self)@.restrict(keep@).contains_key(c) by {
                if self@.contains_key(c) && !keep@.contains(c) {
                    assert(resident@.to_set().contains(c));
                    let j = choose|j: int| 0 <= j < resident@.len() && resident@[j] == c;
                    assert(!self@.contains_key(resident@[j]));
                }
            }
            assert(self@ =~= old(self)@.restrict(keep@));
        }
    }

    /// The coordinates of the resident chunks, in no particular order.
    pub fn coordinates(&self) -> (coords: Vec<ChunkGridCoordinate>)
        requires
            self.wf(),
        ensures
            coords@.no_duplicates(),
            coords@.to_set() == self@.dom(),
    {
        let mut coords: Vec<ChunkGridCoordinate> = Vec::new();
        proof {
            vstd::std_specs::hash::axiom_spec_keys_iter(&self.map);
        }
        for k in it: self.map.keys()
            invariant
                self.wf(),
                it.seq() == self.map.keys().remaining(),
                coords@.len() == it.index(),
                forall|j: int| 0 <= j < coords@.len() ==> coords@[j] == spec_unkey(*it.seq()[j]),
        {
            coords.push(unkey(*k));
        }
        proof {
            let keys = self.map.keys().remaining();
            assert(keys.unref().to_set() == self.map@.dom());
            assert forall|j: int| 0 <= j < keys.len() implies self.map@.contains_key(
                *#[trigger] keys[j],
            ) by {
                assert(keys.unref()[j] == *keys[j]);
                assert(keys.unref().to_set().contains(*keys[j]));
            }
            assert forall|i: int, j: int|
                0 <= i < coords@.len() && 0 <= j < coords@.len() && i != j implies coords@[i]
                != coords@[j] by {
                assert(self.map@.contains_key(*keys[i]));
                assert(self.map@.contains_key(*keys[j]));
                assert(keys[i] != keys[j]);
            }
            assert forall|c: ChunkGridCoordinate| coords@.to_set().contains(c)
                == self@.dom().contains(c) by {
                if coords@.to_set().contains(c) {
                    let j = choose|j: int| 0 <= j < coords@.len() && coords@[j] == c;
                    assert(self.map@.contains_key(*keys[j]));
                }
                if self@.dom().contains(c) {
                    assert(keys.unref().to_set().contains(spec_key(c)));
                    let j = choose|j: int|
                        0 <= j < keys.unref().len() && keys.unref()[j] == spec_key(c);
                    assert(keys.unref()[j] == *keys[j]);
                    lemma_key_round_trip(c);
                    assert(coords@[j] == c);
                }
            }
            assert(coords@.to_set() =~= self@.dom());
        }
        coords
    }
}

/// A set of chunk coordinates.
pub struct CoordinateSet {
    keys: HashSet<u128>,
}

impl View for CoordinateSet {
    type V = Set<ChunkGridCoordinate>;

    closed spec fn view(&self) -> Set<ChunkGridCoordinate> {
        Set::new(|coords: ChunkGridCoordinate| self.keys@.contains(spec_key(coords)))
    }
}

impl CoordinateSet {
    pub fn new() -> (set: Self)
        ensures
            set@ == Set::<ChunkGridCoordinate>::empty(),
    {
        let set = Self { keys: HashSet::new() };
        assert(set@ =~= Set::<ChunkGridCoordinate>::empty());
        set
    }

    /// Whether `coords` is in the set.
    pub fn contains(&self, coords: &ChunkGridCoordinate) -> (found: bool)
        ensures
            found == self@.contains(*coords),
    {
        let k = key(*coords);
        self.keys.contains(&k)
    }

    /// Puts `coords` into the set, and says whether it was new to it.
    pub fn insert(&mut self, coords: ChunkGridCoordinate) -> (added: bool)
        ensures
            final(self)@ == old(self)@.insert(coords),
            added == !old(self)@.contains(coords),
    {
        let k = key(coords);
        let added = self.keys.insert(k);
        proof {
            assert forall|c: ChunkGridCoordinate| c != coords implies spec_key(c) != k by {
                if spec_key(c) == k {
                    lemma_key_injective(c, coords);
                }
            }
            assert(self@ =~= old(self)@.insert(coords));
        }
        added
    }

    /// Takes `coords` out of the set, and says whether it was in it.
    pub fn remove(&mut self, coords: &ChunkGridCoordinate) -> (removed: bool)
        ensures
            final(self)@ == old(self)@.remove(*coords),
            removed == old(self)@.contains(*coords),
    {
        let k = key(*coords);
        let removed = self.keys.remove(&k);
        proof {
            assert forall|c: ChunkGridCoordinate| c != *coords implies spec_key(c) != k by {
                if spec_key(c) == k {
                    lemma_key_injective(c, *coords);
                }
            }
            assert(self@ =~= old(self)@.remove(*coords));
        }
        removed
    }
}

} // verus!
