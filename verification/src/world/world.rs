use crate::chunk::chunk::Chunk;
use crate::chunk::chunk_grid::ChunkGridCoordinate;
use crate::chunk::chunk_group::ChunkGroup;
use crate::chunk::grid::{ChunkGrid, CoordinateSet};
use crate::world::generation::random::Seed;
use crate::world::generation::seed::WorldSeed;
use crate::world::streaming::{
    lemma_scan_reach, mark_around, spec_arrived, spec_in_reach, spec_kept, spec_marked,
    spec_received, spec_scan, spec_searchable, spec_target, spec_wanted, RINGS, SEARCH_DISTANCE,
};
use crate::world::world_coordinate::WorldCoordinate;
use vstd::prelude::*;

verus! {

/// The part of a world that is resident, and what is known of the part
/// that is on its way. A chunk is unloaded, loading or resident. The world
/// decides which chunks to ask for and which to let go; whoever drives it
/// generates the chunks it asks for and hands them back.
pub struct World {
    chunks: ChunkGrid,
    world_seed: WorldSeed,
    loading_chunks: CoordinateSet,
}

impl World {
    /// The resident chunks, each under its coordinate.
    pub closed spec fn spec_chunks(&self) -> Map<ChunkGridCoordinate, Chunk> {
        self.chunks@
    }

    /// The coordinates of the chunks that were asked for and have not
    /// come back: each has one generation job outstanding.
    pub closed spec fn spec_loading(&self) -> Set<ChunkGridCoordinate> {
        self.loading_chunks@
    }

    /// The seed of the world.
    pub closed spec fn spec_seed(&self) -> WorldSeed {
        self.world_seed
    }

    /// The grid of resident chunks is well formed.
    pub closed spec fn grid_wf(&self) -> bool {
        self.chunks.wf()
    }

    /// No chunk is loading and resident at once, and the grid of resident
    /// chunks is well formed.
    pub open spec fn wf(&self) -> bool {
        &&& self.grid_wf()
        &&& forall|coords: ChunkGridCoordinate|
            !(self.spec_loading().contains(coords) && #[trigger] self.spec_chunks().contains_key(
                coords,
            ))
    }

    /// What holds of each resident chunk: it is well formed and filed under
    /// its own coordinate.
    pub proof fn lemma_entries(&self)
        requires
            self.wf(),
        ensures
            forall|coords: ChunkGridCoordinate| #[trigger]
                self.spec_chunks().contains_key(coords) ==> self.spec_chunks()[coords].wf()
                    && self.spec_chunks()[coords].coords() == coords,
    {
        self.chunks.lemma_entries();
    }

    /// An empty world with a seed that differs from run to run.
    pub fn new() -> (world: Self)
        ensures
            world.wf(),
            world.spec_chunks() == Map::<ChunkGridCoordinate, Chunk>::empty(),
            world.spec_loading() == Set::<ChunkGridCoordinate>::empty(),
    {
        World::from_seed(WorldSeed::new().0)
    }

    /// An empty world of the seed `seed`.
    pub fn from_seed(seed: Seed) -> (world: Self)
        ensures
            world.wf(),
            world.spec_seed() == WorldSeed(seed),
            world.spec_chunks() == Map::<ChunkGridCoordinate, Chunk>::empty(),
            world.spec_loading() == Set::<ChunkGridCoordinate>::empty(),
    {
        World {
            chunks: ChunkGrid::new(),
            world_seed: WorldSeed(seed),
            loading_chunks: CoordinateSet::new(),
        }
    }

    /// The seed of the world.
    pub fn seed(&self) -> (seed: WorldSeed)
        ensures
            seed == self.spec_seed(),
    {
        self.world_seed
    }

    /// The resident chunks.
    pub fn chunks(&self) -> (grid: &ChunkGrid)
        ensures
            grid@ == self.spec_chunks(),
            self.wf() ==> grid.wf(),
    {
        &self.chunks
    }

    /// Whether the chunk at `coords` was asked for and has not come back.
    pub fn is_loading(&self, coords: &ChunkGridCoordinate) -> (loading: bool)
        ensures
            loading == self.spec_loading().contains(*coords),
    {
        self.loading_chunks.contains(coords)
    }

    /// Asks for the chunk at `coords`, unless it is loading or resident.
    /// Where the result is `true` the chunk is loading from now on, and the
    /// caller owes the world this one chunk: generated from `coords` and
    /// the seed of the world, and handed back.
    pub fn load_chunk(&mut self, coords: ChunkGridCoordinate) -> (submit: bool)
        requires
            old(self).wf(),
        ensures
            final(self).wf(),
            submit == (!old(self).spec_loading().contains(coords) && !old(
                self,
            ).spec_chunks().contains_key(coords)),
            final(self).spec_chunks() == old(self).spec_chunks(),
            final(self).spec_seed() == old(self).spec_seed(),
            final(self).spec_loading() == if submit {
                old(self).spec_loading().insert(coords)
            } else {
                old(self).spec_loading()
            },
    {
        if !self.loading_chunks.contains(&coords) && !self.chunks.contains_key(&coords) {
            self.loading_chunks.insert(coords);
            assert forall|c: ChunkGridCoordinate|
                !(self.spec_loading().contains(c) && #[trigger] self.spec_chunks().contains_key(
                    c,
                )) by {
                assert(!(old(self).spec_loading().contains(c) && old(
                    self,
                ).spec_chunks().contains_key(c)));
            }
            true
        } else {
            false
        }
    }

    /// Takes in a chunk that was generated: it is loading no more, and
    /// resident, in place of the chunk that was resident at its coordinate,
    /// if one was.
    pub fn receive(&mut self, chunk: Chunk)
        requires
            old(self).wf(),
            chunk.wf(),
        ensures
            final(self).wf(),
            final(self).spec_seed() == old(self).spec_seed(),
            final(self).spec_loading() == old(self).spec_loading().remove(chunk.coords()),
            final(self).spec_chunks() == old(self).spec_chunks().insert(chunk.coords(), chunk),
    {
        let coords = chunk.coords();
        self.loading_chunks.remove(&coords);
        self.chunks.insert(chunk);
        assert forall|c: ChunkGridCoordinate|
            !(self.spec_loading().contains(c) && #[trigger] self.spec_chunks().contains_key(
                c,
            )) by {
            assert(!(old(self).spec_loading().contains(c) && old(self).spec_chunks().contains_key(
                c,
            )));
        }
    }

    /// Whether `coords` has a neighbour on each of its four sides.
    pub open spec fn spec_has_neighbours(coords: ChunkGridCoordinate) -> bool {
        &&& i64::MIN < coords.x < i64::MAX
        &&& i64::MIN < coords.z < i64::MAX
    }

    /// Whether the chunk at `coords` and its four neighbours are resident.
    pub open spec fn spec_surrounded(&self, coords: ChunkGridCoordinate) -> bool {
        &&& Self::spec_has_neighbours(coords)
        &&& self.spec_chunks().contains_key(coords)
        &&& self.spec_chunks().contains_key(
            ChunkGridCoordinate { x: coords.x, z: (coords.z + 1) as i64 },
        )
        &&& self.spec_chunks().contains_key(
            ChunkGridCoordinate { x: coords.x, z: (coords.z - 1) as i64 },
        )
        &&& self.spec_chunks().contains_key(
            ChunkGridCoordinate { x: (coords.x - 1) as i64, z: coords.z },
        )
        &&& self.spec_chunks().contains_key(
            ChunkGridCoordinate { x: (coords.x + 1) as i64, z: coords.z },
        )
    }

    /// The chunk at `coords` joined with its four neighbours, where all
    /// five are resident; otherwise nothing. The group holds copies of the
    /// chunks.
    pub fn get_chunk_group(&self, coords: ChunkGridCoordinate) -> (group: Option<ChunkGroup>)
        requires
            self.wf(),
        ensures
            group is Some <==> self.spec_surrounded(coords),
            match group {
                Some(g) => {
                    &&& g.wf()
                    &&& g.current@ == self.spec_chunks()[coords]@
                    &&& g.current.coords() == coords
                    &&& g.north@ == self.spec_chunks()[ChunkGridCoordinate {
                        x: coords.x,
                        z: (coords.z + 1) as i64,
                    }]@
                    &&& g.south@ == self.spec_chunks()[ChunkGridCoordinate {
                        x: coords.x,
                        z: (coords.z - 1) as i64,
                    }]@
                    &&& g.east@ == self.spec_chunks()[ChunkGridCoordinate {
                        x: (coords.x - 1) as i64,
                        z: coords.z,
                    }]@
                    &&& g.west@ == self.spec_chunks()[ChunkGridCoordinate {
                        x: (coords.x + 1) as i64,
                        z: coords.z,
                    }]@
                },
                None => true,
            },
    {
        if coords.x == i64::MIN || coords.x == i64::MAX || coords.z == i64::MIN || coords.z
            == i64::MAX {
            return None;
        }
        let current = match self.chunks.get(&coords) {
            Some(chunk) => chunk.clone(),
            None => { return None; },
        };
        let north = match self.chunks.get(&coords.north()) {
            Some(chunk) => chunk.clone(),
            None => { return None; },
        };
        let south = match self.chunks.get(&coords.south()) {
            Some(chunk) => chunk.clone(),
            None => { return None; },
        };
        let east = match self.chunks.get(&coords.east()) {
            Some(chunk) => chunk.clone(),
            None => { return None; },
        };
        let west = match self.chunks.get(&coords.west()) {
            Some(chunk) => chunk.clone(),
            None => { return None; },
        };
        Some(ChunkGroup::new(current, north, south, east, west))
    }

    /// How many chunks one search may mark to be loaded in a tick that took
    /// in `received` chunks: twice as many, and two.
    pub open spec fn spec_cap(received: int) -> int {
        2 * (received + 1)
    }

    /// One tick of streaming. The chunks of `completed`, which were
    /// generated since the last tick, become resident. Then the chunks
    /// around each observer are searched: those that are resident are kept,
    /// and of those that are not, a bounded number is marked to be loaded.
    /// Each resident chunk that no observer keeps is evicted. Each marked
    /// chunk that is not loading yet is loading from now on, and is handed
    /// out as a job: the caller generates it and hands it back in a later
    /// tick.
    pub fn load_around(&mut self, positions: Vec<WorldCoordinate>, completed: Vec<Chunk>) -> (jobs:
        Vec<ChunkGridCoordinate>)
        requires
            old(self).wf(),
            forall|j: int| 0 <= j < completed.len() ==> (#[trigger] completed[j]).wf(),
            forall|o: int|
                0 <= o < positions.len() ==> spec_searchable(spec_target(#[trigger] positions[o])),
        ensures
            final(self).wf(),
            final(self).spec_seed() == old(self).spec_seed(),
            final(self).spec_chunks() == spec_received(
                old(self).spec_chunks(),
                completed@,
            ).restrict(spec_kept(positions@)),
            jobs@.no_duplicates(),
            jobs@.to_set() == spec_wanted(
                positions@,
                spec_received(old(self).spec_chunks(), completed@).dom(),
                Self::spec_cap(completed.len() as int),
            ).difference(old(self).spec_loading().difference(spec_arrived(completed@))),
            final(self).spec_loading() == old(self).spec_loading().difference(
                spec_arrived(completed@),
            ).union(jobs@.to_set()),
            forall|j: int| 0 <= j < jobs.len() ==> (#[trigger] jobs[j]).in_world(),
    {
        let received: usize = completed.len();
        let ghost arrived = completed@;
        for chunk in it: completed
            invariant
                self.wf(),
                it.seq() == arrived,
                forall|j: int| 0 <= j < arrived.len() ==> (#[trigger] arrived[j]).wf(),
                self.spec_seed() == old(self).spec_seed(),
                self.spec_chunks() == spec_received(
                    old(self).spec_chunks(),
                    arrived.take(it.index()),
                ),
                self.spec_loading() == old(self).spec_loading().difference(
                    spec_arrived(arrived.take(it.index())),
                ),
        {
            let ghost index = it.index();
            assert(chunk == arrived[index]);
            self.receive(chunk);
            proof {
                let taken = arrived.take(index + 1);
                assert(taken.drop_last() =~= arrived.take(index));
                assert(taken.last() == chunk);
                assert(self.spec_loading() =~= old(self).spec_loading().difference(
                    spec_arrived(taken),
                )) by {
                    assert forall|c: ChunkGridCoordinate|
                        spec_arrived(taken).contains(c) <==> spec_arrived(
                            arrived.take(index),
                        ).contains(c) || c == chunk.coords() by {
                        if spec_arrived(arrived.take(index)).contains(c) {
                            let j = choose|j: int|
                                0 <= j < index && (#[trigger] arrived.take(index)[j]).coords()
                                    == c;
                            assert(taken[j].coords() == c);
                        }
                        if c == chunk.coords() {
                            assert(taken[index].coords() == c);
                        }
                        if spec_arrived(taken).contains(c) {
                            let j = choose|j: int|
                                0 <= j < index + 1 && (#[trigger] taken[j]).coords() == c;
                            if j < index {
                                assert(arrived.take(index)[j].coords() == c);
                            }
                        }
                    }
                }
            }
        }
        assert(arrived.take(arrived.len() as int) =~= arrived);

        let ghost drained = self.spec_chunks();
        let ghost resident = drained.dom();
        let ghost waiting = self.spec_loading();
        let cap: u128 = 2 * (received as u128 + 1);
        let mut wanted: Vec<ChunkGridCoordinate> = Vec::new();
        let mut queued = CoordinateSet::new();
        let mut keep = CoordinateSet::new();
        let mut o: usize = 0;
        while o < positions.len()
            invariant
                self.wf(),
                self.spec_seed() == old(self).spec_seed(),
                self.spec_chunks() == drained,
                self.spec_loading() == waiting,
                resident == drained.dom(),
                cap == Self::spec_cap(received as int),
                forall|p: int|
                    0 <= p < positions.len() ==> spec_searchable(
                        spec_target(#[trigger] positions[p]),
                    ),
                o <= positions.len(),
                wanted@.no_duplicates(),
                wanted@.to_set() == queued@,
                forall|c: ChunkGridCoordinate| #[trigger] queued@.contains(c) ==> c.in_world(),
                forall|c: ChunkGridCoordinate|
                    #[trigger] queued@.contains(c) <==> spec_wanted(
                        positions@.take(o as int),
                        resident,
                        cap as int,
                    ).contains(c),
                forall|c: ChunkGridCoordinate|
                    #[trigger] keep@.contains(c) <==> resident.contains(c) && spec_kept(
                        positions@.take(o as int),
                    ).contains(c),
            decreases positions.len() - o,
        {
            let target = ChunkGridCoordinate::from_world_coordinate(positions[o]);
            let ghost queued_before = queued@;
            let ghost keep_before = keep@;
            mark_around(&self.chunks, target, cap, &mut wanted, &mut queued, &mut keep);
            o = o + 1;
            proof {
                let before = positions@.take(o - 1);
                let now = positions@.take(o as int);
                let scan = spec_scan(target, RINGS as nat);
                assert(now[o - 1] == positions@[o - 1]);
                assert forall|c: ChunkGridCoordinate|
                    #[trigger] queued@.contains(c) <==> spec_wanted(
                        now,
                        resident,
                        cap as int,
                    ).contains(c) by {
                    if spec_wanted(before, resident, cap as int).contains(c) {
                        let p = choose|p: int|
                            0 <= p < before.len() && spec_marked(
                                spec_scan(spec_target(#[trigger] before[p]), RINGS as nat),
                                resident,
                                cap as int,
                                c,
                            );
                        assert(now[p] == before[p]);
                    }
                    if spec_marked(scan, resident, cap as int, c) {
                        assert(spec_target(now[o - 1]) == target);
                    }
                    if spec_wanted(now, resident, cap as int).contains(c) {
                        let p = choose|p: int|
                            0 <= p < now.len() && spec_marked(
                                spec_scan(spec_target(#[trigger] now[p]), RINGS as nat),
                                resident,
                                cap as int,
                                c,
                            );
                        if p < o - 1 {
                            assert(before[p] == now[p]);
                        }
                    }
                }
                assert forall|c: ChunkGridCoordinate| #[trigger] queued@.contains(c) implies
                    c.in_world() by {
                    if !queued_before.contains(c) {
                        let k = choose|k: int|
                            0 <= k < scan.len() && #[trigger] scan[k] == c && !resident.contains(c)
                                && crate::world::streaming::spec_missing_before(
                                scan,
                                resident,
                                k as nat,
                            ) < cap;
                        assert(scan.contains(c));
                        lemma_scan_reach(target, RINGS as nat, c);
                    }
                }
                assert forall|c: ChunkGridCoordinate|
                    #[trigger] keep@.contains(c) <==> resident.contains(c) && spec_kept(
                        now,
                    ).contains(c) by {
                    if spec_kept(before).contains(c) {
                        let p = choose|p: int|
                            0 <= p < before.len() && spec_in_reach(
                                spec_target(#[trigger] before[p]),
                                SEARCH_DISTANCE as int,
                                c,
                            );
                        assert(now[p] == before[p]);
                    }
                    if spec_in_reach(target, SEARCH_DISTANCE as int, c) {
                        assert(spec_target(now[o - 1]) == target);
                    }
                    if spec_kept(now).contains(c) {
                        let p = choose|p: int|
                            0 <= p < now.len() && spec_in_reach(
                                spec_target(#[trigger] now[p]),
                                SEARCH_DISTANCE as int,
                                c,
                            );
                        if p < o - 1 {
                            assert(before[p] == now[p]);
                        }
                    }
                }
            }
        }
        assert(positions@.take(positions.len() as int) =~= positions@);

        self.chunks.retain(&keep);
        proof {
            assert(self.spec_chunks() =~= drained.restrict(spec_kept(positions@)));
            assert forall|c: ChunkGridCoordinate|
                !(self.spec_loading().contains(c) && #[trigger] self.spec_chunks().contains_key(
                    c,
                )) by {
                assert(!(waiting.contains(c) && drained.contains_key(c)));
            }
        }

        let ghost kept = self.spec_chunks();
        proof {
            assert forall|j: int| 0 <= j < wanted.len() implies (#[trigger] wanted@[j]).in_world()
                && !kept.contains_key(wanted@[j]) by {
                let c = wanted@[j];
                assert(wanted@.to_set().contains(c));
                assert(queued@.contains(c));
                assert(spec_wanted(positions@, resident, cap as int).contains(c));
                let p = choose|p: int|
                    0 <= p < positions@.len() && spec_marked(
                        spec_scan(spec_target(#[trigger] positions@[p]), RINGS as nat),
                        resident,
                        cap as int,
                        c,
                    );
                assert(!resident.contains(c));
            }
        }
        let mut jobs: Vec<ChunkGridCoordinate> = Vec::new();
        let mut i: usize = 0;
        while i < wanted.len()
            invariant
                self.wf(),
                self.spec_seed() == old(self).spec_seed(),
                self.spec_chunks() == kept,
                i <= wanted.len(),
                wanted@.no_duplicates(),
                forall|j: int|
                    0 <= j < wanted.len() ==> (#[trigger] wanted@[j]).in_world()
                        && !kept.contains_key(wanted@[j]),
                jobs@.no_duplicates(),
                forall|c: ChunkGridCoordinate|
                    #[trigger] jobs@.contains(c) <==> wanted@.take(i as int).contains(c)
                        && !waiting.contains(c),
                self.spec_loading() == waiting.union(jobs@.to_set()),
            decreases wanted.len() - i,
        {
            let coords = wanted[i];
            let ghost jobs_before = jobs@;
            let ghost loading_before = self.spec_loading();
            assert(!jobs_before.contains(coords)) by {
                if jobs_before.contains(coords) {
                    let j = choose|j: int|
                        0 <= j < i && #[trigger] wanted@.take(i as int)[j] == coords;
                    assert(wanted@[j] == coords);
                }
            }
            if self.load_chunk(coords) {
                jobs.push(coords);
                proof {
                    assert forall|a: int, b: int|
                        0 <= a < jobs@.len() && 0 <= b < jobs@.len() && a != b implies jobs@[a]
                        != jobs@[b] by {
                        if a == jobs_before.len() {
                            assert(jobs_before.contains(jobs_before[b]));
                        }
                        if b == jobs_before.len() {
                            assert(jobs_before.contains(jobs_before[a]));
                        }
                    }
                }
            }
            i = i + 1;
            proof {
                let before = wanted@.take(i - 1);
                let now = wanted@.take(i as int);
                assert(now[i - 1] == coords);
                assert forall|c: ChunkGridCoordinate|
                    #[trigger] jobs@.contains(c) <==> now.contains(c) && !waiting.contains(
                        c,
                    ) by {
                    if before.contains(c) {
                        let j = choose|j: int| 0 <= j < before.len() && before[j] == c;
                        assert(now[j] == c);
                    }
                    if now.contains(c) {
                        let j = choose|j: int| 0 <= j < now.len() && now[j] == c;
                        if j < i - 1 {
                            assert(before[j] == c);
                        }
                    }
                    if jobs_before.contains(c) {
                        let j = choose|j: int| 0 <= j < jobs_before.len() && jobs_before[j] == c;
                        assert(jobs@[j] == c);
                    }
                    if jobs@.contains(c) {
                        let j = choose|j: int| 0 <= j < jobs@.len() && jobs@[j] == c;
                        if j < jobs_before.len() {
                            assert(jobs_before[j] == c);
                        }
                    }
                    if jobs@.len() > jobs_before.len() {
                        assert(jobs@[jobs_before.len() as int] == coords);
                    }
                }
                assert(self.spec_loading() =~= waiting.union(jobs@.to_set()));
            }
        }
        proof {
            assert(wanted@.take(wanted.len() as int) =~= wanted@);
            let marked = spec_wanted(positions@, resident, Self::spec_cap(received as int));
            assert(jobs@.to_set() =~= marked.difference(waiting)) by {
                assert forall|c: ChunkGridCoordinate|
                    jobs@.to_set().contains(c) <==> marked.difference(waiting).contains(c) by {
                    assert(jobs@.to_set().contains(c) == jobs@.contains(c));
                    assert(wanted@.to_set().contains(c) == wanted@.contains(c));
                }
            }
            assert forall|j: int| 0 <= j < jobs.len() implies (#[trigger] jobs[j]).in_world() by {
                assert(jobs@.contains(jobs@[j]));
                let k = choose|k: int| 0 <= k < wanted@.len() && wanted@[k] == jobs@[j];
                assert(wanted@[k].in_world());
            }
        }
        jobs
    }
}

} // verus!
