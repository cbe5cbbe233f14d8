use crate::chunk::chunk::Chunk;
use crate::chunk::chunk_grid::ChunkGridCoordinate;
use crate::chunk::grid::{ChunkGrid, CoordinateSet};
use crate::utils::sequence::lemma_concat_contains;
use crate::world::world_coordinate::WorldCoordinate;
use vstd::prelude::*;

verus! {

/// How many chunks away from an observer chunks are loaded.
pub const LOAD_DISTANCE: u8 = 4;

/// The number of rings that are searched around an observer: the chunk of
/// the observer, and one ring more than the load distance.
pub const RINGS: usize = 6;

/// The chunk that lies `dx` chunks along x and `dz` chunks along z from
/// `target`.
pub open spec fn spec_offset(target: ChunkGridCoordinate, dx: int, dz: int) -> ChunkGridCoordinate {
    ChunkGridCoordinate { x: (target.x + dx) as i64, z: (target.z + dz) as i64 }
}

/// Whether `coords` lies no further than `distance` chunks from `target`
/// along each axis.
pub open spec fn spec_in_reach(
    target: ChunkGridCoordinate,
    distance: int,
    coords: ChunkGridCoordinate,
) -> bool {
    &&& target.x - distance <= coords.x <= target.x + distance
    &&& target.z - distance <= coords.z <= target.z + distance
}

/// How far from an observer, along each axis, chunks are searched for:
/// one chunk further than the load distance.
pub const SEARCH_DISTANCE: i64 = 5;

/// Whether every chunk that is searched around `target` has a place in the
/// world.
pub open spec fn spec_searchable(target: ChunkGridCoordinate) -> bool {
    &&& i64::MIN <= 16 * (target.x - SEARCH_DISTANCE)
    &&& 16 * (target.x + SEARCH_DISTANCE) + 15 <= i64::MAX
    &&& i64::MIN <= 16 * (target.z - SEARCH_DISTANCE)
    &&& 16 * (target.z + SEARCH_DISTANCE) + 15 <= i64::MAX
}

/// Whether every chunk that is searched around `target` has a place in the
/// world.
pub fn searchable(target: ChunkGridCoordinate) -> (fits: bool)
    ensures
        fits == spec_searchable(target),
{
    let low: i64 = -0x0800_0000_0000_0000 + SEARCH_DISTANCE;
    let high: i64 = 0x07ff_ffff_ffff_ffff - SEARCH_DISTANCE;
    low <= target.x && target.x <= high && low <= target.z && target.z <= high
}

/// The row of the square of radius `ring` around `target` that lies `dx`
/// chunks along x from the square's edge: its chunks in the order of z.
pub open spec fn spec_row(target: ChunkGridCoordinate, ring: int, dx: int) -> Seq<
    ChunkGridCoordinate,
> {
    Seq::new((2 * ring + 1) as nat, |k: int| spec_offset(target, dx - ring, k - ring))
}

/// The first `rows` rows of the square of radius `ring` around `target`,
/// in the order of x.
pub open spec fn spec_rows(target: ChunkGridCoordinate, ring: int, rows: nat) -> Seq<
    ChunkGridCoordinate,
>
    decreases rows,
{
    if rows == 0 {
        Seq::empty()
    } else {
        spec_rows(target, ring, (rows - 1) as nat) + spec_row(target, ring, rows - 1)
    }
}

/// The square of radius `ring` around `target`, row by row.
pub open spec fn spec_ring(target: ChunkGridCoordinate, ring: int) -> Seq<ChunkGridCoordinate> {
    spec_rows(target, ring, (2 * ring + 1) as nat)
}

/// The order in which the chunks around `target` are searched: the squares
/// of radius 0, 1 and so on, `rings` of them, each in full, so that a chunk
/// near `target` is met once in each square that holds it.
pub open spec fn spec_scan(target: ChunkGridCoordinate, rings: nat) -> Seq<ChunkGridCoordinate>
    decreases rings,
{
    if rings == 0 {
        Seq::empty()
    } else {
        spec_scan(target, (rings - 1) as nat) + spec_ring(target, rings - 1)
    }
}

/// Lists the chunks around `target` in the order in which they are
/// searched.
pub fn ring_scan(target: ChunkGridCoordinate) -> (scan: Vec<ChunkGridCoordinate>)
    requires
        spec_searchable(target),
    ensures
        scan@ == spec_scan(target, RINGS as nat),
{
    let mut scan: Vec<ChunkGridCoordinate> = Vec::new();
    let mut ring: i64 = 0;
    while ring < 6
        invariant
            spec_searchable(target),
            0 <= ring <= 6,
            scan@ == spec_scan(target, ring as nat),
        decreases 6 - ring,
    {
        let ghost outer = scan@;
        let mut x: i64 = -ring;
        assert(scan@ =~= outer + spec_rows(target, ring as int, 0));
        while x <= ring
            invariant
                spec_searchable(target),
                0 <= ring < 6,
                -ring <= x <= ring + 1,
                scan@ == outer + spec_rows(target, ring as int, (x + ring) as nat),
            decreases ring + 1 - x,
        {
            let ghost rows = scan@;
            let mut z: i64 = -ring;
            assert(scan@ =~= rows + spec_row(target, ring as int, x + ring).take(0));
            while z <= ring
                invariant
                    spec_searchable(target),
                    0 <= ring < 6,
                    -ring <= x <= ring,
                    -ring <= z <= ring + 1,
                    scan@ == rows + spec_row(target, ring as int, x + ring).take(z + ring),
                decreases ring + 1 - z,
            {
                scan.push(ChunkGridCoordinate::new(target.x + x, target.z + z));
                z = z + 1;
                assert(scan@ =~= rows + spec_row(target, ring as int, x + ring).take(z + ring));
            }
            assert(spec_row(target, ring as int, x + ring).take(z + ring) =~= spec_row(
                target,
                ring as int,
                x + ring,
            ));
            x = x + 1;
            assert(scan@ =~= outer + spec_rows(target, ring as int, (x + ring) as nat));
        }
        ring = ring + 1;
    }
    scan
}

/// A row of a square holds the chunks at its place along x that lie
/// within the square along z.
pub proof fn lemma_row(target: ChunkGridCoordinate, ring: int, dx: int, coords: ChunkGridCoordinate)
    requires
        spec_searchable(target),
        0 <= ring <= SEARCH_DISTANCE,
        0 <= dx <= 2 * ring,
    ensures
        spec_row(target, ring, dx).contains(coords) <==> coords.x == target.x + dx - ring
            && target.z - ring <= coords.z <= target.z + ring,
{
    let row = spec_row(target, ring, dx);
    if coords.x == target.x + dx - ring && target.z - ring <= coords.z <= target.z + ring {
        assert(row[coords.z - target.z + ring] == coords);
    }
}

/// The first rows of a square hold the chunks of the square that lie in
/// them.
pub proof fn lemma_rows(
    target: ChunkGridCoordinate,
    ring: int,
    rows: nat,
    coords: ChunkGridCoordinate,
)
    requires
        spec_searchable(target),
        0 <= ring <= SEARCH_DISTANCE,
        rows <= 2 * ring + 1,
    ensures
        spec_rows(target, ring, rows).contains(coords) <==> target.x - ring <= coords.x < target.x
            - ring + rows && target.z - ring <= coords.z <= target.z + ring,
    decreases rows,
{
    if rows > 0 {
        let before = spec_rows(target, ring, (rows - 1) as nat);
        let last = spec_row(target, ring, rows - 1);
        lemma_rows(target, ring, (rows - 1) as nat, coords);
        lemma_row(target, ring, rows - 1, coords);
        lemma_concat_contains(before, last, coords);
    }
}

/// The search around `target` meets exactly the chunks that lie no further
/// from it, along each axis, than the number of the last ring.
pub proof fn lemma_scan_reach(target: ChunkGridCoordinate, rings: nat, coords: ChunkGridCoordinate)
    requires
        spec_searchable(target),
        1 <= rings <= RINGS,
    ensures
        spec_scan(target, rings).contains(coords) <==> spec_in_reach(target, rings - 1, coords),
    decreases rings,
{
    let before = spec_scan(target, (rings - 1) as nat);
    let last = spec_ring(target, rings - 1);
    lemma_concat_contains(before, last, coords);
    lemma_rows(target, rings - 1, (2 * (rings - 1) + 1) as nat, coords);
    if rings > 1 {
        lemma_scan_reach(target, (rings - 1) as nat, coords);
    } else {
        assert(before =~= Seq::<ChunkGridCoordinate>::empty());
    }
}

/// How many of the first `count` chunks of `scan` are not among
/// `resident`.
pub open spec fn spec_missing_before(
    scan: Seq<ChunkGridCoordinate>,
    resident: Set<ChunkGridCoordinate>,
    count: nat,
) -> nat
    decreases count,
{
    if count == 0 {
        0
    } else {
        let before = spec_missing_before(scan, resident, (count - 1) as nat);
        if resident.contains(scan[count - 1]) {
            before
        } else {
            before + 1
        }
    }
}

/// Whether the search `scan` marks `coords` to be loaded: the search meets
/// it, it is not resident, and fewer than `cap` chunks that are not
/// resident were met before. A chunk that is met again counts again.
pub open spec fn spec_marked(
    scan: Seq<ChunkGridCoordinate>,
    resident: Set<ChunkGridCoordinate>,
    cap: int,
    coords: ChunkGridCoordinate,
) -> bool {
    exists|k: int|
        0 <= k < scan.len() && #[trigger] scan[k] == coords && !resident.contains(coords)
            && spec_missing_before(scan, resident, k as nat) < cap
}

/// Whether the first `count` steps of the search `scan` mark `coords` to
/// be loaded.
pub open spec fn spec_marked_before(
    scan: Seq<ChunkGridCoordinate>,
    resident: Set<ChunkGridCoordinate>,
    cap: int,
    count: int,
    coords: ChunkGridCoordinate,
) -> bool {
    exists|k: int|
        0 <= k < count && #[trigger] scan[k] == coords && !resident.contains(coords)
            && spec_missing_before(scan, resident, k as nat) < cap
}

/// Whether `coords` is among the first `count` chunks of `scan`.
pub open spec fn spec_met_before(
    scan: Seq<ChunkGridCoordinate>,
    count: int,
    coords: ChunkGridCoordinate,
) -> bool {
    exists|k: int| 0 <= k < count && #[trigger] scan[k] == coords
}

/// Searches around `target`. Each chunk of `chunks` that the search meets
/// is put into `keep`. Of the chunks that it meets and that are not in
/// `chunks`, the first `cap` are put into `queued`, and those of them that
/// are new to it are added to `wanted`.
pub fn mark_around(
    chunks: &ChunkGrid,
    target: ChunkGridCoordinate,
    cap: u128,
    wanted: &mut Vec<ChunkGridCoordinate>,
    queued: &mut CoordinateSet,
    keep: &mut CoordinateSet,
)
    requires
        spec_searchable(target),
        old(wanted)@.no_duplicates(),
        old(wanted)@.to_set() == old(queued)@,
    ensures
        final(wanted)@.no_duplicates(),
        final(wanted)@.to_set() == final(queued)@,
        forall|c: ChunkGridCoordinate|
            #[trigger] final(queued)@.contains(c) <==> old(queued)@.contains(c) || spec_marked(
                spec_scan(target, RINGS as nat),
                chunks@.dom(),
                cap as int,
                c,
            ),
        forall|c: ChunkGridCoordinate|
            #[trigger] final(keep)@.contains(c) <==> old(keep)@.contains(c) || (
            chunks@.contains_key(c) && spec_in_reach(target, SEARCH_DISTANCE as int, c)),
{
    let scan = ring_scan(target);
    let ghost resident = chunks@.dom();
    let mut counter: usize = 0;
    let mut n: usize = 0;
    while n < scan.len()
        invariant
            spec_searchable(target),
            scan@ == spec_scan(target, RINGS as nat),
            resident == chunks@.dom(),
            n <= scan.len(),
            counter <= n,
            counter == if spec_missing_before(scan@, resident, n as nat) < cap {
                spec_missing_before(scan@, resident, n as nat) as int
            } else {
                cap as int
            },
            wanted@.no_duplicates(),
            wanted@.to_set() == queued@,
            forall|c: ChunkGridCoordinate|
                #[trigger] queued@.contains(c) <==> old(queued)@.contains(c) || spec_marked_before(
                    scan@,
                    resident,
                    cap as int,
                    n as int,
                    c,
                ),
            forall|c: ChunkGridCoordinate|
                #[trigger] keep@.contains(c) <==> old(keep)@.contains(c) || (resident.contains(c)
                    && spec_met_before(scan@, n as int, c)),
        decreases scan.len() - n,
    {
        let coords = scan[n];
        let ghost queued_before = queued@;
        let ghost keep_before = keep@;
        let ghost wanted_before = wanted@;
        if !chunks.contains_key(&coords) {
            if (counter as u128) < cap {
                if queued.insert(coords) {
                    wanted.push(coords);
                    proof {
                        assert(!wanted_before.to_set().contains(coords));
                        assert(wanted@.no_duplicates());
                        assert(wanted@.to_set() =~= queued@) by {
                            assert forall|c: ChunkGridCoordinate|
                                wanted@.to_set().contains(c) == queued@.contains(c) by {
                                if wanted_before.to_set().contains(c) {
                                    let i = choose|i: int|
                                        0 <= i < wanted_before.len() && wanted_before[i] == c;
                                    assert(wanted@[i] == c);
                                }
                                if c == coords {
                                    assert(wanted@[wanted_before.len() as int] == c);
                                }
                                if wanted@.to_set().contains(c) {
                                    let i = choose|i: int| 0 <= i < wanted@.len() && wanted@[i] == c;
                                    if i < wanted_before.len() {
                                        assert(wanted_before[i] == c);
                                    }
                                }
                            }
                        }
                    }
                } else {
                    assert(queued@ =~= queued_before);
                }
                counter = counter + 1;
            }
        } else {
            keep.insert(coords);
        }
        n = n + 1;
        proof {
            assert forall|c: ChunkGridCoordinate|
                #[trigger] queued@.contains(c) <==> old(queued)@.contains(c) || spec_marked_before(
                    scan@,
                    resident,
                    cap as int,
                    n as int,
                    c,
                ) by {
                if spec_marked_before(scan@, resident, cap as int, n as int, c) {
                    let k = choose|k: int|
                        0 <= k < n && #[trigger] scan@[k] == c && !resident.contains(c)
                            && spec_missing_before(scan@, resident, k as nat) < cap;
                    if k < n - 1 {
                        assert(spec_marked_before(scan@, resident, cap as int, n - 1, c));
                    }
                }
                if spec_marked_before(scan@, resident, cap as int, n - 1, c) {
                    let k = choose|k: int|
                        0 <= k < n - 1 && #[trigger] scan@[k] == c && !resident.contains(c)
                            && spec_missing_before(scan@, resident, k as nat) < cap;
                    assert(0 <= k < n && scan@[k] == c);
                }
                if queued@.contains(c) && !queued_before.contains(c) {
                    assert(scan@[n - 1] == c);
                }
            }
            assert forall|c: ChunkGridCoordinate|
                #[trigger] keep@.contains(c) <==> old(keep)@.contains(c) || (resident.contains(c)
                    && spec_met_before(scan@, n as int, c)) by {
                if resident.contains(c) && spec_met_before(scan@, n as int, c) {
                    let k = choose|k: int| 0 <= k < n && #[trigger] scan@[k] == c;
                    if k < n - 1 {
                        assert(spec_met_before(scan@, n - 1, c));
                    }
                }
                if keep_before.contains(c) && !old(keep)@.contains(c) {
                    let k = choose|k: int| 0 <= k < n - 1 && #[trigger] scan@[k] == c;
                    assert(0 <= k < n && scan@[k] == c);
                }
                if keep@.contains(c) && !keep_before.contains(c) {
                    assert(scan@[n - 1] == c);
                }
            }
        }
    }
    proof {
        assert forall|c: ChunkGridCoordinate|
            #[trigger] keep@.contains(c) <==> old(keep)@.contains(c) || (chunks@.contains_key(c)
                && spec_in_reach(target, SEARCH_DISTANCE as int, c)) by {
            lemma_scan_reach(target, RINGS as nat, c);
            if spec_in_reach(target, SEARCH_DISTANCE as int, c) {
                let k = choose|k: int| 0 <= k < scan@.len() && scan@[k] == c;
                assert(0 <= k < n && scan@[k] == c);
            }
            if spec_met_before(scan@, n as int, c) {
                let k = choose|k: int| 0 <= k < n && #[trigger] scan@[k] == c;
                assert(scan@.contains(c));
            }
        }
    }
}

/// The chunk that an observer at `position` stands in.
pub open spec fn spec_target(position: WorldCoordinate) -> ChunkGridCoordinate {
    ChunkGridCoordinate::spec_from_world_coordinate(position)
}

/// The grid once the chunks of `completed` are taken in, one after the
/// other, each in place of the chunk that was resident at its coordinate.
pub open spec fn spec_received(
    chunks: Map<ChunkGridCoordinate, Chunk>,
    completed: Seq<Chunk>,
) -> Map<ChunkGridCoordinate, Chunk>
    decreases completed.len(),
{
    if completed.len() == 0 {
        chunks
    } else {
        spec_received(chunks, completed.drop_last()).insert(
            completed.last().coords(),
            completed.last(),
        )
    }
}

/// The coordinates of the chunks of `completed`.
pub open spec fn spec_arrived(completed: Seq<Chunk>) -> Set<ChunkGridCoordinate> {
    Set::new(
        |c: ChunkGridCoordinate|
            exists|j: int| 0 <= j < completed.len() && (#[trigger] completed[j]).coords() == c,
    )
}

/// The chunks that the observers at `positions` keep resident: those that
/// lie within the search distance of the chunk of one of them.
pub open spec fn spec_kept(positions: Seq<WorldCoordinate>) -> Set<ChunkGridCoordinate> {
    Set::new(
        |c: ChunkGridCoordinate|
            exists|o: int|
                0 <= o < positions.len() && spec_in_reach(
                    spec_target(#[trigger] positions[o]),
                    SEARCH_DISTANCE as int,
                    c,
                ),
    )
}

/// The chunks that the searches around the observers at `positions` mark
/// to be loaded, where `resident` are resident and each search marks at
/// most `cap`.
pub open spec fn spec_wanted(
    positions: Seq<WorldCoordinate>,
    resident: Set<ChunkGridCoordinate>,
    cap: int,
) -> Set<ChunkGridCoordinate> {
    Set::new(
        |c: ChunkGridCoordinate|
            exists|o: int|
                0 <= o < positions.len() && spec_marked(
                    spec_scan(spec_target(#[trigger] positions[o]), RINGS as nat),
                    resident,
                    cap,
                    c,
                ),
    )
}

} // verus!
