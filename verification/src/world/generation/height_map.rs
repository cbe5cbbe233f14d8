use crate::world::generation::noise::NoiseFn;
use crate::world::geometry::Rect;
use std::ops::Range;
use vstd::prelude::*;

verus! {

/// What a height map was made over.
pub struct HeightMapOptions {
    /// The columns that the map covers.
    pub rect: Rect,
    /// The heights that the map can hold: from `start` up to, not
    /// including, `end`.
    pub range: Range<u8>,
}

/// The height of the surface of each column of a rectangle of the world.
pub struct HeightMap {
    values: Vec<u8>,
    options: HeightMapOptions,
}

/// The height that stands for `sample` in `range`: the start of the range
/// plus the sample's share of its extent, rounded down.
pub open spec fn spec_cell_height(range: Range<u8>, sample: u16) -> u8 {
    (range.start + (sample * (range.end - range.start)) / 65536) as u8
}

/// Whether `range` holds `height`. A range without extent holds its start.
pub open spec fn spec_holds(range: Range<u8>, height: u8) -> bool {
    range.start <= height <= range.end && (range.start < range.end ==> height < range.end)
}

/// The height of a cell lies in the range it was asked for.
pub proof fn lemma_cell_height_in_range(range: Range<u8>, sample: u16)
    requires
        range.start <= range.end,
    ensures
        range.start <= spec_cell_height(range, sample) <= range.end,
        range.start + (sample * (range.end - range.start)) / 65536 <= range.end,
        range.start < range.end ==> spec_cell_height(range, sample) < range.end,
{
    let span = range.end - range.start;
    assert(0 <= sample * span <= 65535 * span) by (nonlinear_arith)
        requires
            0 <= sample <= 65535,
            0 <= span,
    ;
}

/// Computes the height that stands for `sample` in `range`.
fn cell_height(range: &Range<u8>, sample: u16) -> (height: u8)
    requires
        range.start <= range.end,
    ensures
        height == spec_cell_height(*range, sample),
{
    let span: u32 = (range.end - range.start) as u32;
    proof {
        lemma_cell_height_in_range(*range, sample);
        assert(0 <= sample * span <= 65535 * 255) by (nonlinear_arith)
            requires
                0 <= sample <= 65535,
                0 <= span <= 255,
        ;
    }
    (range.start as u32 + (sample as u32 * span) / 65536) as u8
}

/// In a grid that is stored row by row, a cell that comes before another
/// has the lesser index.
proof fn lemma_row_major_order(width: int, x: int, z: int, earlier_x: int, earlier_z: int)
    requires
        0 <= x <= width,
        0 <= earlier_x < width,
        0 <= earlier_z,
        earlier_z < z || (earlier_z == z && earlier_x < x),
    ensures
        0 <= earlier_x + earlier_z * width < x + z * width,
{
    if earlier_z < z {
        assert(earlier_z * width + width <= z * width) by (nonlinear_arith)
            requires
                0 <= earlier_z < z,
                0 <= width,
        ;
    }
    assert(0 <= earlier_z * width) by (nonlinear_arith)
        requires
            0 <= earlier_z,
            0 <= width,
    ;
}

impl View for HeightMap {
    type V = Seq<u8>;

    /// The heights, row by row: the rows run along x, one row for each z.
    closed spec fn view(&self) -> Seq<u8> {
        self.values@
    }
}

impl HeightMap {
    /// The columns that the map covers.
    pub closed spec fn spec_rect(&self) -> Rect {
        self.options.rect
    }

    /// The heights that the map can hold.
    pub closed spec fn spec_range(&self) -> Range<u8> {
        self.options.range
    }

    /// The map holds one height for each column of its rectangle.
    pub open spec fn wf(&self) -> bool {
        &&& self.spec_rect().wf()
        &&& self@.len() == self.spec_rect().spec_area()
    }

    /// Whether `range` holds every height of the map.
    pub open spec fn spec_within(&self, range: Range<u8>) -> bool {
        forall|k: int| 0 <= k < self@.len() ==> spec_holds(range, #[trigger] self@[k])
    }

    /// The height of the column `(x, z)`, counted from the corner of the
    /// map's rectangle.
    pub open spec fn spec_height(&self, x: int, z: int) -> u8 {
        self@[x + z * self.spec_rect().size.x]
    }

    /// The height map of `rect`, with heights in `range`, that follows
    /// `noise`: the height of a column is the start of the range plus the
    /// share of the range's extent that the noise gives at the column's
    /// world position.
    pub fn new<N: NoiseFn>(rect: Rect, range: Range<u8>, noise: N) -> (map: Self)
        requires
            rect.wf(),
            rect.spec_area() <= usize::MAX,
            range.start <= range.end,
            noise.wf(),
        ensures
            map.wf(),
            map.spec_rect() == rect,
            map.spec_range() == range,
            map.spec_within(range),
            forall|x: int, z: int|
                0 <= x < rect.size.x && 0 <= z < rect.size.y ==> #[trigger] map.spec_height(x, z)
                    == spec_cell_height(
                    range,
                    noise.spec_get((rect.origin.x + x) as i64, (rect.origin.y + z) as i64),
                ),
    {
        let width: i64 = rect.size.x;
        let mut values: Vec<u8> = Vec::new();
        let mut z: i64 = 0;
        while z < rect.size.y
            invariant
                rect.wf(),
                rect.spec_area() <= usize::MAX,
                range.start <= range.end,
                noise.wf(),
                width == rect.size.x,
                0 <= z <= rect.size.y,
                values.len() == z * width,
                forall|k: int| 0 <= k < values.len() ==> spec_holds(range, #[trigger] values@[k]),
                forall|i: int, j: int|
                    0 <= i < width && 0 <= j < z ==> #[trigger] values@[i + j * width]
                        == spec_cell_height(
                        range,
                        noise.spec_get((rect.origin.x + i) as i64, (rect.origin.y + j) as i64),
                    ),
            decreases rect.size.y - z,
        {
            let mut x: i64 = 0;
            while x < width
                invariant
                    rect.wf(),
                    rect.spec_area() <= usize::MAX,
                    range.start <= range.end,
                    noise.wf(),
                    width == rect.size.x,
                    0 <= z < rect.size.y,
                    0 <= x <= width,
                    values.len() == x + z * width,
                    forall|k: int|
                        0 <= k < values.len() ==> spec_holds(range, #[trigger] values@[k]),
                    forall|i: int, j: int|
                        0 <= i < width && 0 <= j && (j < z || (j == z && i < x))
                            ==> #[trigger] values@[i + j * width] == spec_cell_height(
                            range,
                            noise.spec_get((rect.origin.x + i) as i64, (rect.origin.y + j) as i64),
                        ),
                decreases width - x,
            {
                let sample: u16 = noise.get(rect.origin.x + x, rect.origin.y + z);
                let height: u8 = cell_height(&range, sample);
                let ghost before = values@;
                values.push(height);
                proof {
                    lemma_cell_height_in_range(range, sample);
                    assert forall|i: int, j: int|
                        0 <= i < width && 0 <= j && (j < z || (j == z && i < x + 1))
                        implies #[trigger] values@[i + j * width] == spec_cell_height(
                        range,
                        noise.spec_get((rect.origin.x + i) as i64, (rect.origin.y + j) as i64),
                    ) by {
                        if j == z && i == x {
                        } else {
                            lemma_row_major_order(width as int, x as int, z as int, i, j);
                            assert(values@[i + j * width] == before[i + j * width]);
                        }
                    }
                }
                x = x + 1;
            }
            proof {
                assert(x + z * width == (z + 1) * width) by (nonlinear_arith)
                    requires
                        x == width,
                ;
            }
            z = z + 1;
        }
        proof {
            assert(z * width == rect.size.x * rect.size.y) by (nonlinear_arith)
                requires
                    z == rect.size.y,
                    width == rect.size.x,
            ;
        }
        Self { values, options: HeightMapOptions { rect, range } }
    }

    /// The height of the column `(x, z)`, counted from the corner of the
    /// map's rectangle.
    pub fn height(&self, x: u8, z: u8) -> (height: u8)
        requires
            self.wf(),
            x < self.spec_rect().size.x,
            z < self.spec_rect().size.y,
        ensures
            height == self.spec_height(x as int, z as int),
    {
        let width: i64 = self.options.rect.size.x;
        proof {
            lemma_row_major_order(
                width as int,
                0,
                self.spec_rect().size.y as int,
                x as int,
                z as int,
            );
            assert(self.spec_rect().size.y * width == width * self.spec_rect().size.y)
                by (nonlinear_arith);
            assert(z * width <= 255 * width) by (nonlinear_arith)
                requires
                    0 <= z <= 255,
                    0 <= width,
            ;
        }
        let index: i128 = x as i128 + z as i128 * width as i128;
        assert(0 <= index < self.values.len());
        self.values[index as usize]
    }
}

} // verus!
