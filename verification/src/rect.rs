//! Regions of a surface and how they are split.

use vstd::prelude::*;
use crate::coord::Coord;

verus! {

/// Where a split asked for at `at` falls on an axis of length `extent`, counted
/// from the near edge, or `None` where no split is possible there.
///
/// A positive `at` is the index itself. A negative `at` counts back from the
/// far edge. Either way the index has to lie strictly between the two edges, so
/// that neither part is empty: zero is never a split, and an axis shorter than
/// two has none.
pub open spec fn spec_split_index(extent: usize, at: isize) -> Option<usize> {
    if 0 < at < extent {
        Some(at as usize)
    } else if at < 0 && extent + at > 0 {
        Some((extent + at) as usize)
    } else {
        None
    }
}

/// Where a split asked for at `at` falls on an axis of length `extent`, or
/// `None` where there is no such split.
#[verifier::when_used_as_spec(spec_split_index)]
pub fn split_index(extent: usize, at: isize) -> (r: Option<usize>)
    ensures
        r == spec_split_index(extent, at),
{
    if at > 0 {
        let index: usize = at as usize;
        if index < extent {
            Some(index)
        } else {
            None
        }
    } else if at < 0 {
        let back: usize = (-(at + 1)) as usize + 1;
        if back < extent {
            Some(extent - back)
        } else {
            None
        }
    } else {
        None
    }
}

/// A region of a surface: its size, and where its origin lies in the
/// coordinates of the surface that holds it.
#[derive(Copy, Clone, Debug)]
pub struct Rect {
    pub offset: Coord,
    pub dimensions: Coord,
}

impl Rect {
    /// Whether the point `p`, in the coordinates of the surface that holds the
    /// region, lies in the region.
    pub open spec fn covers(self, p: Coord) -> bool {
        &&& self.offset.x <= p.x < self.offset.x + self.dimensions.x
        &&& self.offset.y <= p.y < self.offset.y + self.dimensions.y
    }

    /// The left and right part of the region, cut `index` columns from its
    /// left edge.
    pub open spec fn columns_cut_at(self, index: usize) -> (Rect, Rect) {
        (
            Rect { offset: self.offset, dimensions: Coord { x: index, y: self.dimensions.y } },
            Rect {
                offset: self.offset.spec_add_x(index),
                dimensions: Coord {
                    x: (self.dimensions.x - index) as usize,
                    y: self.dimensions.y,
                },
            },
        )
    }

    /// The upper and lower part of the region, cut `index` rows from its upper
    /// edge.
    pub open spec fn rows_cut_at(self, index: usize) -> (Rect, Rect) {
        (
            Rect { offset: self.offset, dimensions: Coord { x: self.dimensions.x, y: index } },
            Rect {
                offset: self.offset.spec_add_y(index),
                dimensions: Coord {
                    x: self.dimensions.x,
                    y: (self.dimensions.y - index) as usize,
                },
            },
        )
    }

    /// The left and right part of the region, cut where `x` falls on its
    /// width.
    pub open spec fn spec_split_verticaly_at(self, x: isize) -> (Rect, Rect) {
        self.columns_cut_at(spec_split_index(self.dimensions.x, x).unwrap())
    }

    /// The upper and lower part of the region, cut where `y` falls on its
    /// height.
    pub open spec fn spec_split_horizontaly_at(self, y: isize) -> (Rect, Rect) {
        self.rows_cut_at(spec_split_index(self.dimensions.y, y).unwrap())
    }

    /// Splits the region into a left and a right part. A positive `x` is the
    /// width of the left part, a negative `x` the width of the right part,
    /// negated. `x` has to be a split of the width, as [`split_index`] says:
    /// not zero, and such that neither part is empty.
    ///
    /// The left part keeps the offset. The right part starts as many columns
    /// further right as the left part is wide, and at `usize::MAX` where that
    /// would pass it. Both parts are as high as the whole.
    #[verifier::when_used_as_spec(spec_split_verticaly_at)]
    pub fn split_verticaly_at(self, x: isize) -> (halves: (Rect, Rect))
        requires
            spec_split_index(self.dimensions.x, x) is Some,
        ensures
            halves == self.spec_split_verticaly_at(x),
            0 < halves.0.dimensions.x < self.dimensions.x,
            0 < halves.1.dimensions.x < self.dimensions.x,
    {
        let index: usize = split_index(self.dimensions.x, x).unwrap();
        (
            Rect { offset: self.offset, dimensions: Coord { x: index, y: self.dimensions.y } },
            Rect {
                offset: self.offset.add_x(index),
                dimensions: Coord { x: self.dimensions.x - index, y: self.dimensions.y },
            },
        )
    }

    /// Splits the region into an upper and a lower part. A positive `y` is the
    /// height of the upper part, a negative `y` the height of the lower part,
    /// negated. `y` has to be a split of the height, as [`split_index`] says:
    /// not zero, and such that neither part is empty.
    ///
    /// The upper part keeps the offset. The lower part starts as many rows
    /// further down as the upper part is high, and at `usize::MAX` where that
    /// would pass it. Both parts are as wide as the whole.
    #[verifier::when_used_as_spec(spec_split_horizontaly_at)]
    pub fn split_horizontaly_at(self, y: isize) -> (halves: (Rect, Rect))
        requires
            spec_split_index(self.dimensions.y, y) is Some,
        ensures
            halves == self.spec_split_horizontaly_at(y),
            0 < halves.0.dimensions.y < self.dimensions.y,
            0 < halves.1.dimensions.y < self.dimensions.y,
    {
        let index: usize = split_index(self.dimensions.y, y).unwrap();
        (
            Rect { offset: self.offset, dimensions: Coord { x: self.dimensions.x, y: index } },
            Rect {
                offset: self.offset.add_y(index),
                dimensions: Coord { x: self.dimensions.x, y: self.dimensions.y - index },
            },
        )
    }
}

/// There is a split exactly where the index, counted from either edge, lies
/// strictly between the two edges. In particular there is none at zero, none at
/// or beyond the far edge, none that counts back to the near edge or before it,
/// and none at all on an axis shorter than two.
pub proof fn lemma_split_index_exists(extent: usize, at: isize)
    ensures
        spec_split_index(extent, at) is Some <==> 0 < at < extent || 0 < extent + at < extent,
        spec_split_index(extent, at) matches Some(index) ==> 0 < index < extent,
        at == 0 || at >= extent || extent + at <= 0 ==> spec_split_index(extent, at) is None,
        extent < 2 ==> spec_split_index(extent, at) is None,
{
}

/// No vertical split is taken at zero, nor at or beyond the width: such an
/// index does not meet what `split_verticaly_at` requires, whatever the region.
pub proof fn lemma_vertical_split_refused(r: Rect, x: isize)
    requires
        x == 0 || x >= r.dimensions.x,
    ensures
        spec_split_index(r.dimensions.x, x) is None,
{
}

/// No horizontal split is taken at zero, nor at or beyond the height: such an
/// index does not meet what `split_horizontaly_at` requires, whatever the
/// region.
pub proof fn lemma_horizontal_split_refused(r: Rect, y: isize)
    requires
        y == 0 || y >= r.dimensions.y,
    ensures
        spec_split_index(r.dimensions.y, y) is None,
{
}

/// Neither part of a vertical split is empty, and each is narrower than the
/// whole.
pub proof fn lemma_vertical_split_parts_not_empty(r: Rect, x: isize)
    requires
        spec_split_index(r.dimensions.x, x) is Some,
    ensures
        0 < r.spec_split_verticaly_at(x).0.dimensions.x < r.dimensions.x,
        0 < r.spec_split_verticaly_at(x).1.dimensions.x < r.dimensions.x,
{
}

/// Neither part of a horizontal split is empty, and each is lower than the
/// whole.
pub proof fn lemma_horizontal_split_parts_not_empty(r: Rect, y: isize)
    requires
        spec_split_index(r.dimensions.y, y) is Some,
    ensures
        0 < r.spec_split_horizontaly_at(y).0.dimensions.y < r.dimensions.y,
        0 < r.spec_split_horizontaly_at(y).1.dimensions.y < r.dimensions.y,
{
}

/// The parts of a vertical split lie side by side: the left part keeps the
/// offset and is as wide as the index says, the right part starts where the
/// left one ends,
/// the two widths add up to the width of the whole, and both are as high as the
/// whole. This holds wherever the right part's offset fits in a `usize`.
pub proof fn lemma_vertical_split_partitions(r: Rect, x: isize)
    requires
        spec_split_index(r.dimensions.x, x) is Some,
        r.offset.x + spec_split_index(r.dimensions.x, x).unwrap() <= usize::MAX,
    ensures
        ({
            let index = spec_split_index(r.dimensions.x, x).unwrap();
            let (left, right) = r.spec_split_verticaly_at(x);
            &&& left.offset == r.offset
            &&& left.dimensions.x == index
            &&& right.offset.x == r.offset.x + index
            &&& right.offset.y == r.offset.y
            &&& left.dimensions.x + right.dimensions.x == r.dimensions.x
            &&& left.dimensions.y == r.dimensions.y
            &&& right.dimensions.y == r.dimensions.y
        }),
{
}

/// The parts of a horizontal split lie one above the other: the upper part
/// keeps the offset and is as high as the index says, the lower part starts
/// where the upper one ends, the two heights add up to the height of the whole, and both are as
/// wide as the whole. This holds wherever the lower part's offset fits in a
/// `usize`.
pub proof fn lemma_horizontal_split_partitions(r: Rect, y: isize)
    requires
        spec_split_index(r.dimensions.y, y) is Some,
        r.offset.y + spec_split_index(r.dimensions.y, y).unwrap() <= usize::MAX,
    ensures
        ({
            let index = spec_split_index(r.dimensions.y, y).unwrap();
            let (upper, lower) = r.spec_split_horizontaly_at(y);
            &&& upper.offset == r.offset
            &&& upper.dimensions.y == index
            &&& lower.offset.y == r.offset.y + index
            &&& lower.offset.x == r.offset.x
            &&& upper.dimensions.y + lower.dimensions.y == r.dimensions.y
            &&& upper.dimensions.x == r.dimensions.x
            &&& lower.dimensions.x == r.dimensions.x
        }),
{
}

/// The parts of a vertical split tile the whole: a point lies in the region
/// exactly if it lies in one of the parts, and it never lies in both.
pub proof fn lemma_vertical_split_tiles(r: Rect, x: isize, p: Coord)
    requires
        spec_split_index(r.dimensions.x, x) is Some,
        r.offset.x + spec_split_index(r.dimensions.x, x).unwrap() <= usize::MAX,
    ensures
        ({
            let (left, right) = r.spec_split_verticaly_at(x);
            &&& r.covers(p) <==> left.covers(p) || right.covers(p)
            &&& !(left.covers(p) && right.covers(p))
        }),
{
}

/// The parts of a horizontal split tile the whole: a point lies in the region
/// exactly if it lies in one of the parts, and it never lies in both.
pub proof fn lemma_horizontal_split_tiles(r: Rect, y: isize, p: Coord)
    requires
        spec_split_index(r.dimensions.y, y) is Some,
        r.offset.y + spec_split_index(r.dimensions.y, y).unwrap() <= usize::MAX,
    ensures
        ({
            let (upper, lower) = r.spec_split_horizontaly_at(y);
            &&& r.covers(p) <==> upper.covers(p) || lower.covers(p)
            &&& !(upper.covers(p) && lower.covers(p))
        }),
{
}

/// A negative index counts from the far edge: a vertical split at `back < 0` is
/// the split at the index `index` that lies `-back` columns before the right
/// edge. Where that index is zero there is no split at either.
pub proof fn lemma_vertical_split_from_far_edge(r: Rect, back: isize, index: isize)
    requires
        back < 0 <= index,
        index - back == r.dimensions.x,
    ensures
        spec_split_index(r.dimensions.x, back) == spec_split_index(r.dimensions.x, index),
        index > 0 ==> spec_split_index(r.dimensions.x, back) == Some(index as usize),
        index == 0 ==> spec_split_index(r.dimensions.x, back) is None,
        r.spec_split_verticaly_at(back) == r.spec_split_verticaly_at(index),
{
}

/// A negative index counts from the far edge: a horizontal split at
/// `back < 0` is the split at the index `index` that lies `-back` rows before
/// the lower edge. Where that index is zero there is no split at either.
pub proof fn lemma_horizontal_split_from_far_edge(r: Rect, back: isize, index: isize)
    requires
        back < 0 <= index,
        index - back == r.dimensions.y,
    ensures
        spec_split_index(r.dimensions.y, back) == spec_split_index(r.dimensions.y, index),
        index > 0 ==> spec_split_index(r.dimensions.y, back) == Some(index as usize),
        index == 0 ==> spec_split_index(r.dimensions.y, back) is None,
        r.spec_split_horizontaly_at(back) == r.spec_split_horizontaly_at(index),
{
}

} // verus!
