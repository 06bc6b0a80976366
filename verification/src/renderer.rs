//! What a surface offers, and what is known of it.

use vstd::prelude::*;
use crate::coord::Coord;
use crate::rect::Rect;
use crate::style::{ColorMap, Style};

verus! {

/// One request made of a surface.
#[derive(Copy, Clone, Debug)]
pub enum Request {
    /// Write `ch` in `style` to the cell at `coord`.
    Put { coord: Coord, ch: char, style: Style },
    /// Show the cursor at `target`, or hide it where `target` is `None`.
    SetCursor { target: Option<Coord> },
}

impl Request {
    /// The request to write `ch` in `style` to the cell at `coord`.
    pub open spec fn put(coord: Coord, ch: char, style: Style) -> Request {
        Request::Put { coord, ch, style }
    }

    /// The request to show the cursor at `target`, or to hide it.
    pub open spec fn set_cursor(target: Option<Coord>) -> Request {
        Request::SetCursor { target }
    }
}

/// The requests that printing `text` from `coord` makes on a surface of size
/// `dimensions`: one cell for each character, in `style`, each one column to
/// the right of the one before, up to the first character whose cell is off the
/// surface. That character and all after it are left out.
pub open spec fn printed(coord: Coord, dimensions: Coord, text: Seq<char>, style: Style) -> Seq<
    Request,
>
    decreases text.len(),
{
    if text.len() == 0 || !coord.spec_is_inside_dimensions(dimensions) {
        Seq::empty()
    } else {
        seq![Request::put(coord, text.first(), style)] + printed(
            coord.spec_add_x(1),
            dimensions,
            text.drop_first(),
            style,
        )
    }
}

/// How many characters of a text of `len` characters, printed from `coord`,
/// land on a surface of size `dimensions`: as many as there are columns from
/// `coord` to the right edge, and none where `coord` itself is off the surface.
pub open spec fn printed_len(coord: Coord, dimensions: Coord, len: nat) -> nat {
    if !coord.spec_is_inside_dimensions(dimensions) {
        0
    } else if len <= dimensions.x - coord.x {
        len
    } else {
        (dimensions.x - coord.x) as nat
    }
}

/// Printing writes the longest start of the text that fits between `coord` and
/// the right edge of the surface, character `i` to the cell `i` columns to the
/// right of `coord`, and nothing else.
pub proof fn lemma_printed_cells(coord: Coord, dimensions: Coord, text: Seq<char>, style: Style)
    ensures
        printed(coord, dimensions, text, style).len() == printed_len(
            coord,
            dimensions,
            text.len(),
        ),
        forall|i: int|
            0 <= i < printed_len(coord, dimensions, text.len()) ==> #[trigger] printed(
                coord,
                dimensions,
                text,
                style,
            )[i] == Request::put(Coord { x: (coord.x + i) as usize, y: coord.y }, text[i], style),
    decreases text.len(),
{
    if text.len() != 0 && coord.spec_is_inside_dimensions(dimensions) {
        let tail = printed(coord.spec_add_x(1), dimensions, text.drop_first(), style);
        lemma_printed_cells(coord.spec_add_x(1), dimensions, text.drop_first(), style);
        assert forall|i: int| 0 <= i < printed_len(coord, dimensions, text.len()) implies (
        #[trigger] printed(coord, dimensions, text, style)[i]) == Request::put(
            Coord { x: (coord.x + i) as usize, y: coord.y },
            text[i],
            style,
        ) by {
            if i > 0 {
                assert(printed(coord, dimensions, text, style)[i] == tail[i - 1]);
                assert(text.drop_first()[i - 1] == text[i]);
            }
        }
    }
}

/// Where character `i` of a text still lands, what is to print from that
/// character on is its cell and then what is to print from the next one on.
pub proof fn lemma_printed_next(
    coord: Coord,
    dimensions: Coord,
    text: Seq<char>,
    style: Style,
    i: usize,
)
    requires
        i < text.len(),
        coord.spec_add_x(i).spec_is_inside_dimensions(dimensions),
    ensures
        printed(coord.spec_add_x(i), dimensions, text.skip(i as int), style) == seq![
            Request::put(coord.spec_add_x(i), text[i as int], style),
        ] + printed(coord.spec_add_x((i + 1) as usize), dimensions, text.skip(i + 1), style),
{
    let rest = text.skip(i as int);
    assert(rest.first() == text[i as int]);
    assert(rest.drop_first() == text.skip(i + 1));
    assert(coord.spec_add_x(i).spec_add_x(1) == coord.spec_add_x((i + 1) as usize));
}

/// One more request adds what is delivered for it to what was delivered for
/// those before it.
pub proof fn lemma_delivered_push(
    done: Seq<Request>,
    request: Request,
    deliver: spec_fn(Request) -> Seq<Request>,
)
    ensures
        done.push(request).flat_map(deliver) == done.flat_map(deliver) + deliver(request),
{
    done.lemma_push_map_commute(deliver, request);
    done.map_values(deliver).lemma_flatten_push(deliver(request));
}

/// A surface of styled character cells, or a window onto one.
///
/// Besides its size and default colours, a renderer has a record and a rule of
/// delivery. `requests` is the record of the surface under the renderer: every
/// request that has reached that surface, oldest first. `delivered` is what a
/// request handed to this renderer adds to that record. A surface that records
/// what it is asked delivers each request as it is. A window onto a surface
/// delivers what the surface makes of the request as the window passes it on,
/// or nothing. A renderer that defines neither keeps no record.
///
/// `put`, `print` and `set_cursor` leave size, colours and rule of delivery as
/// they are. Whether a surface draws a cell that lies off it, or ignores it, is
/// for the surface to say: nothing here clips but a [`crate::view::View`].
pub trait Renderer {
    /// The surface's default colours, as `color_map` returns them. An
    /// implementer gives its own; the body here stands for none in particular.
    open spec fn spec_color_map(&self) -> ColorMap {
        arbitrary()
    }

    /// The surface's width and height, as `dimensions` returns them. An
    /// implementer gives its own; the body here stands for none in particular.
    open spec fn spec_dimensions(&self) -> Coord {
        arbitrary()
    }

    /// Every request that has reached the surface under this renderer, oldest
    /// first. A renderer that keeps no record leaves this empty.
    open spec fn requests(&self) -> Seq<Request> {
        Seq::empty()
    }

    /// What `request`, handed to this renderer, adds to the record. A renderer
    /// that keeps no record leaves this empty.
    open spec fn delivered(&self, request: Request) -> Seq<Request> {
        Seq::empty()
    }

    /// The surface's default colours.
    fn color_map(&self) -> (r: &ColorMap)
        ensures
            *r == self.spec_color_map(),
    ;

    /// The surface's width and height.
    fn dimensions(&self) -> (r: Coord)
        ensures
            r == self.spec_dimensions(),
    ;

    /// The whole surface as a region of itself: it starts at `(0, 0)`.
    fn dimensions_rect(&self) -> (r: Rect)
        ensures
            r == (Rect { offset: Coord { x: 0, y: 0 }, dimensions: self.spec_dimensions() }),
    {
        Rect { offset: Coord { x: 0, y: 0 }, dimensions: self.dimensions() }
    }

    /// Writes `ch` in `style` to the cell at `coord`.
    fn put(&mut self, coord: Coord, ch: char, style: Style)
        ensures
            (*final(self)).spec_dimensions() == (*old(self)).spec_dimensions(),
            (*final(self)).spec_color_map() == (*old(self)).spec_color_map(),
            forall|r: Request| #[trigger] (*final(self)).delivered(r) == (*old(self)).delivered(r),
            (*final(self)).requests() == (*old(self)).requests() + (*old(self)).delivered(
                Request::put(coord, ch, style),
            ),
    ;

    /// Writes `text` along the row of `coord`, one cell for each character,
    /// and stops before the first character that would fall off the surface.
    /// Nothing wraps to the next row.
    fn print(&mut self, coord: Coord, text: &str, style: Style)
        ensures
            (*final(self)).spec_dimensions() == (*old(self)).spec_dimensions(),
            (*final(self)).spec_color_map() == (*old(self)).spec_color_map(),
            forall|r: Request| #[trigger] (*final(self)).delivered(r) == (*old(self)).delivered(r),
            (*final(self)).requests() == (*old(self)).requests() + printed(
                coord,
                (*old(self)).spec_dimensions(),
                text@,
                style,
            ).flat_map(|r: Request| (*old(self)).delivered(r)),
    {
        let dims = (*self).dimensions();
        let ghost deliver = |r: Request| (*old(self)).delivered(r);
        let ghost wanted = printed(coord, dims, text@, style);
        let ghost done = Seq::<Request>::empty();
        let mut i: usize = 0;
        proof {
            assert(text@.skip(0) == text@);
        }
        for ch in it: text.chars()
            invariant_except_break
                i == it.index(),
                wanted == done + printed(coord.spec_add_x(i), dims, text@.skip(i as int), style),
            invariant
                it.seq() == text@,
                deliver == |r: Request| (*old(self)).delivered(r),
                (*self).spec_dimensions() == (*old(self)).spec_dimensions(),
                (*self).spec_color_map() == (*old(self)).spec_color_map(),
                forall|r: Request| #[trigger] (*self).delivered(r) == (*old(self)).delivered(r),
                (*self).requests() == (*old(self)).requests() + done.flat_map(deliver),
            ensures
                wanted == done,
        {
            let at = coord.add_x(i);
            if !at.is_inside_dimensions(dims) {
                break;
            }
            self.put(at, ch, style);
            proof {
                let request = Request::put(at, ch, style);
                lemma_printed_next(coord, dims, text@, style, i);
                lemma_delivered_push(done, request, deliver);
                done = done.push(request);
            }
            i += 1;
        }
    }

    /// Shows the cursor at `coord`, or hides it where `coord` is `None`.
    fn set_cursor(&mut self, coord: Option<Coord>)
        ensures
            (*final(self)).spec_dimensions() == (*old(self)).spec_dimensions(),
            (*final(self)).spec_color_map() == (*old(self)).spec_color_map(),
            forall|r: Request| #[trigger] (*final(self)).delivered(r) == (*old(self)).delivered(r),
            (*final(self)).requests() == (*old(self)).requests() + (*old(self)).delivered(
                Request::set_cursor(coord),
            ),
    ;
}

/// Whether `after` is the renderer `before` with all but its record as it was:
/// the same size, the same colours, the same rule of delivery.
pub open spec fn same_surface<R: Renderer + ?Sized>(before: &R, after: &R) -> bool {
    &&& after.spec_dimensions() == before.spec_dimensions()
    &&& after.spec_color_map() == before.spec_color_map()
    &&& forall|r: Request| #[trigger] after.delivered(r) == before.delivered(r)
}

/// Whether `after` is the renderer `before` once `request` has been handed to
/// it: the record has grown by what `before` delivers for `request`, and all
/// else is as it was.
pub open spec fn handed<R: Renderer + ?Sized>(before: &R, after: &R, request: Request) -> bool {
    &&& same_surface(before, after)
    &&& after.requests() == before.requests() + before.delivered(request)
}

/// A borrowed renderer is a renderer: it is the renderer behind the borrow in
/// size, colours, record and delivery, and every request goes on to that one
/// unchanged. After each call the borrow still ends in the same renderer.
impl<T> Renderer for &mut T where T: Renderer + ?Sized {
    open spec fn spec_color_map(&self) -> ColorMap {
        (**self).spec_color_map()
    }

    open spec fn spec_dimensions(&self) -> Coord {
        (**self).spec_dimensions()
    }

    open spec fn requests(&self) -> Seq<Request> {
        (**self).requests()
    }

    open spec fn delivered(&self, request: Request) -> Seq<Request> {
        (**self).delivered(request)
    }

    fn color_map(&self) -> (r: &ColorMap) {
        (**self).color_map()
    }

    fn dimensions(&self) -> (r: Coord) {
        (**self).dimensions()
    }

    /// Hands `coord`, `ch` and `style` to the renderer behind the borrow.
    fn put(&mut self, coord: Coord, ch: char, style: Style)
        ensures
            &*final(*final(self)) == &*final(*old(self)),
            handed(&**old(self), &**final(self), Request::put(coord, ch, style)),
    {
        (**self).put(coord, ch, style)
    }

    /// Prints on the renderer behind the borrow, cell by cell.
    ///
    /// This is the provided method, written out for the borrow so that its
    /// contract can add what the trait cannot say: the borrow still ends in
    /// the same renderer.
    fn print(&mut self, coord: Coord, text: &str, style: Style)
        ensures
            &*final(*final(self)) == &*final(*old(self)),
    {
        let dims = (*self).dimensions();
        let ghost deliver = |r: Request| (*old(self)).delivered(r);
        let ghost wanted = printed(coord, dims, text@, style);
        let ghost done = Seq::<Request>::empty();
        let mut i: usize = 0;
        proof {
            assert(text@.skip(0) == text@);
        }
        for ch in it: text.chars()
            invariant_except_break
                i == it.index(),
                wanted == done + printed(coord.spec_add_x(i), dims, text@.skip(i as int), style),
            invariant
                it.seq() == text@,
                deliver == |r: Request| (*old(self)).delivered(r),
                &*final(*self) == &*final(*old(self)),
                same_surface(&**old(self), &**self),
                (**self).requests() == (**old(self)).requests() + done.flat_map(deliver),
            ensures
                wanted == done,
        {
            let at = coord.add_x(i);
            if !at.is_inside_dimensions(dims) {
                break;
            }
            self.put(at, ch, style);
            proof {
                let request = Request::put(at, ch, style);
                lemma_printed_next(coord, dims, text@, style, i);
                lemma_delivered_push(done, request, deliver);
                done = done.push(request);
            }
            i += 1;
        }
    }

    /// Hands `coord` to the renderer behind the borrow.
    fn set_cursor(&mut self, coord: Option<Coord>)
        ensures
            &*final(*final(self)) == &*final(*old(self)),
            handed(&**old(self), &**final(self), Request::set_cursor(coord)),
    {
        (**self).set_cursor(coord)
    }
}

} // verus!
