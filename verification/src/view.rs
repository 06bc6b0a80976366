//! A region of a surface, presented as a surface.

use vstd::prelude::*;
use vstd::view::View as _;
use crate::coord::Coord;
use crate::rect::Rect;
use crate::renderer::{
    handed, lemma_delivered_push, lemma_printed_next, printed, same_surface, Renderer, Request,
};
use crate::style::{ColorMap, Style};

verus! {

impl Rect {
    /// What a view over this region makes of a request: the request as the
    /// surface that holds the region is to see it, or `None` where the view
    /// drops it.
    ///
    /// A cell within the size of the region moves by the offset of the region;
    /// a cell outside it is dropped. A cursor position moves by the offset,
    /// wherever it lies, and hiding the cursor stays what it is.
    pub open spec fn forwarded(self, request: Request) -> Option<Request> {
        match request {
            Request::Put { coord, ch, style } => if coord.spec_is_inside(self) {
                Some(Request::put(coord.plus(self.offset), ch, style))
            } else {
                None
            },
            Request::SetCursor { target: Some(coord) } => Some(
                Request::set_cursor(Some(coord.plus(self.offset))),
            ),
            Request::SetCursor { target: None } => Some(Request::set_cursor(None)),
        }
    }

    /// A view of this region of the surface `r`. The view borrows `r` for as
    /// long as it lives, and what it passes on reaches `r`.
    pub fn to_renderer<'r, R>(self, r: &'r mut R) -> (view: View<'r, R>) where R: Renderer
        ensures
            view.rect() == self,
            *view.backend() == *old(r),
            *final(view.backend()) == *final(r),
    {
        View { rect: self, backend: r }
    }
}

/// A view never reaches outside its region. A cell within the size of the
/// region is passed on, unchanged but for its place, and that place lies in the
/// region as it is placed on the surface that holds it. Any other cell is
/// dropped.
pub proof fn lemma_forwarded_put_lies_in_region(rect: Rect, coord: Coord, ch: char, style: Style)
    ensures
        coord.spec_is_inside(rect) ==> rect.forwarded(Request::put(coord, ch, style)) == Some(
            Request::put(coord.plus(rect.offset), ch, style),
        ) && rect.covers(coord.plus(rect.offset)),
        !coord.spec_is_inside(rect) ==> rect.forwarded(Request::put(coord, ch, style)) is None,
{
}

/// A rectangular view over another renderer, its backend: a surface as large
/// as a region of the backend, with its origin at `(0, 0)`, whose cells are
/// those of that region.
///
/// A view is made by [`Rect::to_renderer`] and in no other way, and neither its
/// region nor its backend changes while it lives. It holds no cells of its own:
/// its record is that of the backend, its colours are those of the backend, and
/// what it delivers for a request is what the backend delivers for the request
/// that the region makes of it.
pub struct View<'r, R> {
    rect: Rect,
    backend: &'r mut R,
}

impl<'r, R> View<'r, R> {
    /// The region of the backend that the view shows.
    pub closed spec fn rect(&self) -> Rect {
        self.rect
    }

    /// The borrow of the surface behind the view: `*view.backend()` is that
    /// surface as it is now.
    pub closed spec fn backend(&self) -> &'r mut R {
        self.backend
    }
}

/// Once a view is no longer used, the surface behind it is what the view last
/// held: nothing changes it after the view's last call. With what
/// `to_renderer` and the view's methods say of the end of the borrow, this
/// gives the state of the surface that was lent to the view.
pub proof fn lemma_view_done<'r, R>(view: View<'r, R>)
    ensures
        has_resolved(view) ==> *view.backend() == *final(view.backend()),
{
}

impl<'r, R> Renderer for View<'r, R> where R: Renderer {
    open spec fn spec_color_map(&self) -> ColorMap {
        (*self.backend()).spec_color_map()
    }

    open spec fn spec_dimensions(&self) -> Coord {
        self.rect().dimensions
    }

    open spec fn requests(&self) -> Seq<Request> {
        (*self.backend()).requests()
    }

    open spec fn delivered(&self, request: Request) -> Seq<Request> {
        match self.rect().forwarded(request) {
            Some(forwarded) => (*self.backend()).delivered(forwarded),
            None => Seq::empty(),
        }
    }

    /// The default colours of the surface behind the view.
    fn color_map(&self) -> (r: &ColorMap) {
        self.backend.color_map()
    }

    /// The size of the region.
    fn dimensions(&self) -> (r: Coord)
        ensures
            r == self.rect().dimensions,
    {
        self.rect.dimensions
    }

    /// Writes the cell at `coord`, counted from the origin of the region. A
    /// cell within the region goes to the backend, moved by the offset of the
    /// region. Any other cell is dropped, and the backend is left as it was.
    fn put(&mut self, coord: Coord, ch: char, style: Style)
        ensures
            final(self).rect() == old(self).rect(),
            *final(final(self).backend()) == *final(old(self).backend()),
            coord.spec_is_inside(old(self).rect()) ==> handed(
                &*old(self).backend(),
                &*final(self).backend(),
                Request::put(coord.plus(old(self).rect().offset), ch, style),
            ),
            !coord.spec_is_inside(old(self).rect()) ==> *final(self).backend() == *old(self).backend(),
    {
        if coord.is_inside(self.rect) {
            self.backend.put(coord + self.rect.offset, ch, style)
        }
    }

    /// Writes `text` along the row of `coord`, counted from the origin of the
    /// region, and stops before the first character that would fall off the
    /// region.
    ///
    /// This is the provided method, written out for the view so that its
    /// contract can add what the trait cannot say: the view is still the same
    /// view of the same surface.
    fn print(&mut self, coord: Coord, text: &str, style: Style)
        ensures
            final(self).rect() == old(self).rect(),
            *final(final(self).backend()) == *final(old(self).backend()),
            same_surface(&*old(self).backend(), &*final(self).backend()),
    {
        let dims = (*self).dimensions();
        let ghost deliver = |r: Request| (*old(self)).delivered(r);
        let ghost wanted = printed(coord, dims, text@, style);
        let ghost done = Seq::<Request>::empty();
        let mut i: usize = 0;
        proof {
            assert(text@.skip(0) == text@);
        }
        for ch in it: text.chars()
            invariant_except_break
                i == it.index(),
                wanted == done + printed(coord.spec_add_x(i), dims, text@.skip(i as int), style),
            invariant
                it.seq() == text@,
                deliver == |r: Request| (*old(self)).delivered(r),
                self.rect() == old(self).rect(),
                *final(self.backend()) == *final(old(self).backend()),
                same_surface(&*old(self).backend(), &*self.backend()),
                (*self).requests() == (*old(self)).requests() + done.flat_map(deliver),
            ensures
                wanted == done,
        {
            let at = coord.add_x(i);
            if !at.is_inside_dimensions(dims) {
                break;
            }
            self.put(at, ch, style);
            proof {
                let request = Request::put(at, ch, style);
                lemma_printed_next(coord, dims, text@, style, i);
                lemma_delivered_push(done, request, deliver);
                done = done.push(request);
            }
            i += 1;
        }
    }

    /// Shows the cursor at `coord`, counted from the origin of the region, or
    /// hides it. A position goes to the backend moved by the offset of the
    /// region, whether or not it lies in the region; `None` goes on as `None`.
    fn set_cursor(&mut self, coord: Option<Coord>)
        ensures
            final(self).rect() == old(self).rect(),
            *final(final(self).backend()) == *final(old(self).backend()),
            coord matches Some(c) ==> handed(
                &*old(self).backend(),
                &*final(self).backend(),
                Request::set_cursor(Some(c.plus(old(self).rect().offset))),
            ),
            coord is None ==> handed(
                &*old(self).backend(),
                &*final(self).backend(),
                Request::set_cursor(None),
            ),
    {
        let target = match coord {
            Some(c) => Some(c + self.rect.offset),
            None => None,
        };
        self.backend.set_cursor(target)
    }
}

} // verus!
