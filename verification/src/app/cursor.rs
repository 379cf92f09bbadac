//! Where a list's cursor is and how far the list is scrolled.
//!
//! Every table and every pane keeps one, so moving a cursor and keeping it on
//! screen is written once.

use vstd::prelude::*;

verus! {

/// The smaller of two numbers.
pub open spec fn least(a: int, b: int) -> int {
    if a <= b {
        a
    } else {
        b
    }
}

/// The larger of two numbers.
pub open spec fn most(a: int, b: int) -> int {
    if a >= b {
        a
    } else {
        b
    }
}

/// `n`, brought up to `low` or down to `high`.
pub open spec fn kept(n: int, low: int, high: int) -> int {
    least(most(n, low), high)
}

/// How much of a list is on screen, and which part.
#[derive(Clone, Copy, Debug, PartialEq, Eq, Structural)]
pub struct ScrollState {
    pub offset: usize,
    pub content: usize,
    pub viewport: usize,
}

impl Default for ScrollState {
    fn default() -> (r: Self)
        ensures
            r == (ScrollState { offset: 0, content: 0, viewport: 0 }),
    {
        ScrollState { offset: 0, content: 0, viewport: 0 }
    }
}

impl ScrollState {
    /// How far the list can be scrolled: to its last screenful.
    pub open spec fn furthest(self) -> int {
        most(self.content - self.viewport, 0)
    }

    /// The same list scrolled to `offset`, or to its last screenful where
    /// that is nearer.
    pub open spec fn scrolled_to(self, offset: int) -> Self {
        ScrollState { offset: kept(offset, 0, self.furthest()) as usize, ..self }
    }

    /// The list measured again.
    pub open spec fn measured(self, viewport: usize, content: usize) -> Self {
        (ScrollState { offset: self.offset, content, viewport }).scrolled_to(self.offset as int)
    }

    /// Whether row `index` is on screen. A screen with no height counts as
    /// one row.
    pub open spec fn shows(self, index: int) -> bool {
        self.offset <= index < self.offset + most(self.viewport as int, 1)
    }

    /// The same list scrolled the least that puts row `index` on screen.
    pub open spec fn showing(self, index: usize) -> Self {
        let height = most(self.viewport as int, 1);
        let offset = if index < self.offset {
            index as int
        } else if index >= least(self.offset + height, usize::MAX as int) {
            most(least(index + 1, usize::MAX as int) - height, 0)
        } else {
            self.offset as int
        };
        ScrollState { offset: offset as usize, ..self }
    }

    /// The rows a page moves: one screenful less a row of overlap.
    pub open spec fn step(self) -> int {
        most(self.viewport - 1, 1)
    }

    #[must_use]
    pub fn max_offset(self) -> (r: usize)
        ensures
            r == self.furthest(),
    {
        self.content.saturating_sub(self.viewport)
    }

    /// Records the rendered geometry and re-clamps the offset to the new
    /// maximum.
    pub fn set_viewport(&mut self, viewport: usize, content: usize)
        ensures
            *final(self) == old(self).measured(viewport, content),
    {
        self.viewport = viewport;
        self.content = content;
        self.clamp();
    }

    pub fn scroll_to(&mut self, offset: usize)
        ensures
            *final(self) == old(self).scrolled_to(offset as int),
    {
        self.offset = offset;
        self.clamp();
    }

    /// Scrolls by `delta` rows, clamped to the content, and reports whether
    /// the offset moved.
    pub fn scroll_by(&mut self, delta: i32) -> (moved: bool)
        ensures
            *final(self) == old(self).scrolled_to(old(self).offset + delta),
            moved == (final(self).offset != old(self).offset),
    {
        let before: usize = self.offset;
        self.offset = shifted(self.offset, delta as isize);
        self.clamp();
        self.offset != before
    }

    /// Scrolls the smallest amount that brings `index` inside the viewport.
    pub fn ensure_visible(&mut self, index: usize)
        ensures
            *final(self) == old(self).showing(index),
    {
        let viewport: usize = if self.viewport == 0 {
            1
        } else {
            self.viewport
        };
        if index < self.offset {
            self.offset = index;
        } else if index >= self.offset.saturating_add(viewport) {
            self.offset = index.saturating_add(1).saturating_sub(viewport);
        }
    }

    /// One screenful less a row of overlap, as `PageUp` and `PageDown` move.
    #[must_use]
    pub fn page_step(self) -> (r: usize)
        ensures
            r == self.step(),
    {
        let step: usize = self.viewport.saturating_sub(1);
        if step == 0 {
            1
        } else {
            step
        }
    }

    /// A page as a number of rows to scroll by. A page too long to be one
    /// counts as a single row.
    pub open spec fn page_rows(self) -> int {
        if self.step() <= i32::MAX {
            self.step()
        } else {
            1
        }
    }

    #[must_use]
    pub fn page_delta(self) -> (r: i32)
        ensures
            r == self.page_rows(),
    {
        let step: usize = self.page_step();
        if step <= 0x7fff_ffff {
            step as i32
        } else {
            1
        }
    }

    fn clamp(&mut self)
        ensures
            *final(self) == old(self).scrolled_to(old(self).offset as int),
    {
        let maximum: usize = self.max_offset();
        if self.offset > maximum {
            self.offset = maximum;
        }
    }
}

/// `n` moved by `delta`, stopping at zero and at the largest number.
pub fn shifted(n: usize, delta: isize) -> (r: usize)
    ensures
        r == kept(n + delta, 0, usize::MAX as int),
{
    if delta < 0 {
        let less: usize = (-(delta + 1)) as usize;
        n.saturating_sub(less).saturating_sub(1)
    } else {
        n.saturating_add(delta as usize)
    }
}

/// Once a row has been scrolled into view it is on screen.
pub proof fn law_a_row_scrolled_to_is_on_screen(scroll: ScrollState, index: usize)
    requires
        index < usize::MAX,
    ensures
        scroll.showing(index).shows(index as int),
{
}

/// Scrolling a row that is already on screen into view moves nothing.
pub proof fn law_a_row_on_screen_stays_put(scroll: ScrollState, index: usize)
    requires
        scroll.shows(index as int),
        index < usize::MAX,
    ensures
        scroll.showing(index) == scroll,
{
}

/// However a list is scrolled or measured, it never shows past its last
/// screenful.
pub proof fn law_a_list_stops_at_its_last_screenful(
    scroll: ScrollState,
    offset: int,
    viewport: usize,
    content: usize,
)
    ensures
        scroll.scrolled_to(offset).offset <= scroll.scrolled_to(offset).furthest(),
        scroll.measured(viewport, content).offset <= scroll.measured(viewport, content).furthest(),
{
}

#[derive(Clone, Copy, Debug, PartialEq, Eq, Structural)]
pub struct ListCursor {
    /// Which row the cursor is on, counted over whatever the list is showing
    /// now — a filtered table counts the rows its query left.
    pub index: usize,
    pub scroll: ScrollState,
}

impl Default for ListCursor {
    fn default() -> (r: Self)
        ensures
            r == ListCursor::at_rest(),
    {
        ListCursor { index: 0, scroll: ScrollState { offset: 0, content: 0, viewport: 0 } }
    }
}

impl ListCursor {
    /// A cursor on the first row of a list that has not been drawn yet.
    pub open spec fn at_rest() -> Self {
        ListCursor { index: 0, scroll: ScrollState { offset: 0, content: 0, viewport: 0 } }
    }

    /// The cursor on row `index`, scrolled into view.
    pub open spec fn focused(self, index: usize) -> Self {
        ListCursor { index, scroll: self.scroll.showing(index) }
    }

    /// The cursor at the top.
    pub open spec fn topped(self) -> Self {
        ListCursor { index: 0, scroll: self.scroll.scrolled_to(0) }
    }

    /// The cursor moved by `delta` rows, stopping at either end of `count`
    /// rows.
    pub open spec fn moved(self, delta: int, count: usize) -> Self {
        if count == 0 {
            self.topped()
        } else {
            self.focused(kept(self.index + delta, 0, count - 1) as usize)
        }
    }

    /// The cursor kept on a list of `count` rows.
    pub open spec fn clamped(self, count: usize) -> Self {
        if count == 0 {
            self.topped()
        } else if self.index > count - 1 {
            self.focused((count - 1) as usize)
        } else {
            self
        }
    }

    /// The cursor after the wheel has moved the viewport by `delta` rows: on
    /// the row it was on, or on the nearest that is on screen.
    pub open spec fn wheeled(self, delta: int, count: usize) -> Self {
        let measured = self.scroll.measured(self.scroll.viewport, count);
        let scroll = measured.scrolled_to(measured.offset + delta);
        let last = least(
            scroll.offset + most(scroll.viewport - 1, 0),
            most(count - 1, 0),
        );
        let first = least(scroll.offset as int, last);
        ListCursor { index: kept(self.index as int, first, last) as usize, scroll }
    }

    /// Puts the cursor on one row and scrolls it into view.
    pub fn focus(&mut self, index: usize)
        ensures
            *final(self) == old(self).focused(index),
    {
        self.index = index;
        self.scroll.ensure_visible(index);
    }

    /// Moves the cursor by `delta` rows, stopping at either end of a list of
    /// `count` rows. An empty list puts it back at the top.
    pub fn move_by(&mut self, delta: isize, count: usize)
        ensures
            *final(self) == old(self).moved(delta as int, count),
    {
        if count == 0 {
            self.index = 0;
            self.scroll.scroll_to(0);
            return;
        }
        let index: usize = shifted(self.index, delta);
        self.focus(
            if index > count - 1 {
                count - 1
            } else {
                index
            },
        );
    }

    /// The same, a screenful at a time.
    pub fn page(&mut self, direction: isize, count: usize)
        ensures
            *final(self) == old(self).moved(direction * old(self).scroll.step(), count),
    {
        if count == 0 {
            self.reset();
            return;
        }
        let step: usize = self.scroll.page_step();
        let times: usize = if direction < 0 {
            (-(direction + 1)) as usize + 1
        } else {
            direction as usize
        };
        let far: usize = match times.checked_mul(step) {
            Some(far) => far,
            None => usize::MAX,
        };
        let index: usize = if direction < 0 {
            self.index.saturating_sub(far)
        } else {
            self.index.saturating_add(far)
        };
        proof {
            if direction < 0 {
                assert(direction * step == -(times * step)) by (nonlinear_arith)
                    requires
                        direction == -times,
                ;
            }
        }
        self.focus(
            if index > count - 1 {
                count - 1
            } else {
                index
            },
        );
    }

    /// Back to the first row, as reopening a list does.
    pub fn reset(&mut self)
        ensures
            *final(self) == old(self).topped(),
    {
        self.index = 0;
        self.scroll.scroll_to(0);
    }

    /// The wheel over a list of `count` rows: the viewport moves and the
    /// cursor follows it rather than being left behind, so what a key acts
    /// on is always something on screen. Says whether the cursor moved.
    pub fn wheel(&mut self, delta: i32, count: usize) -> (moved: bool)
        ensures
            *final(self) == old(self).wheeled(delta as int, count),
            moved == (final(self).index != old(self).index),
    {
        let before: usize = self.index;
        // The scroll state is from the last draw, which a refresh may have
        // shortened the list under since; measured again here so the window
        // below cannot come out inside out.
        self.scroll.set_viewport(self.scroll.viewport, count);
        self.scroll.scroll_by(delta);
        let end: usize = self.scroll.offset + self.scroll.viewport.saturating_sub(1);
        let bottom: usize = count.saturating_sub(1);
        let last: usize = if end < bottom {
            end
        } else {
            bottom
        };
        let first: usize = if self.scroll.offset < last {
            self.scroll.offset
        } else {
            last
        };
        if self.index < first {
            self.index = first;
        } else if self.index > last {
            self.index = last;
        }
        self.index != before
    }

    /// Re-clamps the cursor after the list under it has changed length.
    pub fn clamp(&mut self, count: usize)
        ensures
            *final(self) == old(self).clamped(count),
    {
        if count == 0 {
            self.reset();
        } else if self.index > count - 1 {
            self.focus(count - 1);
        }
    }
}

/// Whatever is done to a cursor over a list that is not empty, it ends on a
/// row of the list; over an empty list it ends at the top.
pub proof fn law_a_cursor_stays_on_the_list(cursor: ListCursor, delta: int, count: usize)
    ensures
        count > 0 ==> cursor.moved(delta, count).index < count,
        count > 0 ==> cursor.clamped(count).index < count,
        count > 0 ==> cursor.wheeled(delta, count).index < count,
        count == 0 ==> cursor.moved(delta, count).index == 0,
        count == 0 ==> cursor.clamped(count).index == 0,
        count == 0 ==> cursor.wheeled(delta, count).index == 0,
{
}

/// After the wheel over a list that has been drawn, the cursor is on a row
/// that is on screen.
pub proof fn law_the_wheel_keeps_the_cursor_on_screen(cursor: ListCursor, delta: int, count: usize)
    requires
        count > 0,
        cursor.scroll.viewport > 0,
    ensures
        cursor.wheeled(delta, count).scroll.shows(cursor.wheeled(delta, count).index as int),
{
}

/// A cursor that has been moved is on screen.
pub proof fn law_a_moved_cursor_is_on_screen(cursor: ListCursor, delta: int, count: usize)
    requires
        count > 0,
    ensures
        cursor.moved(delta, count).scroll.shows(cursor.moved(delta, count).index as int),
{
}

/// A cursor already on the list is left alone when the list changes length
/// around it.
pub proof fn law_a_cursor_on_the_list_is_left_alone(cursor: ListCursor, count: usize)
    requires
        cursor.index < count,
    ensures
        cursor.clamped(count) == cursor,
{
}

} // verus!
