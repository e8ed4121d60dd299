use vstd::prelude::*;

verus! {

/// A list of items seen through a window of `viewport_height` rows that
/// starts at `scroll_offset`.
pub struct VirtualScroll<T> {
    items: Vec<T>,
    scroll_offset: usize,
    viewport_height: usize,
}

/// The largest offset at which a viewport of `height` rows still shows the
/// last item: `len - height`, or 0 when everything fits.
pub open spec fn max_offset(len: int, height: int) -> int {
    if len > height { len - height } else { 0 }
}

/// `value` clamped to `[0, hi]`.
pub open spec fn clamp_to(value: int, hi: int) -> int {
    if value < 0 { 0 } else if value > hi { hi } else { value }
}

impl<T> VirtualScroll<T> {
    /// The offset never passes the point where the last item sits at the
    /// bottom of the window.
    #[verifier::type_invariant]
    spec fn offset_in_range(&self) -> bool {
        self.scroll_offset <= max_offset(self.items@.len() as int, self.viewport_height as int)
    }

    pub closed spec fn spec_items(&self) -> Seq<T> {
        self.items@
    }

    pub closed spec fn spec_offset(&self) -> int {
        self.scroll_offset as int
    }

    pub closed spec fn spec_viewport(&self) -> int {
        self.viewport_height as int
    }

    pub fn new(items: Vec<T>) -> (r: Self)
        ensures
            r.spec_items() == items@,
            r.spec_offset() == 0,
            r.spec_viewport() == 0,
    {
        VirtualScroll { items, scroll_offset: 0, viewport_height: 0 }
    }

    pub fn with_items(self, items: Vec<T>) -> (r: Self)
        ensures
            r.spec_items() == items@,
            r.spec_offset() == 0,
            r.spec_viewport() == self.spec_viewport(),
    {
        VirtualScroll { items, scroll_offset: 0, viewport_height: self.viewport_height }
    }

    pub fn items(&self) -> (r: &[T])
        ensures
            r@ == self.spec_items(),
    {
        self.items.as_slice()
    }

    pub fn scroll_offset(&self) -> (r: usize)
        ensures
            r == self.spec_offset(),
    {
        self.scroll_offset
    }

    pub fn set_scroll_offset(&mut self, offset: usize)
        ensures
            final(self).spec_items() == old(self).spec_items(),
            final(self).spec_viewport() == old(self).spec_viewport(),
            final(self).spec_offset() == clamp_to(
                offset as int,
                max_offset(old(self).spec_items().len() as int, old(self).spec_viewport()),
            ),
    {
        let max = self.items.len().saturating_sub(self.viewport_height);
        self.scroll_offset = if offset < max { offset } else { max };
    }

    /// Moves the window by `delta` rows, never before the first item nor past
    /// the point where the last item is at the bottom.
    pub fn scroll_by(&mut self, delta: i64)
        ensures
            final(self).spec_items() == old(self).spec_items(),
            final(self).spec_viewport() == old(self).spec_viewport(),
            final(self).spec_offset() == clamp_to(
                old(self).spec_offset() + delta,
                max_offset(old(self).spec_items().len() as int, old(self).spec_viewport()),
            ),
    {
        let max = self.items.len().saturating_sub(self.viewport_height);
        let cur = self.scroll_offset;
        if delta < 0 {
            let back: u64 = if delta == i64::MIN { 0x8000_0000_0000_0000u64 } else { (-delta) as u64 };
            if (cur as u64) <= back {
                self.scroll_offset = 0;
            } else {
                let moved = cur - (back as usize);
                self.scroll_offset = if moved < max { moved } else { max };
            }
        } else {
            let fwd = delta as u64;
            if (max as u64) <= fwd || cur >= max - (fwd as usize) {
                self.scroll_offset = max;
            } else {
                self.scroll_offset = cur + fwd as usize;
            }
        }
    }

    pub fn scroll_to_top(&mut self)
        ensures
            final(self).spec_items() == old(self).spec_items(),
            final(self).spec_viewport() == old(self).spec_viewport(),
            final(self).spec_offset() == 0,
    {
        self.scroll_offset = 0;
    }

    pub fn scroll_to_bottom(&mut self)
        ensures
            final(self).spec_items() == old(self).spec_items(),
            final(self).spec_viewport() == old(self).spec_viewport(),
            final(self).spec_offset() == max_offset(
                old(self).spec_items().len() as int,
                old(self).spec_viewport(),
            ),
    {
        self.scroll_offset = self.items.len().saturating_sub(self.viewport_height);
    }

    pub fn total_items(&self) -> (r: usize)
        ensures
            r == self.spec_items().len(),
    {
        self.items.len()
    }

    /// The half-open range of item indices in the window.
    pub fn visible_range(&self) -> (r: (usize, usize))
        ensures
            r.0 == self.spec_offset(),
            r.0 <= r.1 <= self.spec_items().len(),
            r.1 - r.0 <= self.spec_viewport(),
            r.1 == if self.spec_offset() + self.spec_viewport() < self.spec_items().len() {
                self.spec_offset() + self.spec_viewport()
            } else {
                self.spec_items().len() as int
            },
    {
        proof { use_type_invariant(self); }
        let start = self.scroll_offset;
        let len = self.items.len();
        let end = if self.viewport_height < len - start {
            start + self.viewport_height
        } else {
            len
        };
        (start, end)
    }

    /// The items in the window; empty when the offset lies past the end.
    pub fn visible_items(&self) -> (r: &[T])
        ensures
            r@ == self.spec_items().subrange(
                self.spec_offset(),
                if self.spec_offset() + self.spec_viewport() < self.spec_items().len() {
                    self.spec_offset() + self.spec_viewport()
                } else {
                    self.spec_items().len() as int
                },
            ),
    {
        proof { use_type_invariant(self); }
        let (start, end) = self.visible_range();
        &self.items.as_slice()[start..end]
    }

    pub fn set_viewport_height(&mut self, height: usize)
        ensures
            final(self).spec_items() == old(self).spec_items(),
            final(self).spec_viewport() == height,
            final(self).spec_offset() == if old(self).spec_offset() > max_offset(
                old(self).spec_items().len() as int,
                height as int,
            ) {
                max_offset(old(self).spec_items().len() as int, height as int)
            } else {
                old(self).spec_offset()
            },
    {
        proof { use_type_invariant(&*self); }
        let max = self.items.len().saturating_sub(height);
        if self.scroll_offset > max {
            self.scroll_offset = max;
        }
        self.viewport_height = height;
    }
}

} // verus!
