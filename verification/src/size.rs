//! The per-page size tracker: a running maximum per axis, initialized to
//! the configured minimum canvas size, consulted once after rendering to
//! size the page.

use vstd::prelude::*;
use crate::fixed::OBS_LIMIT;
use crate::config::RenderConfig;
use crate::geom::{max2, seq_max};

verus! {

/// Running per-page maximum extents, one value per axis.
pub struct SizeWatcher {
    pub size_x: i128,
    pub size_y: i128,
}

impl SizeWatcher {
    /// Both tracked maxima stay non-negative (they start at configured
    /// minima) and within the bound every emitted coordinate respects.
    pub open spec fn wf(self) -> bool {
        &&& 0 <= self.size_x <= OBS_LIMIT
        &&& 0 <= self.size_y <= OBS_LIMIT
    }

    /// A fresh tracker, starting from the configured minimum page size.
    pub fn new(c: &RenderConfig) -> (w: SizeWatcher)
        requires
            c.wf(),
        ensures
            w.size_x == c.min_page_width,
            w.size_y == c.min_page_height,
            w.wf(),
    {
        SizeWatcher { size_x: c.min_page_width as i128, size_y: c.min_page_height as i128 }
    }

    /// Observes one x value: raises the tracked maximum if the value
    /// exceeds it, and always hands the value back unchanged, so the call
    /// composes transparently inside coordinate formatting. The tracked
    /// maximum never decreases.
    pub fn check_x(&mut self, x: i128) -> (r: i128)
        requires
            old(self).wf(),
            -OBS_LIMIT <= x <= OBS_LIMIT,
        ensures
            r == x,
            final(self).size_x == max2(old(self).size_x as int, x as int),
            final(self).size_x == seq_max(seq![x as int], old(self).size_x as int),
            final(self).size_x >= old(self).size_x,
            final(self).size_y == old(self).size_y,
            final(self).wf(),
    {
        if x > self.size_x {
            self.size_x = x;
        }
        proof {
            let s = seq![x as int];
            let m = max2(old(self).size_x as int, s[0]);
            assert(s.drop_first() =~= Seq::<int>::empty());
            assert(seq_max(Seq::<int>::empty(), m) == m);
            assert(seq_max(s, old(self).size_x as int) == m);
        }
        x
    }

    /// Observes one y value; the y-axis twin of `check_x`.
    pub fn check_y(&mut self, y: i128) -> (r: i128)
        requires
            old(self).wf(),
            -OBS_LIMIT <= y <= OBS_LIMIT,
        ensures
            r == y,
            final(self).size_y == max2(old(self).size_y as int, y as int),
            final(self).size_y == seq_max(seq![y as int], old(self).size_y as int),
            final(self).size_y >= old(self).size_y,
            final(self).size_x == old(self).size_x,
            final(self).wf(),
    {
        if y > self.size_y {
            self.size_y = y;
        }
        proof {
            let s = seq![y as int];
            let m = max2(old(self).size_y as int, s[0]);
            assert(s.drop_first() =~= Seq::<int>::empty());
            assert(seq_max(Seq::<int>::empty(), m) == m);
            assert(seq_max(s, old(self).size_y as int) == m);
        }
        y
    }
}

} // verus!
