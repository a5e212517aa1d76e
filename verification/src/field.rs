use vstd::prelude::*;
use crate::COORD_MAX;
use crate::config::Config;

verus! {

/// The long-lived state of the texture: the tunables, the current surface
/// dimensions and the reactive anchor. Dimensions in milli-pixels; the
/// anchor follows the pointer and defaults to the surface center.
#[derive(Clone, Copy, PartialEq, Eq, Structural, Debug)]
pub struct Field {
    pub config: Config,
    pub width: i64,
    pub height: i64,
    pub anchor_x: i64,
    pub anchor_y: i64,
}

impl Field {
    /// The state every method keeps: valid tunables and bounded geometry.
    pub open spec fn wf(self) -> bool {
        &&& self.config.wf()
        &&& 0 <= self.width <= COORD_MAX
        &&& 0 <= self.height <= COORD_MAX
        &&& -COORD_MAX <= self.anchor_x <= COORD_MAX
        &&& -COORD_MAX <= self.anchor_y <= COORD_MAX
    }

    /// A field over a fresh surface, with the anchor at the surface center.
    pub fn new(config: Config, width: i64, height: i64) -> (f: Field)
        requires
            config.wf(),
            0 <= width <= COORD_MAX,
            0 <= height <= COORD_MAX,
        ensures
            f.wf(),
            f.config == config,
            f.width == width,
            f.height == height,
            f.anchor_x == (width as int) / 2,
            f.anchor_y == (height as int) / 2,
    {
        Field {
            config,
            width,
            height,
            anchor_x: ((width as u64) / 2) as i64,
            anchor_y: ((height as u64) / 2) as i64,
        }
    }

    /// Adopts the surface dimensions of the coming frame.
    pub fn set_size(&mut self, width: i64, height: i64)
        requires
            old(self).wf(),
            0 <= width <= COORD_MAX,
            0 <= height <= COORD_MAX,
        ensures
            final(self).wf(),
            final(self).config == old(self).config,
            final(self).width == width,
            final(self).height == height,
            final(self).anchor_x == old(self).anchor_x,
            final(self).anchor_y == old(self).anchor_y,
    {
        self.width = width;
        self.height = height;
    }

    /// Moves the anchor, as a pointer notification does.
    pub fn set_anchor(&mut self, x: i64, y: i64)
        requires
            old(self).wf(),
            -COORD_MAX <= x <= COORD_MAX,
            -COORD_MAX <= y <= COORD_MAX,
        ensures
            final(self).wf(),
            final(self).config == old(self).config,
            final(self).width == old(self).width,
            final(self).height == old(self).height,
            final(self).anchor_x == x,
            final(self).anchor_y == y,
    {
        self.anchor_x = x;
        self.anchor_y = y;
    }
}

} // verus!
