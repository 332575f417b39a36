use vstd::prelude::*;

verus! {

/// Steps in one world unit.
pub const SUBUNITS: i64 = 6000;

/// Frames in one time unit.
pub const FRAMES_PER_SECOND: i64 = 60;

/// Steps covered in one frame per unit of speed (`SUBUNITS / FRAMES_PER_SECOND`).
pub const STEP_PER_SPEED: i64 = 100;

/// Steps in one hundredth of a world unit: a sprite of one unit at a scale of
/// one percent spans this many steps.
pub const STEPS_PER_PERCENT: i64 = 60;

/// Gap, in world units, kept free of enemies along each window edge.
pub const SPAWN_MARGIN: i64 = 100;

/// Distance covered in one frame at `speed` units per time unit, in steps.
pub open spec fn frame_step(speed: int) -> int {
    speed * STEP_PER_SPEED
}

/// Movement rates: `vert` and `horz` in world units per time unit, `rot` in
/// radians per time unit.
#[derive(Clone, Copy, Debug, PartialEq, Eq, Structural)]
pub struct Speed {
    pub vert: i32,
    pub horz: i32,
    pub rot: i32,
}

impl Default for Speed {
    fn default() -> (r: Speed)
        ensures
            r == (Speed { vert: 500, horz: 500, rot: 1 }),
    {
        Speed { vert: 500, horz: 500, rot: 1 }
    }
}

/// The rate every laser is given when fired.
pub open spec fn laser_speed() -> Speed {
    Speed { vert: 500, horz: 500, rot: 1 }
}

/// Size of the window in world units; the origin is at its centre.
#[derive(Clone, Copy, Debug, PartialEq, Eq, Structural)]
pub struct WinSize {
    pub w: u32,
    pub h: u32,
}

impl WinSize {
    /// Half the window height in steps: the upper edge of the visible area.
    pub open spec fn top(self) -> int {
        self.h * (SUBUNITS / 2)
    }

    /// Half the window height in steps, negated: the lower edge.
    pub open spec fn bottom(self) -> int {
        -self.top()
    }

    /// Height in steps above which a laser is removed: the full window
    /// height, measured up from the centre.
    pub open spec fn laser_limit(self) -> int {
        self.h * SUBUNITS
    }

    /// Largest distance from the centre, in steps, at which an enemy may
    /// appear horizontally: half the width less the margin.
    pub open spec fn span_x(self) -> int {
        self.w * (SUBUNITS / 2) - SPAWN_MARGIN * SUBUNITS
    }

    /// The same bound vertically.
    pub open spec fn span_y(self) -> int {
        self.h * (SUBUNITS / 2) - SPAWN_MARGIN * SUBUNITS
    }

    /// The window leaves room to place an enemy away from every edge.
    pub open spec fn spawnable(self) -> bool {
        self.span_x() > 0 && self.span_y() > 0
    }

    /// A point, in steps, that lies inside the spawn area. The area is
    /// half-open: its upper bounds are never reached.
    pub open spec fn in_spawn_area(self, x: int, y: int) -> bool {
        -self.span_x() <= x < self.span_x() && -self.span_y() <= y < self.span_y()
    }

    pub fn top_steps(&self) -> (r: i64)
        ensures
            r == self.top(),
    {
        self.h as i64 * (SUBUNITS / 2)
    }

    pub fn laser_limit_steps(&self) -> (r: i64)
        ensures
            r == self.laser_limit(),
    {
        self.h as i64 * SUBUNITS
    }

    pub fn bottom_steps(&self) -> (r: i64)
        ensures
            r == self.bottom(),
    {
        -(self.h as i64 * (SUBUNITS / 2))
    }

    pub fn span_x_steps(&self) -> (r: i64)
        ensures
            r == self.span_x(),
    {
        self.w as i64 * (SUBUNITS / 2) - SPAWN_MARGIN * SUBUNITS
    }

    pub fn span_y_steps(&self) -> (r: i64)
        ensures
            r == self.span_y(),
    {
        self.h as i64 * (SUBUNITS / 2) - SPAWN_MARGIN * SUBUNITS
    }

    pub fn is_spawnable(&self) -> (r: bool)
        ensures
            r == self.spawnable(),
    {
        self.span_x_steps() > 0 && self.span_y_steps() > 0
    }
}

/// Size of a sprite's image in world units, before scaling.
#[derive(Clone, Copy, Debug, PartialEq, Eq, Structural)]
pub struct SpriteSize {
    pub w: u32,
    pub h: u32,
}

/// An axis-aligned box: centre `(x, y)` and full extent `w` by `h`, in steps.
#[derive(Clone, Copy, Debug, PartialEq, Eq, Structural)]
pub struct Aabb {
    pub x: i64,
    pub y: i64,
    pub w: i64,
    pub h: i64,
}

/// The two boxes share a region of positive area. Each side is compared at
/// twice its scale so that half extents stay whole.
pub open spec fn overlaps(a: Aabb, b: Aabb) -> bool {
    &&& 2 * a.x - a.w < 2 * b.x + b.w
    &&& 2 * a.x + a.w > 2 * b.x - b.w
    &&& 2 * a.y - a.h < 2 * b.y + b.h
    &&& 2 * a.y + a.h > 2 * b.y - b.h
}

impl Aabb {
    /// Whether this box and `other` overlap.
    pub fn collides(&self, other: &Aabb) -> (r: bool)
        ensures
            r == overlaps(*self, *other),
    {
        let ax = self.x as i128;
        let ay = self.y as i128;
        let bx = other.x as i128;
        let by = other.y as i128;
        let aw = self.w as i128;
        let ah = self.h as i128;
        let bw = other.w as i128;
        let bh = other.h as i128;
        2 * ax - aw < 2 * bx + bw && 2 * ax + aw > 2 * bx - bw && 2 * ay - ah < 2 * by + bh && 2
            * ay + ah > 2 * by - bh
    }
}

} // verus!
