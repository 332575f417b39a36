use vstd::prelude::*;
use rand::Rng;
use crate::geometry::{Aabb, SpriteSize, WinSize, STEPS_PER_PERCENT};

verus! {

/// Scale of an enemy's sprite, in hundredths.
pub const ENEMY_SCALE_PERCENT: i64 = 40;

/// An enemy ship at a position in steps.
#[derive(Clone, Copy, Debug, PartialEq, Eq, Structural)]
pub struct Enemy {
    pub x: i64,
    pub y: i64,
}

/// The enemy's collision box for a sprite of `size`.
pub open spec fn enemy_box(e: Enemy, size: SpriteSize) -> Aabb {
    Aabb {
        x: e.x,
        y: e.y,
        w: (size.w * STEPS_PER_PERCENT * ENEMY_SCALE_PERCENT) as i64,
        h: (size.h * STEPS_PER_PERCENT * ENEMY_SCALE_PERCENT) as i64,
    }
}

/// Relies on rand::thread_rng and rand::Rng::gen_range: a value drawn from the
/// half-open range `lo..hi`, which must not be empty (gen_range panics then).
#[verifier::external_body]
fn random_in(lo: i64, hi: i64) -> (r: i64)
    requires
        lo < hi,
    ensures
        lo <= r < hi,
{
    rand::thread_rng().gen_range(lo..hi)
}

impl Enemy {
    /// The collision box for a sprite of `size`.
    pub fn bounds(&self, size: &SpriteSize) -> (r: Aabb)
        ensures
            r == enemy_box(*self, *size),
    {
        Aabb {
            x: self.x,
            y: self.y,
            w: size.w as i64 * STEPS_PER_PERCENT * ENEMY_SCALE_PERCENT,
            h: size.h as i64 * STEPS_PER_PERCENT * ENEMY_SCALE_PERCENT,
        }
    }
}

/// The spawner's turn: with no enemy alive (`active < 1`) a new one appears at
/// a random place at least the margin away from every window edge; otherwise
/// none does.
pub fn enemy_spawn(active: u32, win: &WinSize) -> (r: Option<Enemy>)
    requires
        win.spawnable(),
    ensures
        r is Some <==> active < 1,
        r matches Some(e) ==> win.in_spawn_area(e.x as int, e.y as int),
{
    if active < 1 {
        let span_x = win.span_x_steps();
        let span_y = win.span_y_steps();
        let x = random_in(-span_x, span_x);
        let y = random_in(-span_y, span_y);
        Some(Enemy { x, y })
    } else {
        None
    }
}

} // verus!
