use vstd::prelude::*;
use vstd::arithmetic::div_mod::{lemma_fundamental_div_mod, lemma_fundamental_div_mod_converse};
use vstd::arithmetic::mul::lemma_mul_inequality;
use crate::geometry::{frame_step, laser_speed, Aabb, Speed, SpriteSize, STEPS_PER_PERCENT, STEP_PER_SPEED};

verus! {

/// Scale of a laser's sprite, in hundredths.
pub const LASER_SCALE_PERCENT: i64 = 1;

/// A laser shot: position in steps and its rates of movement.
#[derive(Clone, Copy, Debug, PartialEq, Eq, Structural)]
pub struct Laser {
    pub x: i64,
    pub y: i64,
    pub speed: Speed,
}

/// A laser fired from `(x, y)`.
pub open spec fn laser_at(x: int, y: int) -> Laser {
    Laser { x: x as i64, y: y as i64, speed: laser_speed() }
}

/// The laser after one frame: moved up by its vertical speed, or gone once it
/// is above `limit`.
pub open spec fn advanced(l: Laser, limit: int) -> Option<Laser> {
    let y = l.y + frame_step(l.speed.vert as int);
    if y > limit {
        None
    } else {
        Some(Laser { y: y as i64, ..l })
    }
}

/// The laser's collision box for a sprite of `size`.
pub open spec fn laser_box(l: Laser, size: SpriteSize) -> Aabb {
    Aabb {
        x: l.x,
        y: l.y,
        w: (size.w * STEPS_PER_PERCENT * LASER_SCALE_PERCENT) as i64,
        h: (size.h * STEPS_PER_PERCENT * LASER_SCALE_PERCENT) as i64,
    }
}

/// The laser after `n` frames of flight below `limit`; `None` once removed.
pub open spec fn flight(l: Laser, limit: int, n: nat) -> Option<Laser>
    decreases n,
{
    if n == 0 {
        Some(l)
    } else {
        match flight(l, limit, (n - 1) as nat) {
            Some(m) => advanced(m, limit),
            None => None,
        }
    }
}

/// `a / b` rounded up, for `b > 0`.
pub open spec fn ceil_div(a: int, b: int) -> int {
    (a + b - 1) / b
}

/// While `n` frames of flight keep it at or below `limit`, the laser is in
/// flight, `n` frame steps higher.
pub proof fn lemma_in_flight(l: Laser, limit: i64, n: nat)
    requires
        frame_step(l.speed.vert as int) > 0,
        l.y + n * frame_step(l.speed.vert as int) <= limit,
    ensures
        flight(l, limit as int, n) == Some(
            Laser { y: (l.y + n * frame_step(l.speed.vert as int)) as i64, ..l },
        ),
    decreases n,
{
    let step = frame_step(l.speed.vert as int);
    if n > 0 {
        assert((n - 1) * step == n * step - step) by (nonlinear_arith);
        assert((n - 1) * step >= 0) by (nonlinear_arith)
            requires
                n >= 1,
                step > 0,
        ;
        lemma_in_flight(l, limit, (n - 1) as nat);
        let m = Laser { y: (l.y + (n - 1) * step) as i64, ..l };
        assert(flight(l, limit as int, n) == advanced(m, limit as int));
        assert(m.y + frame_step(m.speed.vert as int) == l.y + n * step);
    } else {
        assert(n * step == 0) by (nonlinear_arith)
            requires
                n == 0,
        ;
        assert(Laser { y: (l.y + n * step) as i64, ..l } == l);
    }
}

/// A laser fired at height `y0` below `limit` with a vertical speed whose
/// frame step is `step > 0` stays in flight for each frame before frame
/// `ceil((limit - y0) / step)` and is removed on that frame. When
/// `limit - y0` is a whole number of steps the laser stops exactly on the
/// limit, is not above it, and leaves one frame later; that case is left out.
pub proof fn lemma_laser_exit_frame(l: Laser, limit: i64)
    requires
        frame_step(l.speed.vert as int) > 0,
        l.y < limit,
        (limit - l.y) % frame_step(l.speed.vert as int) != 0,
    ensures
        ceil_div(limit - l.y, frame_step(l.speed.vert as int)) >= 1,
        forall|n: nat|
            n < ceil_div(limit - l.y, frame_step(l.speed.vert as int)) ==> #[trigger] flight(
                l,
                limit as int,
                n,
            ) == Some(Laser { y: (l.y + n * frame_step(l.speed.vert as int)) as i64, ..l }),
        flight(l, limit as int, ceil_div(limit - l.y, frame_step(l.speed.vert as int)) as nat)
            is None,
{
    let step = frame_step(l.speed.vert as int);
    let d = limit - l.y;
    let q = d / step;
    let r = d % step;
    lemma_fundamental_div_mod(d, step);
    assert(0 <= r < step);
    assert(d + step - 1 == (q + 1) * step + (r - 1)) by (nonlinear_arith)
        requires
            d == step * q + r,
    ;
    lemma_fundamental_div_mod_converse(d + step - 1, step, q + 1, r - 1);
    let k = q + 1;
    assert(k == ceil_div(d, step));
    assert(q >= 0) by (nonlinear_arith)
        requires
            d == step * q + r,
            d > 0,
            r < step,
            step > 0,
    ;
    assert forall|n: nat| n < k implies #[trigger] flight(l, limit as int, n) == Some(
        Laser { y: (l.y + n * step) as i64, ..l },
    ) by {
        lemma_mul_inequality(n as int, q, step);
        lemma_in_flight(l, limit, n);
    }
    lemma_in_flight(l, limit, q as nat);
    assert(k * step == q * step + step) by (nonlinear_arith)
        requires
            k == q + 1,
    ;
    assert(flight(l, limit as int, k as nat) == advanced(
        Laser { y: (l.y + q * step) as i64, ..l },
        limit as int,
    ));
}

impl Laser {
    /// A laser fired from `(x, y)`, with the default rates.
    pub fn fired_from(x: i64, y: i64) -> (r: Laser)
        ensures
            r == laser_at(x as int, y as int),
    {
        Laser { x, y, speed: Speed::default() }
    }

    /// One frame of flight; `None` when the laser has passed `limit` and is
    /// removed.
    pub fn advance(&self, limit: i64) -> (r: Option<Laser>)
        requires
            i64::MIN <= self.y + frame_step(self.speed.vert as int) <= i64::MAX,
        ensures
            r == advanced(*self, limit as int),
    {
        let y = self.y + self.speed.vert as i64 * STEP_PER_SPEED;
        if y > limit {
            None
        } else {
            Some(Laser { y, ..*self })
        }
    }

    /// The collision box for a sprite of `size`.
    pub fn bounds(&self, size: &SpriteSize) -> (r: Aabb)
        ensures
            r == laser_box(*self, *size),
    {
        Aabb {
            x: self.x,
            y: self.y,
            w: size.w as i64 * STEPS_PER_PERCENT * LASER_SCALE_PERCENT,
            h: size.h as i64 * STEPS_PER_PERCENT * LASER_SCALE_PERCENT,
        }
    }
}

} // verus!
