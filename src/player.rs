use vstd::prelude::*;
use crate::geometry::{frame_step, Speed, WinSize, STEP_PER_SPEED, SUBUNITS};
use crate::laser::{laser_at, Laser};

verus! {

/// Height of the ship's sprite on screen, in tenths of a world unit (75 units).
pub const PLAYER_HEIGHT_TENTHS: i64 = 750;

/// Gap in world units between the bottom edge and the ship's sprite.
pub const PLAYER_BOTTOM_GAP: i64 = 10;

/// Player ship speed, in world units per time unit, on both axes.
pub const PLAYER_SPEED: i32 = 200;

/// The controls held or released during one frame.
#[derive(Clone, Copy, Debug, PartialEq, Eq, Structural)]
pub struct Input {
    /// Move left (A).
    pub left: bool,
    /// Move right (D).
    pub right: bool,
    /// Move up (W).
    pub up: bool,
    /// Move down (S).
    pub down: bool,
    /// Turn clockwise (Q).
    pub turn_cw: bool,
    /// Turn counter-clockwise (E).
    pub turn_ccw: bool,
    /// A fire control (Space or the left mouse button) is held.
    pub fire_held: bool,
    /// A fire control was released this frame.
    pub fire_released: bool,
}

/// Horizontal direction: left wins over right.
pub open spec fn dir_x(i: Input) -> int {
    if i.left {
        -1
    } else if i.right {
        1
    } else {
        0
    }
}

/// Vertical direction: up wins over down.
pub open spec fn dir_y(i: Input) -> int {
    if i.up {
        1
    } else if i.down {
        -1
    } else {
        0
    }
}

/// Turning direction: clockwise wins over counter-clockwise.
pub open spec fn dir_rot(i: Input) -> int {
    if i.turn_cw {
        -1
    } else if i.turn_ccw {
        1
    } else {
        0
    }
}

/// The player ship. `angle` is its heading in steps of a radian
/// (`SUBUNITS` to the radian).
#[derive(Clone, Copy, Debug, PartialEq, Eq, Structural)]
pub struct Player {
    pub x: i64,
    pub y: i64,
    pub angle: i64,
    pub speed: Speed,
    /// The next press of a fire control fires a laser.
    pub ready_fire: bool,
}

/// Height, in steps, at which the ship starts: half its sprite plus the gap
/// above the bottom edge (47.5 world units).
pub open spec fn start_height(win: WinSize) -> int {
    win.bottom() + PLAYER_HEIGHT_TENTHS * SUBUNITS / 20 + PLAYER_BOTTOM_GAP * SUBUNITS
}

/// The ship as placed at the start.
pub open spec fn spawned(win: WinSize) -> Player {
    Player {
        x: 0,
        y: start_height(win) as i64,
        angle: 0,
        speed: Speed { vert: PLAYER_SPEED, horz: PLAYER_SPEED, rot: 1 },
        ready_fire: true,
    }
}

/// Position and heading after one frame under `i`.
pub open spec fn moved_x(p: Player, i: Input) -> int {
    p.x + dir_x(i) * frame_step(p.speed.horz as int)
}

pub open spec fn moved_y(p: Player, i: Input) -> int {
    p.y + dir_y(i) * frame_step(p.speed.vert as int)
}

pub open spec fn moved_angle(p: Player, i: Input) -> int {
    p.angle + dir_rot(i) * frame_step(p.speed.rot as int)
}

/// Movement fits the integer range of a position.
pub open spec fn can_move(p: Player, i: Input) -> bool {
    &&& i64::MIN <= moved_x(p, i) <= i64::MAX
    &&& i64::MIN <= moved_y(p, i) <= i64::MAX
    &&& i64::MIN <= moved_angle(p, i) <= i64::MAX
}

/// Readiness to fire after one frame: a laser fired clears it, a release
/// sets it.
pub open spec fn ready_after(ready: bool, held: bool, released: bool) -> bool {
    if released {
        true
    } else if ready && held {
        false
    } else {
        ready
    }
}

/// A laser leaves the ship this frame.
pub open spec fn fires(ready: bool, held: bool) -> bool {
    ready && held
}

/// The trigger over a run of frames, starting from readiness `ready`:
/// whether it is ready at the end, and how many lasers it fired.
pub open spec fn trigger_run(ready: bool, frames: Seq<Input>) -> (bool, nat)
    decreases frames.len(),
{
    if frames.len() == 0 {
        (ready, 0)
    } else {
        let before = trigger_run(ready, frames.drop_last());
        let i = frames.last();
        (
            ready_after(before.0, i.fire_held, i.fire_released),
            before.1 + if fires(before.0, i.fire_held) {
                1nat
            } else {
                0nat
            },
        )
    }
}

/// A frame in the middle of a press: a fire control held, none released.
pub open spec fn pressing(i: Input) -> bool {
    i.fire_held && !i.fire_released
}

/// The frame a press ends: no fire control held, one just released.
pub open spec fn releasing(i: Input) -> bool {
    !i.fire_held && i.fire_released
}

/// Through frames in which no fire control is held, a ready trigger stays
/// ready and fires nothing.
pub proof fn lemma_idle_frames(frames: Seq<Input>)
    requires
        forall|k: int| 0 <= k < frames.len() ==> !(#[trigger] frames[k]).fire_held,
    ensures
        trigger_run(true, frames) == (true, 0nat),
    decreases frames.len(),
{
    if frames.len() > 0 {
        let rest = frames.drop_last();
        assert forall|k: int| 0 <= k < rest.len() implies !(#[trigger] rest[k]).fire_held by {
            assert(rest[k] == frames[k]);
        }
        lemma_idle_frames(rest);
    }
}

/// An uninterrupted press fires at most one laser: one if the trigger was
/// ready when it began, none otherwise; the trigger is not ready afterwards.
pub proof fn lemma_one_laser_per_press(ready: bool, frames: Seq<Input>)
    requires
        frames.len() >= 1,
        forall|k: int| 0 <= k < frames.len() ==> pressing(#[trigger] frames[k]),
    ensures
        trigger_run(ready, frames) == (false, if ready {
            1nat
        } else {
            0nat
        }),
    decreases frames.len(),
{
    if frames.len() > 1 {
        let rest = frames.drop_last();
        assert forall|k: int| 0 <= k < rest.len() implies pressing(#[trigger] rest[k]) by {
            assert(rest[k] == frames[k]);
        }
        lemma_one_laser_per_press(ready, rest);
    } else {
        assert(frames.drop_last().len() == 0);
        assert(trigger_run(ready, frames.drop_last()) == (ready, 0nat));
    }
    assert(pressing(frames[frames.len() - 1]));
}

/// Running two stretches of frames one after the other is running the
/// second from where the first left the trigger.
pub proof fn lemma_trigger_run_append(ready: bool, a: Seq<Input>, b: Seq<Input>)
    ensures
        trigger_run(ready, a + b) == (trigger_run(trigger_run(ready, a).0, b).0, trigger_run(
            ready,
            a,
        ).1 + trigger_run(trigger_run(ready, a).0, b).1),
    decreases b.len(),
{
    if b.len() == 0 {
        assert(a + b =~= a);
    } else {
        lemma_trigger_run_append(ready, a, b.drop_last());
        assert((a + b).drop_last() =~= a + b.drop_last());
        assert((a + b).last() == b.last());
    }
}

/// Press, release, press again: from a ready trigger exactly two lasers
/// are fired, one for each press.
pub proof fn lemma_press_release_press(first: Seq<Input>, release: Input, second: Seq<Input>)
    requires
        first.len() >= 1,
        forall|k: int| 0 <= k < first.len() ==> pressing(#[trigger] first[k]),
        releasing(release),
        second.len() >= 1,
        forall|k: int| 0 <= k < second.len() ==> pressing(#[trigger] second[k]),
    ensures
        trigger_run(true, first + seq![release] + second).1 == 2,
{
    let r = seq![release];
    lemma_one_laser_per_press(true, first);
    lemma_trigger_run_append(true, first, r);
    assert(r.drop_last() =~= Seq::<Input>::empty());
    assert(trigger_run(false, r.drop_last()) == (false, 0nat));
    assert(r.last() == release);
    assert(trigger_run(false, r) == (true, 0nat));
    lemma_one_laser_per_press(true, second);
    lemma_trigger_run_append(true, first + r, second);
}

fn direction(first: bool, first_dir: i64, second: bool, second_dir: i64) -> (r: i64)
    requires
        -1 <= first_dir <= 1,
        -1 <= second_dir <= 1,
    ensures
        r == (if first {
            first_dir
        } else if second {
            second_dir
        } else {
            0
        }),
{
    if first {
        first_dir
    } else if second {
        second_dir
    } else {
        0
    }
}

/// `dir * step`, for a direction of -1, 0 or 1.
fn scaled(dir: i64, step: i64) -> (r: i64)
    requires
        -1 <= dir <= 1,
        step > i64::MIN,
    ensures
        r == dir * step,
{
    proof {
        assert(dir == 1 ==> dir * step == step) by (nonlinear_arith);
        assert(dir == -1 ==> dir * step == -step) by (nonlinear_arith);
        assert(dir == 0 ==> dir * step == 0) by (nonlinear_arith);
    }
    if dir == 1 {
        step
    } else if dir == -1 {
        -step
    } else {
        0
    }
}

impl Player {
    /// The ship at the start: centred horizontally near the bottom edge,
    /// ready to fire.
    pub fn spawn(win: &WinSize) -> (r: Player)
        ensures
            r == spawned(*win),
    {
        let y = -(win.h as i64 * (SUBUNITS / 2)) + PLAYER_HEIGHT_TENTHS * SUBUNITS / 20
            + PLAYER_BOTTOM_GAP * SUBUNITS;
        Player {
            x: 0,
            y,
            angle: 0,
            speed: Speed { vert: PLAYER_SPEED, horz: PLAYER_SPEED, rot: 1 },
            ready_fire: true,
        }
    }

    /// One frame of movement: each axis and the heading change by the
    /// direction held times the speed on that axis times the frame length.
    pub fn movement(&mut self, input: &Input)
        requires
            can_move(*old(self), *input),
        ensures
            final(self).x == moved_x(*old(self), *input),
            final(self).y == moved_y(*old(self), *input),
            final(self).angle == moved_angle(*old(self), *input),
            final(self).speed == old(self).speed,
            final(self).ready_fire == old(self).ready_fire,
    {
        let dx = direction(input.left, -1, input.right, 1);
        let dy = direction(input.up, 1, input.down, -1);
        let dr = direction(input.turn_cw, -1, input.turn_ccw, 1);
        let sx = self.speed.horz as i64 * STEP_PER_SPEED;
        let sy = self.speed.vert as i64 * STEP_PER_SPEED;
        let sr = self.speed.rot as i64 * STEP_PER_SPEED;
        self.x = self.x + scaled(dx, sx);
        self.y = self.y + scaled(dy, sy);
        self.angle = self.angle + scaled(dr, sr);
    }

    /// One frame of the trigger: fires a laser from the ship's position when
    /// ready and a fire control is held, then becomes ready again if a fire
    /// control was released.
    ///
    /// Firing goes by a control being held, not by its press starting: the
    /// readiness flag alone keeps a long press to one laser. So a release of
    /// one fire control while the other is held re-arms the trigger, and the
    /// next frame fires again. This is intended.
    ///
    /// The call is one frame of `trigger_run`, so what that function's laws
    /// say of runs of frames holds of successive calls.
    pub fn fire(&mut self, input: &Input) -> (r: Option<Laser>)
        ensures
            r == (if fires(old(self).ready_fire, input.fire_held) {
                Some(laser_at(old(self).x as int, old(self).y as int))
            } else {
                None
            }),
            final(self).ready_fire == ready_after(
                old(self).ready_fire,
                input.fire_held,
                input.fire_released,
            ),
            final(self).x == old(self).x,
            final(self).y == old(self).y,
            final(self).angle == old(self).angle,
            final(self).speed == old(self).speed,
            trigger_run(old(self).ready_fire, seq![*input]) == (
                final(self).ready_fire,
                if r is Some {
                    1nat
                } else {
                    0nat
                },
            ),
    {
        proof {
            let one = seq![*input];
            assert(one.drop_last() =~= Seq::<Input>::empty());
            assert(trigger_run(self.ready_fire, one.drop_last()) == (self.ready_fire, 0nat));
            assert(one.last() == *input);
        }
        let mut shot: Option<Laser> = None;
        if self.ready_fire && input.fire_held {
            shot = Some(Laser::fired_from(self.x, self.y));
            self.ready_fire = false;
        }
        if input.fire_released {
            self.ready_fire = true;
        }
        shot
    }
}

} // verus!
