use vstd::prelude::*;
use crate::collision::{collision_flags, hits_any};
use crate::enemy::{enemy_box, enemy_spawn, Enemy};
use crate::geometry::{laser_speed, Aabb, SpriteSize, WinSize};
use crate::laser::{advanced, laser_at, laser_box, Laser};
use crate::player::{trigger_run, fires, moved_angle, moved_x, moved_y, ready_after, spawned, Input, Player};

verus! {

/// Largest distance from the origin, in steps, that the world keeps a
/// position or heading at (2 to the 60th, far beyond any window).
pub const COORD_LIMIT: i64 = 1152921504606846976;

pub open spec fn in_range(v: int) -> bool {
    -COORD_LIMIT <= v <= COORD_LIMIT
}

/// A laser as the world keeps it: fired with the laser rates, within range.
pub open spec fn laser_ok(l: Laser) -> bool {
    l.speed == laser_speed() && in_range(l.y as int)
}

/// A ship as the world keeps it: position and heading within range.
pub open spec fn player_ok(p: Player) -> bool {
    in_range(p.x as int) && in_range(p.y as int) && in_range(p.angle as int)
}

/// The ship after one frame of movement under `i`.
pub open spec fn player_moved(p: Player, i: Input) -> Player {
    Player {
        x: moved_x(p, i) as i64,
        y: moved_y(p, i) as i64,
        angle: moved_angle(p, i) as i64,
        ..p
    }
}

/// Movement under `i` keeps the ship within range.
pub open spec fn can_step(player: Option<Player>, i: Input) -> bool {
    player matches Some(p) ==> player_ok(player_moved(p, i))
}

pub open spec fn laser_boxes(s: Seq<Laser>, size: SpriteSize) -> Seq<Aabb> {
    s.map_values(|l: Laser| laser_box(l, size))
}

pub open spec fn enemy_boxes(s: Seq<Enemy>, size: SpriteSize) -> Seq<Aabb> {
    s.map_values(|e: Enemy| enemy_box(e, size))
}

/// The lasers that touch no enemy, in their order.
pub open spec fn lasers_missing(
    lasers: Seq<Laser>,
    enemies: Seq<Enemy>,
    ls: SpriteSize,
    es: SpriteSize,
) -> Seq<Laser> {
    lasers.filter(|l: Laser| !hits_any(laser_box(l, ls), enemy_boxes(enemies, es)))
}

/// The enemies that no laser touches, in their order.
pub open spec fn enemies_missed(
    lasers: Seq<Laser>,
    enemies: Seq<Enemy>,
    ls: SpriteSize,
    es: SpriteSize,
) -> Seq<Enemy> {
    enemies.filter(|e: Enemy| !hits_any(enemy_box(e, es), laser_boxes(lasers, ls)))
}

/// The lasers after one frame of flight below `limit`, in their order.
pub open spec fn lasers_advanced(lasers: Seq<Laser>, limit: int) -> Seq<Laser> {
    lasers.filter_map(|l: Laser| advanced(l, limit))
}

/// Everything in play: the window, the sprite sizes the collision boxes come
/// from, the ship, the lasers in flight, the enemies and their count.
pub struct World {
    pub win: WinSize,
    pub laser_sprite: SpriteSize,
    pub enemy_sprite: SpriteSize,
    pub player: Option<Player>,
    pub lasers: Vec<Laser>,
    pub enemies: Vec<Enemy>,
    pub active_enemies: u32,
}

/// The ship after one whole frame under `i`: moved, then its trigger worked.
pub open spec fn player_after_frame(player: Option<Player>, i: Input) -> Option<Player> {
    match player {
        Some(p) => Some(
            Player {
                ready_fire: ready_after(p.ready_fire, i.fire_held, i.fire_released),
                ..player_moved(p, i)
            },
        ),
        None => None,
    }
}

/// The lasers after the ship's trigger has been worked under `i`, the ship
/// having moved first: a laser fired starts where the ship now is.
pub open spec fn lasers_fired(player: Option<Player>, i: Input, lasers: Seq<Laser>) -> Seq<Laser> {
    match player {
        Some(p) => if fires(p.ready_fire, i.fire_held) {
            let q = player_moved(p, i);
            lasers.push(laser_at(q.x as int, q.y as int))
        } else {
            lasers
        },
        None => lasers,
    }
}

/// In every state the world reaches there is at most one enemy, and the
/// count of enemies is never above one.
pub proof fn lemma_at_most_one_enemy(w: &World)
    requires
        w.wf(),
    ensures
        w.active_enemies <= 1,
        w.active_enemies == w.enemies@.len(),
{
}

impl World {
    /// The count of enemies matches the enemies alive, and there is never
    /// more than one.
    pub open spec fn wf(&self) -> bool {
        &&& self.win.spawnable()
        &&& self.active_enemies == self.enemies@.len()
        &&& self.enemies@.len() <= 1
        &&& self.player matches Some(p) ==> player_ok(p)
        &&& forall|i: int| 0 <= i < self.lasers@.len() ==> laser_ok(#[trigger] self.lasers@[i])
    }

    /// An empty world: no ship yet, nothing in flight, no enemy.
    pub fn new(win: WinSize, laser_sprite: SpriteSize, enemy_sprite: SpriteSize) -> (r: World)
        requires
            win.spawnable(),
        ensures
            r.wf(),
            r.win == win,
            r.laser_sprite == laser_sprite,
            r.enemy_sprite == enemy_sprite,
            r.player is None,
            r.lasers@.len() == 0,
            r.enemies@.len() == 0,
            r.active_enemies == 0,
    {
        World {
            win,
            laser_sprite,
            enemy_sprite,
            player: None,
            lasers: Vec::new(),
            enemies: Vec::new(),
            active_enemies: 0,
        }
    }

    /// Places the ship at its start.
    pub fn player_spawn(&mut self)
        requires
            old(self).wf(),
        ensures
            final(self).wf(),
            final(self).player == Some(spawned(old(self).win)),
            final(self).win == old(self).win,
            final(self).laser_sprite == old(self).laser_sprite,
            final(self).enemy_sprite == old(self).enemy_sprite,
            final(self).lasers@ == old(self).lasers@,
            final(self).enemies@ == old(self).enemies@,
            final(self).active_enemies == old(self).active_enemies,
    {
        let h = self.win.h;
        assert(h * 3000 <= 4294967295 * 3000) by (nonlinear_arith)
            requires
                h <= 4294967295,
        ;
        self.player = Some(Player::spawn(&self.win));
    }

    /// Moves the ship, if there is one, by one frame under `input`.
    pub fn player_movement(&mut self, input: &Input)
        requires
            old(self).wf(),
            can_step(old(self).player, *input),
        ensures
            final(self).wf(),
            final(self).player == (match old(self).player {
                Some(p) => Some(player_moved(p, *input)),
                None => None,
            }),
            final(self).win == old(self).win,
            final(self).laser_sprite == old(self).laser_sprite,
            final(self).enemy_sprite == old(self).enemy_sprite,
            final(self).lasers@ == old(self).lasers@,
            final(self).enemies@ == old(self).enemies@,
            final(self).active_enemies == old(self).active_enemies,
    {
        match self.player {
            Some(p) => {
                let mut q = p;
                q.movement(input);
                self.player = Some(q);
            },
            None => {},
        }
    }

    /// Works the ship's trigger for one frame: a laser fired is added after
    /// the lasers already in flight.
    pub fn player_fire(&mut self, input: &Input)
        requires
            old(self).wf(),
        ensures
            final(self).wf(),
            match old(self).player {
                Some(p) => {
                    &&& final(self).player == Some(
                        Player {
                            ready_fire: ready_after(p.ready_fire, input.fire_held, input.fire_released),
                            ..p
                        },
                    )
                    &&& final(self).lasers@ == if fires(p.ready_fire, input.fire_held) {
                        old(self).lasers@.push(laser_at(p.x as int, p.y as int))
                    } else {
                        old(self).lasers@
                    }
                },
                None => {
                    &&& final(self).player is None
                    &&& final(self).lasers@ == old(self).lasers@
                },
            },
            old(self).player matches Some(p) ==> trigger_run(p.ready_fire, seq![*input]) == (
                final(self).player.unwrap().ready_fire,
                (final(self).lasers@.len() - old(self).lasers@.len()) as nat,
            ),
            final(self).win == old(self).win,
            final(self).laser_sprite == old(self).laser_sprite,
            final(self).enemy_sprite == old(self).enemy_sprite,
            final(self).enemies@ == old(self).enemies@,
            final(self).active_enemies == old(self).active_enemies,
    {
        match self.player {
            Some(p) => {
                let mut q = p;
                let shot = q.fire(input);
                self.player = Some(q);
                match shot {
                    Some(l) => {
                        self.lasers.push(l);
                    },
                    None => {},
                }
            },
            None => {},
        }
    }

    /// Moves every laser up by one frame and removes those that have passed
    /// the window's full height above the centre.
    pub fn laser_movement(&mut self)
        requires
            old(self).wf(),
        ensures
            final(self).wf(),
            final(self).lasers@ == lasers_advanced(old(self).lasers@, old(self).win.laser_limit()),
            final(self).player == old(self).player,
            final(self).win == old(self).win,
            final(self).laser_sprite == old(self).laser_sprite,
            final(self).enemy_sprite == old(self).enemy_sprite,
            final(self).enemies@ == old(self).enemies@,
            final(self).active_enemies == old(self).active_enemies,
    {
        let top = self.win.laser_limit_steps();
        let h = self.win.h;
        assert(h * 6000 <= 4294967295 * 6000) by (nonlinear_arith)
            requires
                h <= 4294967295,
        ;
        let ghost f = |l: Laser| advanced(l, top as int);
        let mut kept: Vec<Laser> = Vec::new();
        let mut i: usize = 0;
        while i < self.lasers.len()
            invariant
                old(self).wf(),
                self.lasers@ == old(self).lasers@,
                self.win == old(self).win,
                top == self.win.laser_limit(),
                f == (|l: Laser| advanced(l, top as int)),
                i <= self.lasers@.len(),
                kept@ == self.lasers@.subrange(0, i as int).filter_map(f),
                forall|k: int| 0 <= k < kept@.len() ==> laser_ok(#[trigger] kept@[k]),
            decreases self.lasers@.len() - i,
        {
            let l = self.lasers[i];
            assert(laser_ok(self.lasers@[i as int]));
            let next = l.advance(top);
            proof {
                let s = self.lasers@.subrange(0, i as int + 1);
                assert(s.drop_last() =~= self.lasers@.subrange(0, i as int));
                assert(s.last() == l);
            }
            match next {
                Some(m) => {
                    kept.push(m);
                    assert(kept@ =~= self.lasers@.subrange(0, i as int + 1).filter_map(f));
                },
                None => {},
            }
            i = i + 1;
        }
        assert(self.lasers@.subrange(0, self.lasers@.len() as int) =~= self.lasers@);
        self.lasers = kept;
    }

    /// Removes every laser that touches an enemy and every enemy that a laser
    /// touches, and lowers the enemy count by the number of enemies removed.
    /// An enemy touched by several lasers at once is counted once.
    pub fn laser_enemy_collision(&mut self)
        requires
            old(self).wf(),
        ensures
            final(self).wf(),
            final(self).lasers@ == lasers_missing(
                old(self).lasers@,
                old(self).enemies@,
                old(self).laser_sprite,
                old(self).enemy_sprite,
            ),
            final(self).enemies@ == enemies_missed(
                old(self).lasers@,
                old(self).enemies@,
                old(self).laser_sprite,
                old(self).enemy_sprite,
            ),
            final(self).active_enemies == old(self).active_enemies - (old(self).enemies@.len()
                - final(self).enemies@.len()),
            final(self).player == old(self).player,
            final(self).win == old(self).win,
            final(self).laser_sprite == old(self).laser_sprite,
            final(self).enemy_sprite == old(self).enemy_sprite,
    {
        let ls = self.laser_sprite;
        let es = self.enemy_sprite;
        let mut lboxes: Vec<Aabb> = Vec::new();
        let mut i: usize = 0;
        while i < self.lasers.len()
            invariant
                i <= self.lasers@.len(),
                lboxes@.len() == i,
                forall|k: int|
                    0 <= k < i ==> #[trigger] lboxes@[k] == laser_box(self.lasers@[k], ls),
            decreases self.lasers@.len() - i,
        {
            lboxes.push(self.lasers[i].bounds(&ls));
            i = i + 1;
        }
        assert(lboxes@ =~= laser_boxes(self.lasers@, ls));
        let mut eboxes: Vec<Aabb> = Vec::new();
        let mut j: usize = 0;
        while j < self.enemies.len()
            invariant
                j <= self.enemies@.len(),
                eboxes@.len() == j,
                forall|k: int|
                    0 <= k < j ==> #[trigger] eboxes@[k] == enemy_box(self.enemies@[k], es),
            decreases self.enemies@.len() - j,
        {
            eboxes.push(self.enemies[j].bounds(&es));
            j = j + 1;
        }
        assert(eboxes@ =~= enemy_boxes(self.enemies@, es));
        let (lhit, ehit) = collision_flags(&lboxes, &eboxes);

        let ghost lp = |l: Laser| !hits_any(laser_box(l, ls), eboxes@);
        let mut lkept: Vec<Laser> = Vec::new();
        let mut i: usize = 0;
        while i < self.lasers.len()
            invariant
                old(self).wf(),
                self.lasers@ == old(self).lasers@,
                lhit@.len() == self.lasers@.len(),
                forall|k: int|
                    0 <= k < self.lasers@.len() ==> #[trigger] lhit@[k] == hits_any(
                        lboxes@[k],
                        eboxes@,
                    ),
                forall|k: int|
                    0 <= k < self.lasers@.len() ==> #[trigger] lboxes@[k] == laser_box(
                        self.lasers@[k],
                        ls,
                    ),
                lboxes@.len() == self.lasers@.len(),
                lp == (|l: Laser| !hits_any(laser_box(l, ls), eboxes@)),
                i <= self.lasers@.len(),
                lkept@ == self.lasers@.subrange(0, i as int).filter(lp),
                forall|k: int| 0 <= k < lkept@.len() ==> laser_ok(#[trigger] lkept@[k]),
            decreases self.lasers@.len() - i,
        {
            let l = self.lasers[i];
            assert(lboxes@[i as int] == laser_box(l, ls));
            assert(laser_ok(self.lasers@[i as int]));
            proof {
                let s = self.lasers@.subrange(0, i as int + 1);
                assert(s.drop_last() =~= self.lasers@.subrange(0, i as int));
                assert(s.last() == l);
                reveal(Seq::filter);
            }
            if !lhit[i] {
                lkept.push(l);
                assert(lkept@ =~= self.lasers@.subrange(0, i as int + 1).filter(lp));
            }
            i = i + 1;
        }
        assert(self.lasers@.subrange(0, self.lasers@.len() as int) =~= self.lasers@);

        let ghost ep = |e: Enemy| !hits_any(enemy_box(e, es), lboxes@);
        let mut ekept: Vec<Enemy> = Vec::new();
        let mut removed: u32 = 0;
        let mut j: usize = 0;
        while j < self.enemies.len()
            invariant
                old(self).wf(),
                self.enemies@ == old(self).enemies@,
                ehit@.len() == self.enemies@.len(),
                forall|k: int|
                    0 <= k < self.enemies@.len() ==> #[trigger] ehit@[k] == hits_any(
                        eboxes@[k],
                        lboxes@,
                    ),
                forall|k: int|
                    0 <= k < self.enemies@.len() ==> #[trigger] eboxes@[k] == enemy_box(
                        self.enemies@[k],
                        es,
                    ),
                eboxes@.len() == self.enemies@.len(),
                ep == (|e: Enemy| !hits_any(enemy_box(e, es), lboxes@)),
                j <= self.enemies@.len(),
                ekept@ == self.enemies@.subrange(0, j as int).filter(ep),
                removed + ekept@.len() == j,
            decreases self.enemies@.len() - j,
        {
            let e = self.enemies[j];
            assert(eboxes@[j as int] == enemy_box(e, es));
            proof {
                let s = self.enemies@.subrange(0, j as int + 1);
                assert(s.drop_last() =~= self.enemies@.subrange(0, j as int));
                assert(s.last() == e);
                reveal(Seq::filter);
            }
            if !ehit[j] {
                ekept.push(e);
                assert(ekept@ =~= self.enemies@.subrange(0, j as int + 1).filter(ep));
            } else {
                removed = removed + 1;
            }
            j = j + 1;
        }
        assert(self.enemies@.subrange(0, self.enemies@.len() as int) =~= self.enemies@);
        self.lasers = lkept;
        self.enemies = ekept;
        self.active_enemies = self.active_enemies - removed;
    }

    /// Adds `e` as the one enemy alive. This is the spawner's work once a
    /// place has been drawn.
    pub fn place_enemy(&mut self, e: Enemy)
        requires
            old(self).wf(),
            old(self).active_enemies < 1,
            old(self).win.in_spawn_area(e.x as int, e.y as int),
        ensures
            final(self).wf(),
            final(self).enemies@ == old(self).enemies@.push(e),
            final(self).active_enemies == old(self).active_enemies + 1,
            final(self).player == old(self).player,
            final(self).win == old(self).win,
            final(self).laser_sprite == old(self).laser_sprite,
            final(self).enemy_sprite == old(self).enemy_sprite,
            final(self).lasers@ == old(self).lasers@,
    {
        self.enemies.push(e);
        self.active_enemies = self.active_enemies + 1;
    }

    /// The spawner's turn: with no enemy alive, one appears at a random place
    /// inside the spawn area and is counted; otherwise nothing changes.
    pub fn enemy_spawn(&mut self)
        requires
            old(self).wf(),
        ensures
            final(self).wf(),
            old(self).active_enemies < 1 ==> {
                &&& final(self).enemies@.len() == 1
                &&& final(self).active_enemies == 1
                &&& final(self).win.in_spawn_area(
                    final(self).enemies@[0].x as int,
                    final(self).enemies@[0].y as int,
                )
            },
            old(self).active_enemies >= 1 ==> {
                &&& final(self).enemies@ == old(self).enemies@
                &&& final(self).active_enemies == old(self).active_enemies
            },
            final(self).player == old(self).player,
            final(self).win == old(self).win,
            final(self).laser_sprite == old(self).laser_sprite,
            final(self).enemy_sprite == old(self).enemy_sprite,
            final(self).lasers@ == old(self).lasers@,
    {
        match enemy_spawn(self.active_enemies, &self.win) {
            Some(e) => {
                self.place_enemy(e);
            },
            None => {},
        }
    }

    /// One frame, each rule in turn: the ship moves, its trigger is worked,
    /// the lasers fly, hits are resolved, and, when `spawn_due` (once per
    /// time unit), the spawner has its turn.
    pub fn frame(&mut self, input: &Input, spawn_due: bool)
        requires
            old(self).wf(),
            can_step(old(self).player, *input),
        ensures
            final(self).wf(),
            final(self).active_enemies <= 1,
            final(self).player == player_after_frame(old(self).player, *input),
            ({
                let flown = lasers_advanced(
                    lasers_fired(old(self).player, *input, old(self).lasers@),
                    old(self).win.laser_limit(),
                );
                let left = enemies_missed(
                    flown,
                    old(self).enemies@,
                    old(self).laser_sprite,
                    old(self).enemy_sprite,
                );
                &&& final(self).lasers@ == lasers_missing(
                    flown,
                    old(self).enemies@,
                    old(self).laser_sprite,
                    old(self).enemy_sprite,
                )
                &&& (!spawn_due || left.len() > 0) ==> final(self).enemies@ == left
                &&& (spawn_due && left.len() == 0) ==> {
                    &&& final(self).enemies@.len() == 1
                    &&& old(self).win.in_spawn_area(
                        final(self).enemies@[0].x as int,
                        final(self).enemies@[0].y as int,
                    )
                }
            }),
            final(self).win == old(self).win,
            final(self).laser_sprite == old(self).laser_sprite,
            final(self).enemy_sprite == old(self).enemy_sprite,
    {
        self.player_movement(input);
        self.player_fire(input);
        self.laser_movement();
        self.laser_enemy_collision();
        if spawn_due {
            self.enemy_spawn();
        }
    }
}

} // verus!
