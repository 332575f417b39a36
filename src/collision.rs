use vstd::prelude::*;
use crate::geometry::{overlaps, Aabb};

verus! {

/// Some box of `others` overlaps `a`.
pub open spec fn hits_any(a: Aabb, others: Seq<Aabb>) -> bool {
    exists|j: int| 0 <= j < others.len() && overlaps(a, #[trigger] others[j])
}

/// Whether `a` overlaps some box of `others`.
pub fn touches_any(a: &Aabb, others: &Vec<Aabb>) -> (r: bool)
    ensures
        r == hits_any(*a, others@),
{
    let mut j: usize = 0;
    while j < others.len()
        invariant
            j <= others.len(),
            forall|k: int| 0 <= k < j ==> !overlaps(*a, #[trigger] others@[k]),
        decreases others.len() - j,
    {
        if a.collides(&others[j]) {
            return true;
        }
        j = j + 1;
    }
    false
}

/// Every laser box checked against every enemy box. A laser is hit when it
/// overlaps any enemy, an enemy when any laser overlaps it; each object is
/// reported once however many boxes it touches.
pub fn collision_flags(lasers: &Vec<Aabb>, enemies: &Vec<Aabb>) -> (r: (Vec<bool>, Vec<bool>))
    ensures
        r.0@.len() == lasers@.len(),
        r.1@.len() == enemies@.len(),
        forall|i: int| 0 <= i < lasers@.len() ==> #[trigger] r.0@[i] == hits_any(lasers@[i], enemies@),
        forall|j: int| 0 <= j < enemies@.len() ==> #[trigger] r.1@[j] == hits_any(enemies@[j], lasers@),
{
    let mut laser_hit: Vec<bool> = Vec::new();
    let mut i: usize = 0;
    while i < lasers.len()
        invariant
            i <= lasers.len(),
            laser_hit@.len() == i,
            forall|k: int| 0 <= k < i ==> #[trigger] laser_hit@[k] == hits_any(lasers@[k], enemies@),
        decreases lasers.len() - i,
    {
        let hit = touches_any(&lasers[i], enemies);
        laser_hit.push(hit);
        i = i + 1;
    }
    let mut enemy_hit: Vec<bool> = Vec::new();
    let mut j: usize = 0;
    while j < enemies.len()
        invariant
            j <= enemies.len(),
            enemy_hit@.len() == j,
            forall|k: int| 0 <= k < j ==> #[trigger] enemy_hit@[k] == hits_any(enemies@[k], lasers@),
        decreases enemies.len() - j,
    {
        let hit = touches_any(&enemies[j], lasers);
        enemy_hit.push(hit);
        j = j + 1;
    }
    (laser_hit, enemy_hit)
}

} // verus!
