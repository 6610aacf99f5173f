//! The obstacle check, the trigger check and scoring, and the fading of
//! scored triggers.
use crate::entity::{size_ok, Body, Border, Entity, Kind};
use crate::game::{entities_ok, Game, GameState};
use crate::geometry::{boxes_overlap, collide, Vec2};
use vstd::prelude::*;

verus! {

/// The body's box for obstacle checks: 95% of its size, a small margin
/// of tolerance.
pub open spec fn shrunk(s: Vec2) -> Vec2 {
    Vec2 { x: (s.x * 95 / 100) as i64, y: (s.y * 95 / 100) as i64 }
}

pub open spec fn hits_obstacle(b: Body, e: Entity) -> bool {
    e.kind is Obstacle && boxes_overlap(b.pos, shrunk(b.size), e.pos, e.size)
}

pub open spec fn hits_border(b: Body, br: Border) -> bool {
    boxes_overlap(b.pos, shrunk(b.size), br.pos, br.size)
}

/// The body touches an obstacle segment or a border.
pub open spec fn crashes(b: Body, entities: Seq<Entity>, borders: Seq<Border>) -> bool {
    (exists|i: int| 0 <= i < entities.len() && #[trigger] hits_obstacle(b, entities[i]))
        || (exists|j: int| 0 <= j < borders.len() && #[trigger] hits_border(b, borders[j]))
}

/// A trigger not yet scored that overlaps the body's full-size box.
pub open spec fn scores(b: Body, e: Entity) -> bool {
    &&& e.kind matches Kind::Trigger { scored, .. }
    &&& !scored
    &&& boxes_overlap(b.pos, b.size, e.pos, e.size)
}

/// A trigger with its one-way latch set; any other entity as it is.
pub open spec fn mark_scored(e: Entity) -> Entity {
    match e.kind {
        Kind::Trigger { scored, alpha, fade_speed } => Entity {
            kind: Kind::Trigger { scored: true, alpha, fade_speed },
            ..e
        },
        _ => e,
    }
}

/// An entity after one scoring check against the body.
pub open spec fn score_checked(b: Body, e: Entity) -> Entity {
    if scores(b, e) {
        mark_scored(e)
    } else {
        e
    }
}

/// How many entities of `s` score against the body.
pub open spec fn newly_scored(b: Body, s: Seq<Entity>) -> nat
    decreases s.len(),
{
    if s.len() == 0 {
        0
    } else {
        newly_scored(b, s.drop_last()) + if scores(b, s.last()) {
            1nat
        } else {
            0nat
        }
    }
}

/// `a + n`, saturated at the largest counter value.
pub open spec fn sat_add(a: int, n: int) -> int {
    if a + n > u64::MAX {
        u64::MAX as int
    } else {
        a + n
    }
}

/// A scored trigger after `dt` milliseconds of fading: its alpha falls by
/// `fade_speed * dt`, and stops at zero. Anything else is unchanged.
pub open spec fn faded(e: Entity, dt: int) -> Entity {
    match e.kind {
        Kind::Trigger { scored, alpha, fade_speed } => if scored {
            Entity {
                kind: Kind::Trigger {
                    scored,
                    alpha: if alpha - fade_speed * dt < 0 {
                        0
                    } else {
                        (alpha - fade_speed * dt) as i64
                    },
                    fade_speed,
                },
                ..e
            }
        } else {
            e
        },
        _ => e,
    }
}

fn shrink(s: Vec2) -> (r: Vec2)
    requires
        size_ok(s),
    ensures
        r == shrunk(s),
        size_ok(r),
{
    let x: u128 = (s.x as u128) * 95 / 100;
    let y: u128 = (s.y as u128) * 95 / 100;
    Vec2 { x: x as i64, y: y as i64 }
}

fn fade_entity(e: Entity, dt: u64) -> (r: Entity)
    requires
        e.wf(),
    ensures
        r == faded(e, dt as int),
        r.wf(),
{
    match e.kind {
        Kind::Trigger { scored, alpha, fade_speed } => {
            if scored {
                assert(0 <= (fade_speed as int) * (dt as int) <= 0x4000_0000int * 0xffff_ffff_ffff_ffffint)
                    by (nonlinear_arith)
                    requires
                        0 <= fade_speed <= 0x4000_0000,
                ;
                let left: i128 = (alpha as i128) - (fade_speed as i128) * (dt as i128);
                let a: i64 = if left < 0 { 0 } else { left as i64 };
                Entity { kind: Kind::Trigger { scored, alpha: a, fade_speed }, ..e }
            } else {
                e
            }
        },
        _ => e,
    }
}

impl Game {
    /// The obstacle check: when the body's shrunk box overlaps an obstacle
    /// segment or a border, the body is flagged to explode and the game is
    /// `Over`. Returns whether that happened.
    pub fn check_collisions(&mut self) -> (hit: bool)
        requires
            old(self).wf(),
        ensures
            final(self).wf(),
            match old(self).body {
                None => !hit,
                Some(b) => hit == crashes(b, old(self).entities@, old(self).borders@),
            },
            hit ==> final(self).state == GameState::Over,
            hit ==> final(self).body == Some(Body { explode: true, ..old(self).body.unwrap() }),
            !hit ==> final(self).state == old(self).state,
            !hit ==> final(self).body == old(self).body,
            final(self).borders@ == old(self).borders@,
            final(self).entities@ == old(self).entities@,
            final(self).score == old(self).score,
            final(self).highscore == old(self).highscore,
            final(self).last_spawn_x == old(self).last_spawn_x,
    {
        let b: Body = match self.body {
            None => {
                return false;
            },
            Some(b) => b,
        };
        let small: Vec2 = shrink(b.size);
        let mut found: bool = false;
        let n: usize = self.entities.len();
        let mut i: usize = 0;
        while i < n
            invariant
                n == self.entities@.len(),
                i <= n,
                entities_ok(self.entities@),
                b.wf(),
                small == shrunk(b.size),
                size_ok(small),
                found == exists|j: int| 0 <= j < i && #[trigger] hits_obstacle(b, self.entities@[j]),
            decreases n - i,
        {
            let e: Entity = self.entities[i];
            assert(e.wf());
            if e.kind == Kind::Obstacle && collide(b.pos, small, e.pos, e.size) {
                found = true;
            }
            proof {
                if found && !(exists|j: int| 0 <= j < i && #[trigger] hits_obstacle(b, self.entities@[j])) {
                    assert(hits_obstacle(b, self.entities@[i as int]));
                }
            }
            i = i + 1;
        }
        let bottom: Border = self.borders[0];
        let top: Border = self.borders[1];
        let hit_bottom: bool = collide(b.pos, small, bottom.pos, bottom.size);
        let hit_top: bool = collide(b.pos, small, top.pos, top.size);
        proof {
            if hit_bottom {
                assert(hits_border(b, self.borders@[0]));
            }
            if hit_top {
                assert(hits_border(b, self.borders@[1]));
            }
            if exists|j: int| 0 <= j < self.borders@.len() && #[trigger] hits_border(b, self.borders@[j]) {
                let j = choose|j: int| 0 <= j < self.borders@.len() && #[trigger] hits_border(b, self.borders@[j]);
                assert(j == 0 || j == 1);
            }
        }
        if found || hit_bottom || hit_top {
            self.body = Some(Body { explode: true, ..b });
            self.state = GameState::Over;
            true
        } else {
            false
        }
    }

    /// The trigger check: each unscored trigger that overlaps the body's
    /// full box latches to scored (which also starts its fade) and adds one
    /// to the score; a scored trigger never counts again.
    pub fn score_triggers(&mut self)
        requires
            old(self).wf(),
        ensures
            final(self).wf(),
            final(self).entities@.len() == old(self).entities@.len(),
            match old(self).body {
                None => final(self).entities@ == old(self).entities@ && final(self).score
                    == old(self).score,
                Some(b) => (forall|i: int|
                    0 <= i < old(self).entities@.len() ==> #[trigger] final(self).entities@[i]
                        == score_checked(b, old(self).entities@[i])) && final(self).score
                    == sat_add(old(self).score as int, newly_scored(b, old(self).entities@) as int),
            },
            final(self).state == old(self).state,
            final(self).body == old(self).body,
            final(self).borders@ == old(self).borders@,
            final(self).highscore == old(self).highscore,
            final(self).last_spawn_x == old(self).last_spawn_x,
    {
        let b: Body = match self.body {
            None => {
                return;
            },
            Some(b) => b,
        };
        let ghost before = self.entities@;
        let n: usize = self.entities.len();
        let mut out: Vec<Entity> = Vec::new();
        let mut score: u64 = self.score;
        let mut i: usize = 0;
        while i < n
            invariant
                n == self.entities@.len(),
                before == self.entities@,
                i <= n,
                entities_ok(self.entities@),
                b.wf(),
                out@.len() == i,
                forall|j: int| 0 <= j < i ==> #[trigger] out@[j] == score_checked(b, before[j]),
                entities_ok(out@),
                score == sat_add(old(self).score as int, newly_scored(b, before.subrange(0, i as int)) as int),
            decreases n - i,
        {
            let e: Entity = self.entities[i];
            assert(e.wf());
            assert(before.subrange(0, i + 1).drop_last() =~= before.subrange(0, i as int));
            let mut next: Entity = e;
            match e.kind {
                Kind::Trigger { scored, alpha, fade_speed } => {
                    if !scored && collide(b.pos, b.size, e.pos, e.size) {
                        next = Entity { kind: Kind::Trigger { scored: true, alpha, fade_speed }, ..e };
                        if score < u64::MAX {
                            score = score + 1;
                        }
                    }
                },
                _ => {},
            }
            out.push(next);
            i = i + 1;
        }
        self.score = score;
        assert(before.subrange(0, n as int) =~= before);
        self.entities = out;
    }

    /// Scored triggers fade: alpha falls by `fade_speed * dt`, down to zero.
    pub fn fade(&mut self, dt: u64)
        requires
            old(self).wf(),
        ensures
            final(self).wf(),
            final(self).entities@.len() == old(self).entities@.len(),
            forall|i: int|
                0 <= i < old(self).entities@.len() ==> #[trigger] final(self).entities@[i]
                    == faded(old(self).entities@[i], dt as int),
            final(self).state == old(self).state,
            final(self).body == old(self).body,
            final(self).borders@ == old(self).borders@,
            final(self).score == old(self).score,
            final(self).highscore == old(self).highscore,
            final(self).last_spawn_x == old(self).last_spawn_x,
    {
        let n: usize = self.entities.len();
        let mut out: Vec<Entity> = Vec::new();
        let mut i: usize = 0;
        while i < n
            invariant
                n == self.entities@.len(),
                i <= n,
                entities_ok(self.entities@),
                out@.len() == i,
                forall|j: int| 0 <= j < i ==> #[trigger] out@[j] == faded(self.entities@[j], dt as int),
                entities_ok(out@),
            decreases n - i,
        {
            let e: Entity = fade_entity(self.entities[i], dt);
            out.push(e);
            i = i + 1;
        }
        self.entities = out;
    }
}

} // verus!
