//! Obstacle pairs: when they appear, and where.
use crate::entity::{advance, advance_coord, Entity, Kind, Viewport, ALPHA_FULL};
use crate::game::{entities_ok, Game};
use crate::geometry::Vec2;
use crate::random::Dice;
use vstd::prelude::*;

verus! {

/// Height of the gap between the two segments of an obstacle pair.
pub const OBSTACLE_GAP: i64 = 155_000_000;

pub const OBSTACLE_WIDTH: i64 = 60_000_000;

/// A pair is spawned once the viewport's width exceeds `last_spawn_x` by
/// more than this.
pub const SPAWN_DISTANCE: i64 = 380_000_000;

/// Leftward speed of obstacles and triggers.
pub const SCROLL_SPEED: i64 = 350_000;

pub const TRIGGER_WIDTH: i64 = 5_000_000;

/// Alpha lost per millisecond by a scored trigger, in millionths.
pub const FADE_SPEED: i64 = 3000;

/// One whole, for fractions written in millionths.
pub const FRACTION_ONE: i64 = 1_000_000;

/// The share of the viewport height above the gap is drawn from
/// `[GAP_FRACTION_MIN, GAP_FRACTION_MAX)` millionths.
pub const GAP_FRACTION_MIN: i64 = 200_000;

pub const GAP_FRACTION_MAX: i64 = 800_000;

/// Horizontal centre of a new obstacle pair: just past the right edge.
pub open spec fn spawn_x(view: Viewport) -> int {
    view.width / 2 + OBSTACLE_WIDTH / 2
}

/// Height of a segment: the upper one (`role == -1`) takes the share
/// `1 - f` of the viewport, the lower one (`role == 1`) the share `f`.
pub open spec fn segment_height(view: Viewport, f: int, role: int) -> int {
    if role == -1 {
        view.height * (FRACTION_ONE - f) / FRACTION_ONE as int
    } else {
        view.height * f / FRACTION_ONE as int
    }
}

/// Vertical centre of a segment, leaving half the gap on its side of the
/// gap's centre.
pub open spec fn segment_y(view: Viewport, f: int, role: int) -> int {
    role * ((segment_height(view, f, role) / 2 - view.height / 2) - OBSTACLE_GAP / 2)
}

pub open spec fn scroll_velocity() -> Vec2 {
    Vec2 { x: (-SCROLL_SPEED) as i64, y: 0 }
}

pub open spec fn segment(view: Viewport, f: int, role: int) -> Entity {
    Entity {
        pos: Vec2 { x: spawn_x(view) as i64, y: segment_y(view, f, role) as i64 },
        vel: scroll_velocity(),
        size: Vec2 { x: OBSTACLE_WIDTH, y: segment_height(view, f, role) as i64 },
        kind: Kind::Obstacle,
    }
}

/// The unscored trigger filling the gap of a pair, centred at
/// `height * (f - 1/2)`.
pub open spec fn gap_trigger(view: Viewport, f: int) -> Entity {
    Entity {
        pos: Vec2 {
            x: spawn_x(view) as i64,
            y: (view.height * f / FRACTION_ONE as int - view.height / 2) as i64,
        },
        vel: scroll_velocity(),
        size: Vec2 { x: TRIGGER_WIDTH, y: OBSTACLE_GAP },
        kind: Kind::Trigger { scored: false, alpha: ALPHA_FULL, fade_speed: FADE_SPEED },
    }
}

/// What one spawn adds: upper segment, lower segment, trigger.
pub open spec fn spawned_pair(view: Viewport, f: int) -> Seq<Entity> {
    seq![segment(view, f, -1), segment(view, f, 1), gap_trigger(view, f)]
}

pub open spec fn spawn_due(view: Viewport, last_spawn_x: int) -> bool {
    view.width - last_spawn_x > SPAWN_DISTANCE
}

pub open spec fn gap_fraction_ok(f: int) -> bool {
    GAP_FRACTION_MIN <= f < GAP_FRACTION_MAX
}

fn make_segment(view: Viewport, f: i64, role: i64) -> (r: Entity)
    requires
        view.ok(),
        gap_fraction_ok(f as int),
        role == -1 || role == 1,
    ensures
        r == segment(view, f as int, role as int),
        r.wf(),
{
    let h: u64 = view.height as u64;
    let share: u64 = if role == -1 { (FRACTION_ONE - f) as u64 } else { f as u64 };
    assert(h * share <= 0x100_0000_0000 * 1_000_000) by (nonlinear_arith)
        requires
            h <= 0x100_0000_0000,
            share <= 1_000_000,
    ;
    let ph: u64 = h * share / (FRACTION_ONE as u64);
    assert(ph <= h) by (nonlinear_arith)
        requires
            ph == h * share / 1_000_000,
            share <= 1_000_000,
    ;
    let inner: i64 = ((ph / 2) as i64 - (h / 2) as i64) - OBSTACLE_GAP / 2;
    let y: i64 = if role == -1 { 0 - inner } else { inner };
    let x: i64 = view.width / 2 + OBSTACLE_WIDTH / 2;
    Entity {
        pos: Vec2 { x, y },
        vel: Vec2 { x: 0 - SCROLL_SPEED, y: 0 },
        size: Vec2 { x: OBSTACLE_WIDTH, y: ph as i64 },
        kind: Kind::Obstacle,
    }
}

fn make_trigger(view: Viewport, f: i64) -> (r: Entity)
    requires
        view.ok(),
        gap_fraction_ok(f as int),
    ensures
        r == gap_trigger(view, f as int),
        r.wf(),
{
    let h: u64 = view.height as u64;
    assert(h * (f as u64) <= 0x100_0000_0000 * 1_000_000) by (nonlinear_arith)
        requires
            h <= 0x100_0000_0000,
            0 <= f <= 1_000_000,
    ;
    let above: u64 = h * (f as u64) / (FRACTION_ONE as u64);
    assert(above <= h) by (nonlinear_arith)
        requires
            above == h * f / 1_000_000,
            0 <= f <= 1_000_000,
    ;
    let y: i64 = above as i64 - (h / 2) as i64;
    Entity {
        pos: Vec2 { x: view.width / 2 + OBSTACLE_WIDTH / 2, y },
        vel: Vec2 { x: 0 - SCROLL_SPEED, y: 0 },
        size: Vec2 { x: TRIGGER_WIDTH, y: OBSTACLE_GAP },
        kind: Kind::Trigger { scored: false, alpha: ALPHA_FULL, fade_speed: FADE_SPEED },
    }
}

impl Game {
    /// Whether the spawn cadence calls for a new obstacle pair.
    pub fn spawn_is_due(&self, view: Viewport) -> (r: bool)
        requires
            self.wf(),
            view.ok(),
        ensures
            r == spawn_due(view, self.last_spawn_x as int),
    {
        (view.width as i128) - (self.last_spawn_x as i128) > SPAWN_DISTANCE as i128
    }

    /// Adds one obstacle pair and its trigger, with the share `f` (in
    /// millionths) of the viewport height above the gap, and re-bases the
    /// cadence on the new pair: `last_spawn_x` becomes its centre plus half
    /// the viewport width.
    pub fn spawn_pair(&mut self, view: Viewport, f: i64)
        requires
            old(self).wf(),
            view.ok(),
            gap_fraction_ok(f as int),
        ensures
            final(self).wf(),
            final(self).entities@ == old(self).entities@ + spawned_pair(view, f as int),
            final(self).last_spawn_x == spawn_x(view) + view.width / 2,
            final(self).state == old(self).state,
            final(self).body == old(self).body,
            final(self).borders@ == old(self).borders@,
            final(self).score == old(self).score,
            final(self).highscore == old(self).highscore,
    {
        let upper: Entity = make_segment(view, f, -1);
        let lower: Entity = make_segment(view, f, 1);
        let trigger: Entity = make_trigger(view, f);
        let ghost before = self.entities@;
        self.entities.push(upper);
        self.entities.push(lower);
        self.entities.push(trigger);
        assert(self.entities@ =~= before + spawned_pair(view, f as int));
        assert(entities_ok(self.entities@)) by {
            assert forall|i: int| 0 <= i < self.entities@.len() implies #[trigger] self.entities@[i].wf() by {
                if i < before.len() {
                    assert(self.entities@[i] == before[i]);
                }
            }
        }
        self.last_spawn_x = view.width / 2 + OBSTACLE_WIDTH / 2 + view.width / 2;
    }

    /// The cadence coordinate scrolls left with the obstacles.
    pub fn advance_spawner(&mut self, dt: u64)
        requires
            old(self).wf(),
        ensures
            final(self).wf(),
            final(self).last_spawn_x == advance(old(self).last_spawn_x as int, -SCROLL_SPEED, dt as int),
            final(self).state == old(self).state,
            final(self).body == old(self).body,
            final(self).borders@ == old(self).borders@,
            final(self).entities@ == old(self).entities@,
            final(self).score == old(self).score,
            final(self).highscore == old(self).highscore,
    {
        self.last_spawn_x = advance_coord(self.last_spawn_x, 0 - SCROLL_SPEED, dt);
    }

    /// One frame of the spawner: a pair with a random gap appears exactly
    /// when one is due, then the cadence coordinate scrolls by
    /// `SCROLL_SPEED * dt`.
    pub fn run_spawner(&mut self, view: Viewport, dt: u64, dice: &mut Dice)
        requires
            old(self).wf(),
            view.ok(),
        ensures
            final(self).wf(),
            spawn_due(view, old(self).last_spawn_x as int) ==> exists|f: int|
                gap_fraction_ok(f) && final(self).entities@ == old(self).entities@
                    + spawned_pair(view, f),
            spawn_due(view, old(self).last_spawn_x as int) ==> final(self).last_spawn_x
                == advance(spawn_x(view) + view.width / 2, -SCROLL_SPEED, dt as int),
            !spawn_due(view, old(self).last_spawn_x as int) ==> final(self).entities@
                == old(self).entities@,
            !spawn_due(view, old(self).last_spawn_x as int) ==> final(self).last_spawn_x
                == advance(old(self).last_spawn_x as int, -SCROLL_SPEED, dt as int),
            final(self).state == old(self).state,
            final(self).body == old(self).body,
            final(self).borders@ == old(self).borders@,
            final(self).score == old(self).score,
            final(self).highscore == old(self).highscore,
    {
        if self.spawn_is_due(view) {
            let f: i64 = dice.range(GAP_FRACTION_MIN, GAP_FRACTION_MAX);
            let ghost before = self.entities@;
            self.spawn_pair(view, f);
            assert(gap_fraction_ok(f as int) && self.entities@ == before + spawned_pair(view, f as int));
        }
        self.advance_spawner(dt);
    }
}

} // verus!
