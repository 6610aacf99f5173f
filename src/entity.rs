//! The records the simulation is made of: the body, the two borders, and the
//! scrolling entities (obstacle segments, score triggers, particles).
use crate::geometry::{coord_ok, vec_ok, Vec2, COORD_LIMIT};
use vstd::prelude::*;

verus! {

/// Bound on a gravity magnitude, in micro-units per square millisecond.
pub const GRAVITY_LIMIT: i64 = 0x4000_0000;

/// Bound on a flap height, in micro-units.
pub const FLAP_HEIGHT_LIMIT: i64 = 0x1_0000_0000;

/// Bound on a particle speed, in micro-units per millisecond.
pub const SPEED_LIMIT: i64 = 0x4000_0000;

/// A fully opaque alpha channel, in millionths.
pub const ALPHA_FULL: i64 = 1_000_000;

/// `v` moved to the nearest value in `[-COORD_LIMIT, COORD_LIMIT]`: the world
/// is bounded, and motion saturates at its edge.
pub open spec fn clamp(v: int) -> int {
    if v < -COORD_LIMIT {
        -COORD_LIMIT as int
    } else if v > COORD_LIMIT {
        COORD_LIMIT as int
    } else {
        v
    }
}

/// A coordinate `p` after moving at speed `v` for `dt` milliseconds.
pub open spec fn advance(p: int, v: int, dt: int) -> int {
    clamp(p + v * dt)
}

/// A point `p` after moving with velocity `v` for `dt` milliseconds.
pub open spec fn moved(p: Vec2, v: Vec2, dt: int) -> Vec2 {
    Vec2 { x: advance(p.x as int, v.x as int, dt) as i64, y: advance(p.y as int, v.y as int, dt) as i64 }
}

pub fn advance_coord(p: i64, v: i64, dt: u64) -> (r: i64)
    requires
        coord_ok(p),
        coord_ok(v),
    ensures
        r == advance(p as int, v as int, dt as int),
        coord_ok(r),
{
    assert(-0x1000_0000_0000_0000_0000_0000_0000_0000int <= (v as int) * (dt as int)
        <= 0x1000_0000_0000_0000_0000_0000_0000_0000int) by (nonlinear_arith)
        requires
            -0x1000_0000_0000_0000int <= v <= 0x1000_0000_0000_0000int,
            0 <= dt <= 0xffff_ffff_ffff_ffffint,
    ;
    let s: i128 = (p as i128) + (v as i128) * (dt as i128);
    if s < -(COORD_LIMIT as i128) {
        -COORD_LIMIT
    } else if s > COORD_LIMIT as i128 {
        COORD_LIMIT
    } else {
        s as i64
    }
}

pub fn move_point(p: Vec2, v: Vec2, dt: u64) -> (r: Vec2)
    requires
        vec_ok(p),
        vec_ok(v),
    ensures
        r == moved(p, v, dt as int),
        vec_ok(r),
{
    Vec2 { x: advance_coord(p.x, v.x, dt), y: advance_coord(p.y, v.y, dt) }
}

/// Sizes are non-negative and bounded.
pub open spec fn size_ok(s: Vec2) -> bool {
    0 <= s.x <= COORD_LIMIT && 0 <= s.y <= COORD_LIMIT
}

/// What a scrolling entity is, with the state that only that kind carries.
#[derive(Clone, Copy, Debug, PartialEq, Eq, Structural)]
pub enum Kind {
    /// One half of an obstacle pair; the body must not touch it.
    Obstacle,
    /// The zone in an obstacle gap that awards a point. `scored` latches
    /// from false to true once; from then on the zone fades out, its
    /// `alpha` falling by `fade_speed` per millisecond down to zero.
    Trigger { scored: bool, alpha: i64, fade_speed: i64 },
    /// A short-lived fragment of an exploded body, with the milliseconds it
    /// has left.
    Particle { lifetime: i64 },
}

/// An entity that moves at its own constant velocity and is destroyed on
/// restart.
#[derive(Clone, Copy, Debug, PartialEq, Eq, Structural)]
pub struct Entity {
    pub pos: Vec2,
    pub vel: Vec2,
    pub size: Vec2,
    pub kind: Kind,
}

impl Entity {
    pub open spec fn wf(self) -> bool {
        &&& vec_ok(self.pos)
        &&& vec_ok(self.vel)
        &&& size_ok(self.size)
        &&& match self.kind {
            Kind::Obstacle => true,
            Kind::Trigger { scored, alpha, fade_speed } => 0 <= alpha <= ALPHA_FULL && 0
                <= fade_speed <= SPEED_LIMIT,
            Kind::Particle { lifetime } => coord_ok(lifetime),
        }
    }

    /// The entity after `dt` milliseconds of motion.
    pub open spec fn moved(self, dt: int) -> Entity {
        Entity { pos: moved(self.pos, self.vel, dt), ..self }
    }

    pub fn step(&self, dt: u64) -> (r: Entity)
        requires
            self.wf(),
        ensures
            r == self.moved(dt as int),
            r.wf(),
    {
        Entity { pos: move_point(self.pos, self.vel, dt), ..*self }
    }
}

/// The player-controlled body, with what its explosion is made of.
#[derive(Clone, Copy, Debug, PartialEq, Eq, Structural)]
pub struct Body {
    pub pos: Vec2,
    pub vel: Vec2,
    pub size: Vec2,
    /// Downward acceleration, in micro-units per square millisecond.
    pub gravity: i64,
    /// The height a flap would lift the body to, in micro-units.
    pub flap_height: i64,
    /// Set when the body hits an obstacle; the body then bursts.
    pub explode: bool,
    pub particle_count: u32,
    /// Particle speeds are drawn from `[speed_min, speed_max)`.
    pub speed_min: i64,
    pub speed_max: i64,
    /// Particle lifetimes are drawn from `[lifetime_min, lifetime_max)`.
    pub lifetime_min: i64,
    pub lifetime_max: i64,
}

impl Body {
    pub open spec fn wf(self) -> bool {
        &&& vec_ok(self.pos)
        &&& vec_ok(self.vel)
        &&& size_ok(self.size)
        &&& 0 <= self.gravity <= GRAVITY_LIMIT
        &&& 0 <= self.flap_height <= FLAP_HEIGHT_LIMIT
        &&& 0 <= self.speed_min < self.speed_max <= SPEED_LIMIT
        &&& 0 <= self.lifetime_min < self.lifetime_max <= COORD_LIMIT
    }

    /// The body after `dt` milliseconds of motion.
    pub open spec fn moved(self, dt: int) -> Body {
        Body { pos: moved(self.pos, self.vel, dt), ..self }
    }
}

/// One of the two strips along the top and bottom of the viewport; `role` is
/// -1 for the bottom strip and 1 for the top one.
#[derive(Clone, Copy, Debug, PartialEq, Eq, Structural)]
pub struct Border {
    pub pos: Vec2,
    pub size: Vec2,
    pub role: i64,
}

/// The visible area, centred on the origin.
#[derive(Clone, Copy, Debug, PartialEq, Eq, Structural)]
pub struct Viewport {
    pub width: i64,
    pub height: i64,
}

/// Bound on each side of the viewport, in micro-units.
pub const VIEW_LIMIT: i64 = 0x100_0000_0000;

impl Viewport {
    pub open spec fn ok(self) -> bool {
        0 < self.width <= VIEW_LIMIT && 0 < self.height <= VIEW_LIMIT
    }
}

/// Palette entries of the game's visuals.
#[derive(Clone, Copy, Debug, PartialEq, Eq, Structural)]
pub enum ColorType {
    Pillar,
    Bird,
    Bg,
    Laser,
    Score,
}

/// An opaque colour with 8-bit channels.
#[derive(Clone, Copy, Debug, PartialEq, Eq, Structural)]
pub struct Rgb {
    pub r: u8,
    pub g: u8,
    pub b: u8,
}

impl ColorType {
    pub open spec fn spec_color(self) -> Rgb {
        match self {
            ColorType::Pillar => Rgb { r: 255, g: 180, b: 84 },
            ColorType::Bird => Rgb { r: 89, g: 194, b: 255 },
            ColorType::Bg => Rgb { r: 13, g: 16, b: 22 },
            ColorType::Laser => Rgb { r: 240, g: 46, b: 46 },
            ColorType::Score => Rgb { r: 149, g: 230, b: 203 },
        }
    }

    pub fn get_color(&self) -> (r: Rgb)
        ensures
            r == self.spec_color(),
    {
        match self {
            ColorType::Pillar => Rgb { r: 255, g: 180, b: 84 },
            ColorType::Bird => Rgb { r: 89, g: 194, b: 255 },
            ColorType::Bg => Rgb { r: 13, g: 16, b: 22 },
            ColorType::Laser => Rgb { r: 240, g: 46, b: 46 },
            ColorType::Score => Rgb { r: 149, g: 230, b: 203 },
        }
    }
}

} // verus!
