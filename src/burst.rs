//! The explosion burst, particle lifetimes, and the removal of whatever has
//! scrolled out of view.
use crate::entity::{advance, advance_coord, Body, Entity, Kind, Viewport, SPEED_LIMIT};
use crate::game::{entities_ok, Game};
use crate::geometry::{coord_ok, isqrt, is_isqrt, vec_ok, Vec2, COORD_LIMIT};
use crate::random::Dice;
use crate::spawner::FRACTION_ONE;
use vstd::prelude::*;

verus! {

/// Particle sizes are this share of the body's size, in millionths,
/// drawn from `[PARTICLE_SIZE_MIN, PARTICLE_SIZE_MAX)`.
pub const PARTICLE_SIZE_MIN: i64 = 50_000;

pub const PARTICLE_SIZE_MAX: i64 = 500_000;

/// The random draws behind one particle: a size share in millionths, a
/// direction whose components are millionths in `[-1, 1)`, a speed and a
/// lifetime.
#[derive(Clone, Copy, Debug, PartialEq, Eq, Structural)]
pub struct ParticleDraw {
    pub size_frac: i64,
    pub dir_x: i64,
    pub dir_y: i64,
    pub speed: i64,
    pub lifetime: i64,
}

/// Each draw lies in its configured range for this body.
pub open spec fn draw_ok(b: Body, d: ParticleDraw) -> bool {
    &&& PARTICLE_SIZE_MIN <= d.size_frac < PARTICLE_SIZE_MAX
    &&& -FRACTION_ONE <= d.dir_x < FRACTION_ONE
    &&& -FRACTION_ONE <= d.dir_y < FRACTION_ONE
    &&& b.speed_min <= d.speed < b.speed_max
    &&& b.lifetime_min <= d.lifetime < b.lifetime_max
}

/// The integer square root of a non-negative `n`.
pub open spec fn root(n: int) -> int {
    choose|r: int| is_isqrt(n, r)
}

/// One component of `speed` times the unit vector along a direction whose
/// component is `d` and whose length is `len`, rounded toward zero; a zero
/// direction gives no motion.
pub open spec fn scaled(speed: int, d: int, len: int) -> int {
    if len == 0 {
        0
    } else if d >= 0 {
        speed * d / len
    } else {
        -(speed * (-d) / len)
    }
}

/// The particle that a draw makes of the body: at the body's position,
/// moving at the drawn speed along the drawn direction.
pub open spec fn particle_of(b: Body, d: ParticleDraw) -> Entity {
    let len = root(d.dir_x * d.dir_x + d.dir_y * d.dir_y);
    Entity {
        pos: b.pos,
        vel: Vec2 {
            x: scaled(d.speed as int, d.dir_x as int, len) as i64,
            y: scaled(d.speed as int, d.dir_y as int, len) as i64,
        },
        size: Vec2 {
            x: (b.size.x * d.size_frac / FRACTION_ONE as int) as i64,
            y: (b.size.y * d.size_frac / FRACTION_ONE as int) as i64,
        },
        kind: Kind::Particle { lifetime: d.lifetime },
    }
}

/// The body is present and flagged to explode.
pub open spec fn exploding(b: Option<Body>) -> bool {
    b matches Some(b) && b.explode
}

pub proof fn lemma_isqrt_unique(n: int, r1: int, r2: int)
    requires
        is_isqrt(n, r1),
        is_isqrt(n, r2),
    ensures
        r1 == r2,
{
    if r1 < r2 {
        assert((r1 + 1) * (r1 + 1) <= r2 * r2) by (nonlinear_arith)
            requires
                0 <= r1 < r2,
        ;
    } else if r2 < r1 {
        assert((r2 + 1) * (r2 + 1) <= r1 * r1) by (nonlinear_arith)
            requires
                0 <= r2 < r1,
        ;
    }
}

fn scale_component(speed: i64, d: i64, len: u64) -> (r: i64)
    requires
        0 <= speed <= SPEED_LIMIT,
        -FRACTION_ONE <= d <= FRACTION_ONE,
        len <= 0x1_0000_0000,
    ensures
        r == scaled(speed as int, d as int, len as int),
        coord_ok(r),
{
    if len == 0 {
        return 0;
    }
    let m: u64 = if d >= 0 { d as u64 } else { (0 - d) as u64 };
    assert(speed * m <= 0x4000_0000 * 1_000_000) by (nonlinear_arith)
        requires
            0 <= speed <= 0x4000_0000,
            m <= 1_000_000,
    ;
    let q: u64 = (speed as u64) * m / len;
    assert(q <= speed * m) by (nonlinear_arith)
        requires
            q == (speed * m) / (len as int),
            len >= 1,
            speed * m >= 0,
    ;
    if d >= 0 {
        q as i64
    } else {
        0 - (q as i64)
    }
}

fn scale_size(s: i64, frac: i64) -> (r: i64)
    requires
        0 <= s <= COORD_LIMIT,
        0 <= frac < FRACTION_ONE,
    ensures
        r == s * frac / FRACTION_ONE as int,
        0 <= r <= s,
{
    assert(s * frac <= 0x1000_0000_0000_0000int * 1_000_000) by (nonlinear_arith)
        requires
            0 <= s <= 0x1000_0000_0000_0000int,
            0 <= frac < 1_000_000,
    ;
    let p: u128 = (s as u128) * (frac as u128);
    assert(p <= (s as int) * 1_000_000) by (nonlinear_arith)
        requires
            p == s * frac,
            0 <= s,
            0 <= frac < 1_000_000,
    ;
    let q: u128 = p / (FRACTION_ONE as u128);
    assert(q <= s) by (nonlinear_arith)
        requires
            q == p / 1_000_000,
            p <= s * 1_000_000,
            0 <= s,
    ;
    q as i64
}

pub fn make_particle(b: &Body, d: &ParticleDraw) -> (r: Entity)
    requires
        b.wf(),
        draw_ok(*b, *d),
    ensures
        r == particle_of(*b, *d),
        r.wf(),
{
    let ghost n = d.dir_x * d.dir_x + d.dir_y * d.dir_y;
    assert(0 <= d.dir_x * d.dir_x <= 1_000_000_000_000) by (nonlinear_arith)
        requires
            -1_000_000 <= d.dir_x <= 1_000_000,
    ;
    assert(0 <= d.dir_y * d.dir_y <= 1_000_000_000_000) by (nonlinear_arith)
        requires
            -1_000_000 <= d.dir_y <= 1_000_000,
    ;
    let sq: u64 = (d.dir_x * d.dir_x + d.dir_y * d.dir_y) as u64;
    let len: u64 = isqrt(sq);
    proof {
        lemma_isqrt_unique(n, len as int, root(n));
        assert(len <= 0x1_0000_0000) by (nonlinear_arith)
            requires
                len * len <= 2_000_000_000_000int,
        ;
    }
    Entity {
        pos: b.pos,
        vel: Vec2 { x: scale_component(d.speed, d.dir_x, len), y: scale_component(d.speed, d.dir_y, len) },
        size: Vec2 { x: scale_size(b.size.x, d.size_frac), y: scale_size(b.size.y, d.size_frac) },
        kind: Kind::Particle { lifetime: d.lifetime },
    }
}

/// A particle whose lifetime has run out.
pub open spec fn expired(e: Entity) -> bool {
    e.kind matches Kind::Particle { lifetime } && lifetime <= 0
}

/// A particle with `dt` milliseconds less to live; anything else as it is.
pub open spec fn aged_one(e: Entity, dt: int) -> Entity {
    match e.kind {
        Kind::Particle { lifetime } => Entity {
            kind: Kind::Particle { lifetime: advance(lifetime as int, -1, dt) as i64 },
            ..e
        },
        _ => e,
    }
}

/// One lifetime pass: expired particles are dropped, the other particles
/// age by `dt`, in order.
pub open spec fn aged(s: Seq<Entity>, dt: int) -> Seq<Entity>
    decreases s.len(),
{
    if s.len() == 0 {
        s
    } else if expired(s.last()) {
        aged(s.drop_last(), dt)
    } else {
        aged(s.drop_last(), dt).push(aged_one(s.last(), dt))
    }
}

/// An entity whose right edge, `x + size.x`, lies left of the viewport.
pub open spec fn off_screen(pos: Vec2, size: Vec2, view: Viewport) -> bool {
    2 * (pos.x + size.x) < -view.width
}

/// The entities of `s` that are not off screen, in order.
pub open spec fn on_screen(s: Seq<Entity>, view: Viewport) -> Seq<Entity>
    decreases s.len(),
{
    if s.len() == 0 {
        s
    } else if off_screen(s.last().pos, s.last().size, view) {
        on_screen(s.drop_last(), view)
    } else {
        on_screen(s.drop_last(), view).push(s.last())
    }
}

fn is_off_screen(pos: Vec2, size: Vec2, view: Viewport) -> (r: bool)
    requires
        vec_ok(pos),
        vec_ok(size),
        view.ok(),
    ensures
        r == off_screen(pos, size, view),
{
    2 * ((pos.x as i128) + (size.x as i128)) < -(view.width as i128)
}

impl Game {
    /// The burst: a body flagged to explode is replaced by one particle per
    /// draw, all at its position, and is then destroyed, once. Otherwise
    /// nothing changes.
    pub fn explode(&mut self, draws: &Vec<ParticleDraw>)
        requires
            old(self).wf(),
            exploding(old(self).body) ==> draws@.len() == old(self).body.unwrap().particle_count,
            exploding(old(self).body) ==> forall|i: int|
                0 <= i < draws@.len() ==> draw_ok(old(self).body.unwrap(), #[trigger] draws@[i]),
        ensures
            final(self).wf(),
            exploding(old(self).body) ==> final(self).body.is_none(),
            exploding(old(self).body) ==> final(self).entities@ == old(self).entities@
                + draws@.map_values(|d: ParticleDraw| particle_of(old(self).body.unwrap(), d)),
            !exploding(old(self).body) ==> final(self).body == old(self).body,
            !exploding(old(self).body) ==> final(self).entities@ == old(self).entities@,
            final(self).state == old(self).state,
            final(self).borders@ == old(self).borders@,
            final(self).score == old(self).score,
            final(self).highscore == old(self).highscore,
            final(self).last_spawn_x == old(self).last_spawn_x,
    {
        let b: Body = match self.body {
            Some(b) => b,
            None => {
                return;
            },
        };
        if !b.explode {
            return;
        }
        let ghost before = self.entities@;
        let n: usize = draws.len();
        let mut i: usize = 0;
        while i < n
            invariant
                n == draws@.len(),
                i <= n,
                b.wf(),
                forall|j: int| 0 <= j < n ==> draw_ok(b, #[trigger] draws@[j]),
                self.entities@ == before + draws@.subrange(0, i as int).map_values(
                    |d: ParticleDraw| particle_of(b, d),
                ),
                entities_ok(self.entities@),
                self.body == old(self).body,
                self.state == old(self).state,
                self.borders@ == old(self).borders@,
                self.score == old(self).score,
                self.highscore == old(self).highscore,
                self.last_spawn_x == old(self).last_spawn_x,
            decreases n - i,
        {
            let d: ParticleDraw = draws[i];
            assert(draw_ok(b, draws@[i as int]));
            let e: Entity = make_particle(&b, &d);
            let ghost mid = self.entities@;
            self.entities.push(e);
            assert(draws@.subrange(0, i + 1) =~= draws@.subrange(0, i as int).push(d));
            assert(self.entities@ =~= before + draws@.subrange(0, i + 1).map_values(
                |d: ParticleDraw| particle_of(b, d),
            ));
            assert(entities_ok(self.entities@)) by {
                assert forall|j: int| 0 <= j < self.entities@.len() implies #[trigger] self.entities@[j].wf() by {
                    if j < mid.len() {
                        assert(self.entities@[j] == mid[j]);
                    }
                }
            }
            i = i + 1;
        }
        assert(draws@.subrange(0, n as int) =~= draws@);
        self.body = None;
    }

    /// The burst with fresh random draws: a body flagged to explode becomes
    /// `particle_count` particles, each the particle of some draw within
    /// the configured ranges (so each lifetime lies in
    /// `[lifetime_min, lifetime_max)`), and the body is gone.
    pub fn explode_with(&mut self, dice: &mut Dice)
        requires
            old(self).wf(),
        ensures
            final(self).wf(),
            exploding(old(self).body) ==> final(self).body.is_none(),
            exploding(old(self).body) ==> final(self).entities@.len() == old(self).entities@.len()
                + old(self).body.unwrap().particle_count,
            exploding(old(self).body) ==> final(self).entities@.subrange(
                0,
                old(self).entities@.len() as int,
            ) == old(self).entities@,
            exploding(old(self).body) ==> exists|draws: Seq<ParticleDraw>|
                draws.len() == old(self).body.unwrap().particle_count && (forall|i: int|
                    0 <= i < draws.len() ==> draw_ok(old(self).body.unwrap(), #[trigger] draws[i]))
                    && final(self).entities@ == old(self).entities@ + draws.map_values(
                    |d: ParticleDraw| particle_of(old(self).body.unwrap(), d),
                ),
            exploding(old(self).body) ==> forall|i: int|
                old(self).entities@.len() <= i < final(self).entities@.len() ==> exists|
                    d: ParticleDraw,
                | draw_ok(old(self).body.unwrap(), d) && #[trigger] final(self).entities@[i]
                    == particle_of(old(self).body.unwrap(), d),
            !exploding(old(self).body) ==> final(self).body == old(self).body,
            !exploding(old(self).body) ==> final(self).entities@ == old(self).entities@,
            final(self).state == old(self).state,
            final(self).borders@ == old(self).borders@,
            final(self).score == old(self).score,
            final(self).highscore == old(self).highscore,
            final(self).last_spawn_x == old(self).last_spawn_x,
    {
        let b: Body = match self.body {
            Some(b) => b,
            None => {
                return;
            },
        };
        if !b.explode {
            return;
        }
        let mut draws: Vec<ParticleDraw> = Vec::new();
        let mut k: u32 = 0;
        while k < b.particle_count
            invariant
                k <= b.particle_count,
                b.wf(),
                draws@.len() == k,
                forall|j: int| 0 <= j < k ==> draw_ok(b, #[trigger] draws@[j]),
            decreases b.particle_count - k,
        {
            let d: ParticleDraw = ParticleDraw {
                size_frac: dice.range(PARTICLE_SIZE_MIN, PARTICLE_SIZE_MAX),
                dir_x: dice.range(-FRACTION_ONE, FRACTION_ONE),
                dir_y: dice.range(-FRACTION_ONE, FRACTION_ONE),
                speed: dice.range(b.speed_min, b.speed_max),
                lifetime: dice.range(b.lifetime_min, b.lifetime_max),
            };
            draws.push(d);
            k = k + 1;
        }
        let ghost before = self.entities@;
        self.explode(&draws);
        assert forall|i: int| before.len() <= i < self.entities@.len() implies exists|
            d: ParticleDraw,
        | draw_ok(b, d) && #[trigger] self.entities@[i] == particle_of(b, d) by {
            assert(draw_ok(b, draws@[i - before.len()]));
        }
        assert(self.entities@.subrange(0, before.len() as int) =~= before);
        assert(draws@.len() == b.particle_count && (forall|i: int|
            0 <= i < draws@.len() ==> draw_ok(b, #[trigger] draws@[i])) && self.entities@ == before
            + draws@.map_values(|d: ParticleDraw| particle_of(b, d)));
    }

    /// The lifetime pass: expired particles are destroyed, the others live
    /// `dt` milliseconds less.
    pub fn age_particles(&mut self, dt: u64)
        requires
            old(self).wf(),
        ensures
            final(self).wf(),
            final(self).entities@ == aged(old(self).entities@, dt as int),
            final(self).state == old(self).state,
            final(self).body == old(self).body,
            final(self).borders@ == old(self).borders@,
            final(self).score == old(self).score,
            final(self).highscore == old(self).highscore,
            final(self).last_spawn_x == old(self).last_spawn_x,
    {
        let ghost before = self.entities@;
        let n: usize = self.entities.len();
        let mut out: Vec<Entity> = Vec::new();
        let mut i: usize = 0;
        while i < n
            invariant
                n == self.entities@.len(),
                before == self.entities@,
                i <= n,
                entities_ok(self.entities@),
                out@ == aged(before.subrange(0, i as int), dt as int),
                entities_ok(out@),
            decreases n - i,
        {
            let e: Entity = self.entities[i];
            assert(e.wf());
            assert(before.subrange(0, i + 1).drop_last() =~= before.subrange(0, i as int));
            let ghost mid = out@;
            match e.kind {
                Kind::Particle { lifetime } => {
                    if lifetime > 0 {
                        let l: i64 = advance_coord(lifetime, -1, dt);
                        out.push(Entity { kind: Kind::Particle { lifetime: l }, ..e });
                    }
                },
                _ => {
                    out.push(e);
                },
            }
            assert(entities_ok(out@)) by {
                assert forall|j: int| 0 <= j < out@.len() implies #[trigger] out@[j].wf() by {
                    if j < mid.len() {
                        assert(out@[j] == mid[j]);
                    }
                }
            }
            i = i + 1;
        }
        assert(before.subrange(0, n as int) =~= before);
        self.entities = out;
    }

    /// Whatever has scrolled past the left edge is destroyed: entities, and
    /// the body too. Borders span the viewport and stay.
    pub fn destroy_out_of_bounds(&mut self, view: Viewport)
        requires
            old(self).wf(),
            view.ok(),
        ensures
            final(self).wf(),
            final(self).entities@ == on_screen(old(self).entities@, view),
            final(self).body == match old(self).body {
                Some(b) => if off_screen(b.pos, b.size, view) {
                    None
                } else {
                    Some(b)
                },
                None => None,
            },
            final(self).state == old(self).state,
            final(self).borders@ == old(self).borders@,
            final(self).score == old(self).score,
            final(self).highscore == old(self).highscore,
            final(self).last_spawn_x == old(self).last_spawn_x,
    {
        match self.body {
            Some(b) => {
                if is_off_screen(b.pos, b.size, view) {
                    self.body = None;
                }
            },
            None => {},
        }
        let ghost before = self.entities@;
        let n: usize = self.entities.len();
        let mut out: Vec<Entity> = Vec::new();
        let mut i: usize = 0;
        while i < n
            invariant
                n == self.entities@.len(),
                before == self.entities@,
                i <= n,
                view.ok(),
                entities_ok(self.entities@),
                out@ == on_screen(before.subrange(0, i as int), view),
                entities_ok(out@),
            decreases n - i,
        {
            let e: Entity = self.entities[i];
            assert(e.wf());
            assert(before.subrange(0, i + 1).drop_last() =~= before.subrange(0, i as int));
            let ghost mid = out@;
            if !is_off_screen(e.pos, e.size, view) {
                out.push(e);
            }
            assert(entities_ok(out@)) by {
                assert forall|j: int| 0 <= j < out@.len() implies #[trigger] out@[j].wf() by {
                    if j < mid.len() {
                        assert(out@[j] == mid[j]);
                    }
                }
            }
            i = i + 1;
        }
        assert(before.subrange(0, n as int) =~= before);
        self.entities = out;
    }
}
} // verus!
