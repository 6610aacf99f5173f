//! The game: its state machine, its entities, and the frame that runs the
//! systems in order.
use crate::burst::{lemma_isqrt_unique, root};
use crate::display::{decimal, decimal_digits};
use crate::entity::{
    advance_coord, clamp, move_point, Body, Border, Entity, Viewport, FLAP_HEIGHT_LIMIT,
    GRAVITY_LIMIT,
};
use crate::geometry::{coord_ok, isqrt, isqrt_exists, is_isqrt, vec_ok, Vec2};
use vstd::prelude::*;

verus! {

/// Where a fresh body starts, horizontally.
pub const BODY_START_X: i64 = -275_000_000;

/// Side of the square body.
pub const BODY_SIZE: i64 = 27_000_000;

pub const BODY_GRAVITY: i64 = 1000;

pub const BODY_FLAP_HEIGHT: i64 = 75_000_000;

pub const PARTICLE_COUNT: u32 = 32;

pub const PARTICLE_SPEED_MIN: i64 = 300_000;

pub const PARTICLE_SPEED_MAX: i64 = 850_000;

pub const PARTICLE_LIFETIME_MIN: i64 = 100;

pub const PARTICLE_LIFETIME_MAX: i64 = 1000;

/// Thickness of the two border strips.
pub const BORDER_THICKNESS: i64 = 40_000_000;

/// The phase of the game; exactly one is current.
#[derive(Clone, Copy, Debug, PartialEq, Eq, Structural)]
pub enum GameState {
    /// Waiting for the first impulse; a fresh body stands still.
    Started,
    /// The body flies and obstacles scroll.
    Running,
    /// The round has ended; waiting for a restart.
    Over,
}

/// Keys seen during one frame: `pressed` when the impulse key went down in
/// this frame, `held` while it is down.
#[derive(Clone, Copy, Debug, PartialEq, Eq, Structural)]
pub struct Input {
    pub pressed: bool,
    pub held: bool,
}

/// The body as (re)spawned on entering the `Started` state.
pub open spec fn fresh_body() -> Body {
    Body {
        pos: Vec2 { x: BODY_START_X, y: 0 },
        vel: Vec2 { x: 0, y: 0 },
        size: Vec2 { x: BODY_SIZE, y: BODY_SIZE },
        gravity: BODY_GRAVITY,
        flap_height: BODY_FLAP_HEIGHT,
        explode: false,
        particle_count: PARTICLE_COUNT,
        speed_min: PARTICLE_SPEED_MIN,
        speed_max: PARTICLE_SPEED_MAX,
        lifetime_min: PARTICLE_LIFETIME_MIN,
        lifetime_max: PARTICLE_LIFETIME_MAX,
    }
}

pub fn new_body() -> (r: Body)
    ensures
        r == fresh_body(),
        r.wf(),
{
    Body {
        pos: Vec2 { x: BODY_START_X, y: 0 },
        vel: Vec2 { x: 0, y: 0 },
        size: Vec2 { x: BODY_SIZE, y: BODY_SIZE },
        gravity: BODY_GRAVITY,
        flap_height: BODY_FLAP_HEIGHT,
        explode: false,
        particle_count: PARTICLE_COUNT,
        speed_min: PARTICLE_SPEED_MIN,
        speed_max: PARTICLE_SPEED_MAX,
        lifetime_min: PARTICLE_LIFETIME_MIN,
        lifetime_max: PARTICLE_LIFETIME_MAX,
    }
}

/// The border with the given role, fitted to the viewport: centred
/// horizontally, at `role * height / 2`, as wide as the viewport.
pub open spec fn fitted_border(view: Viewport, role: i64) -> Border {
    Border {
        pos: Vec2 { x: 0, y: (role * (view.height / 2)) as i64 },
        size: Vec2 { x: view.width, y: BORDER_THICKNESS },
        role,
    }
}

/// Both borders fitted to the viewport, bottom first.
pub open spec fn fitted_borders(view: Viewport) -> Seq<Border> {
    seq![fitted_border(view, -1i64), fitted_border(view, 1i64)]
}

/// The body after one flap: its vertical speed becomes the integer square
/// root of `2 * gravity * flap_height`, the launch speed whose ballistic apex
/// is `flap_height` under that gravity.
pub open spec fn flapped(b: Body, vy: int) -> bool {
    is_isqrt(2 * b.gravity * b.flap_height, vy)
}

/// The body launched by a flap: `flapped`, as a value.
pub open spec fn launched(b: Body) -> Body {
    Body { vel: Vec2 { y: root(2 * b.gravity * b.flap_height) as i64, ..b.vel }, ..b }
}

/// The body after `dt` milliseconds of gravity.
pub open spec fn fallen(b: Body, dt: int) -> Body {
    Body { vel: Vec2 { y: clamp(b.vel.y - b.gravity * dt) as i64, ..b.vel }, ..b }
}

/// The whole simulation: state machine, entities and counters.
pub struct Game {
    pub state: GameState,
    /// The body; absent once it has burst.
    pub body: Option<Body>,
    /// The bottom and the top border, in that order.
    pub borders: Vec<Border>,
    /// Obstacle segments, score triggers and particles.
    pub entities: Vec<Entity>,
    pub score: u64,
    /// The best score so far; never reset.
    pub highscore: u64,
    /// The horizontal coordinate that drives the spawn cadence.
    pub last_spawn_x: i64,
}

pub open spec fn body_ok(b: Option<Body>) -> bool {
    match b {
        Some(b) => b.wf(),
        None => true,
    }
}

pub open spec fn entities_ok(s: Seq<Entity>) -> bool {
    forall|i: int| 0 <= i < s.len() ==> #[trigger] s[i].wf()
}

pub open spec fn border_ok(b: Border) -> bool {
    vec_ok(b.pos) && vec_ok(b.size)
}

impl Game {
    pub open spec fn wf(&self) -> bool {
        &&& body_ok(self.body)
        &&& self.borders@.len() == 2
        &&& border_ok(self.borders@[0])
        &&& border_ok(self.borders@[1])
        &&& self.borders@[0].role == -1
        &&& self.borders@[1].role == 1
        &&& entities_ok(self.entities@)
        &&& coord_ok(self.last_spawn_x)
    }

    /// A game in the `Started` state with a fresh body, borders fitted to
    /// the viewport, no other entities and both counters at zero.
    pub fn new(view: Viewport) -> (r: Game)
        requires
            view.ok(),
        ensures
            r.wf(),
            r.state == GameState::Started,
            r.body == Some(fresh_body()),
            r.borders@ == fitted_borders(view),
            r.entities@.len() == 0,
            r.score == 0,
            r.highscore == 0,
            r.last_spawn_x == 0,
    {
        let mut borders: Vec<Border> = Vec::new();
        borders.push(fit_border(view, -1));
        borders.push(fit_border(view, 1));
        assert(borders@ =~= fitted_borders(view));
        Game {
            state: GameState::Started,
            body: Some(new_body()),
            borders,
            entities: Vec::new(),
            score: 0,
            highscore: 0,
            last_spawn_x: 0,
        }
    }

    /// On an impulse: the body's vertical speed is set (not added to) so
    /// that it would rise exactly `flap_height` under its gravity.
    pub fn flap(&mut self)
        requires
            old(self).wf(),
        ensures
            final(self).wf(),
            final(self).state == old(self).state,
            final(self).borders@ == old(self).borders@,
            final(self).entities@ == old(self).entities@,
            final(self).score == old(self).score,
            final(self).highscore == old(self).highscore,
            final(self).last_spawn_x == old(self).last_spawn_x,
            match old(self).body {
                None => final(self).body.is_none(),
                Some(b) => final(self).body == Some(launched(b)) && flapped(
                    b,
                    launched(b).vel.y as int,
                ),
            },
    {
        match self.body {
            None => {},
            Some(b) => {
                assert(0 <= 2 * b.gravity * b.flap_height <= 0x8000_0000_0000_0000int)
                    by (nonlinear_arith)
                    requires
                        0 <= b.gravity <= GRAVITY_LIMIT,
                        0 <= b.flap_height <= FLAP_HEIGHT_LIMIT,
                ;
                let v: u64 = isqrt(2 * (b.gravity as u64) * (b.flap_height as u64));
                assert(v <= 0x1_0000_0000) by (nonlinear_arith)
                    requires
                        v * v <= 0x8000_0000_0000_0000int,
                ;
                proof {
                    let n = 2 * b.gravity * b.flap_height;
                    isqrt_exists(n);
                    lemma_isqrt_unique(n, v as int, root(n));
                }
                self.body = Some(Body { vel: Vec2 { y: v as i64, ..b.vel }, ..b });
            },
        }
    }

    /// Gravity pulls the body's vertical speed down by `gravity * dt`.
    pub fn apply_gravity(&mut self, dt: u64)
        requires
            old(self).wf(),
        ensures
            final(self).wf(),
            final(self).state == old(self).state,
            final(self).borders@ == old(self).borders@,
            final(self).entities@ == old(self).entities@,
            final(self).score == old(self).score,
            final(self).highscore == old(self).highscore,
            final(self).last_spawn_x == old(self).last_spawn_x,
            match old(self).body {
                None => final(self).body.is_none(),
                Some(b) => final(self).body == Some(fallen(b, dt as int)),
            },
    {
        match self.body {
            None => {},
            Some(b) => {
                let g: i64 = 0 - b.gravity;
                let vy: i64 = advance_coord(b.vel.y, g, dt);
                assert(b.vel.y + g * dt == b.vel.y - b.gravity * dt) by (nonlinear_arith)
                    requires g == -b.gravity;
                self.body = Some(Body { vel: Vec2 { y: vy, ..b.vel }, ..b });
            },
        }
    }
}

impl Game {
    /// Every moving thing advances by its velocity times `dt`.
    pub fn step_physics(&mut self, dt: u64)
        requires
            old(self).wf(),
        ensures
            final(self).wf(),
            final(self).state == old(self).state,
            final(self).borders@ == old(self).borders@,
            final(self).entities@.len() == old(self).entities@.len(),
            forall|i: int|
                0 <= i < old(self).entities@.len() ==> #[trigger] final(self).entities@[i]
                    == old(self).entities@[i].moved(dt as int),
            final(self).body == match old(self).body {
                None => None,
                Some(b) => Some(b.moved(dt as int)),
            },
            final(self).score == old(self).score,
            final(self).highscore == old(self).highscore,
            final(self).last_spawn_x == old(self).last_spawn_x,
    {
        match self.body {
            None => {},
            Some(b) => {
                self.body = Some(Body { pos: move_point(b.pos, b.vel, dt), ..b });
            },
        }
        let n: usize = self.entities.len();
        let mut moved_all: Vec<Entity> = Vec::new();
        let mut i: usize = 0;
        while i < n
            invariant
                n == self.entities@.len(),
                i <= n,
                entities_ok(self.entities@),
                moved_all@.len() == i,
                forall|j: int| 0 <= j < i ==> #[trigger] moved_all@[j] == self.entities@[j].moved(dt as int),
                entities_ok(moved_all@),
            decreases n - i,
        {
            let e: Entity = self.entities[i].step(dt);
            moved_all.push(e);
            i = i + 1;
        }
        self.entities = moved_all;
    }

    /// The highscore ratchets up to the score and never decreases.
    pub fn update_highscore(&mut self)
        requires
            old(self).wf(),
        ensures
            final(self).wf(),
            final(self).highscore == if old(self).score > old(self).highscore {
                old(self).score
            } else {
                old(self).highscore
            },
            final(self).state == old(self).state,
            final(self).body == old(self).body,
            final(self).borders@ == old(self).borders@,
            final(self).entities@ == old(self).entities@,
            final(self).score == old(self).score,
            final(self).last_spawn_x == old(self).last_spawn_x,
    {
        if self.score > self.highscore {
            self.highscore = self.score;
        }
    }

    /// Back to `Started`: every destroy-on-restart entity (the body,
    /// obstacles, triggers, particles) is gone, the score is zero, and a
    /// fresh body stands at its start. Borders and highscore are untouched.
    pub fn restart(&mut self)
        requires
            old(self).wf(),
        ensures
            final(self).wf(),
            final(self).state == GameState::Started,
            final(self).body == Some(fresh_body()),
            final(self).entities@.len() == 0,
            final(self).score == 0,
            final(self).borders@ == old(self).borders@,
            final(self).highscore == old(self).highscore,
            final(self).last_spawn_x == old(self).last_spawn_x,
    {
        self.entities = Vec::new();
        self.score = 0;
        self.state = GameState::Started;
        self.body = Some(new_body());
    }

    /// The borders follow the viewport: each at `role * height / 2`, as
    /// wide as the viewport, of fixed thickness.
    pub fn update_borders(&mut self, view: Viewport)
        requires
            old(self).wf(),
            view.ok(),
        ensures
            final(self).wf(),
            final(self).borders@ == fitted_borders(view),
            final(self).state == old(self).state,
            final(self).body == old(self).body,
            final(self).entities@ == old(self).entities@,
            final(self).score == old(self).score,
            final(self).highscore == old(self).highscore,
            final(self).last_spawn_x == old(self).last_spawn_x,
    {
        let mut borders: Vec<Border> = Vec::new();
        borders.push(fit_border(view, -1));
        borders.push(fit_border(view, 1));
        assert(borders@ =~= fitted_borders(view));
        self.borders = borders;
    }
}


impl Game {
    /// The text of the score display.
    pub fn score_text(&self) -> (r: Vec<u8>)
        ensures
            r@ == decimal(self.score as nat),
    {
        decimal_digits(self.score)
    }

    /// The text of the highscore display.
    pub fn highscore_text(&self) -> (r: Vec<u8>)
        ensures
            r@ == decimal(self.highscore as nat),
    {
        decimal_digits(self.highscore)
    }
}

pub fn fit_border(view: Viewport, role: i64) -> (r: Border)
    requires
        view.ok(),
        role == -1 || role == 1,
    ensures
        r == fitted_border(view, role),
        border_ok(r),
{
    let half: i64 = ((view.height as u64) / 2) as i64;
    let y: i64 = if role == -1 { 0 - half } else { half };
    Border { pos: Vec2 { x: 0, y }, size: Vec2 { x: view.width, y: BORDER_THICKNESS }, role }
}

} // verus!
