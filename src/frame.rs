//! One frame of the game, as the composition of its systems.
use crate::burst::{aged, draw_ok, exploding, off_screen, on_screen, particle_of, ParticleDraw};
use crate::collision::{crashes, faded, newly_scored, sat_add, score_checked};
use crate::entity::{advance, Body, Border, Entity, Viewport};
use crate::game::{fallen, fitted_borders, fresh_body, launched, Game, GameState, Input};
use crate::random::Dice;
use crate::spawner::{gap_fraction_ok, spawn_due, spawn_x, spawned_pair, GAP_FRACTION_MIN, SCROLL_SPEED};
use vstd::prelude::*;

verus! {

/// The mathematical value of a game: its fields, with sequences for its
/// collections.
pub struct World {
    pub state: GameState,
    pub body: Option<Body>,
    pub borders: Seq<Border>,
    pub entities: Seq<Entity>,
    pub score: u64,
    pub highscore: u64,
    pub last_spawn_x: i64,
}

impl Game {
    pub open spec fn world(&self) -> World {
        World {
            state: self.state,
            body: self.body,
            borders: self.borders@,
            entities: self.entities@,
            score: self.score,
            highscore: self.highscore,
            last_spawn_x: self.last_spawn_x,
        }
    }
}

/// The world after a restart: back to `Started` with a fresh body, no
/// entities and a zero score.
pub open spec fn restarted(w: World) -> World {
    World {
        state: GameState::Started,
        body: Some(fresh_body()),
        entities: Seq::empty(),
        score: 0,
        ..w
    }
}

/// The key decides first: in `Over` it restarts, in `Started` it starts
/// the round; otherwise nothing changes.
pub open spec fn after_keys(w: World, input: Input) -> World {
    if w.state == GameState::Over && input.held {
        restarted(w)
    } else if w.state == GameState::Started && input.held {
        World { state: GameState::Running, ..w }
    } else {
        w
    }
}

/// While running: a fresh press launches the body, then gravity acts.
pub open spec fn after_flight(w: World, input: Input, dt: int) -> World {
    if w.state == GameState::Running && w.body is Some {
        let b = w.body.unwrap();
        World { body: Some(fallen(if input.pressed { launched(b) } else { b }, dt)), ..w }
    } else {
        w
    }
}

/// Everything moves by its velocity.
pub open spec fn after_motion(w: World, dt: int) -> World {
    World {
        body: match w.body {
            Some(b) => Some(b.moved(dt)),
            None => None,
        },
        entities: w.entities.map_values(|e: Entity| e.moved(dt)),
        ..w
    }
}

/// While running: a pair with gap share `f` appears if one is due, and
/// the cadence coordinate scrolls.
pub open spec fn after_spawn(w: World, view: Viewport, dt: int, f: int) -> World {
    if w.state != GameState::Running {
        w
    } else if spawn_due(view, w.last_spawn_x as int) {
        World {
            entities: w.entities + spawned_pair(view, f),
            last_spawn_x: advance(spawn_x(view) + view.width / 2, -SCROLL_SPEED, dt) as i64,
            ..w
        }
    } else {
        World { last_spawn_x: advance(w.last_spawn_x as int, -SCROLL_SPEED, dt) as i64, ..w }
    }
}

/// While running: a crash flags the body to explode and ends the round.
pub open spec fn after_crash_check(w: World) -> World {
    if w.state == GameState::Running && w.body is Some && crashes(
        w.body.unwrap(),
        w.entities,
        w.borders,
    ) {
        World { state: GameState::Over, body: Some(Body { explode: true, ..w.body.unwrap() }), ..w }
    } else {
        w
    }
}

/// Draws that fit the body about to burst, if one is.
pub open spec fn burst_draws_ok(w: World, draws: Seq<ParticleDraw>) -> bool {
    exploding(w.body) ==> draws.len() == w.body.unwrap().particle_count && forall|i: int|
        0 <= i < draws.len() ==> draw_ok(w.body.unwrap(), #[trigger] draws[i])
}

/// A body flagged to explode becomes one particle per draw.
pub open spec fn after_burst(w: World, draws: Seq<ParticleDraw>) -> World {
    if exploding(w.body) {
        World {
            body: None,
            entities: w.entities + draws.map_values(|d: ParticleDraw| particle_of(w.body.unwrap(), d)),
            ..w
        }
    } else {
        w
    }
}

/// While still running: triggers that the body passes latch and score.
pub open spec fn after_scoring(w: World) -> World {
    if w.state == GameState::Running && w.body is Some {
        World {
            entities: w.entities.map_values(|e: Entity| score_checked(w.body.unwrap(), e)),
            score: sat_add(w.score as int, newly_scored(w.body.unwrap(), w.entities) as int) as u64,
            ..w
        }
    } else {
        w
    }
}

/// Cleanup and display: highscore ratchet, fading, lifetimes, borders
/// fitted to the viewport, and removal of what has left the view.
pub open spec fn after_cleanup(w: World, dt: int, view: Viewport) -> World {
    World {
        highscore: if w.score > w.highscore { w.score } else { w.highscore },
        entities: on_screen(aged(w.entities.map_values(|e: Entity| faded(e, dt)), dt), view),
        borders: fitted_borders(view),
        body: match w.body {
            Some(b) => if off_screen(b.pos, b.size, view) {
                None
            } else {
                Some(b)
            },
            None => None,
        },
        ..w
    }
}

/// The world just before the burst.
pub open spec fn before_burst(w: World, input: Input, dt: int, view: Viewport, f: int) -> World {
    after_crash_check(after_spawn(after_motion(after_flight(after_keys(w, input), input, dt), dt), view, dt, f))
}

/// One whole frame, given the gap share `f` of a spawn and the draws of a
/// burst.
pub open spec fn frame(
    w: World,
    input: Input,
    dt: int,
    view: Viewport,
    f: int,
    draws: Seq<ParticleDraw>,
) -> World {
    after_cleanup(after_scoring(after_burst(before_burst(w, input, dt, view, f), draws)), dt, view)
}

impl Game {
    fn keys_stage(&mut self, input: Input)
        requires
            old(self).wf(),
        ensures
            final(self).wf(),
            final(self).world() == after_keys(old(self).world(), input),
    {
        if self.state == GameState::Over && input.held {
            self.restart();
            assert(self.entities@ =~= Seq::<Entity>::empty());
        } else if self.state == GameState::Started && input.held {
            self.state = GameState::Running;
        }
    }

    fn flight_stage(&mut self, input: Input, dt: u64)
        requires
            old(self).wf(),
        ensures
            final(self).wf(),
            final(self).world() == after_flight(old(self).world(), input, dt as int),
    {
        if self.state == GameState::Running {
            if input.pressed {
                self.flap();
            }
            self.apply_gravity(dt);
        }
    }

    fn motion_stage(&mut self, dt: u64)
        requires
            old(self).wf(),
        ensures
            final(self).wf(),
            final(self).world() == after_motion(old(self).world(), dt as int),
    {
        self.step_physics(dt);
        assert(self.entities@ =~= old(self).entities@.map_values(|e: Entity| e.moved(dt as int)));
    }

    fn spawn_stage(&mut self, view: Viewport, dt: u64, dice: &mut Dice)
        requires
            old(self).wf(),
            view.ok(),
        ensures
            final(self).wf(),
            exists|f: int|
                gap_fraction_ok(f) && final(self).world() == after_spawn(
                    old(self).world(),
                    view,
                    dt as int,
                    f,
                ),
    {
        let ghost w = self.world();
        let ghost mut f: int = GAP_FRACTION_MIN as int;
        if self.state == GameState::Running {
            self.run_spawner(view, dt, dice);
            proof {
                if spawn_due(view, w.last_spawn_x as int) {
                    f = choose|f: int|
                        gap_fraction_ok(f) && self.entities@ == w.entities + spawned_pair(view, f);
                }
            }
        }
        assert(gap_fraction_ok(f) && self.world() == after_spawn(w, view, dt as int, f));
    }

    fn crash_stage(&mut self)
        requires
            old(self).wf(),
        ensures
            final(self).wf(),
            final(self).world() == after_crash_check(old(self).world()),
    {
        if self.state == GameState::Running {
            self.check_collisions();
        }
    }

    fn burst_stage(&mut self, dice: &mut Dice)
        requires
            old(self).wf(),
        ensures
            final(self).wf(),
            exists|draws: Seq<ParticleDraw>|
                burst_draws_ok(old(self).world(), draws) && final(self).world() == after_burst(
                    old(self).world(),
                    draws,
                ),
    {
        let ghost w = self.world();
        self.explode_with(dice);
        let ghost mut draws: Seq<ParticleDraw> = Seq::empty();
        proof {
            if exploding(w.body) {
                draws = choose|draws: Seq<ParticleDraw>|
                    draws.len() == w.body.unwrap().particle_count && (forall|i: int|
                        0 <= i < draws.len() ==> draw_ok(w.body.unwrap(), #[trigger] draws[i]))
                        && self.entities@ == w.entities + draws.map_values(
                        |d: ParticleDraw| particle_of(w.body.unwrap(), d),
                    );
            }
        }
        assert(burst_draws_ok(w, draws) && self.world() == after_burst(w, draws));
    }

    fn scoring_stage(&mut self)
        requires
            old(self).wf(),
        ensures
            final(self).wf(),
            final(self).world() == after_scoring(old(self).world()),
    {
        let ghost w = self.world();
        if self.state == GameState::Running {
            self.score_triggers();
            assert(self.entities@ =~= after_scoring(w).entities);
        }
    }

    fn cleanup_stage(&mut self, dt: u64, view: Viewport)
        requires
            old(self).wf(),
            view.ok(),
        ensures
            final(self).wf(),
            final(self).world() == after_cleanup(old(self).world(), dt as int, view),
    {
        let ghost w = self.world();
        self.update_highscore();
        self.fade(dt);
        assert(self.entities@ =~= w.entities.map_values(|e: Entity| faded(e, dt as int)));
        self.age_particles(dt);
        self.update_borders(view);
        self.destroy_out_of_bounds(view);
    }

    /// One frame: the systems run in a fixed order, as `frame` composes
    /// them, with a random gap share and random particle draws that lie in
    /// their ranges.
    pub fn tick(&mut self, input: Input, dt: u64, view: Viewport, dice: &mut Dice)
        requires
            old(self).wf(),
            view.ok(),
        ensures
            final(self).wf(),
            exists|f: int, draws: Seq<ParticleDraw>|
                gap_fraction_ok(f) && burst_draws_ok(
                    before_burst(old(self).world(), input, dt as int, view, f),
                    draws,
                ) && final(self).world() == frame(old(self).world(), input, dt as int, view, f, draws),
    {
        let ghost w0 = self.world();
        self.keys_stage(input);
        self.flight_stage(input, dt);
        self.motion_stage(dt);
        let ghost w3 = self.world();
        self.spawn_stage(view, dt, dice);
        let ghost f = choose|f: int|
            gap_fraction_ok(f) && self.world() == after_spawn(w3, view, dt as int, f);
        self.crash_stage();
        let ghost w5 = self.world();
        assert(w5 == before_burst(w0, input, dt as int, view, f));
        self.burst_stage(dice);
        let ghost draws = choose|draws: Seq<ParticleDraw>|
            burst_draws_ok(w5, draws) && self.world() == after_burst(w5, draws);
        self.scoring_stage();
        self.cleanup_stage(dt, view);
        assert(self.world() == frame(w0, input, dt as int, view, f, draws));
    }
}

} // verus!
