//! Properties of the game that relate several steps or frames.
use crate::entity::{advance, Body, Entity, Kind};
use crate::burst::{draw_ok, particle_of, root, scaled, ParticleDraw};
use crate::collision::{crashes, faded, newly_scored, score_checked, scores};
use crate::entity::Viewport;
use crate::frame::{after_flight, after_keys, after_motion, after_spawn, frame, World};
use crate::game::{fallen, launched, GameState, Input};
use crate::spawner::{spawn_due, spawn_x, OBSTACLE_WIDTH, SCROLL_SPEED, SPAWN_DISTANCE};
use crate::geometry::{is_isqrt, COORD_LIMIT};
use vstd::prelude::*;

verus! {

/// A trigger whose one-way latch is set.
pub open spec fn latched(e: Entity) -> bool {
    e.kind matches Kind::Trigger { scored, .. } && scored
}

/// The latch only goes one way: a trigger that scores comes out latched,
/// and a latched trigger stays latched through a scoring check, motion and
/// fading.
pub proof fn latch_is_one_way(b: Body, e: Entity, dt: int)
    ensures
        scores(b, e) ==> latched(score_checked(b, e)),
        latched(e) ==> latched(score_checked(b, e)),
        latched(e) ==> latched(e.moved(dt)),
        latched(e) ==> latched(faded(e, dt)),
{
}

/// A latched trigger never scores, whatever the body and however long it
/// keeps overlapping it: a trigger counts at most once.
pub proof fn latched_never_scores(b: Body, e: Entity)
    requires
        latched(e),
    ensures
        !scores(b, e),
        score_checked(b, e) == e,
{
}

/// A frame over triggers that have all scored adds nothing to the score.
pub proof fn latched_triggers_add_nothing(b: Body, s: Seq<Entity>)
    requires
        forall|i: int| 0 <= i < s.len() ==> latched(#[trigger] s[i]),
    ensures
        newly_scored(b, s) == 0,
    decreases s.len(),
{
    if s.len() > 0 {
        assert(latched(s[s.len() - 1]));
        assert forall|i: int| 0 <= i < s.drop_last().len() implies latched(
            #[trigger] s.drop_last()[i],
        ) by {
            assert(s.drop_last()[i] == s[i]);
        }
        latched_triggers_add_nothing(b, s.drop_last());
    }
}

/// Between spawns the cadence coordinate falls at the scroll speed: after
/// `dt > 0` milliseconds it is exactly `SCROLL_SPEED * dt` lower, so
/// strictly lower, as long as it stays inside the world.
pub proof fn cadence_falls_at_scroll_speed(last: int, dt: int)
    requires
        -COORD_LIMIT <= last <= COORD_LIMIT,
        dt > 0,
        last - SCROLL_SPEED * dt >= -COORD_LIMIT,
    ensures
        advance(last, -SCROLL_SPEED, dt) == last - SCROLL_SPEED * dt,
        advance(last, -SCROLL_SPEED, dt) < last,
{
    assert(last + (-SCROLL_SPEED) * dt == last - SCROLL_SPEED * dt) by (nonlinear_arith);
    assert(SCROLL_SPEED * dt > 0) by (nonlinear_arith)
        requires
            dt > 0,
    ;
}

/// The integer square root of `a*a + c` is at least `|a|`.
proof fn root_at_least(a: int, c: int)
    requires
        c >= 0,
    ensures
        (if a >= 0 { a } else { -a }) <= root(a * a + c),
{
    let n = a * a + c;
    let m = if a >= 0 { a } else { -a };
    assert(m * m == a * a) by (nonlinear_arith)
        requires
            m == a || m == -a,
    ;
    let r = crate::geometry::isqrt_exists(n);
    let r0 = root(n);
    assert(is_isqrt(n, r0));
    if r0 < m {
        assert((r0 + 1) * (r0 + 1) <= m * m) by (nonlinear_arith)
            requires
                0 <= r0 < m,
        ;
    }
}

/// Each component of `scaled` is at most `speed` in magnitude when the
/// direction component is at most the direction's length.
proof fn scaled_bounded(speed: int, d: int, len: int)
    requires
        speed >= 0,
        (if d >= 0 { d } else { -d }) <= len,
    ensures
        -speed <= scaled(speed, d, len) <= speed,
{
    if len > 0 {
        let m = if d >= 0 { d } else { -d };
        assert(speed * m / len <= speed) by (nonlinear_arith)
            requires
                0 <= m <= len,
                len > 0,
                speed >= 0,
        ;
        assert(speed * m / len >= 0) by (nonlinear_arith)
            requires
                0 <= m,
                len > 0,
                speed >= 0,
        ;
    }
}

/// A particle made from a draw in range lives for a lifetime in the
/// configured range, and moves no faster than the drawn speed (which lies in
/// the configured speed range) along each axis.
pub proof fn particle_within_ranges(b: Body, d: ParticleDraw)
    requires
        b.wf(),
        draw_ok(b, d),
    ensures
        particle_of(b, d).kind matches Kind::Particle { lifetime } && b.lifetime_min <= lifetime
            < b.lifetime_max,
        b.speed_min <= d.speed < b.speed_max,
        -d.speed <= particle_of(b, d).vel.x <= d.speed,
        -d.speed <= particle_of(b, d).vel.y <= d.speed,
{
    let len = root(d.dir_x * d.dir_x + d.dir_y * d.dir_y);
    assert(d.dir_y * d.dir_y >= 0) by (nonlinear_arith);
    assert(d.dir_x * d.dir_x >= 0) by (nonlinear_arith);
    root_at_least(d.dir_x as int, d.dir_y * d.dir_y);
    assert(d.dir_y * d.dir_y + d.dir_x * d.dir_x == d.dir_x * d.dir_x + d.dir_y * d.dir_y);
    root_at_least(d.dir_y as int, d.dir_x * d.dir_x);
    scaled_bounded(d.speed as int, d.dir_x as int, len);
    scaled_bounded(d.speed as int, d.dir_y as int, len);
}

/// A second scoring pass over the same body and entities changes nothing
/// and adds nothing: each trigger counts once.
pub proof fn second_scoring_pass_adds_nothing(b: Body, s: Seq<Entity>)
    ensures
        newly_scored(b, s.map_values(|e: Entity| score_checked(b, e))) == 0,
        s.map_values(|e: Entity| score_checked(b, e)).map_values(|e: Entity| score_checked(b, e))
            == s.map_values(|e: Entity| score_checked(b, e)),
    decreases s.len(),
{
    let m = s.map_values(|e: Entity| score_checked(b, e));
    if s.len() > 0 {
        assert(m.drop_last() =~= s.drop_last().map_values(|e: Entity| score_checked(b, e)));
        second_scoring_pass_adds_nothing(b, s.drop_last());
        assert(!scores(b, m.last()));
    }
    assert(m.map_values(|e: Entity| score_checked(b, e)) =~= m);
}

/// In `Over`, a frame without the restart key keeps the score and the
/// state.
pub proof fn over_without_key_keeps_score(
    w: World,
    input: Input,
    dt: int,
    view: Viewport,
    f: int,
    draws: Seq<ParticleDraw>,
)
    requires
        w.state == GameState::Over,
        !input.held,
    ensures
        frame(w, input, dt, view, f, draws).score == w.score,
        frame(w, input, dt, view, f, draws).state == GameState::Over,
{
}

/// In `Started`, a frame with the key held leaves the game `Running`,
/// unless the body crashes in that same frame, which ends it `Over`.
pub proof fn start_key_runs(
    w: World,
    input: Input,
    dt: int,
    view: Viewport,
    f: int,
    draws: Seq<ParticleDraw>,
)
    requires
        w.state == GameState::Started,
        input.held,
    ensures
        ({
            let p = after_spawn(after_motion(after_flight(after_keys(w, input), input, dt), dt), view, dt, f);
            let crashed = p.body is Some && crashes(p.body.unwrap(), p.entities, p.borders);
            &&& crashed ==> frame(w, input, dt, view, f, draws).state == GameState::Over
            &&& !crashed ==> frame(w, input, dt, view, f, draws).state == GameState::Running
        }),
{
}

/// The flight stage launches the body only on a fresh press; otherwise
/// gravity alone acts on it.
pub proof fn launch_only_on_press(w: World, input: Input, dt: int, b: Body)
    requires
        w.state == GameState::Running,
        w.body == Some(b),
    ensures
        !input.pressed ==> after_flight(w, input, dt).body == Some(fallen(b, dt)),
        input.pressed ==> after_flight(w, input, dt).body == Some(fallen(launched(b), dt)),
{
}

/// Scrolling twice is scrolling once for the summed time, inside the
/// world.
pub proof fn cadence_composes(last: int, a: int, b: int)
    requires
        -COORD_LIMIT <= last <= COORD_LIMIT,
        a >= 0,
        b >= 0,
        last - SCROLL_SPEED * (a + b) >= -COORD_LIMIT,
    ensures
        advance(advance(last, -SCROLL_SPEED, a), -SCROLL_SPEED, b) == advance(
            last,
            -SCROLL_SPEED,
            a + b,
        ),
        advance(last, -SCROLL_SPEED, a + b) == last - SCROLL_SPEED * (a + b),
{
    assert(SCROLL_SPEED * (a + b) == SCROLL_SPEED * a + SCROLL_SPEED * b) by (nonlinear_arith);
    assert(SCROLL_SPEED * a >= 0 && SCROLL_SPEED * b >= 0) by (nonlinear_arith)
        requires
            a >= 0,
            b >= 0,
    ;
    assert(last + (-SCROLL_SPEED) * a == last - SCROLL_SPEED * a) by (nonlinear_arith);
    assert((last - SCROLL_SPEED * a) + (-SCROLL_SPEED) * b == last - SCROLL_SPEED * (a + b))
        by (nonlinear_arith)
        requires
            SCROLL_SPEED * (a + b) == SCROLL_SPEED * a + SCROLL_SPEED * b,
    ;
    assert(last + (-SCROLL_SPEED) * (a + b) == last - SCROLL_SPEED * (a + b)) by (nonlinear_arith);
}

/// After a spawn re-bases the cadence, the next pair is due once the
/// obstacles have scrolled more than the spawn distance plus half a pair
/// width (for an even viewport width): spawns are at least that much
/// scroll apart.
pub proof fn next_spawn_after_scroll(view: Viewport, t: int)
    requires
        view.ok(),
        view.width % 2 == 0,
    ensures
        spawn_due(view, spawn_x(view) + view.width / 2 - SCROLL_SPEED * t) <==> SCROLL_SPEED * t
            > SPAWN_DISTANCE + OBSTACLE_WIDTH / 2,
{
}

/// With no horizontal speed and a downward vertical speed, motion over
/// `dt > 0` keeps x and lowers y, inside the world.
pub proof fn body_falls(b: Body, dt: int)
    requires
        b.wf(),
        b.vel.x == 0,
        b.vel.y < 0,
        dt > 0,
        b.pos.y + b.vel.y * dt >= -COORD_LIMIT,
    ensures
        b.moved(dt).pos.x == b.pos.x,
        b.moved(dt).pos.y < b.pos.y,
{
    assert(b.vel.y * dt < 0) by (nonlinear_arith)
        requires
            b.vel.y < 0,
            dt > 0,
    ;
    assert(b.vel.x * dt == 0) by (nonlinear_arith)
        requires
            b.vel.x == 0,
    ;
}

} // verus!
