//! One simulation tick. The tick runs in three stages, each stopping where
//! outside work has to be done before play can go on: [`tick_match`] opens
//! the tick (the full-time freeze, the clock, goalmouth defending, the goal
//! mouth and the out-of-play clamp); the ball's physics step follows and
//! [`tick_after_ball_step`] takes the stepped ball and ends any pass that
//! reached its receiver; the players' decisions follow and [`finish_tick`]
//! runs them, then the tackles, the players' motion, the loose-ball pickup,
//! the possession tactic events, the player separation and the final
//! whistle.

use vstd::prelude::*;

use crate::ball::BallState;
use crate::dispatch::{
    IntentContext, SignatureOption, context_ok, dispatch_tick, events_extended, keeps_identity,
    lemma_decision_keeps_role, lemma_events_extended_trans, lemma_keeps_identity_trans,
    lemma_turns_keep_identity, options_ok, roles_routed, target_bounded, tick_events, turn_bounds,
    turns_chain, velocities_within,
};
use crate::fixed::{abs_spec, dist_sq_fits, lemma_dist_sq_fits_bounded, mul_spec, q_mul};
use crate::goal::{
    CurvedGoalkeeperSkills, GoalMouthOutcome, conceding_keeper, conceding_skills, goal_mouth_inputs_ok,
    goal_scored, in_goal_mouth, keeper_claims, keeper_gathers, keeper_saves, resolve_goal_mouth,
    shot_xg_behind,
};
use crate::match_event::MatchEvent;
use crate::match_rules::{
    PitchGeometry, clamp_out_of_play, goalmouth_defending, loose_ball_pickup,
    out_of_play_resolution, pickup_resolution, resolve_goalmouth_defending,
    trap_check_in_flight, trap_resolution,
};
use crate::match_state::MatchState;
use crate::pass_completion::chacha8_first_u64;
use crate::player::{PlayerState, coordinates_within};
use crate::possession::{possession_transition_events, possession_transition_plan};
use crate::role_states::PlayerIntent;
use crate::separation::{apply_player_separation, sweep};
use crate::signature::ledger::{SignatureLedger, firings_expired};
use crate::tackle::{CurvedTackleSkills, TACKLE_COOLDOWN_TICKS, first_tackle_winner, resolve_tackles, tackle_failed, tackle_skills_in_unit};
use crate::tactic::{TacticEvent, TacticState};

verus! {

/// Positions and the ball within 2^42 raw (1024 m): the range in
/// which a tick's fixed-point arithmetic cannot overflow.
pub const POSITION_LIMIT: i64 = 4398046511104;

/// Player velocities within 2^45 raw (8192 m/s).
pub const VELOCITY_LIMIT: i64 = 35184372088832;

/// The longest time step the motion integration takes: 2^27 raw, about
/// 1/32 s.
pub const MAX_TIME_STEP: i64 = 134217728;

/// The final whistle is the last event of the stream.
pub open spec fn full_time_reached(s: MatchState) -> bool {
    s.match_events@.len() > 0 && s.match_events@.last() is FullTime
}

/// A tick that has passed the goal mouth and the out-of-play clamp and now
/// waits for the ball's physics step (and then for the decisions).
#[derive(Debug, Clone)]
pub struct PendingTick {
    /// The state so far.
    pub state: MatchState,
    /// A goal was scored this tick: decisions, tackles, the pickup and the
    /// possession tactic events are skipped.
    pub goal_fired: bool,
    /// Effective possession after the goal mouth and the clamp, against
    /// which the tick's possession change is judged.
    pub possession_before: Option<u8>,
    /// Tactic events of the goal or the restart, per team (0 home, 1 away).
    pub tactic_events: Vec<(usize, TacticEvent)>,
}

/// How a tick opened.
#[derive(Debug, Clone)]
pub enum TickOpening {
    /// The final whistle had already gone: nothing changed.
    Frozen(MatchState),
    /// The clock passed the end with no play: the final whistle is now the
    /// last event.
    Closed(MatchState),
    /// Play runs this tick.
    InPlay(PendingTick),
}

/// The clock advanced by one tick.
pub open spec fn advanced(s: MatchState) -> MatchState {
    MatchState { tick: (s.tick + 1) as i64, ..s }
}

/// `r` is `s` with `e` appended to the event stream.
pub open spec fn with_event(s: MatchState, r: MatchState, e: MatchEvent) -> bool {
    &&& r == (MatchState { match_events: r.match_events, ..s })
    &&& r.match_events@ == s.match_events@.push(e)
}

/// The final whistle at `s`'s tick with `s`'s score.
pub open spec fn full_time_event(s: MatchState) -> MatchEvent {
    MatchEvent::FullTime { tick: s.tick, home_score: s.home_score as u16, away_score: s.away_score as u16 }
}

/// The goal mouth took `s` to `r` with outcome `o` (see
/// [`resolve_goal_mouth`]), the save roll being `roll`.
pub open spec fn goal_mouth_resolved(
    s: MatchState,
    r: MatchState,
    o: GoalMouthOutcome,
    g: PitchGeometry,
    keepers: Seq<CurvedGoalkeeperSkills>,
    roll: u64,
) -> bool {
    if !in_goal_mouth(s.ball, g.goal_line_x as int, g.goal_half_width as int) {
        r == s && o == GoalMouthOutcome::NotInGoal
    } else {
        let gk = conceding_keeper(s.ball);
        let xg = shot_xg_behind(s);
        if keeper_gathers(s, xg) {
            r == keeper_claims(s, gk) && o == (GoalMouthOutcome::Gathered { keeper_slot: gk as u8 })
        } else if keeper_saves(s, keepers, roll) {
            &&& o == GoalMouthOutcome::Saved { keeper_slot: gk as u8 }
            &&& r == (MatchState { last_shot_xg: r.last_shot_xg, ..keeper_claims(s, gk) })
            &&& r.last_shot_xg@ == s.last_shot_xg@.update(s.last_touched_by.unwrap() as int, 0)
        } else {
            &&& r == goal_scored(s)
            &&& o == GoalMouthOutcome::Goal {
                scorer_slot: s.last_touched_by.unwrap(),
                home_scored: s.ball.pos_x > 0,
            }
        }
    }
}

/// The events of a goal at `s`'s tick: the goal with the score after it,
/// then the kick-off.
pub open spec fn goal_events(s: MatchState, scorer: u8) -> Seq<MatchEvent> {
    seq![
        MatchEvent::Goal {
            scorer_slot: scorer,
            tick: s.tick,
            score_home_after: s.home_score as u16,
            score_away_after: s.away_score as u16,
        },
        MatchEvent::KickOff { tick: s.tick, is_second_half: false },
    ]
}

/// The tactic events of a restart: each team's restart kind.
pub open spec fn restart_events(kinds: Option<(crate::tactic::SetPieceKind, crate::tactic::SetPieceKind)>) -> Seq<(usize, TacticEvent)> {
    match kinds {
        Some(k) => seq![
            (0usize, TacticEvent::BallOutOfPlay { kind: k.0 }),
            (1usize, TacticEvent::BallOutOfPlay { kind: k.1 }),
        ],
        None => Seq::empty(),
    }
}

/// After the goal mouth left `s3` with outcome `o`: a goal appends its
/// events and tells both teams; anything else goes through the
/// out-of-play clamp, whose restart kinds are told to the teams.
pub open spec fn opened_from(s3: MatchState, o: GoalMouthOutcome, p: PendingTick, g: PitchGeometry) -> bool {
    &&& match o {
        GoalMouthOutcome::Goal { scorer_slot, .. } => {
            &&& p.goal_fired
            &&& p.state == (MatchState { match_events: p.state.match_events, ..s3 })
            &&& p.state.match_events@ == s3.match_events@ + goal_events(s3, scorer_slot)
            &&& p.tactic_events@ == seq![(0usize, TacticEvent::Goal), (1usize, TacticEvent::Goal)]
        },
        _ => {
            &&& !p.goal_fired
            &&& p.state == out_of_play_resolution(s3, g).0
            &&& p.tactic_events@ == restart_events(out_of_play_resolution(s3, g).1)
        },
    }
    &&& p.possession_before == p.state.effective_possession_spec()
}

/// The tick opened on `s` into `p`: the clock advanced, goalmouth
/// defending ran, then the goal mouth (save roll `roll`), then, unless a
/// goal was scored, the out-of-play clamp.
pub open spec fn tick_opened(
    s: MatchState,
    p: PendingTick,
    g: PitchGeometry,
    keepers: Seq<CurvedGoalkeeperSkills>,
    roll: u64,
) -> bool {
    let s2 = goalmouth_defending(advanced(s), g.goal_line_x as int);
    exists|s3: MatchState, o: GoalMouthOutcome|
        #[trigger] goal_mouth_resolved(s2, s3, o, g, keepers, roll) && opened_from(s3, o, p, g)
}

/// What a tick needs of its starting state: well formed, positions and the
/// ball within [`POSITION_LIMIT`], velocities within [`VELOCITY_LIMIT`],
/// every shot's xG in `[0, 1]`, and a clock that can still run.
pub open spec fn tick_ready(s: MatchState) -> bool {
    &&& within_limits(s)
    &&& 0 <= s.tick <= 4611686018427387904
}

/// Well formed, positions and the ball within [`POSITION_LIMIT`],
/// velocities within [`VELOCITY_LIMIT`], every shot's xG in `[0, 1]`.
pub open spec fn within_limits(s: MatchState) -> bool {
    &&& s.wf()
    &&& coordinates_within(s.players@, POSITION_LIMIT as int)
    &&& velocities_within(s.players@, VELOCITY_LIMIT as int)
    &&& abs_spec(s.ball.pos_x as int) <= POSITION_LIMIT
    &&& abs_spec(s.ball.pos_y as int) <= POSITION_LIMIT
    &&& s.last_shot_xg@.len() == 22
    &&& forall|k: int| 0 <= k < 22 ==> 0 <= #[trigger] s.last_shot_xg@[k] <= crate::fixed::ONE
}

/// Goalmouth defending moves no player and no ball, keeps the score, the
/// xG, the events and the clock, and never forgets who touched the ball.
proof fn lemma_goalmouth_keeps(s: MatchState, goal_line_x: int)
    ensures
        goalmouth_defending(s, goal_line_x).players == s.players,
        goalmouth_defending(s, goal_line_x).ball.pos_x == s.ball.pos_x,
        goalmouth_defending(s, goal_line_x).ball.pos_y == s.ball.pos_y,
        goalmouth_defending(s, goal_line_x).home_score == s.home_score,
        goalmouth_defending(s, goal_line_x).away_score == s.away_score,
        goalmouth_defending(s, goal_line_x).last_shot_xg == s.last_shot_xg,
        goalmouth_defending(s, goal_line_x).match_events == s.match_events,
        goalmouth_defending(s, goal_line_x).tick == s.tick,
        s.last_touched_by is Some ==> goalmouth_defending(s, goal_line_x).last_touched_by is Some,
{
}

/// Within the position limit, with a shot's xG in `[0, 1]` and the
/// keepers' skills in `[0, 1]`, the goal mouth's arithmetic fits.
proof fn lemma_goal_mouth_inputs(
    s: MatchState,
    g: PitchGeometry,
    keepers: Seq<CurvedGoalkeeperSkills>,
)
    requires
        within_limits(s),
        keepers.len() == 2,
        forall|k: int| 0 <= k < 2 ==> keeper_skills_in_unit(#[trigger] keepers[k]),
        in_goal_mouth(s.ball, g.goal_line_x as int, g.goal_half_width as int) ==> {
            &&& s.last_touched_by is Some
            &&& s.home_score < 255
            &&& s.away_score < 255
        },
    ensures
        goal_mouth_inputs_ok(s, g.goal_line_x as int, g.goal_half_width as int, keepers),
{
    if in_goal_mouth(s.ball, g.goal_line_x as int, g.goal_half_width as int) {
        let gk = conceding_keeper(s.ball);
        let c = conceding_skills(s, keepers);
        assert(keeper_skills_in_unit(keepers[0]));
        assert(keeper_skills_in_unit(keepers[1]));
        let p = s.players@[gk];
        assert(abs_spec(p.pos_x as int) <= POSITION_LIMIT);
        lemma_dist_sq_fits_bounded(p.pos_x as int, p.pos_y as int, s.ball.pos_x as int, s.ball.pos_y as int);
        let scorer = s.last_touched_by.unwrap() as int;
        assert(0 <= s.last_shot_xg@[scorer] <= crate::fixed::ONE);
        crate::goal::lemma_save_probability_fits_in_range(c, s.ball.pos_y - p.pos_y, s.last_shot_xg@[scorer] as int);
    }
}

/// A keeper's curved skills all lie in `[0, 1]`.
pub open spec fn keeper_skills_in_unit(c: CurvedGoalkeeperSkills) -> bool {
    &&& 0 <= c.reflexes <= crate::fixed::ONE
    &&& 0 <= c.handling <= crate::fixed::ONE
    &&& 0 <= c.one_on_ones <= crate::fixed::ONE
    &&& 0 <= c.positioning <= crate::fixed::ONE
}

/// Open one tick (see [`tick_opened`]). With the final whistle already the
/// last event nothing changes. Otherwise the clock advances by one; past
/// the end tick the final whistle is appended and no play runs; up to and
/// including the end tick goalmouth defending (goal lines at
/// ±`geometry.goal_line_x`), the goal mouth (`keepers[0]` the home
/// keeper's curved skills, `keepers[1]` the away keeper's, the save roll
/// drawn from the generator seeded by `save_seed`) and, unless a goal was
/// scored, the out-of-play clamp run; a goal appends the goal and the
/// kick-off to the event stream.
pub fn tick_match(
    state: MatchState,
    geometry: PitchGeometry,
    keepers: &[CurvedGoalkeeperSkills; 2],
    save_seed: u64,
) -> (r: TickOpening)
    requires
        !full_time_reached(state) ==> tick_ready(state),
        geometry.wf(),
        geometry.goal_line_x > 0,
        forall|k: int| 0 <= k < 2 ==> keeper_skills_in_unit(#[trigger] keepers@[k]),
        !full_time_reached(state) && in_goal_mouth(
            state.ball,
            geometry.goal_line_x as int,
            geometry.goal_half_width as int,
        ) ==> {
            &&& state.last_touched_by is Some
            &&& state.home_score < 255
            &&& state.away_score < 255
        },
    ensures
        full_time_reached(state) ==> r == TickOpening::Frozen(state),
        !full_time_reached(state) && state.tick + 1 > state.match_end_tick ==> (r matches TickOpening::Closed(c)
            && with_event(advanced(state), c, full_time_event(advanced(state)))),
        !full_time_reached(state) && state.tick + 1 <= state.match_end_tick ==> (r matches TickOpening::InPlay(p)
            && tick_opened(state, p, geometry, keepers@, chacha8_first_u64(save_seed))
            && p.state.wf()
            && p.state.players == state.players
            && p.state.tick == state.tick + 1
            && p.state.match_end_tick == state.match_end_tick
            && p.state.seed == state.seed
            && p.state.home_score >= state.home_score
            && p.state.away_score >= state.away_score
            && p.state.home_score + p.state.away_score <= state.home_score + state.away_score + 1
            && events_extended(state, p.state)),
{
    let n = state.match_events.len();
    if n > 0 {
        if let MatchEvent::FullTime { .. } = state.match_events[n - 1] {
            return TickOpening::Frozen(state);
        }
    }
    let mut state = state;
    state.tick = state.tick + 1;
    let ghost s1 = state;
    if state.tick > state.match_end_tick {
        let e = MatchEvent::FullTime {
            tick: state.tick,
            home_score: state.home_score as u16,
            away_score: state.away_score as u16,
        };
        state.match_events.push(e);
        return TickOpening::Closed(state);
    }
    proof {
        assert forall|k: int| 0 <= k < state.players@.len() implies dist_sq_fits(
            #[trigger] state.players@[k].pos_x as int,
            state.players@[k].pos_y as int,
            state.ball.pos_x as int,
            state.ball.pos_y as int,
        ) by {
            assert(abs_spec(state.players@[k].pos_x as int) <= POSITION_LIMIT);
            lemma_dist_sq_fits_bounded(
                state.players@[k].pos_x as int,
                state.players@[k].pos_y as int,
                state.ball.pos_x as int,
                state.ball.pos_y as int,
            );
        }
    }
    let state = resolve_goalmouth_defending(state, geometry.goal_line_x);
    let ghost s2 = state;
    proof {
        lemma_goalmouth_keeps(s1, geometry.goal_line_x as int);
        lemma_goal_mouth_inputs(s2, geometry, keepers@);
    }
    let (state, outcome) = resolve_goal_mouth(
        state,
        geometry.goal_line_x,
        geometry.goal_half_width,
        keepers,
        save_seed,
    );
    let ghost s3 = state;
    proof {
        assert(goal_mouth_resolved(s2, s3, outcome, geometry, keepers@, chacha8_first_u64(save_seed)));
        assert(s3.match_events == s1.match_events);
        assert(s3.match_events@.subrange(0, s3.match_events@.len() as int) =~= s3.match_events@);
    }
    match outcome {
        GoalMouthOutcome::Goal { scorer_slot, .. } => {
            let mut state = state;
            state.match_events.push(
                MatchEvent::Goal {
                    scorer_slot,
                    tick: state.tick,
                    score_home_after: state.home_score as u16,
                    score_away_after: state.away_score as u16,
                },
            );
            state.match_events.push(MatchEvent::KickOff { tick: state.tick, is_second_half: false });
            let possession_before = state.effective_possession();
            let mut tactic_events: Vec<(usize, TacticEvent)> = Vec::new();
            tactic_events.push((0, TacticEvent::Goal));
            tactic_events.push((1, TacticEvent::Goal));
            let p = PendingTick { state, goal_fired: true, possession_before, tactic_events };
            proof {
                assert(p.state.match_events@ == s3.match_events@ + goal_events(s3, scorer_slot));
                assert(p.tactic_events@ =~= seq![(0usize, TacticEvent::Goal), (1usize, TacticEvent::Goal)]);
                assert(p.state.match_events@.subrange(0, s3.match_events@.len() as int) =~= s3.match_events@);
                assert(opened_from(s3, outcome, p, geometry));
            }
            TickOpening::InPlay(p)
        },
        _ => {
            let (state, kinds) = clamp_out_of_play(state, geometry);
            let possession_before = state.effective_possession();
            let mut tactic_events: Vec<(usize, TacticEvent)> = Vec::new();
            if let Some(k) = kinds {
                tactic_events.push((0, TacticEvent::BallOutOfPlay { kind: k.0 }));
                tactic_events.push((1, TacticEvent::BallOutOfPlay { kind: k.1 }));
            }
            let p = PendingTick { state, goal_fired: false, possession_before, tactic_events };
            proof {
                assert(!(outcome is Goal));
                assert(p.state == out_of_play_resolution(s3, geometry).0);
                assert(p.tactic_events@ == restart_events(kinds));
                assert(p.possession_before == p.state.effective_possession_spec());
                assert(opened_from(s3, outcome, p, geometry));
            }
            TickOpening::InPlay(p)
        },
    }
}

/// The ball after its physics step, `stepped_ball`, at the place of the old
/// one; then, unless a goal was scored this tick, a pass in flight that
/// reached its receiver or timed out ends (see [`trap_resolution`]).
pub fn tick_after_ball_step(pending: PendingTick, stepped_ball: BallState) -> (r: PendingTick)
    requires
        pending.state.wf(),
        coordinates_within(pending.state.players@, POSITION_LIMIT as int),
        abs_spec(stepped_ball.pos_x as int) <= POSITION_LIMIT,
        abs_spec(stepped_ball.pos_y as int) <= POSITION_LIMIT,
    ensures
        r.goal_fired == pending.goal_fired,
        r.possession_before == pending.possession_before,
        r.tactic_events@ == pending.tactic_events@,
        r.state == (if pending.goal_fired {
            MatchState { ball: stepped_ball, ..pending.state }
        } else {
            trap_resolution(MatchState { ball: stepped_ball, ..pending.state })
        }),
        r.state.wf(),
        r.state.players == pending.state.players,
        r.state.tick == pending.state.tick,
        r.state.match_events == pending.state.match_events,
        keeps_identity(pending.state, r.state),
        abs_spec(r.state.ball.pos_x as int) <= POSITION_LIMIT,
        abs_spec(r.state.ball.pos_y as int) <= POSITION_LIMIT,
{
    let PendingTick { state, goal_fired, possession_before, tactic_events } = pending;
    let mut state = state;
    state.ball = stepped_ball;
    if !goal_fired {
        proof {
            assert forall|k: int| 0 <= k < state.players@.len() implies dist_sq_fits(
                #[trigger] state.players@[k].pos_x as int,
                state.players@[k].pos_y as int,
                state.ball.pos_x as int,
                state.ball.pos_y as int,
            ) by {
                assert(abs_spec(state.players@[k].pos_x as int) <= POSITION_LIMIT);
                lemma_dist_sq_fits_bounded(
                    state.players@[k].pos_x as int,
                    state.players@[k].pos_y as int,
                    state.ball.pos_x as int,
                    state.ball.pos_y as int,
                );
            }
            if let Some(b) = state.ball_in_flight {
                assert(abs_spec(state.players@[b.intended_receiver as int].pos_x as int) <= POSITION_LIMIT);
            }
        }
        state = trap_check_in_flight(state);
    }
    PendingTick { state, goal_fired, possession_before, tactic_events }
}

/// The decision turns of all slots took `before` to `after` and the
/// signature ledger from `lb` to `la`, with tactic events `events` (see
/// [`dispatch_tick`]).
#[verifier::opaque]
pub open spec fn decisions_made(
    before: MatchState,
    after: MatchState,
    lb: SignatureLedger,
    la: SignatureLedger,
    decides: Seq<bool>,
    chosen: Seq<PlayerIntent>,
    ctxs: Seq<IntentContext>,
    sigs: Seq<Vec<SignatureOption>>,
    picks: Seq<Option<usize>>,
    events: Seq<(usize, TacticEvent)>,
) -> bool {
    exists|trace: Seq<MatchState>, ledgers: Seq<SignatureLedger>|
        #[trigger] turns_chain(trace, ledgers, decides, chosen, ctxs, sigs, picks, 22)
            && roles_routed(before, trace[0]) && firings_expired(lb, ledgers[0], before.tick as int)
            && trace[22] == after && ledgers[22] == la && events == tick_events(
            trace,
            decides,
            chosen,
            ctxs,
            22,
        )
}

/// The tackles took `before` to `after` (see [`resolve_tackles`]).
#[verifier::opaque]
pub open spec fn tackles_resolved(
    before: MatchState,
    after: MatchState,
    skills: Seq<CurvedTackleSkills>,
    seeds: Seq<u64>,
) -> bool {
    match before.possession {
        None => after == before,
        Some(c) => {
            let w = first_tackle_winner(before, c as int, skills, seeds, 0);
            &&& forall|j: int|
                0 <= j < 22 ==> #[trigger] after.tackle_cooldown_until@[j] == if tackle_failed(
                    before,
                    c as int,
                    skills,
                    seeds,
                    j,
                ) {
                    before.tick + TACKLE_COOLDOWN_TICKS
                } else {
                    before.tackle_cooldown_until@[j] as int
                }
            &&& match w {
                Some(k) => after == (MatchState {
                    possession: Some(k as u8),
                    last_touched_by: Some(k as u8),
                    ball: BallState {
                        pos_x: before.players@[k].pos_x,
                        pos_y: before.players@[k].pos_y,
                        vel_x: 0,
                        vel_y: 0,
                        vel_z: 0,
                        ..before.ball
                    },
                    tackle_cooldown_until: after.tackle_cooldown_until,
                    ..before
                }),
                None => after == (MatchState { tackle_cooldown_until: after.tackle_cooldown_until, ..before }),
            }
        },
    }
}

/// A player moved by its velocity over the time step `dt`.
pub open spec fn moved_by(p: PlayerState, dt: int) -> PlayerState {
    PlayerState {
        pos_x: (p.pos_x + mul_spec(p.vel_x as int, dt)) as i64,
        pos_y: (p.pos_y + mul_spec(p.vel_y as int, dt)) as i64,
        ..p
    }
}

/// Every player of `before` moved by its velocity over `dt`; nothing else
/// changed.
pub open spec fn motion_integrated(before: MatchState, after: MatchState, dt: int) -> bool {
    &&& after == (MatchState { players: after.players, ..before })
    &&& after.players@.len() == before.players@.len()
    &&& forall|k: int|
        0 <= k < before.players@.len() ==> #[trigger] after.players@[k] == moved_by(
            before.players@[k],
            dt,
        )
}

/// A velocity within [`VELOCITY_LIMIT`] moves a player at most 2^40 raw
/// over a time step within [`MAX_TIME_STEP`].
proof fn lemma_step_length(v: int, dt: int)
    requires
        abs_spec(v) <= VELOCITY_LIMIT,
        0 <= dt <= MAX_TIME_STEP,
    ensures
        -1099511627776 <= mul_spec(v, dt) <= 1099511627776,
{
    assert(-4722366482869645213696 <= v * dt <= 4722366482869645213696) by (nonlinear_arith)
        requires
            -35184372088832 <= v <= 35184372088832,
            0 <= dt <= 134217728,
    ;
    vstd::arithmetic::div_mod::lemma_div_is_ordered(v * dt, 4722366482869645213696, 4294967296);
    vstd::arithmetic::div_mod::lemma_div_is_ordered(-4722366482869645213696, v * dt, 4294967296);
}

/// Move every player by its velocity over the time step `dt`.
fn integrate_motion(state: &mut MatchState, dt: i64)
    requires
        old(state).wf(),
        coordinates_within(old(state).players@, POSITION_LIMIT as int),
        velocities_within(old(state).players@, VELOCITY_LIMIT as int),
        0 <= dt <= MAX_TIME_STEP,
    ensures
        motion_integrated(*old(state), *final(state), dt as int),
        final(state).wf(),
        coordinates_within(final(state).players@, 8796093022208),
{
    let mut i: usize = 0;
    while i < 22
        invariant
            0 <= i <= 22,
            0 <= dt <= MAX_TIME_STEP,
            *state == (MatchState { players: state.players, ..*old(state) }),
            state.players@.len() == 22,
            old(state).wf(),
            coordinates_within(old(state).players@, POSITION_LIMIT as int),
            velocities_within(old(state).players@, VELOCITY_LIMIT as int),
            forall|k: int| 0 <= k < i ==> #[trigger] state.players@[k] == moved_by(old(state).players@[k], dt as int),
            forall|k: int| i <= k < 22 ==> #[trigger] state.players@[k] == old(state).players@[k],
        decreases 22 - i,
    {
        let p = state.players[i];
        proof {
            assert(abs_spec(old(state).players@[i as int].pos_x as int) <= POSITION_LIMIT);
            assert(abs_spec(old(state).players@[i as int].vel_x as int) <= VELOCITY_LIMIT);
            lemma_step_length(p.vel_x as int, dt as int);
            lemma_step_length(p.vel_y as int, dt as int);
        }
        let step_x = q_mul(p.vel_x, dt);
        let step_y = q_mul(p.vel_y, dt);
        state.players[i] = PlayerState { pos_x: p.pos_x + step_x, pos_y: p.pos_y + step_y, ..p };
        i = i + 1;
    }
    proof {
        assert forall|k: int| 0 <= k < 22 implies #[trigger] state.players@[k].slot == k
            && state.players@[k].attributes.wf() by {
            assert(state.players@[k] == moved_by(old(state).players@[k], dt as int));
        }
        assert forall|k: int| 0 <= k < state.players@.len() implies abs_spec(
            #[trigger] state.players@[k].pos_x as int,
        ) <= 8796093022208 && abs_spec(state.players@[k].pos_y as int) <= 8796093022208 by {
            let q = old(state).players@[k];
            assert(abs_spec(q.pos_x as int) <= POSITION_LIMIT);
            assert(abs_spec(q.vel_x as int) <= VELOCITY_LIMIT);
            lemma_step_length(q.vel_x as int, dt as int);
            lemma_step_length(q.vel_y as int, dt as int);
        }
    }
}

/// A ball faster than 2^44 raw along either axis is far too fast to be
/// collected.
proof fn lemma_fast_ball_stays_loose(s: MatchState)
    requires
        abs_spec(s.ball.vel_x as int) > 17592186044416 || abs_spec(s.ball.vel_y as int)
            > 17592186044416,
    ensures
        pickup_resolution(s) == s,
{
    let vx = s.ball.vel_x as int;
    let vy = s.ball.vel_y as int;
    assert(0 <= vx * vx) by (nonlinear_arith);
    assert(0 <= vy * vy) by (nonlinear_arith);
    assert(abs_spec(vx) > 17592186044416 ==> vx * vx >= 309485009821345068724781056) by (nonlinear_arith)
        requires
            vx > 17592186044416 || vx < -17592186044416 || abs_spec(vx) <= 17592186044416,
            abs_spec(vx) == (if vx < 0 { -vx } else { vx }),
    ;
    assert(abs_spec(vy) > 17592186044416 ==> vy * vy >= 309485009821345068724781056) by (nonlinear_arith)
        requires
            vy > 17592186044416 || vy < -17592186044416 || abs_spec(vy) <= 17592186044416,
            abs_spec(vy) == (if vy < 0 { -vy } else { vy }),
    ;
    vstd::arithmetic::div_mod::lemma_div_is_ordered(0, vx * vx, 4294967296);
    vstd::arithmetic::div_mod::lemma_div_is_ordered(0, vy * vy, 4294967296);
    if abs_spec(vx) > 17592186044416 {
        vstd::arithmetic::div_mod::lemma_div_is_ordered(309485009821345068724781056, vx * vx, 4294967296);
    } else {
        vstd::arithmetic::div_mod::lemma_div_is_ordered(309485009821345068724781056, vy * vy, 4294967296);
    }
    assert(vx - 0 == vx);
    assert(vy - 0 == vy);
}

/// How the tick closes from the state `i` after the players moved: unless
/// a goal was scored, the loose-ball pickup; then the player separation and,
/// at or past the end tick, the final whistle; the tick's tactic events are
/// those of the goal or restart, then, unless a goal was scored, those of
/// the decisions (`de`) and of the possession change.
#[verifier::opaque]
pub open spec fn tick_closed(
    p: PendingTick,
    i: MatchState,
    r: MatchState,
    events: Seq<(usize, TacticEvent)>,
    de: Seq<(usize, TacticEvent)>,
    tactics: Seq<TacticState>,
) -> bool {
    let u = if p.goal_fired {
        i
    } else {
        pickup_resolution(i)
    };
    &&& r == (MatchState { players: r.players, match_events: r.match_events, ..u })
    &&& r.players@ == sweep(u.players@, 0, 1)
    &&& r.players@.len() == u.players@.len()
    &&& forall|k: int|
        0 <= k < u.players@.len() ==> #[trigger] r.players@[k] == (PlayerState {
            pos_x: r.players@[k].pos_x,
            pos_y: r.players@[k].pos_y,
            ..u.players@[k]
        })
    &&& r.match_events@ == (if u.tick >= u.match_end_tick {
        u.match_events@.push(full_time_event(u))
    } else {
        u.match_events@
    })
    &&& events == (if p.goal_fired {
        p.tactic_events@
    } else {
        p.tactic_events@ + de + possession_transition_plan(u, p.possession_before, tactics)
    })
}

/// The tick went from `p` to `r`, and the signature ledger from `lb` to
/// `la`, with tactic events `events` through the state `d` after the
/// decisions (tactic events `de`), `t` after the tackles and `i` after the
/// players moved over `dt`; on a goal tick the decisions and the tackles
/// are skipped.
pub open spec fn tick_finished(
    p: PendingTick,
    r: MatchState,
    events: Seq<(usize, TacticEvent)>,
    lb: SignatureLedger,
    la: SignatureLedger,
    decides: Seq<bool>,
    chosen: Seq<PlayerIntent>,
    ctxs: Seq<IntentContext>,
    sigs: Seq<Vec<SignatureOption>>,
    picks: Seq<Option<usize>>,
    skills: Seq<CurvedTackleSkills>,
    seeds: Seq<u64>,
    tactics: Seq<TacticState>,
    dt: int,
    d: MatchState,
    de: Seq<(usize, TacticEvent)>,
    t: MatchState,
    i: MatchState,
) -> bool {
    &&& if p.goal_fired {
        d == p.state && de == Seq::<(usize, TacticEvent)>::empty() && t == d && la == lb
    } else {
        decisions_made(p.state, d, lb, la, decides, chosen, ctxs, sigs, picks, de) && tackles_resolved(
            d,
            t,
            skills,
            seeds,
        )
    }
    &&& motion_integrated(t, i, dt)
    &&& tick_closed(p, i, r, events, de, tactics)
}

/// The tick went from `p` to `r` with tactic events `events` through some
/// states after the decisions, the tackles and the players' motion (see
/// [`tick_finished`]).
pub open spec fn tick_completes(
    p: PendingTick,
    r: MatchState,
    events: Seq<(usize, TacticEvent)>,
    lb: SignatureLedger,
    la: SignatureLedger,
    decides: Seq<bool>,
    chosen: Seq<PlayerIntent>,
    ctxs: Seq<IntentContext>,
    sigs: Seq<Vec<SignatureOption>>,
    picks: Seq<Option<usize>>,
    skills: Seq<CurvedTackleSkills>,
    seeds: Seq<u64>,
    tactics: Seq<TacticState>,
    dt: int,
) -> bool {
    exists|d: MatchState, de: Seq<(usize, TacticEvent)>, t: MatchState, i: MatchState|
        #[trigger] tick_finished(
            p,
            r,
            events,
            lb,
            la,
            decides,
            chosen,
            ctxs,
            sigs,
            picks,
            skills,
            seeds,
            tactics,
            dt,
            d,
            de,
            t,
            i,
        )
}

/// The decision turns (see [`dispatch_tick`]).
fn run_decisions(
    state: MatchState,
    ledger: &mut SignatureLedger,
    decides: [bool; 22],
    chosen: [PlayerIntent; 22],
    ctxs: &Vec<IntentContext>,
    signatures: &Vec<Vec<SignatureOption>>,
    picks: [Option<usize>; 22],
) -> (r: (MatchState, Vec<(usize, TacticEvent)>))
    requires
        state.wf(),
        old(ledger).wf(),
        turn_bounds(state),
        0 <= state.tick <= 4611686018427387904,
        forall|k: int| 0 <= k < 22 ==> target_bounded(#[trigger] chosen@[k]),
        ctxs@.len() == 22,
        forall|k: int| 0 <= k < 22 ==> context_ok(#[trigger] ctxs@[k]),
        signatures@.len() == 22,
        forall|k: int| 0 <= k < 22 ==> options_ok((#[trigger] signatures@[k])@),
    ensures
        decisions_made(
            state,
            r.0,
            *old(ledger),
            *final(ledger),
            decides@,
            chosen@,
            ctxs@,
            signatures@,
            picks@,
            r.1@,
        ),
        r.0.wf(),
        final(ledger).wf(),
        turn_bounds(r.0),
        r.0.tick == state.tick,
        events_extended(state, r.0),
{
    let ghost s0 = state;
    let ghost l0 = *ledger;
    let mut state = state;
    let de = dispatch_tick(&mut state, ledger, decides, chosen, ctxs, signatures, picks);
    proof {
        reveal(decisions_made);
        let (trace, ledgers) = choose|trace: Seq<MatchState>, ledgers: Seq<SignatureLedger>|
            {
                &&& turns_chain(trace, ledgers, decides@, chosen@, ctxs@, signatures@, picks@, 22)
                &&& roles_routed(s0, trace[0])
                &&& firings_expired(l0, ledgers[0], s0.tick as int)
                &&& trace[22] == state
                &&& ledgers[22] == *ledger
                &&& de@ == tick_events(trace, decides@, chosen@, ctxs@, 22)
            };
        assert(turns_chain(trace, ledgers, decides@, chosen@, ctxs@, signatures@, picks@, 22));
    }
    (state, de)
}

/// The tackles (see [`resolve_tackles`]).
fn run_tackles(state: MatchState, skills: &Vec<CurvedTackleSkills>, seeds: &Vec<u64>) -> (r: MatchState)
    requires
        state.wf(),
        turn_bounds(state),
        skills@.len() == 22,
        seeds@.len() == 22,
        forall|k: int| 0 <= k < 22 ==> tackle_skills_in_unit(#[trigger] skills@[k]),
        state.tick <= 4611686018427387904,
    ensures
        tackles_resolved(state, r, skills@, seeds@),
        r.wf(),
        r.players == state.players,
        r.match_events == state.match_events,
        r.tick == state.tick,
        abs_spec(r.ball.pos_x as int) <= 17592186044416,
        abs_spec(r.ball.pos_y as int) <= 17592186044416,
{
    proof {
        if let Some(c) = state.possession {
            assert forall|k: int| 0 <= k < 22 implies dist_sq_fits(
                #[trigger] state.players@[k].pos_x as int,
                state.players@[k].pos_y as int,
                state.players@[c as int].pos_x as int,
                state.players@[c as int].pos_y as int,
            ) by {
                assert(abs_spec(state.players@[k].pos_x as int) <= POSITION_LIMIT);
                assert(abs_spec(state.players@[c as int].pos_x as int) <= POSITION_LIMIT);
                lemma_dist_sq_fits_bounded(
                    state.players@[k].pos_x as int,
                    state.players@[k].pos_y as int,
                    state.players@[c as int].pos_x as int,
                    state.players@[c as int].pos_y as int,
                );
            }
            if let Some(k) = first_tackle_winner(state, c as int, skills@, seeds@, 0) {
                crate::tackle::lemma_first_tackle_winner_in_range(state, c as int, skills@, seeds@, 0);
                assert(abs_spec(state.players@[k].pos_x as int) <= POSITION_LIMIT);
            }
        }
    }
    let r = resolve_tackles(state, skills, seeds);
    proof {
        reveal(tackles_resolved);
    }
    r
}

/// The loose-ball pickup, knowing that a ball too fast to collect stays
/// loose (see [`pickup_resolution`]).
fn settle_loose_ball(state: MatchState) -> (r: MatchState)
    requires
        state.wf(),
        coordinates_within(state.players@, 8796093022208),
        abs_spec(state.ball.pos_x as int) <= 17592186044416,
        abs_spec(state.ball.pos_y as int) <= 17592186044416,
    ensures
        r == pickup_resolution(state),
        r.wf(),
{
    let vx = crate::fixed::abs_bits(state.ball.vel_x);
    let vy = crate::fixed::abs_bits(state.ball.vel_y);
    if vx > 17592186044416 || vy > 17592186044416 {
        proof {
            lemma_fast_ball_stays_loose(state);
        }
        state
    } else {
        proof {
            lemma_dist_sq_fits_bounded(state.ball.vel_x as int, state.ball.vel_y as int, 0, 0);
            assert forall|k: int| 0 <= k < state.players@.len() implies dist_sq_fits(
                #[trigger] state.players@[k].pos_x as int,
                state.players@[k].pos_y as int,
                state.ball.pos_x as int,
                state.ball.pos_y as int,
            ) by {
                assert(abs_spec(state.players@[k].pos_x as int) <= 8796093022208);
                lemma_dist_sq_fits_bounded(
                    state.players@[k].pos_x as int,
                    state.players@[k].pos_y as int,
                    state.ball.pos_x as int,
                    state.ball.pos_y as int,
                );
            }
        }
        loose_ball_pickup(state)
    }
}

/// Close the tick (see [`tick_finished`]): unless a goal was scored this
/// tick, the decision turns (slot `k` deciding when `decides[k]`, with its
/// signature candidates `signatures[k]` and draw pick `picks[k]`, its
/// outfield role's choice `chosen[k]` under `ctxs[k]`, the firing windows
/// of `ledger` expired first; see [`dispatch_tick`]) and the tackles (curved `skills` and roll
/// `seeds` per slot); then every player moves by its velocity over `dt`;
/// unless a goal was scored, the loose-ball pickup and the tactic events of
/// the possession change (`tactics`: the teams' tactic states, home
/// first); then the player separation and, once the clock has reached the
/// end tick, the final whistle. Returns the state and the tick's tactic
/// events: the goal's or restart's, then the decisions', then the
/// possession change's.
pub fn finish_tick(
    pending: PendingTick,
    ledger: &mut SignatureLedger,
    decides: [bool; 22],
    chosen: [PlayerIntent; 22],
    ctxs: &Vec<IntentContext>,
    signatures: &Vec<Vec<SignatureOption>>,
    picks: [Option<usize>; 22],
    skills: &Vec<CurvedTackleSkills>,
    seeds: &Vec<u64>,
    tactics: &[TacticState; 2],
    dt: i64,
) -> (r: (MatchState, Vec<(usize, TacticEvent)>))
    requires
        pending.state.wf(),
        old(ledger).wf(),
        turn_bounds(pending.state),
        forall|k: int| 0 <= k < 22 ==> target_bounded(#[trigger] chosen@[k]),
        ctxs@.len() == 22,
        forall|k: int| 0 <= k < 22 ==> context_ok(#[trigger] ctxs@[k]),
        signatures@.len() == 22,
        forall|k: int| 0 <= k < 22 ==> options_ok((#[trigger] signatures@[k])@),
        skills@.len() == 22,
        seeds@.len() == 22,
        forall|k: int| 0 <= k < 22 ==> tackle_skills_in_unit(#[trigger] skills@[k]),
        pending.state.tick <= 4611686018427387904,
        0 <= dt <= MAX_TIME_STEP,
    ensures
        r.0.wf(),
        final(ledger).wf(),
        r.0.tick == pending.state.tick,
        events_extended(pending.state, r.0),
        tick_completes(
            pending,
            r.0,
            r.1@,
            *old(ledger),
            *final(ledger),
            decides@,
            chosen@,
            ctxs@,
            signatures@,
            picks@,
            skills@,
            seeds@,
            tactics@,
            dt as int,
        ),
{
    let ghost p = pending;
    let ghost l0 = *ledger;
    let PendingTick { state, goal_fired, possession_before, tactic_events } = pending;
    let mut state = state;
    let mut events = tactic_events;
    let mut decision_events: Vec<(usize, TacticEvent)> = Vec::new();
    proof {
        assert(state.match_events@.subrange(0, state.match_events@.len() as int) =~= state.match_events@);
    }
    let ghost mut d = state;
    if !goal_fired {
        let (decided, de) = run_decisions(state, ledger, decides, chosen, ctxs, signatures, picks);
        proof {
            d = decided;
        }
        state = run_tackles(decided, skills, seeds);
        decision_events = de;
        proof {
            assert(events_extended(d, state)) by {
                assert(state.match_events@.subrange(0, d.match_events@.len() as int) =~= d.match_events@);
            }
            lemma_events_extended_trans(p.state, d, state);
        }
    }
    let ghost t = state;
    let ghost de = decision_events@;
    integrate_motion(&mut state, dt);
    let ghost i = state;
    if !goal_fired {
        state = settle_loose_ball(state);
        let mut possession_events = possession_transition_events(&state, possession_before, tactics);
        events.append(&mut decision_events);
        events.append(&mut possession_events);
    }
    let ghost u = state;
    apply_player_separation(&mut state);
    if state.tick >= state.match_end_tick {
        let e = MatchEvent::FullTime {
            tick: state.tick,
            home_score: state.home_score as u16,
            away_score: state.away_score as u16,
        };
        state.match_events.push(e);
    }
    proof {
        assert(events_extended(u, state)) by {
            assert(state.match_events@.subrange(0, u.match_events@.len() as int) =~= u.match_events@);
        }
        assert(u.match_events == t.match_events);
        assert(events_extended(t, u)) by {
            assert(u.match_events@.subrange(0, u.match_events@.len() as int) =~= u.match_events@);
        }
        lemma_events_extended_trans(t, u, state);
        lemma_events_extended_trans(p.state, t, state);
        assert(tick_closed(p, i, state, events@, de, tactics@)) by {
            reveal(tick_closed);
        }
        assert(tick_finished(p, state, events@, l0, *ledger, decides@, chosen@, ctxs@, signatures@, picks@, skills@, seeds@, tactics@, dt as int, d, de, t, i));
        assert(p == pending);
        assert(tick_completes(p, state, events@, l0, *ledger, decides@, chosen@, ctxs@, signatures@, picks@, skills@, seeds@, tactics@, dt as int));
    }
    (state, events)
}

/// A closed tick whose clock has reached the end tick ends its event stream
/// with the final whistle.
pub proof fn lemma_whistle_at_the_end(
    p: PendingTick,
    r: MatchState,
    events: Seq<(usize, TacticEvent)>,
    lb: SignatureLedger,
    la: SignatureLedger,
    decides: Seq<bool>,
    chosen: Seq<PlayerIntent>,
    ctxs: Seq<IntentContext>,
    sigs: Seq<Vec<SignatureOption>>,
    picks: Seq<Option<usize>>,
    skills: Seq<CurvedTackleSkills>,
    seeds: Seq<u64>,
    tactics: Seq<TacticState>,
    dt: int,
)
    requires
        tick_completes(p, r, events, lb, la, decides, chosen, ctxs, sigs, picks, skills, seeds, tactics, dt),
    ensures
        r.tick >= r.match_end_tick ==> full_time_reached(r) && r.match_events@.last() == full_time_event(r),
{
    let (d, de, t, i) = choose|d: MatchState, de: Seq<(usize, TacticEvent)>, t: MatchState, i: MatchState|
        #[trigger] tick_finished(p, r, events, lb, la, decides, chosen, ctxs, sigs, picks, skills, seeds, tactics, dt, d, de, t, i);
    reveal(tick_closed);
}

/// A tick in play, run through its three stages (opened, its ball stepped,
/// closed), advances the clock by exactly one tick, keeps the earlier event
/// stream as a prefix of the new one, and blows the final whistle once the
/// clock has reached the end tick.
pub proof fn lemma_tick_runs_once(
    state: MatchState,
    opened: PendingTick,
    stepped: PendingTick,
    r: MatchState,
    events: Seq<(usize, TacticEvent)>,
    lb: SignatureLedger,
    la: SignatureLedger,
    decides: Seq<bool>,
    chosen: Seq<PlayerIntent>,
    ctxs: Seq<IntentContext>,
    sigs: Seq<Vec<SignatureOption>>,
    picks: Seq<Option<usize>>,
    skills: Seq<CurvedTackleSkills>,
    seeds: Seq<u64>,
    tactics: Seq<TacticState>,
    dt: int,
)
    requires
        opened.state.tick == state.tick + 1,
        events_extended(state, opened.state),
        stepped.state.tick == opened.state.tick,
        stepped.state.match_events == opened.state.match_events,
        r.tick == stepped.state.tick,
        events_extended(stepped.state, r),
        tick_completes(stepped, r, events, lb, la, decides, chosen, ctxs, sigs, picks, skills, seeds, tactics, dt),
    ensures
        r.tick == state.tick + 1,
        events_extended(state, r),
        r.tick >= r.match_end_tick ==> full_time_reached(r),
{
    assert(events_extended(opened.state, stepped.state)) by {
        assert(stepped.state.match_events@.subrange(0, opened.state.match_events@.len() as int)
            =~= opened.state.match_events@);
    }
    lemma_events_extended_trans(state, opened.state, stepped.state);
    lemma_events_extended_trans(state, stepped.state, r);
    lemma_whistle_at_the_end(stepped, r, events, lb, la, decides, chosen, ctxs, sigs, picks, skills, seeds, tactics, dt);
}

/// Closing a tick keeps the identity of the state (see
/// [`keeps_identity`]): the seed, the end tick and the score stay, every
/// player keeps its role, and no decision count goes down.
pub proof fn lemma_closing_keeps_identity(
    p: PendingTick,
    r: MatchState,
    events: Seq<(usize, TacticEvent)>,
    lb: SignatureLedger,
    la: SignatureLedger,
    decides: Seq<bool>,
    chosen: Seq<PlayerIntent>,
    ctxs: Seq<IntentContext>,
    sigs: Seq<Vec<SignatureOption>>,
    picks: Seq<Option<usize>>,
    skills: Seq<CurvedTackleSkills>,
    seeds: Seq<u64>,
    tactics: Seq<TacticState>,
    dt: int,
)
    requires
        p.state.players@.len() == 22,
        tick_completes(p, r, events, lb, la, decides, chosen, ctxs, sigs, picks, skills, seeds, tactics, dt),
    ensures
        keeps_identity(p.state, r),
{
    let (d, de, t, i) = choose|d: MatchState, de: Seq<(usize, TacticEvent)>, t: MatchState, i: MatchState|
        #[trigger] tick_finished(p, r, events, lb, la, decides, chosen, ctxs, sigs, picks, skills, seeds, tactics, dt, d, de, t, i);
    if p.goal_fired {
        assert(keeps_identity(p.state, t));
    } else {
        reveal(decisions_made);
        reveal(tackles_resolved);
        let (trace, ledgers) = choose|trace: Seq<MatchState>, ledgers: Seq<SignatureLedger>|
            #[trigger] turns_chain(trace, ledgers, decides, chosen, ctxs, sigs, picks, 22)
                && roles_routed(p.state, trace[0]) && firings_expired(lb, ledgers[0], p.state.tick as int)
                && trace[22] == d && ledgers[22] == la && de == tick_events(trace, decides, chosen, ctxs, 22);
        assert forall|k: int| 0 <= k < p.state.players@.len() implies crate::role_states::role_of(
            #[trigger] trace[0].players@[k].role_state,
        ) == crate::role_states::role_of(p.state.players@[k].role_state)
            && trace[0].players@[k].local_decision_counter >= p.state.players@[k].local_decision_counter by {
            lemma_decision_keeps_role(p.state, k, PlayerIntent::Idle);
        }
        assert(keeps_identity(p.state, trace[0]));
        lemma_turns_keep_identity(trace, ledgers, decides, chosen, ctxs, sigs, picks, 22);
        lemma_keeps_identity_trans(p.state, trace[0], d);
        assert(keeps_identity(d, t));
        lemma_keeps_identity_trans(p.state, d, t);
    }
    assert(keeps_identity(t, i));
    lemma_keeps_identity_trans(p.state, t, i);
    reveal(tick_closed);
    assert(keeps_identity(i, r));
    lemma_keeps_identity_trans(p.state, i, r);
}

/// A tick in play, run through its three stages, keeps the seed and the end
/// tick, lets the score rise by at most one goal, keeps every player's
/// role, and never lowers a decision count.
pub proof fn lemma_tick_keeps_identity(
    state: MatchState,
    opened: PendingTick,
    stepped: PendingTick,
    r: MatchState,
    events: Seq<(usize, TacticEvent)>,
    lb: SignatureLedger,
    la: SignatureLedger,
    decides: Seq<bool>,
    chosen: Seq<PlayerIntent>,
    ctxs: Seq<IntentContext>,
    sigs: Seq<Vec<SignatureOption>>,
    picks: Seq<Option<usize>>,
    skills: Seq<CurvedTackleSkills>,
    seeds: Seq<u64>,
    tactics: Seq<TacticState>,
    dt: int,
)
    requires
        state.players@.len() == 22,
        opened.state.players == state.players,
        opened.state.seed == state.seed,
        opened.state.match_end_tick == state.match_end_tick,
        opened.state.home_score >= state.home_score,
        opened.state.away_score >= state.away_score,
        opened.state.home_score + opened.state.away_score <= state.home_score + state.away_score + 1,
        keeps_identity(opened.state, stepped.state),
        tick_completes(stepped, r, events, lb, la, decides, chosen, ctxs, sigs, picks, skills, seeds, tactics, dt),
    ensures
        r.seed == state.seed,
        r.match_end_tick == state.match_end_tick,
        r.home_score >= state.home_score,
        r.away_score >= state.away_score,
        r.home_score + r.away_score <= state.home_score + state.away_score + 1,
        r.players@.len() == 22,
        forall|k: int|
            0 <= k < 22 ==> crate::role_states::role_of(#[trigger] r.players@[k].role_state)
                == crate::role_states::role_of(state.players@[k].role_state)
                && r.players@[k].local_decision_counter >= state.players@[k].local_decision_counter,
{
    lemma_closing_keeps_identity(stepped, r, events, lb, la, decides, chosen, ctxs, sigs, picks, skills, seeds, tactics, dt);
    lemma_keeps_identity_trans(opened.state, stepped.state, r);
    assert forall|k: int| 0 <= k < 22 implies crate::role_states::role_of(#[trigger] r.players@[k].role_state)
        == crate::role_states::role_of(state.players@[k].role_state)
        && r.players@[k].local_decision_counter >= state.players@[k].local_decision_counter by {
        assert(opened.state.players@[k] == state.players@[k]);
        assert(crate::role_states::role_of(r.players@[k].role_state) == crate::role_states::role_of(
            opened.state.players@[k].role_state,
        ));
    }
}

} // verus!
