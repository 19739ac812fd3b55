//! The match state the simulation rules read and update, and its
//! constructors and accessors.

use vstd::prelude::*;

use crate::ball::BallState;
use crate::fixed::from_int_spec;
use crate::match_event::MatchEvent;
use crate::player::{PlayerState, mid_range_attributes};
use crate::role_states::{Role, initial_role_state};
use crate::subtree_library::{formation_position, formation_xy};
use crate::telemetry::{DribbleTelemetryRecord, ShotTelemetryRecord};

verus! {

/// Players per team.
pub const PLAYERS_PER_TEAM: usize = 11;

/// Players on the pitch, both teams.
pub const TOTAL_PLAYERS: usize = 22;

/// Ticks in a full 90-minute match (60 ticks per minute).
pub const FULL_MATCH_TICKS: u32 = 5400;

/// Tactical archetype both teams start with.
pub const DEFAULT_ARCHETYPE_ID: &'static str = "fwh.core:archetype.attacking-fullback";

/// Roster slot of the home centre-forward, who has the ball at kick-off.
pub const HOME_KICK_OFF_SLOT: u8 = 9;

/// A pass that has been launched and is travelling to its receiver.
#[derive(Debug, Clone, Copy, PartialEq, Eq, Structural)]
pub struct BallInFlight {
    /// Slot of the intended receiver.
    pub intended_receiver: u8,
    /// Whether the pass was decided successful at launch (the receiver will
    /// gain possession) or failed (the ball drops loose).
    pub outcome_is_success: bool,
    /// Tick at which the pass was launched.
    pub launch_tick: i64,
}

/// Team index of a roster slot: 0 for home (`0..11`), 1 for away.
pub open spec fn team_of_spec(slot: int) -> int {
    if slot < 11 {
        0
    } else {
        1
    }
}

/// The formation role of a roster slot in the 4-3-3: GK, four defenders,
/// three midfielders, three forwards, per team.
pub open spec fn role_for_slot(slot: int) -> Role {
    let in_team = slot % 11;
    if in_team == 0 {
        Role::Goalkeeper
    } else if in_team <= 4 {
        Role::Defender
    } else if in_team <= 7 {
        Role::Midfielder
    } else {
        Role::Forward
    }
}

/// The player in roster slot `slot` at kick-off.
pub open spec fn initial_player(slot: int) -> PlayerState {
    PlayerState {
        slot: slot as u8,
        pos_x: from_int_spec(formation_xy(slot).0) as i64,
        pos_y: from_int_spec(formation_xy(slot).1) as i64,
        vel_x: 0,
        vel_y: 0,
        role_state: initial_role_state(role_for_slot(slot)),
        local_decision_counter: 0,
        attributes: mid_range_attributes(),
    }
}

/// The match state: seed, clock, the 22 players, the ball, the score and
/// the possession bookkeeping.
#[derive(Debug, Clone, PartialEq, Eq)]
pub struct MatchState {
    /// Match seed.
    pub seed: u64,
    /// Current tick; starts at 0 and advances by one per simulation step.
    pub tick: i64,
    /// Players by roster slot: home `0..11`, away `11..22`.
    pub players: Vec<PlayerState>,
    /// The ball.
    pub ball: BallState,
    pub home_score: u8,
    pub away_score: u8,
    /// Slot of the player in possession; `None` when the ball is loose.
    pub possession: Option<u8>,
    /// Slot of the last player to touch the ball.
    pub last_touched_by: Option<u8>,
    /// Tick at which the match ends.
    pub match_end_tick: i64,
    /// The pass currently in flight, if any.
    pub ball_in_flight: Option<BallInFlight>,
    /// Per slot, the first tick at which that player may attempt a tackle
    /// again (0: no cooldown).
    pub tackle_cooldown_until: [i64; 22],
    /// Per slot, the xG of that player's latest shot (0: none, or cleared
    /// by a save).
    pub last_shot_xg: [i64; 22],
    /// Shot calibration samples not yet drained.
    pub shot_telemetry: Vec<ShotTelemetryRecord>,
    /// Dribble calibration samples not yet drained.
    pub dribble_telemetry: Vec<DribbleTelemetryRecord>,
    /// The home team's tactical archetype.
    pub home_archetype_id: String,
    /// The away team's tactical archetype.
    pub away_archetype_id: String,
    /// Everything that happened so far, in order.
    pub match_events: Vec<MatchEvent>,
}

impl MatchState {
    /// The structural invariant: a non-negative clock; 22 players, each in
    /// its own slot with attributes in `[0, 1]`; every slot reference is in
    /// range; and a pass in flight means nobody has possession and it was
    /// launched at a tick between 0 and the current tick.
    pub open spec fn wf(&self) -> bool {
        &&& self.tick >= 0
        &&& self.players@.len() == 22
        &&& forall|i: int| 0 <= i < 22 ==> #[trigger] self.players@[i].slot == i
        &&& forall|i: int| 0 <= i < 22 ==> #[trigger] self.players@[i].attributes.wf()
        &&& self.possession matches Some(s) ==> s < 22
        &&& self.last_touched_by matches Some(s) ==> s < 22
        &&& self.ball_in_flight matches Some(b) ==> {
            &&& b.intended_receiver < 22
            &&& self.possession is None
            &&& 0 <= b.launch_tick <= self.tick
        }
    }

    /// Effective possession: the possessor if there is one, otherwise the
    /// receiver of a successful pass in flight, otherwise nobody.
    pub open spec fn effective_possession_spec(&self) -> Option<u8> {
        match self.possession {
            Some(s) => Some(s),
            None => match self.ball_in_flight {
                Some(b) => if b.outcome_is_success {
                    Some(b.intended_receiver)
                } else {
                    None
                },
                None => None,
            },
        }
    }

    /// Kick-off state at tick 0: players on their 4-3-3 formation spots in
    /// their roles' initial states, ball at rest on the centre spot, 0–0,
    /// the home centre-forward (slot 9) in possession and last to touch the
    /// ball, a full 5400-tick match ahead and no pass in flight.
    pub fn initial(seed: u64) -> (s: MatchState)
        ensures
            s.wf(),
            s.seed == seed,
            s.tick == 0,
            forall|i: int| 0 <= i < 22 ==> #[trigger] s.players@[i] == initial_player(i),
            s.ball == BallState::centre_spot_spec(),
            s.home_score == 0,
            s.away_score == 0,
            s.possession == Some(9u8),
            s.last_touched_by == Some(9u8),
            s.match_end_tick == 5400,
            s.ball_in_flight is None,
            forall|i: int| 0 <= i < 22 ==> #[trigger] s.tackle_cooldown_until@[i] == 0,
            forall|i: int| 0 <= i < 22 ==> #[trigger] s.last_shot_xg@[i] == 0,
            s.shot_telemetry@.len() == 0,
            s.dribble_telemetry@.len() == 0,
            s.home_archetype_id@ == DEFAULT_ARCHETYPE_ID@,
            s.away_archetype_id@ == DEFAULT_ARCHETYPE_ID@,
            s.match_events@ == seq![MatchEvent::KickOff { tick: 0, is_second_half: false }],
    {
        let mut players: Vec<PlayerState> = Vec::with_capacity(TOTAL_PLAYERS);
        let mut slot: u8 = 0;
        while slot < 22
            invariant
                slot <= 22,
                players@.len() == slot,
                forall|i: int| 0 <= i < slot ==> #[trigger] players@[i] == initial_player(i),
            decreases 22 - slot,
        {
            let in_team = slot % 11;
            let role = if in_team == 0 {
                Role::Goalkeeper
            } else if in_team <= 4 {
                Role::Defender
            } else if in_team <= 7 {
                Role::Midfielder
            } else {
                Role::Forward
            };
            let (x, y) = formation_position(slot);
            players.push(PlayerState::with_role(slot, x, y, role));
            slot = slot + 1;
        }
        assert forall|i: int| 0 <= i < 22 implies #[trigger] players@[i].attributes.wf() by {
            assert(players@[i] == initial_player(i));
        }
        MatchState {
            seed,
            tick: 0,
            players,
            ball: BallState::centre_spot(),
            home_score: 0,
            away_score: 0,
            possession: Some(HOME_KICK_OFF_SLOT),
            last_touched_by: Some(HOME_KICK_OFF_SLOT),
            match_end_tick: 5400,
            ball_in_flight: None,
            tackle_cooldown_until: [0; 22],
            last_shot_xg: [0; 22],
            shot_telemetry: Vec::new(),
            dribble_telemetry: Vec::new(),
            home_archetype_id: DEFAULT_ARCHETYPE_ID.to_owned(),
            away_archetype_id: DEFAULT_ARCHETYPE_ID.to_owned(),
            match_events: vec![MatchEvent::KickOff { tick: 0, is_second_half: false }],
        }
    }

    /// Slot of the player in possession; `None` for a loose ball.
    pub fn possession(&self) -> (p: Option<u8>)
        ensures
            p == self.possession,
    {
        self.possession
    }

    /// Possession as the team-shape logic sees it: the possessor, or the
    /// receiver of a successful pass still in flight.
    pub fn effective_possession(&self) -> (p: Option<u8>)
        ensures
            p == self.effective_possession_spec(),
    {
        if let Some(slot) = self.possession {
            return Some(slot);
        }
        if let Some(bif) = self.ball_in_flight {
            if bif.outcome_is_success {
                return Some(bif.intended_receiver);
            }
        }
        None
    }

    /// Slot of the last player to touch the ball.
    pub fn last_touched_by(&self) -> (p: Option<u8>)
        ensures
            p == self.last_touched_by,
    {
        self.last_touched_by
    }

    /// The tick at which the match ends.
    pub fn match_end_tick(&self) -> (t: i64)
        ensures
            t == self.match_end_tick,
    {
        self.match_end_tick
    }

    /// The home team's tactical archetype id.
    pub fn home_archetype_id(&self) -> (id: &str)
        ensures
            id@ == self.home_archetype_id@,
    {
        self.home_archetype_id.as_str()
    }

    /// The away team's tactical archetype id.
    pub fn away_archetype_id(&self) -> (id: &str)
        ensures
            id@ == self.away_archetype_id@,
    {
        self.away_archetype_id.as_str()
    }

    /// Take the pending shot calibration samples, leaving none behind;
    /// nothing else changes.
    pub fn drain_shot_telemetry(&mut self) -> (v: Vec<ShotTelemetryRecord>)
        ensures
            v@ == old(self).shot_telemetry@,
            final(self).shot_telemetry@.len() == 0,
            *final(self) == (MatchState { shot_telemetry: final(self).shot_telemetry, ..*old(self) }),
    {
        let mut out: Vec<ShotTelemetryRecord> = Vec::new();
        std::mem::swap(&mut out, &mut self.shot_telemetry);
        out
    }

    /// Take the pending dribble calibration samples, leaving none behind;
    /// nothing else changes.
    pub fn drain_dribble_telemetry(&mut self) -> (v: Vec<DribbleTelemetryRecord>)
        ensures
            v@ == old(self).dribble_telemetry@,
            final(self).dribble_telemetry@.len() == 0,
            *final(self) == (MatchState {
                dribble_telemetry: final(self).dribble_telemetry,
                ..*old(self)
            }),
    {
        let mut out: Vec<DribbleTelemetryRecord> = Vec::new();
        std::mem::swap(&mut out, &mut self.dribble_telemetry);
        out
    }

    /// Number of pending shot calibration samples.
    pub fn shot_telemetry_len(&self) -> (n: usize)
        ensures
            n == self.shot_telemetry@.len(),
    {
        self.shot_telemetry.len()
    }

    /// Number of pending dribble calibration samples.
    pub fn dribble_telemetry_len(&self) -> (n: usize)
        ensures
            n == self.dribble_telemetry@.len(),
    {
        self.dribble_telemetry.len()
    }

    /// The match-event stream so far.
    pub fn match_events(&self) -> (e: &[MatchEvent])
        ensures
            e@ == self.match_events@,
    {
        self.match_events.as_slice()
    }

    /// This state with `slot` recorded as the last player to touch the ball.
    pub fn with_last_touched_by(self, slot: u8) -> (s: MatchState)
        ensures
            s == (MatchState { last_touched_by: Some(slot), ..self }),
    {
        let mut s = self;
        s.last_touched_by = Some(slot);
        s
    }

    /// This state with `slot` in possession.
    pub fn with_possession(self, slot: u8) -> (s: MatchState)
        ensures
            s == (MatchState { possession: Some(slot), ..self }),
    {
        let mut s = self;
        s.possession = Some(slot);
        s
    }

    /// This state with the match ending at tick `t`.
    pub fn with_match_end_tick(self, t: i64) -> (s: MatchState)
        ensures
            s == (MatchState { match_end_tick: t, ..self }),
    {
        let mut s = self;
        s.match_end_tick = t;
        s
    }
}

/// Team index of a roster slot: 0 for home (`0..11`), 1 for away.
pub fn team_of(slot: u8) -> (t: usize)
    ensures
        t == team_of_spec(slot as int),
{
    if (slot as usize) < PLAYERS_PER_TEAM {
        0
    } else {
        1
    }
}

/// Effective possession agrees with raw possession whenever someone has the
/// ball, and names the receiver exactly when a successful pass is in flight
/// to a loose ball.
pub proof fn lemma_effective_possession(s: MatchState)
    ensures
        s.possession is Some ==> s.effective_possession_spec() == s.possession,
        s.possession is None ==> (s.effective_possession_spec() is Some <==> (
        s.ball_in_flight is Some && s.ball_in_flight.unwrap().outcome_is_success)),
{
}

/// The formation role a content template's preferred-role string asks for:
/// `"GK"` a goalkeeper, `"DEF"` a defender, `"AM"`, `"MID"` and `"CM"` a
/// midfielder, and anything else a forward.
pub open spec fn formation_role_of(preferred_role: Seq<char>) -> Role {
    if preferred_role == "GK"@ {
        Role::Goalkeeper
    } else if preferred_role == "DEF"@ {
        Role::Defender
    } else if preferred_role == "AM"@ || preferred_role == "MID"@ || preferred_role == "CM"@ {
        Role::Midfielder
    } else {
        Role::Forward
    }
}

fn role_is(preferred_role: &String, lit: &str) -> (b: bool)
    ensures
        b == (preferred_role@ == lit@),
{
    let s = lit.to_owned();
    *preferred_role == s
}

/// The formation role for a template's preferred role (see
/// [`formation_role_of`]).
pub fn preferred_role_to_formation_role(preferred_role: &String) -> (r: Role)
    ensures
        r == formation_role_of(preferred_role@),
{
    if role_is(preferred_role, "GK") {
        Role::Goalkeeper
    } else if role_is(preferred_role, "DEF") {
        Role::Defender
    } else if role_is(preferred_role, "AM") || role_is(preferred_role, "MID") || role_is(
        preferred_role,
        "CM",
    ) {
        Role::Midfielder
    } else {
        Role::Forward
    }
}

} // verus!
