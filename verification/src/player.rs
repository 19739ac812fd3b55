//! Per-player state and the attribute record the decision logic reads.

use vstd::prelude::*;

use crate::fixed::{ONE, abs_spec};
use crate::role_states::{PlayerRoleState, Role, role_of, initial_role_state};

verus! {

/// Raw bits of the mid-range attribute value 0.5.
pub const MID_RANGE: i64 = 2147483648;

/// Is a Q32 raw value inside the unit interval `[0, 1]`?
pub open spec fn unit(v: i64) -> bool {
    0 <= v <= ONE
}

/// Technical attributes, each a Q32 value in `[0, 1]`.
#[derive(Debug, Clone, Copy, PartialEq, Eq, Structural)]
pub struct TechnicalAttributes {
    pub passing: i64,
    pub technique: i64,
    pub first_touch: i64,
    pub crossing: i64,
    pub dribbling: i64,
    pub tackling: i64,
    pub marking: i64,
    pub long_shots: i64,
    pub finishing: i64,
}

/// Mental attributes, each a Q32 value in `[0, 1]`.
#[derive(Debug, Clone, Copy, PartialEq, Eq, Structural)]
pub struct MentalAttributes {
    pub composure: i64,
    pub vision: i64,
    pub decisions: i64,
    pub positioning: i64,
    pub anticipation: i64,
    pub off_the_ball: i64,
    pub flair: i64,
}

/// Physical attributes, each a Q32 value in `[0, 1]`.
#[derive(Debug, Clone, Copy, PartialEq, Eq, Structural)]
pub struct PhysicalAttributes {
    pub pace: i64,
    pub stamina: i64,
    pub strength: i64,
    pub balance: i64,
    pub acceleration: i64,
}

/// Goalkeeping attributes, each a Q32 value in `[0, 1]`.
#[derive(Debug, Clone, Copy, PartialEq, Eq, Structural)]
pub struct GoalkeeperAttributes {
    pub reflexes: i64,
    pub handling: i64,
    pub one_on_ones: i64,
    pub command_of_area: i64,
    pub kicking: i64,
    pub aerial_reach: i64,
}

/// Personality traits, each a Q32 value in `[0, 1]`.
#[derive(Debug, Clone, Copy, PartialEq, Eq, Structural)]
pub struct PersonalityAttributes {
    pub aggression: i64,
    pub risk_appetite: i64,
}

/// The attribute record of a player: the fields the simulation's decision
/// rules read, grouped as technical / mental / physical / goalkeeping /
/// personality.
#[derive(Debug, Clone, Copy, PartialEq, Eq, Structural)]
pub struct PlayerAttributes {
    pub technical: TechnicalAttributes,
    pub mental: MentalAttributes,
    pub physical: PhysicalAttributes,
    pub goalkeeper: GoalkeeperAttributes,
    pub personality: PersonalityAttributes,
}

/// The attribute record with every attribute at 0.5.
pub open spec fn mid_range_attributes() -> PlayerAttributes {
    PlayerAttributes {
        technical: TechnicalAttributes {
            passing: MID_RANGE,
            technique: MID_RANGE,
            first_touch: MID_RANGE,
            crossing: MID_RANGE,
            dribbling: MID_RANGE,
            tackling: MID_RANGE,
            marking: MID_RANGE,
            long_shots: MID_RANGE,
            finishing: MID_RANGE,
        },
        mental: MentalAttributes {
            composure: MID_RANGE,
            vision: MID_RANGE,
            decisions: MID_RANGE,
            positioning: MID_RANGE,
            anticipation: MID_RANGE,
            off_the_ball: MID_RANGE,
            flair: MID_RANGE,
        },
        physical: PhysicalAttributes {
            pace: MID_RANGE,
            stamina: MID_RANGE,
            strength: MID_RANGE,
            balance: MID_RANGE,
            acceleration: MID_RANGE,
        },
        goalkeeper: GoalkeeperAttributes {
            reflexes: MID_RANGE,
            handling: MID_RANGE,
            one_on_ones: MID_RANGE,
            command_of_area: MID_RANGE,
            kicking: MID_RANGE,
            aerial_reach: MID_RANGE,
        },
        personality: PersonalityAttributes { aggression: MID_RANGE, risk_appetite: MID_RANGE },
    }
}

impl PlayerAttributes {
    /// Every attribute lies in `[0, 1]`.
    pub open spec fn wf(self) -> bool {
        &&& unit(self.technical.passing)
        &&& unit(self.technical.technique)
        &&& unit(self.technical.first_touch)
        &&& unit(self.technical.crossing)
        &&& unit(self.technical.dribbling)
        &&& unit(self.technical.tackling)
        &&& unit(self.technical.marking)
        &&& unit(self.technical.long_shots)
        &&& unit(self.technical.finishing)
        &&& unit(self.mental.composure)
        &&& unit(self.mental.vision)
        &&& unit(self.mental.decisions)
        &&& unit(self.mental.positioning)
        &&& unit(self.mental.anticipation)
        &&& unit(self.mental.off_the_ball)
        &&& unit(self.mental.flair)
        &&& unit(self.physical.pace)
        &&& unit(self.physical.stamina)
        &&& unit(self.physical.strength)
        &&& unit(self.physical.balance)
        &&& unit(self.physical.acceleration)
        &&& unit(self.goalkeeper.reflexes)
        &&& unit(self.goalkeeper.handling)
        &&& unit(self.goalkeeper.one_on_ones)
        &&& unit(self.goalkeeper.command_of_area)
        &&& unit(self.goalkeeper.kicking)
        &&& unit(self.goalkeeper.aerial_reach)
        &&& unit(self.personality.aggression)
        &&& unit(self.personality.risk_appetite)
    }

    /// Every attribute equals the mid-range value 0.5.
    pub open spec fn is_mid_range(self) -> bool {
        self == mid_range_attributes()
    }

    /// The baseline record: every attribute at 0.5.
    pub fn mid_range_baseline() -> (a: PlayerAttributes)
        ensures
            a.is_mid_range(),
            a.wf(),
    {
        PlayerAttributes {
            technical: TechnicalAttributes {
                passing: MID_RANGE,
                technique: MID_RANGE,
                first_touch: MID_RANGE,
                crossing: MID_RANGE,
                dribbling: MID_RANGE,
                tackling: MID_RANGE,
                marking: MID_RANGE,
                long_shots: MID_RANGE,
                finishing: MID_RANGE,
            },
            mental: MentalAttributes {
                composure: MID_RANGE,
                vision: MID_RANGE,
                decisions: MID_RANGE,
                positioning: MID_RANGE,
                anticipation: MID_RANGE,
                off_the_ball: MID_RANGE,
                flair: MID_RANGE,
            },
            physical: PhysicalAttributes {
                pace: MID_RANGE,
                stamina: MID_RANGE,
                strength: MID_RANGE,
                balance: MID_RANGE,
                acceleration: MID_RANGE,
            },
            goalkeeper: GoalkeeperAttributes {
                reflexes: MID_RANGE,
                handling: MID_RANGE,
                one_on_ones: MID_RANGE,
                command_of_area: MID_RANGE,
                kicking: MID_RANGE,
                aerial_reach: MID_RANGE,
            },
            personality: PersonalityAttributes { aggression: MID_RANGE, risk_appetite: MID_RANGE },
        }
    }
}

/// Per-player state, slot-indexed inside the match state.
#[derive(Debug, Clone, Copy, PartialEq, Eq, Structural)]
pub struct PlayerState {
    /// Roster slot `0..22` (home `0..11`, away `11..22`).
    pub slot: u8,
    /// Position in metres (Q32 raw bits); `(0, 0)` is the centre spot.
    pub pos_x: i64,
    pub pos_y: i64,
    /// Velocity in m/s (Q32 raw bits).
    pub vel_x: i64,
    pub vel_y: i64,
    /// Role paired with the current per-role state.
    pub role_state: PlayerRoleState,
    /// Number of decisions this player has taken this match.
    pub local_decision_counter: u32,
    /// Attribute record.
    pub attributes: PlayerAttributes,
}

impl PlayerState {
    /// A player at `(x, y)`, at rest, in the initial state of `role`, with
    /// no decisions taken yet and mid-range attributes.
    pub fn with_role(slot: u8, x: i64, y: i64, role: Role) -> (p: PlayerState)
        ensures
            p.slot == slot,
            p.pos_x == x,
            p.pos_y == y,
            p.vel_x == 0,
            p.vel_y == 0,
            p.role_state == initial_role_state(role),
            p.local_decision_counter == 0,
            p.attributes.is_mid_range(),
            p.attributes.wf(),
    {
        PlayerState {
            slot,
            pos_x: x,
            pos_y: y,
            vel_x: 0,
            vel_y: 0,
            role_state: PlayerRoleState::initial(role),
            local_decision_counter: 0,
            attributes: PlayerAttributes::mid_range_baseline(),
        }
    }

    /// A midfielder at `(x, y)`; otherwise as [`PlayerState::with_role`].
    pub fn at(slot: u8, x: i64, y: i64) -> (p: PlayerState)
        ensures
            p.slot == slot,
            p.pos_x == x,
            p.pos_y == y,
            p.vel_x == 0,
            p.vel_y == 0,
            p.role_state == initial_role_state(Role::Midfielder),
            p.local_decision_counter == 0,
            p.attributes.is_mid_range(),
            p.attributes.wf(),
    {
        PlayerState::with_role(slot, x, y, Role::Midfielder)
    }

    /// The coarse role of this player.
    pub fn role(&self) -> (r: Role)
        ensures
            r == role_of(self.role_state),
    {
        self.role_state.role()
    }

    /// Number of decisions taken so far.
    pub fn decision_counter(&self) -> (c: u32)
        ensures
            c == self.local_decision_counter,
    {
        self.local_decision_counter
    }

    /// The attribute record.
    pub fn attributes(&self) -> (a: &PlayerAttributes)
        ensures
            *a == self.attributes,
    {
        &self.attributes
    }

    /// Mutable access to the attribute record.
    pub fn attributes_mut(&mut self) -> (a: &mut PlayerAttributes)
        ensures
            *a == old(self).attributes,
            *final(self) == (PlayerState { attributes: *final(a), ..*old(self) }),
    {
        &mut self.attributes
    }

    /// Count one more decision, saturating at `u32::MAX`.
    pub fn bump_decision_counter(&mut self)
        ensures
            final(self).local_decision_counter == (if old(self).local_decision_counter
                == u32::MAX {
                u32::MAX as int
            } else {
                old(self).local_decision_counter + 1
            }),
            *final(self) == (PlayerState {
                local_decision_counter: final(self).local_decision_counter,
                ..*old(self)
            }),
    {
        self.local_decision_counter = self.local_decision_counter.saturating_add(1);
    }
}

/// Every coordinate of every player has magnitude at most `limit`.
pub open spec fn coordinates_within(ps: Seq<PlayerState>, limit: int) -> bool {
    forall|k: int|
        0 <= k < ps.len() ==> abs_spec(#[trigger] ps[k].pos_x as int) <= limit && abs_spec(
            ps[k].pos_y as int,
        ) <= limit
}

} // verus!
