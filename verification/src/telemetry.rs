//! Calibration samples captured when a shot or a dribble is chosen. They
//! are kept beside the match state, outside the simulation rules.

use vstd::prelude::*;

verus! {

/// One shot's calibration sample: the shot's features and the shooter's
/// personality readings, all Q32 raw bits.
#[derive(Debug, Clone, Copy, PartialEq, Eq, Structural)]
pub struct ShotTelemetryRecord {
    /// Tick at which the shot was taken.
    pub shot_tick: u32,
    /// Roster slot of the shooter.
    pub shooter_slot: u8,
    /// Distance feature in `[0, 1]`: `1 − min(d / 35 m, 1)`.
    pub distance_q32_raw: i64,
    /// Angle feature in `[0, 1]`.
    pub angle_q32_raw: i64,
    /// Defender-pressure feature in `[0, 1]`.
    pub pressure_q32_raw: i64,
    /// Shot-type feature (1.0: footed).
    pub shot_type_q32_raw: i64,
    /// Assist-kind feature (1.0: solo).
    pub assist_kind_q32_raw: i64,
    /// Shooter-quality feature.
    pub shooter_quality_q32_raw: i64,
    /// Shooter's flair.
    pub shooter_flair_q32_raw: i64,
    /// Shooter's composure.
    pub shooter_composure_q32_raw: i64,
    /// Shooter's risk appetite.
    pub shooter_risk_appetite_q32_raw: i64,
    /// Whether the shot led to a goal; `None` until it is known.
    pub became_goal: Option<bool>,
}

/// One dribble's calibration sample.
#[derive(Debug, Clone, Copy, PartialEq, Eq, Structural)]
pub struct DribbleTelemetryRecord {
    /// Tick at which the dribble started.
    pub dribble_tick: u32,
    /// Roster slot of the dribbler.
    pub dribbler_slot: u8,
    /// Dribbler's flair.
    pub dribbler_flair_q32_raw: i64,
    /// Dribbler's aggression.
    pub dribbler_aggression_q32_raw: i64,
}

/// Why a match state could not be built from the content store.
#[derive(Debug, Clone, PartialEq, Eq)]
pub enum ContentInitError {
    /// No player template matched the criterion `key`.
    MissingTemplate { key: String },
}

} // verus!
