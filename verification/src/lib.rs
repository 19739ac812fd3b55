//! Deterministic 22-player match simulation core: role/state taxonomy,
//! goalkeeper state machine, formation table, behaviour-tree subtree
//! registry, and the geometric possession rules of the match loop.
//!
//! All pitch quantities are Q32.32 fixed-point numbers carried as raw `i64`
//! bits (see [`fixed`]); no floating point is used anywhere.

pub mod dispatch;
pub mod fixed;
pub mod goal;
pub mod goalkeeper_fsm;
pub mod role_states;
pub mod ball;
pub mod match_event;
pub mod match_rules;
pub mod match_state;
pub mod pass_completion;
pub mod player;
pub mod possession;
pub mod separation;
pub mod shot;
pub mod signature;
pub mod bt;
pub mod subtree_library;
pub mod tackle;
pub mod tactic;
pub mod telemetry;
pub mod tick;
