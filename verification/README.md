# fw_match_sim

The deterministic core of a 22-player football match simulation, written in
Verus: every function in `src/` carries a contract that the verifier proves.
All pitch quantities are Q32.32 fixed-point numbers carried as raw `i64`
bits; there is no floating point in the library.

## Layout

- `src/fixed.rs` — fixed-point arithmetic (products, quotients, an exact
  rounded-down square root) and the lemmas the rest of the crate leans on.
- `src/role_states.rs`, `src/goalkeeper_fsm.rs`, `src/subtree_library.rs`,
  `src/bt.rs` — the role/state taxonomy, the goalkeeper state machine and the
  behaviour-tree subtree registry.
- `src/match_state.rs`, `src/player.rs`, `src/ball.rs`, `src/tactic.rs`,
  `src/telemetry.rs` — the match state and its invariant.
- `src/dispatch.rs` — the per-player decision layer: speed caps, steering,
  kick directions, shot features, pass targets, offside, loose-ball drops,
  applying an intent, a player's decision turn (with the role-state routing
  around the ball, the goalkeeper's state machine and the signature pick)
  and the decision turns of a whole tick.
- `src/match_event.rs` — the match-event stream (kick-offs, shots, passes,
  offsides, goals, the final whistle), which only ever grows.
- `src/tick.rs` — one simulation tick, in three stages that stop where the
  ball's physics step and the players' decisions come in from outside.
- `src/pass_completion.rs`, `src/tackle.rs`, `src/shot.rs`, `src/goal.rs`,
  `src/possession.rs`, `src/match_rules.rs`, `src/separation.rs` — the
  contests and rules of the match loop.
- `src/signature/` — signature moves: triggers, gating, dispatch, bias
  composition and the ledger of firing windows, cooldowns and first firings.
- `app/` — serialisation copies of library types and the frame DTOs, which
  need `serde` and floating point.

Random draws use ChaCha8 (`rand_chacha`); their outcomes enter the contracts
through a named first draw of a seeded generator.
