//! Shot and pass mechanics: ball speeds from the kicker's curved skills,
//! the shooter-quality feature, and the seeded lateral dispersion of a
//! shot's target.

use vstd::prelude::*;

use crate::dispatch::{attacking_goal_x, shot_pressure, shot_pressure_feature_q32};
use crate::fixed::{ONE, abs_bits, abs_spec, div_spec, fits, from_int, from_int_spec, mul_spec, q_div, q_mul, scale};
use crate::pass_completion::{
    chacha8_first_draw, chacha8_first_u64, lemma_weighted3_unit, weighted3, weighted3_exec,
};
use crate::player::{PlayerState, coordinates_within};

verus! {

// ---------------------------------------------------------------------------
// Ball speeds
// ---------------------------------------------------------------------------

/// Shot speed with no skill bonus: 20 m/s.
pub const SHOT_BASE_SPEED_MPS: i64 = 85899345920;

/// Extra shot speed at full strength × finishing: 15 m/s.
pub const SHOT_PEAK_BONUS_MPS: i64 = 64424509440;

/// Pass speed with no skill bonus: 15 m/s.
pub const PASS_BASE_SPEED_MPS: i64 = 64424509440;

/// Extra pass speed at full passing × vision: 10 m/s.
pub const PASS_PEAK_BONUS_MPS: i64 = 42949672960;

/// Kick speed `base + bonus × (a × b)`.
pub open spec fn kick_speed(base: int, bonus: int, a: int, b: int) -> int {
    base + mul_spec(bonus, mul_spec(a, b))
}

/// Every step of a kick speed fits in an `i64`.
pub open spec fn kick_speed_fits(base: int, bonus: int, a: int, b: int) -> bool {
    &&& fits(mul_spec(a, b))
    &&& fits(mul_spec(bonus, mul_spec(a, b)))
    &&& fits(kick_speed(base, bonus, a, b))
}

/// With both skills in `[0, 1]` the speed lies between the base and the
/// base plus the full bonus, and every step fits.
pub proof fn lemma_kick_speed_range(base: int, bonus: int, a: int, b: int)
    requires
        0 <= a <= ONE,
        0 <= b <= ONE,
        0 <= bonus <= 100 * scale(),
        0 <= base <= 100 * scale(),
    ensures
        base <= kick_speed(base, bonus, a, b) <= base + bonus,
        kick_speed_fits(base, bonus, a, b),
{
    crate::fixed::lemma_mul_unit(a, b);
    crate::fixed::lemma_mul_by_unit(bonus, mul_spec(a, b));
    assert(bonus * mul_spec(a, b) == mul_spec(a, b) * bonus) by (nonlinear_arith);
}

/// Shot speed from the shooter's curved strength and finishing:
/// `20 + 15 × (strength × finishing)` m/s.
pub fn compute_ball_speed_for_shot(strength: i64, finishing: i64) -> (v: i64)
    requires
        kick_speed_fits(
            SHOT_BASE_SPEED_MPS as int,
            SHOT_PEAK_BONUS_MPS as int,
            strength as int,
            finishing as int,
        ),
    ensures
        v == kick_speed(
            SHOT_BASE_SPEED_MPS as int,
            SHOT_PEAK_BONUS_MPS as int,
            strength as int,
            finishing as int,
        ),
        (0 <= strength <= ONE && 0 <= finishing <= ONE) ==> SHOT_BASE_SPEED_MPS <= v
            <= SHOT_BASE_SPEED_MPS + SHOT_PEAK_BONUS_MPS,
{
    proof {
        if 0 <= strength <= ONE && 0 <= finishing <= ONE {
            lemma_kick_speed_range(
                SHOT_BASE_SPEED_MPS as int,
                SHOT_PEAK_BONUS_MPS as int,
                strength as int,
                finishing as int,
            );
        }
    }
    SHOT_BASE_SPEED_MPS + q_mul(SHOT_PEAK_BONUS_MPS, q_mul(strength, finishing))
}

/// Pass speed from the passer's curved passing and vision:
/// `15 + 10 × (passing × vision)` m/s.
pub fn compute_ball_speed_for_pass(passing: i64, vision: i64) -> (v: i64)
    requires
        kick_speed_fits(
            PASS_BASE_SPEED_MPS as int,
            PASS_PEAK_BONUS_MPS as int,
            passing as int,
            vision as int,
        ),
    ensures
        v == kick_speed(
            PASS_BASE_SPEED_MPS as int,
            PASS_PEAK_BONUS_MPS as int,
            passing as int,
            vision as int,
        ),
        (0 <= passing <= ONE && 0 <= vision <= ONE) ==> PASS_BASE_SPEED_MPS <= v
            <= PASS_BASE_SPEED_MPS + PASS_PEAK_BONUS_MPS,
{
    proof {
        if 0 <= passing <= ONE && 0 <= vision <= ONE {
            lemma_kick_speed_range(
                PASS_BASE_SPEED_MPS as int,
                PASS_PEAK_BONUS_MPS as int,
                passing as int,
                vision as int,
            );
        }
    }
    PASS_BASE_SPEED_MPS + q_mul(PASS_PEAK_BONUS_MPS, q_mul(passing, vision))
}

// ---------------------------------------------------------------------------
// Shooter quality
// ---------------------------------------------------------------------------

/// Shooter-quality weight of finishing: ≈ 0.55.
pub const W_SHOT_FINISHING: i64 = 2362232012;

/// Shooter-quality weight of composure: 0.25.
pub const W_SHOT_COMPOSURE: i64 = 1073741824;

/// Shooter-quality weight of technique: ≈ 0.20.
pub const W_SHOT_TECHNIQUE: i64 = 858993459;

/// Shooter quality `finishing × 0.55 + composure × 0.25 + technique × 0.20`
/// over the curved skills.
pub open spec fn shooter_quality(finishing: int, composure: int, technique: int) -> int {
    weighted3(
        (
            (finishing, W_SHOT_FINISHING as int),
            (composure, W_SHOT_COMPOSURE as int),
            (technique, W_SHOT_TECHNIQUE as int),
        ),
    )
}

/// The shooter-quality feature from the curved finishing, composure and
/// technique, each in `[0, 1]`; the result lies in `[0, 1]`.
pub fn shot_quality_feature_q32(finishing: i64, composure: i64, technique: i64) -> (q: i64)
    requires
        0 <= finishing <= ONE,
        0 <= composure <= ONE,
        0 <= technique <= ONE,
    ensures
        q == shooter_quality(finishing as int, composure as int, technique as int),
        0 <= q <= ONE,
{
    proof {
        lemma_weighted3_unit(
            (
                (finishing as int, W_SHOT_FINISHING as int),
                (composure as int, W_SHOT_COMPOSURE as int),
                (technique as int, W_SHOT_TECHNIQUE as int),
            ),
        );
    }
    weighted3_exec(
        finishing,
        W_SHOT_FINISHING,
        composure,
        W_SHOT_COMPOSURE,
        technique,
        W_SHOT_TECHNIQUE,
    )
}

// ---------------------------------------------------------------------------
// Dispersion
// ---------------------------------------------------------------------------

/// Base lateral scatter: 8 m.
pub const SIGMA_BASE_M: i64 = 34359738368;

/// Weight of the distance factor in the scatter: ≈ 0.80.
pub const SIGMA_DIST_WEIGHT: i64 = 3435973836;

/// Weight of the pressure in the scatter: 0.50.
pub const SIGMA_PRESSURE_WEIGHT: i64 = 2147483648;

/// Weight by which shooter quality narrows the scatter: ≈ 0.40.
pub const SIGMA_QUALITY_WEIGHT: i64 = 1717986918;

/// Narrowest scatter: 2 m.
pub const SIGMA_MIN_M: i64 = 8589934592;

/// Widest scatter: 15 m.
pub const SIGMA_MAX_M: i64 = 64424509440;

/// `1/√3` (≈ 0.577), bringing a sum of three uniforms on `[−1, 1)` to unit
/// scale.
pub const SIGMA_NORMAL_SCALE: i64 = 2479700525;

/// The dispersed target stays within 12 m of the goal's centre line.
pub const TARGET_Y_CLAMP_M: i64 = 51539607552;

/// Distance factor of the scatter: `min(d / 35 m, 1)` with `d` the
/// distance to the goal line attacked.
pub open spec fn dispersion_distance_factor(goal_x: int, x: int) -> int {
    let d = abs_spec(goal_x - x);
    if d >= 35 * scale() {
        ONE as int
    } else {
        div_spec(d, 35 * scale())
    }
}

/// Scatter `σ = 8 m × (1 + 0.8 × dist + 0.5 × pressure) × max(1 − 0.4 ×
/// quality, 0)` with quality capped at 1, clamped to `[2 m, 15 m]`.
pub open spec fn shot_sigma(dist: int, pressure: int, quality: int) -> int {
    let q = if quality > ONE {
        ONE as int
    } else {
        quality
    };
    let dist_press = ONE + mul_spec(SIGMA_DIST_WEIGHT as int, dist) + mul_spec(
        SIGMA_PRESSURE_WEIGHT as int,
        pressure,
    );
    let qf_raw = ONE - mul_spec(SIGMA_QUALITY_WEIGHT as int, q);
    let qf = if qf_raw < 0 {
        0
    } else {
        qf_raw
    };
    let raw = mul_spec(mul_spec(SIGMA_BASE_M as int, dist_press), qf);
    if raw < SIGMA_MIN_M {
        SIGMA_MIN_M as int
    } else if raw > SIGMA_MAX_M {
        SIGMA_MAX_M as int
    } else {
        raw
    }
}

/// Every step of the scatter fits in an `i64`.
pub open spec fn sigma_fits(dist: int, pressure: int, quality: int) -> bool {
    let q = if quality > ONE {
        ONE as int
    } else {
        quality
    };
    let dist_press = ONE + mul_spec(SIGMA_DIST_WEIGHT as int, dist) + mul_spec(
        SIGMA_PRESSURE_WEIGHT as int,
        pressure,
    );
    let qf_raw = ONE - mul_spec(SIGMA_QUALITY_WEIGHT as int, q);
    let qf = if qf_raw < 0 {
        0
    } else {
        qf_raw
    };
    &&& fits(mul_spec(SIGMA_DIST_WEIGHT as int, dist))
    &&& fits(mul_spec(SIGMA_PRESSURE_WEIGHT as int, pressure))
    &&& fits(ONE + mul_spec(SIGMA_DIST_WEIGHT as int, dist))
    &&& fits(dist_press)
    &&& fits(mul_spec(SIGMA_QUALITY_WEIGHT as int, q))
    &&& fits(qf_raw)
    &&& fits(mul_spec(SIGMA_BASE_M as int, dist_press))
    &&& fits(mul_spec(mul_spec(SIGMA_BASE_M as int, dist_press), qf))
}

/// A 64-bit draw mapped to `[−1, 1)`: its upper 32 bits as a fraction `u`,
/// then `2u − 1`.
pub open spec fn centred_draw(draw: u64) -> int {
    mul_spec(2 * scale(), draw as int / scale()) - ONE
}

/// The dispersed target: `(u₁ + u₂ + u₃) / √3 × σ`, clamped to ±12 m.
pub open spec fn dispersed_target(d1: u64, d2: u64, d3: u64, sigma: int) -> int {
    let sum = centred_draw(d1) + centred_draw(d2) + centred_draw(d3);
    let raw = mul_spec(mul_spec(sum, SIGMA_NORMAL_SCALE as int), sigma);
    if raw < -TARGET_Y_CLAMP_M {
        -TARGET_Y_CLAMP_M
    } else if raw > TARGET_Y_CLAMP_M {
        TARGET_Y_CLAMP_M as int
    } else {
        raw
    }
}

/// The scatter for a shot (see [`shot_sigma`]); always in `[2 m, 15 m]`.
pub fn compute_shot_sigma(dist_factor: i64, pressure: i64, quality: i64) -> (s: i64)
    requires
        sigma_fits(dist_factor as int, pressure as int, quality as int),
    ensures
        s == shot_sigma(dist_factor as int, pressure as int, quality as int),
        SIGMA_MIN_M <= s <= SIGMA_MAX_M,
{
    let quality = if quality > ONE {
        ONE
    } else {
        quality
    };
    let dist_press_factor = ONE + q_mul(SIGMA_DIST_WEIGHT, dist_factor) + q_mul(
        SIGMA_PRESSURE_WEIGHT,
        pressure,
    );
    let quality_factor = ONE - q_mul(SIGMA_QUALITY_WEIGHT, quality);
    let quality_factor = if quality_factor < 0 {
        0
    } else {
        quality_factor
    };
    let sigma_raw = q_mul(q_mul(SIGMA_BASE_M, dist_press_factor), quality_factor);
    if sigma_raw < SIGMA_MIN_M {
        SIGMA_MIN_M
    } else if sigma_raw > SIGMA_MAX_M {
        SIGMA_MAX_M
    } else {
        sigma_raw
    }
}

/// A centred draw lies in `[−1, 1)`.
proof fn lemma_centred_draw_range(draw: u64)
    ensures
        -ONE <= centred_draw(draw) < ONE,
{
    let u = draw as int / scale();
    assert(0 <= u < scale()) by {
        assert(draw as int <= u64::MAX);
    }
    assert(2 * scale() * u / scale() == 2 * u) by (nonlinear_arith)
        requires
            scale() > 0,
    ;
}

fn centred(draw: u64) -> (v: i64)
    ensures
        v == centred_draw(draw),
        -ONE <= v < ONE,
{
    proof {
        lemma_centred_draw_range(draw);
    }
    let hi: u64 = draw >> 32u64;
    assert(hi == draw / 4294967296) by (bit_vector)
        requires
            hi == draw >> 32u64,
    ;
    q_mul(from_int(2), hi as i64) - ONE
}

/// The lateral target of a shot from three draws and a scatter `sigma` in
/// `[2 m, 15 m]`; always within ±12 m.
pub fn dispersed_target_y(d1: u64, d2: u64, d3: u64, sigma: i64) -> (y: i64)
    requires
        SIGMA_MIN_M <= sigma <= SIGMA_MAX_M,
    ensures
        y == dispersed_target(d1, d2, d3, sigma as int),
        -TARGET_Y_CLAMP_M <= y <= TARGET_Y_CLAMP_M,
{
    let u1 = centred(d1);
    let u2 = centred(d2);
    let u3 = centred(d3);
    let sum = u1 + u2 + u3;
    proof {
        let s = sum as int;
        let k = SIGMA_NORMAL_SCALE as int;
        assert(-3 * scale() * k <= s * k <= 3 * scale() * k) by (nonlinear_arith)
            requires
                -3 * scale() <= s <= 3 * scale(),
                k > 0,
        ;
        vstd::arithmetic::div_mod::lemma_div_is_ordered(s * k, 3 * scale() * k, scale());
        vstd::arithmetic::div_mod::lemma_div_is_ordered(-3 * scale() * k, s * k, scale());
        assert(3 * scale() * k / scale() == 3 * k) by (nonlinear_arith)
            requires
                scale() > 0,
        ;
        assert((-3 * scale() * k) / scale() == -3 * k) by (nonlinear_arith)
            requires
                scale() > 0,
        ;
        let z = mul_spec(s, k);
        let sg = sigma as int;
        assert(-3 * k * sg <= z * sg <= 3 * k * sg) by (nonlinear_arith)
            requires
                -3 * k <= z <= 3 * k,
                sg > 0,
        ;
        vstd::arithmetic::div_mod::lemma_div_is_ordered(z * sg, 3 * k * sg, scale());
        vstd::arithmetic::div_mod::lemma_div_is_ordered(-3 * k * sg, z * sg, scale());
        assert(3 * k * sg <= 3 * k * SIGMA_MAX_M) by (nonlinear_arith)
            requires
                sg <= SIGMA_MAX_M,
                k > 0,
        ;
        assert(-3 * k * SIGMA_MAX_M <= -3 * k * sg) by (nonlinear_arith)
            requires
                sg <= SIGMA_MAX_M,
                k > 0,
        ;
        vstd::arithmetic::div_mod::lemma_div_is_ordered(3 * k * sg, 3 * k * SIGMA_MAX_M, scale());
        vstd::arithmetic::div_mod::lemma_div_is_ordered(-3 * k * SIGMA_MAX_M, -3 * k * sg, scale());
    }
    let rng_z = q_mul(sum, SIGMA_NORMAL_SCALE);
    let target_y_raw = q_mul(rng_z, sigma);
    if target_y_raw < -TARGET_Y_CLAMP_M {
        -TARGET_Y_CLAMP_M
    } else if target_y_raw > TARGET_Y_CLAMP_M {
        TARGET_Y_CLAMP_M
    } else {
        target_y_raw
    }
}

/// The dispersed lateral target of a shot by `shooter_slot` from
/// `shooter_pos_x` (goal lines at ±`goal_line_x`), with defender pressure
/// `pressure` and shooter quality `quality`: the scatter grows with the
/// distance to the goal attacked and with pressure and narrows with
/// quality; the three uniform draws come from the generators seeded by
/// `draw_seeds`. The xG of the shot is computed from the same features by
/// the caller.
pub fn compute_shot_dispersion(
    shooter_pos_x: i64,
    shooter_slot: u8,
    goal_line_x: i64,
    pressure: i64,
    quality: i64,
    draw_seeds: [u64; 3],
) -> (y: i64)
    requires
        goal_line_x >= 0,
        fits(attacking_goal_x(shooter_slot, goal_line_x as int) - shooter_pos_x),
        sigma_fits(
            dispersion_distance_factor(
                attacking_goal_x(shooter_slot, goal_line_x as int),
                shooter_pos_x as int,
            ),
            pressure as int,
            quality as int,
        ),
    ensures
        y == dispersed_target(
            chacha8_first_u64(draw_seeds[0]),
            chacha8_first_u64(draw_seeds[1]),
            chacha8_first_u64(draw_seeds[2]),
            shot_sigma(
                dispersion_distance_factor(
                    attacking_goal_x(shooter_slot, goal_line_x as int),
                    shooter_pos_x as int,
                ),
                pressure as int,
                quality as int,
            ),
        ),
        -TARGET_Y_CLAMP_M <= y <= TARGET_Y_CLAMP_M,
{
    let goal_x = if (shooter_slot as usize) < 11 {
        goal_line_x
    } else {
        -goal_line_x
    };
    let dx = goal_x - shooter_pos_x;
    let dx_abs_bits = abs_bits(dx);
    let dist_factor = if dx_abs_bits >= 150323855360u64 {
        ONE
    } else {
        proof {
            crate::fixed::lemma_div_by_int(dx_abs_bits as int, 35);
        }
        q_div(dx_abs_bits as i64, from_int(35))
    };
    let sigma = compute_shot_sigma(dist_factor, pressure, quality);
    let d1 = chacha8_first_draw(draw_seeds[0]);
    let d2 = chacha8_first_draw(draw_seeds[1]);
    let d3 = chacha8_first_draw(draw_seeds[2]);
    dispersed_target_y(d1, d2, d3, sigma)
}

/// The scatter's arithmetic cannot overflow when the distance factor, the
/// pressure and the quality all lie in `[0, 1]`.
pub proof fn lemma_sigma_fits_for_unit_features(dist: int, pressure: int, quality: int)
    requires
        0 <= dist <= ONE,
        0 <= pressure <= ONE,
        0 <= quality <= ONE,
    ensures
        sigma_fits(dist, pressure, quality),
{
    crate::fixed::lemma_mul_unit(SIGMA_DIST_WEIGHT as int, dist);
    crate::fixed::lemma_mul_unit(SIGMA_PRESSURE_WEIGHT as int, pressure);
    crate::fixed::lemma_mul_unit(SIGMA_QUALITY_WEIGHT as int, quality);
    let dist_press = ONE + mul_spec(SIGMA_DIST_WEIGHT as int, dist) + mul_spec(
        SIGMA_PRESSURE_WEIGHT as int,
        pressure,
    );
    let qf = ONE - mul_spec(SIGMA_QUALITY_WEIGHT as int, quality);
    crate::fixed::lemma_mul_nonneg_bound(SIGMA_BASE_M as int, dist_press, SIGMA_BASE_M as int, 3 * ONE);
    let m = mul_spec(SIGMA_BASE_M as int, dist_press);
    crate::fixed::lemma_mul_nonneg_bound(m, qf, 24 * ONE, ONE as int);
}

/// The distance factor lies in `[0, 1]`.
proof fn lemma_dispersion_distance_factor_unit(goal_x: int, x: int)
    ensures
        0 <= dispersion_distance_factor(goal_x, x) <= ONE,
{
    let d = abs_spec(goal_x - x);
    if d < 35 * scale() {
        crate::fixed::lemma_div_by_int(d, 35);
        vstd::arithmetic::div_mod::lemma_div_is_ordered(d, 35 * scale(), 35);
        vstd::arithmetic::div_mod::lemma_div_pos_is_pos(d, 35);
    }
}

/// The dispersed lateral target of a shot by the player at `shooter_idx`
/// with quality `quality`, the defender pressure being measured from the
/// players' positions (see [`shot_pressure`]); otherwise as
/// [`compute_shot_dispersion`].
pub fn compute_shot_dispersion_for_shooter(
    players: &[PlayerState],
    shooter_idx: usize,
    goal_line_x: i64,
    quality: i64,
    draw_seeds: [u64; 3],
) -> (y: i64)
    requires
        players@.len() == 22,
        shooter_idx < 22,
        coordinates_within(players@, 17592186044416),
        0 <= goal_line_x <= 17592186044416,
        0 <= quality <= ONE,
    ensures
        y == dispersed_target(
            chacha8_first_u64(draw_seeds[0]),
            chacha8_first_u64(draw_seeds[1]),
            chacha8_first_u64(draw_seeds[2]),
            shot_sigma(
                dispersion_distance_factor(
                    attacking_goal_x(players@[shooter_idx as int].slot, goal_line_x as int),
                    players@[shooter_idx as int].pos_x as int,
                ),
                shot_pressure(players@, shooter_idx as int),
                quality as int,
            ),
        ),
        -TARGET_Y_CLAMP_M <= y <= TARGET_Y_CLAMP_M,
{
    let shooter = players[shooter_idx];
    let pressure = shot_pressure_feature_q32(players, shooter_idx);
    proof {
        assert(abs_spec(shooter.pos_x as int) <= 17592186044416);
        lemma_dispersion_distance_factor_unit(
            attacking_goal_x(shooter.slot, goal_line_x as int),
            shooter.pos_x as int,
        );
        lemma_sigma_fits_for_unit_features(
            dispersion_distance_factor(
                attacking_goal_x(shooter.slot, goal_line_x as int),
                shooter.pos_x as int,
            ),
            pressure as int,
            quality as int,
        );
    }
    compute_shot_dispersion(shooter.pos_x, shooter.slot, goal_line_x, pressure, quality, draw_seeds)
}

/// The draw sites of a shot's three dispersion draws by `slot`:
/// `slot << 16 | k` for `k` = 1, 2, 3.
pub fn shot_dispersion_sites(slot: u8) -> (sites: [u32; 3])
    ensures
        sites@[0] == slot as int * 65536 + 1,
        sites@[1] == slot as int * 65536 + 2,
        sites@[2] == slot as int * 65536 + 3,
{
    let s = slot as u32;
    let shifted: u32 = s << 16u32;
    assert(shifted == s * 65536) by (bit_vector)
        requires
            shifted == s << 16u32,
            s < 256,
    ;
    let a: u32 = shifted | 1u32;
    let b: u32 = shifted | 2u32;
    let c: u32 = shifted | 3u32;
    assert(a == shifted + 1 && b == shifted + 2 && c == shifted + 3) by (bit_vector)
        requires
            a == shifted | 1u32,
            b == shifted | 2u32,
            c == shifted | 3u32,
            shifted == s * 65536,
            s < 256,
    ;
    [a, b, c]
}

/// The distance factor of a shot's scatter measures the shooter's distance
/// to the goal line it attacks (`+goal_line_x` for a home shooter, slots
/// `0..11`; `−goal_line_x` for an away one) in units of 35 m, capped at 1:
/// it is 0 on that goal line, never falls as the shooter moves away from
/// it, is 1 from 35 m on, and below that is the distance over 35 m rounded
/// down.
pub proof fn lemma_distance_factor_measures_attacked_goal(slot: u8, goal_line_x: int, x: int, x2: int)
    ensures
        ({
            let g = if slot < 11 {
                goal_line_x
            } else {
                -goal_line_x
            };
            let f1 = dispersion_distance_factor(attacking_goal_x(slot, goal_line_x), x);
            let f2 = dispersion_distance_factor(attacking_goal_x(slot, goal_line_x), x2);
            &&& dispersion_distance_factor(attacking_goal_x(slot, goal_line_x), g) == 0
            &&& abs_spec(g - x) <= abs_spec(g - x2) ==> f1 <= f2
            &&& abs_spec(g - x) >= 35 * scale() ==> f1 == ONE
            &&& abs_spec(g - x) < 35 * scale() ==> f1 * 35 <= abs_spec(g - x) < (f1 + 1) * 35
        }),
{
    let g = if slot < 11 {
        goal_line_x
    } else {
        -goal_line_x
    };
    let d1 = abs_spec(g - x);
    let d2 = abs_spec(g - x2);
    crate::fixed::lemma_div_by_int(0, 35);
    crate::fixed::lemma_div_by_int(d1, 35);
    crate::fixed::lemma_div_by_int(d2, 35);
    lemma_dispersion_distance_factor_unit(g, x);
    lemma_dispersion_distance_factor_unit(g, x2);
    if d1 <= d2 {
        vstd::arithmetic::div_mod::lemma_div_is_ordered(d1, d2, 35);
    }
    vstd::arithmetic::div_mod::lemma_fundamental_div_mod(d1, 35);
    vstd::arithmetic::div_mod::lemma_mod_bound(d1, 35);
    assert(from_int_spec(35) == 35 * scale());
}

} // verus!
