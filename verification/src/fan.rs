//! The fan curve and the encoding of a PWM value for the control file.
//!
//! `calculate_pwm` maps a temperature to a PWM duty value between the
//! configured bounds; `pwm_text` renders that value as the decimal
//! ASCII text the kernel's PWM control file expects.  Writing the text
//! out is the binary's job.

use vstd::prelude::*;
use vstd::arithmetic::div_mod::{
    lemma_div_by_self, lemma_div_is_ordered, lemma_div_pos_is_pos, lemma_multiply_divide_le,
    lemma_multiply_divide_lt,
};
use crate::config::Config;

verus! {

/// The fan curve: clamp to `min_speed` at or below `temp_low`, to
/// `max_speed` at or above `temp_high`, and interpolate linearly in
/// between, truncating toward zero.
pub open spec fn fan_curve(temp: int, temp_low: int, temp_high: int, min_speed: int, max_speed: int) -> int
    recommends
        temp_low < temp_high,
        min_speed < max_speed,
{
    if temp <= temp_low {
        min_speed
    } else if temp >= temp_high {
        max_speed
    } else {
        min_speed + (max_speed - min_speed) * (temp - temp_low) / (temp_high - temp_low)
    }
}

/// The fan curve of a configuration, as the control loop applies it.
pub open spec fn config_fan_curve(temp: int, config: Config) -> int {
    fan_curve(temp, config.temp_low as int, config.temp_high as int, config.min_speed as int, config.max_speed as int)
}

/// Map a temperature to a PWM duty value.  Pure: the result is the
/// fan curve of the inputs and of nothing else, so two calls with the
/// same arguments return the same value.
pub fn calculate_pwm(temp: i32, config: &Config) -> (pwm: u8)
    requires
        config.valid_thresholds(),
    ensures
        pwm as int == config_fan_curve(temp as int, *config),
        config.min_speed <= pwm <= config.max_speed,
        temp <= config.temp_low ==> pwm == config.min_speed,
        temp >= config.temp_high ==> pwm == config.max_speed,
        config.temp_low < temp < config.temp_high ==> pwm < config.max_speed,
{
    if temp <= config.temp_low {
        return config.min_speed;
    }
    if temp >= config.temp_high {
        return config.max_speed;
    }
    let min_s: u64 = config.min_speed as u64;
    let speed_range: u64 = (config.max_speed - config.min_speed) as u64;
    let temp_delta_w: i64 = temp as i64 - config.temp_low as i64;
    let temp_range_w: i64 = config.temp_high as i64 - config.temp_low as i64;
    let temp_delta: u64 = temp_delta_w as u64;
    let temp_range: u64 = temp_range_w as u64;
    proof {
        assert((speed_range as int) * (temp_delta as int) < 0x100_0000_0000) by (nonlinear_arith)
            requires
                (speed_range as int) <= 255,
                0 <= (temp_delta as int) < 0x1_0000_0000,
        ;
        assert((speed_range as int) * (temp_delta as int) < (temp_range as int) * (speed_range as int))
            by (nonlinear_arith)
            requires
                0 <= (temp_delta as int) < (temp_range as int),
                0 < (speed_range as int),
        ;
        lemma_multiply_divide_lt(
            (speed_range as int) * (temp_delta as int),
            temp_range as int,
            speed_range as int,
        );
    }
    let q: u64 = speed_range * temp_delta / temp_range;
    let pwm64: u64 = min_s + q;
    pwm64 as u8
}

/// The fan curve never moves down as the temperature moves up.
pub proof fn lemma_fan_curve_monotonic(t1: int, t2: int, temp_low: int, temp_high: int, min_speed: int, max_speed: int)
    requires
        temp_low < temp_high,
        min_speed < max_speed,
        t1 <= t2,
    ensures
        fan_curve(t1, temp_low, temp_high, min_speed, max_speed)
            <= fan_curve(t2, temp_low, temp_high, min_speed, max_speed),
{
    let s = max_speed - min_speed;
    let r = temp_high - temp_low;
    if t1 <= temp_low {
        if temp_low < t2 < temp_high {
            assert(s * (t2 - temp_low) >= 0) by (nonlinear_arith)
                requires
                    s >= 0,
                    t2 - temp_low >= 0,
            ;
            lemma_div_pos_is_pos(s * (t2 - temp_low), r);
        }
    } else if t1 >= temp_high {
    } else {
        if t2 < temp_high {
            assert(s * (t1 - temp_low) <= s * (t2 - temp_low)) by (nonlinear_arith)
                requires
                    s >= 0,
                    t1 - temp_low <= t2 - temp_low,
            ;
            lemma_div_is_ordered(s * (t1 - temp_low), s * (t2 - temp_low), r);
        } else {
            assert(s * (t1 - temp_low) <= r * s) by (nonlinear_arith)
                requires
                    s >= 0,
                    0 <= t1 - temp_low <= r,
            ;
            lemma_multiply_divide_le(s * (t1 - temp_low), r, s);
        }
    }
}

/// Strictly inside the thresholds the fan curve stays strictly inside
/// the PWM bounds, provided the PWM range is at least as wide as the
/// temperature range (with a narrower PWM range the interpolated step
/// below `temp_low + 1` can truncate down to `min_speed` itself).
pub proof fn lemma_fan_curve_interior_bounds(temp: int, temp_low: int, temp_high: int, min_speed: int, max_speed: int)
    requires
        temp_low < temp_high,
        min_speed < max_speed,
        temp_low < temp < temp_high,
        max_speed - min_speed >= temp_high - temp_low,
    ensures
        min_speed < fan_curve(temp, temp_low, temp_high, min_speed, max_speed) < max_speed,
{
    let s = max_speed - min_speed;
    let r = temp_high - temp_low;
    let d = temp - temp_low;
    assert(s * d < r * s) by (nonlinear_arith)
        requires
            0 <= d < r,
            0 < s,
    ;
    lemma_multiply_divide_lt(s * d, r, s);
    assert(s * d >= r) by (nonlinear_arith)
        requires
            d >= 1,
            r >= 1,
            s >= r,
    ;
    lemma_div_is_ordered(r, s * d, r);
    lemma_div_by_self(r);
}

/// The decimal ASCII digits of `n`, for values that fit a PWM byte:
/// one to three digits, no sign, no leading zero.
pub open spec fn decimal_repr(n: int) -> Seq<u8>
    recommends
        0 <= n < 1000,
{
    if n < 10 {
        seq![(48 + n) as u8]
    } else if n < 100 {
        seq![(48 + n / 10) as u8, (48 + n % 10) as u8]
    } else {
        seq![(48 + n / 100) as u8, (48 + (n / 10) % 10) as u8, (48 + n % 10) as u8]
    }
}

/// Render a PWM value as the decimal ASCII text that is written to
/// the fan control file.
pub fn pwm_text(pwm: u8) -> (s: Vec<u8>)
    ensures
        s@ == decimal_repr(pwm as int),
        1 <= s@.len() <= 3,
{
    let mut s: Vec<u8> = Vec::new();
    if pwm >= 100 {
        s.push(48 + pwm / 100);
    }
    if pwm >= 10 {
        s.push(48 + (pwm / 10) % 10);
    }
    s.push(48 + pwm % 10);
    proof {
        assert(s@ =~= decimal_repr(pwm as int));
    }
    s
}

} // verus!
