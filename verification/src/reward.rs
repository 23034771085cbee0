use crate::errors::AppError;
use vstd::arithmetic::div_mod::lemma_div_is_ordered;
use vstd::prelude::*;

verus! {

/// Numerator of the reward rate.
pub const RATE_NUMERATOR: u64 = 1_000;

/// Denominator of the reward rate: with `RATE_NUMERATOR`, one percent of the
/// principal per tick.
pub const RATE_DENOMINATOR: u64 = 100_000;

/// The reward earned in one tick: the principal times the rate, rounded down,
/// so that what rounding loses stays in the pool.
pub open spec fn rate_per_tick(principal: nat, rate_num: nat, rate_den: nat) -> nat {
    ((principal * rate_num) / rate_den) as nat
}

/// The reward earned over `elapsed` ticks.
pub open spec fn accrued(principal: nat, elapsed: nat, rate_num: nat, rate_den: nat) -> nat {
    elapsed * rate_per_tick(principal, rate_num, rate_den)
}

/// Every step of the computation stays inside `u64` and the rate has a
/// denominator to divide by.
pub open spec fn reward_fits(principal: nat, elapsed: nat, rate_num: nat, rate_den: nat) -> bool {
    &&& rate_den != 0
    &&& principal * rate_num <= u64::MAX
    &&& accrued(principal, elapsed, rate_num, rate_den) <= u64::MAX
}

/// What `reward` returns.
pub open spec fn reward_outcome(
    principal: u64,
    elapsed: u64,
    rate_num: u64,
    rate_den: u64,
) -> Result<u64, AppError> {
    if reward_fits(principal as nat, elapsed as nat, rate_num as nat, rate_den as nat) {
        Ok(accrued(principal as nat, elapsed as nat, rate_num as nat, rate_den as nat) as u64)
    } else {
        Err(AppError::ArithmeticOverflow)
    }
}

/// The reward for `principal` staked over `elapsed` ticks at the rate
/// `rate_num / rate_den`: the per-tick reward is taken first, rounded down,
/// and then multiplied by the ticks. Fails rather than wraps.
pub fn reward(principal: u64, elapsed: u64, rate_num: u64, rate_den: u64) -> (result: Result<
    u64,
    AppError,
>)
    ensures
        result == reward_outcome(principal, elapsed, rate_num, rate_den),
{
    let scaled = match principal.checked_mul(rate_num) {
        Some(scaled) => scaled,
        None => {
            return Err(AppError::ArithmeticOverflow);
        },
    };
    let per_tick = match scaled.checked_div(rate_den) {
        Some(per_tick) => per_tick,
        None => {
            return Err(AppError::ArithmeticOverflow);
        },
    };
    match elapsed.checked_mul(per_tick) {
        Some(total) => Ok(total),
        None => Err(AppError::ArithmeticOverflow),
    }
}

/// The reward at the fixed rate of the pool.
pub open spec fn pool_reward(principal: u64, elapsed: u64) -> Result<u64, AppError> {
    reward_outcome(principal, elapsed, RATE_NUMERATOR, RATE_DENOMINATOR)
}

/// For a fixed principal and rate, a longer time never earns less.
pub proof fn lemma_accrued_grows_with_time(
    principal: nat,
    shorter: nat,
    longer: nat,
    rate_num: nat,
    rate_den: nat,
)
    requires
        shorter <= longer,
    ensures
        accrued(principal, shorter, rate_num, rate_den) <= accrued(
            principal,
            longer,
            rate_num,
            rate_den,
        ),
{
    let rate = rate_per_tick(principal, rate_num, rate_den);
    assert(shorter * rate <= longer * rate) by (nonlinear_arith)
        requires
            shorter <= longer,
            rate >= 0,
    ;
}

/// For a fixed time and rate, a larger principal never earns less.
pub proof fn lemma_accrued_grows_with_principal(
    smaller: nat,
    larger: nat,
    elapsed: nat,
    rate_num: nat,
    rate_den: nat,
)
    requires
        smaller <= larger,
        rate_den > 0,
    ensures
        smaller * rate_num <= larger * rate_num,
        accrued(smaller, elapsed, rate_num, rate_den) <= accrued(
            larger,
            elapsed,
            rate_num,
            rate_den,
        ),
{
    assert(smaller * rate_num <= larger * rate_num) by (nonlinear_arith)
        requires
            smaller <= larger,
            rate_num >= 0,
    ;
    lemma_div_is_ordered((smaller * rate_num) as int, (larger * rate_num) as int, rate_den as int);
    let low = rate_per_tick(smaller, rate_num, rate_den);
    let high = rate_per_tick(larger, rate_num, rate_den);
    assert(elapsed * low <= elapsed * high) by (nonlinear_arith)
        requires
            low <= high,
            elapsed >= 0,
    ;
}

/// Where the reward for a time is computed, the reward for any shorter time
/// is computed too, and is no more.
pub proof fn lemma_reward_grows_with_time(
    principal: u64,
    shorter: u64,
    longer: u64,
    rate_num: u64,
    rate_den: u64,
)
    requires
        shorter <= longer,
        reward_outcome(principal, longer, rate_num, rate_den) is Ok,
    ensures
        reward_outcome(principal, shorter, rate_num, rate_den) is Ok,
        reward_outcome(principal, shorter, rate_num, rate_den)->Ok_0 <= reward_outcome(
            principal,
            longer,
            rate_num,
            rate_den,
        )->Ok_0,
{
    lemma_accrued_grows_with_time(
        principal as nat,
        shorter as nat,
        longer as nat,
        rate_num as nat,
        rate_den as nat,
    );
}

/// Where the reward for a principal is computed, the reward for any smaller
/// principal is computed too, and is no more.
pub proof fn lemma_reward_grows_with_principal(
    smaller: u64,
    larger: u64,
    elapsed: u64,
    rate_num: u64,
    rate_den: u64,
)
    requires
        smaller <= larger,
        reward_outcome(larger, elapsed, rate_num, rate_den) is Ok,
    ensures
        reward_outcome(smaller, elapsed, rate_num, rate_den) is Ok,
        reward_outcome(smaller, elapsed, rate_num, rate_den)->Ok_0 <= reward_outcome(
            larger,
            elapsed,
            rate_num,
            rate_den,
        )->Ok_0,
{
    lemma_accrued_grows_with_principal(
        smaller as nat,
        larger as nat,
        elapsed as nat,
        rate_num as nat,
        rate_den as nat,
    );
}

/// No time, no reward: a record settled at its own checkpoint earns nothing.
pub proof fn lemma_no_time_no_reward(principal: u64, rate_num: u64, rate_den: u64)
    requires
        rate_den != 0,
        principal * rate_num <= u64::MAX,
    ensures
        reward_outcome(principal, 0, rate_num, rate_den) == Ok::<u64, AppError>(0),
{
}

} // verus!
