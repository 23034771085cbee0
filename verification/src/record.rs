use crate::authority::{record_seeds, with_bump, AuthorityProof};
use crate::errors::AppError;
use crate::identity::Identity;
use crate::reward::{pool_reward, reward, RATE_DENOMINATOR, RATE_NUMERATOR};
use vstd::prelude::*;

verus! {

/// The stake of one staker in one asset.
#[derive(Clone, Copy, Debug, PartialEq, Eq)]
pub struct StakeRecord {
    /// The depositor. Never changes.
    pub staker: Identity,
    /// The asset staked. Never changes.
    pub asset: Identity,
    /// The amount currently staked.
    pub principal: u64,
    /// The tick at which accrual last started over. Never goes back.
    pub checkpoint: u64,
    /// Whether the record holds a stake.
    pub staked: bool,
    /// The bump that completes the record's authority proof over its vault.
    pub bump: u8,
}

/// What an unstake pays out.
#[derive(Clone, Copy, Debug, PartialEq, Eq)]
pub struct Settlement {
    /// The reward accrued since the checkpoint, paid from the reward pool.
    pub reward: u64,
    /// The principal returned from the principal vault.
    pub principal: u64,
    /// Whether the principal reached zero, which retires the record.
    pub retired: bool,
}

impl StakeRecord {
    /// A record holds a stake exactly while its principal is not zero.
    pub open spec fn wf(&self) -> bool {
        (self.principal == 0) <==> !self.staked
    }

    /// A record that holds nothing yet.
    pub fn new(staker: Identity, asset: Identity, bump: u8) -> (record: StakeRecord)
        ensures
            record == (StakeRecord {
                staker,
                asset,
                principal: 0,
                checkpoint: 0,
                staked: false,
                bump,
            }),
            record.wf(),
    {
        StakeRecord { staker, asset, principal: 0, checkpoint: 0, staked: false, bump }
    }

    /// Whether the record holds a stake exactly while its principal is not
    /// zero: what every operation on a record asks of it.
    pub fn is_well_formed(&self) -> (well_formed: bool)
        ensures
            well_formed == self.wf(),
    {
        (self.principal == 0) == !self.staked
    }

    /// What the record signs with as the authority of its principal vault.
    pub fn authority_proof(&self) -> (proof: AuthorityProof)
        ensures
            proof@ == with_bump(record_seeds(self.staker, self.asset), self.bump),
    {
        AuthorityProof::for_record(&self.staker, &self.asset, self.bump)
    }
}

/// What a stake of `amount` by `caller` at the tick `now` comes to: the record
/// after it, or the reason it is refused. The principal grows by `amount` and
/// accrual starts over at `now`; reward accrued on an earlier stake and not
/// yet withdrawn is given up.
pub open spec fn stake_outcome(
    record: StakeRecord,
    caller: Identity,
    amount: u64,
    now: u64,
    allow_top_up: bool,
) -> Result<StakeRecord, AppError> {
    if caller != record.staker {
        Err(AppError::Unauthorized)
    } else if amount == 0 {
        Err(AppError::NoToken)
    } else if record.staked && !allow_top_up {
        Err(AppError::IsStaked)
    } else if record.principal + amount > u64::MAX {
        Err(AppError::ArithmeticOverflow)
    } else {
        Ok(
            StakeRecord {
                principal: (record.principal + amount) as u64,
                checkpoint: now,
                staked: true,
                ..record
            },
        )
    }
}

/// What an unstake of `amount` by `caller` at the tick `now` comes to: the
/// record after it and what is paid out, or the reason it is refused. The
/// reward is that of the whole principal over the ticks since the checkpoint;
/// accrual starts over at `now` for what stays.
pub open spec fn unstake_outcome(
    record: StakeRecord,
    caller: Identity,
    amount: u64,
    now: u64,
) -> Result<(StakeRecord, Settlement), AppError> {
    if caller != record.staker {
        Err(AppError::Unauthorized)
    } else if !record.staked {
        Err(AppError::NotStaked)
    } else if amount > record.principal {
        Err(AppError::OverBalance)
    } else {
        match pool_reward(record.principal, (now - record.checkpoint) as u64) {
            Err(error) => Err(error),
            Ok(reward) => Ok(
                (
                    StakeRecord {
                        principal: (record.principal - amount) as u64,
                        checkpoint: now,
                        staked: record.principal > amount,
                        ..record
                    },
                    Settlement {
                        reward,
                        principal: amount,
                        retired: record.principal == amount,
                    },
                ),
            ),
        }
    }
}

impl StakeRecord {
    /// Adds `amount` to the stake, on behalf of `caller`, at the tick `now`.
    /// Refused, with the record unchanged, where `caller` is not the staker
    /// (`Unauthorized`), where `amount` is zero (`NoToken`), where the record
    /// already holds a stake and `allow_top_up` is off (`IsStaked`), and
    /// where the principal would leave `u64` (`ArithmeticOverflow`).
    pub fn stake(
        &mut self,
        caller: &Identity,
        amount: u64,
        now: u64,
        allow_top_up: bool,
    ) -> (result: Result<(), AppError>)
        requires
            old(self).wf(),
            old(self).checkpoint <= now,
        ensures
            match result {
                Ok(()) => stake_outcome(*old(self), *caller, amount, now, allow_top_up) == Ok::<
                    StakeRecord,
                    AppError,
                >(*final(self)),
                Err(error) => stake_outcome(*old(self), *caller, amount, now, allow_top_up)
                    == Err::<StakeRecord, AppError>(error) && *final(self) == *old(self),
            },
            final(self).wf(),
            old(self).checkpoint <= final(self).checkpoint,
            final(self).staker == old(self).staker,
            final(self).asset == old(self).asset,
    {
        if !caller.same(&self.staker) {
            return Err(AppError::Unauthorized);
        }
        if amount == 0 {
            return Err(AppError::NoToken);
        }
        if self.staked && !allow_top_up {
            return Err(AppError::IsStaked);
        }
        match self.principal.checked_add(amount) {
            None => Err(AppError::ArithmeticOverflow),
            Some(principal) => {
                self.principal = principal;
                self.checkpoint = now;
                self.staked = true;
                Ok(())
            },
        }
    }

    /// Takes `amount` out of the stake, on behalf of `caller`, at the tick
    /// `now`, and says what is to be paid. The record is checkpointed at
    /// `now` before anything is paid, so that a repeated call accrues nothing
    /// twice. Refused, with the record unchanged, where `caller` is not the
    /// staker (`Unauthorized`), where the record holds no stake
    /// (`NotStaked`), where `amount` exceeds the principal (`OverBalance`),
    /// and where the reward does not fit (`ArithmeticOverflow`).
    pub fn unstake(&mut self, caller: &Identity, amount: u64, now: u64) -> (result: Result<
        Settlement,
        AppError,
    >)
        requires
            old(self).wf(),
            old(self).checkpoint <= now,
        ensures
            match result {
                Ok(settlement) => unstake_outcome(*old(self), *caller, amount, now) == Ok::<
                    (StakeRecord, Settlement),
                    AppError,
                >((*final(self), settlement)),
                Err(error) => unstake_outcome(*old(self), *caller, amount, now) == Err::<
                    (StakeRecord, Settlement),
                    AppError,
                >(error) && *final(self) == *old(self),
            },
            final(self).wf(),
            old(self).checkpoint <= final(self).checkpoint,
            final(self).staker == old(self).staker,
            final(self).asset == old(self).asset,
    {
        if !caller.same(&self.staker) {
            return Err(AppError::Unauthorized);
        }
        if !self.staked {
            return Err(AppError::NotStaked);
        }
        if amount > self.principal {
            return Err(AppError::OverBalance);
        }
        let elapsed = now - self.checkpoint;
        let reward = match reward(self.principal, elapsed, RATE_NUMERATOR, RATE_DENOMINATOR) {
            Ok(reward) => reward,
            Err(error) => {
                return Err(error);
            },
        };
        let retired = self.principal == amount;
        self.checkpoint = now;
        self.principal = self.principal - amount;
        if retired {
            self.staked = false;
        }
        Ok(Settlement { reward, principal: amount, retired })
    }
}

} // verus!
