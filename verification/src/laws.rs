use crate::errors::AppError;
use crate::identity::Identity;
use crate::machine::{
    authority_of_record, is_sound, keys_are_derived, lemma_stays_derived, lemma_stays_sound,
    names_match, stake_effect, unstake_effect, LedgerView, Receipt, Stake, Unstake,
};
use crate::record::{unstake_outcome, Settlement, StakeRecord};
use crate::reward::{lemma_no_time_no_reward, pool_reward, RATE_DENOMINATOR, RATE_NUMERATOR};
use vstd::prelude::*;

verus! {

/// An unstake of more than the principal of a record that holds a stake, by
/// its staker, is refused with `OverBalance`.
pub proof fn lemma_record_refuses_over_balance(record: StakeRecord, amount: u64, now: u64)
    requires
        record.staked,
        amount > record.principal,
    ensures
        unstake_outcome(record, record.staker, amount, now) == Err::<
            (StakeRecord, Settlement),
            AppError,
        >(AppError::OverBalance),
{
}

/// An unstake by anyone but the staker is refused with `Unauthorized`,
/// whatever the record holds and whatever is asked.
pub proof fn lemma_record_refuses_strangers(
    record: StakeRecord,
    caller: Identity,
    amount: u64,
    now: u64,
)
    requires
        caller != record.staker,
    ensures
        unstake_outcome(record, caller, amount, now) == Err::<(StakeRecord, Settlement), AppError>(
            AppError::Unauthorized,
        ),
{
}

/// An unstake that is granted leaves the checkpoint at the tick it was made,
/// so that one made again at that tick, however much it takes, earns no
/// reward: nothing is paid twice.
pub proof fn lemma_repeat_earns_nothing(
    record: StakeRecord,
    caller: Identity,
    amount: u64,
    again: u64,
    now: u64,
)
    requires
        unstake_outcome(record, caller, amount, now) is Ok,
        unstake_outcome(
            unstake_outcome(record, caller, amount, now)->Ok_0.0,
            caller,
            again,
            now,
        ) is Ok,
    ensures
        unstake_outcome(record, caller, amount, now)->Ok_0.0.checkpoint == now,
        unstake_outcome(
            unstake_outcome(record, caller, amount, now)->Ok_0.0,
            caller,
            again,
            now,
        )->Ok_0.1.reward == 0,
{
    let next = unstake_outcome(record, caller, amount, now)->Ok_0.0;
    lemma_no_time_no_reward(next.principal, RATE_NUMERATOR, RATE_DENOMINATOR);
}

/// In a ledger, an unstake of more than the principal of a record that holds
/// a stake, asked for by its staker with matching names, is refused with
/// `OverBalance`, whatever the proofs derive.
pub proof fn lemma_ledger_refuses_over_balance(
    ledger: LedgerView,
    ctx: Unstake,
    amount: u64,
    pool_authority: Option<Seq<u8>>,
    record_authority: Option<Seq<u8>>,
)
    requires
        ledger.positions.contains_key(ctx.stake_info),
        names_match(
            ledger.positions[ctx.stake_info].record,
            ctx.staker,
            ctx.mint,
            ctx.staker_token_account,
        ),
        ctx.reward_vault.asset == ctx.mint,
        ledger.positions[ctx.stake_info].record.staked,
        amount > ledger.positions[ctx.stake_info].record.principal,
    ensures
        unstake_effect(ledger, ctx, amount, pool_authority, record_authority) == Err::<
            (LedgerView, Unstake, Receipt),
            AppError,
        >(AppError::OverBalance),
{
}

/// In a ledger, an unstake from a record asked for by anyone but its staker
/// is refused with `Unauthorized`, whatever else the request holds and
/// whatever the proofs derive.
pub proof fn lemma_ledger_refuses_strangers(
    ledger: LedgerView,
    ctx: Unstake,
    amount: u64,
    pool_authority: Option<Seq<u8>>,
    record_authority: Option<Seq<u8>>,
)
    requires
        ledger.positions.contains_key(ctx.stake_info),
        ctx.staker != ledger.positions[ctx.stake_info].record.staker,
    ensures
        unstake_effect(ledger, ctx, amount, pool_authority, record_authority) == Err::<
            (LedgerView, Unstake, Receipt),
            AppError,
        >(AppError::Unauthorized),
{
}

/// An unstake that takes the whole principal closes the principal vault,
/// pays its collateral to the wallet, and takes the record out of the ledger:
/// whatever unstake is asked of that key afterwards is refused with
/// `NotStaked`.
pub proof fn lemma_drained_record_is_gone(
    ledger: LedgerView,
    ctx: Unstake,
    pool_authority: Option<Seq<u8>>,
    record_authority: Option<Seq<u8>>,
    later: Unstake,
    later_amount: u64,
    later_pool_authority: Option<Seq<u8>>,
    later_record_authority: Option<Seq<u8>>,
)
    requires
        ledger.positions.contains_key(ctx.stake_info),
        unstake_effect(
            ledger,
            ctx,
            ledger.positions[ctx.stake_info].record.principal,
            pool_authority,
            record_authority,
        ) is Ok,
        later.stake_info == ctx.stake_info,
    ensures
        ({
            let (next, _, receipt) = unstake_effect(
                ledger,
                ctx,
                ledger.positions[ctx.stake_info].record.principal,
                pool_authority,
                record_authority,
            )->Ok_0;
            &&& !next.positions.contains_key(ctx.stake_info)
            &&& receipt.reclaimed == Some(
                ledger.positions[ctx.stake_info].vault->Some_0.collateral,
            )
            &&& unstake_effect(
                next,
                later,
                later_amount,
                later_pool_authority,
                later_record_authority,
            ) == Err::<(LedgerView, Unstake, Receipt), AppError>(AppError::NotStaked)
        }),
{
}

/// What a granted unstake moves, and nothing else: the reward accrued on the
/// whole principal since the checkpoint leaves the reward pool, the amount
/// asked for leaves the principal vault, and the wallet gains the two. What
/// stays is checkpointed at the ledger's tick, and every other record is
/// left as it was.
pub proof fn lemma_unstake_moves_exactly(
    ledger: LedgerView,
    ctx: Unstake,
    amount: u64,
    pool_authority: Option<Seq<u8>>,
    record_authority: Option<Seq<u8>>,
)
    requires
        is_sound(ledger),
        unstake_effect(ledger, ctx, amount, pool_authority, record_authority) is Ok,
    ensures
        ({
            let (next, after, receipt) = unstake_effect(
                ledger,
                ctx,
                amount,
                pool_authority,
                record_authority,
            )->Ok_0;
            let before = ledger.positions[ctx.stake_info];
            &&& ledger.positions.contains_key(ctx.stake_info)
            &&& amount <= before.record.principal
            &&& receipt.principal == amount
            &&& pool_reward(
                before.record.principal,
                (ledger.clock - before.record.checkpoint) as u64,
            ) == Ok::<u64, AppError>(receipt.reward)
            &&& after.reward_vault.balance == ctx.reward_vault.balance - receipt.reward
            &&& after.staker_token_account.balance == ctx.staker_token_account.balance + amount
                + receipt.reward
            &&& after.staker_token_account.collateral == ctx.staker_token_account.collateral + (
            if amount == before.record.principal {
                before.vault->Some_0.collateral as int
            } else {
                0
            })
            &&& receipt.reclaimed is Some <==> amount == before.record.principal
            &&& amount == before.record.principal ==> !next.positions.contains_key(ctx.stake_info)
            &&& amount < before.record.principal ==> {
                let kept = next.positions[ctx.stake_info];
                &&& next.positions.contains_key(ctx.stake_info)
                &&& kept.record.staker == before.record.staker
                &&& kept.record.asset == before.record.asset
                &&& kept.record.principal == before.record.principal - amount
                &&& kept.record.checkpoint == ledger.clock
                &&& kept.record.checkpoint >= before.record.checkpoint
                &&& kept.record.staked
                &&& kept.vault is Some
                &&& kept.vault->Some_0.balance == before.vault->Some_0.balance - amount
            }
            &&& forall|other: Identity|
                other != ctx.stake_info ==> (next.positions.contains_key(other)
                    <==> ledger.positions.contains_key(other)) && next.positions[other]
                    == ledger.positions[other]
            &&& is_sound(next)
            &&& keys_are_derived(ledger) ==> keys_are_derived(next)
        }),
{
    let (next, after, receipt) = unstake_effect(
        ledger,
        ctx,
        amount,
        pool_authority,
        record_authority,
    )->Ok_0;
    lemma_stays_sound(ledger, next, ctx.stake_info);
    if keys_are_derived(ledger) {
        lemma_stays_derived(ledger, next, ctx.stake_info);
    }
}

/// What a granted stake moves, and nothing else: the amount leaves the wallet
/// for the principal vault, the principal grows by it, and accrual starts
/// over at the ledger's tick. Every other record is left as it was.
pub proof fn lemma_stake_moves_exactly(ledger: LedgerView, ctx: Stake, amount: u64)
    requires
        is_sound(ledger),
        stake_effect(ledger, ctx, amount) is Ok,
    ensures
        ({
            let (next, after) = stake_effect(ledger, ctx, amount)->Ok_0;
            let before = ledger.positions[ctx.stake_info];
            let kept = next.positions[ctx.stake_info];
            &&& ledger.positions.contains_key(ctx.stake_info)
            &&& next.positions.contains_key(ctx.stake_info)
            &&& amount > 0
            &&& after.staker_token_account.balance == ctx.staker_token_account.balance - amount
            &&& after.staker_token_account.collateral == ctx.staker_token_account.collateral
            &&& kept.record.staker == before.record.staker
            &&& kept.record.asset == before.record.asset
            &&& kept.record.principal == before.record.principal + amount
            &&& kept.record.checkpoint == ledger.clock
            &&& kept.record.checkpoint >= before.record.checkpoint
            &&& kept.record.staked
            &&& kept.vault is Some
            &&& kept.vault->Some_0.balance == kept.record.principal
            &&& forall|other: Identity|
                other != ctx.stake_info ==> (next.positions.contains_key(other)
                    <==> ledger.positions.contains_key(other)) && next.positions[other]
                    == ledger.positions[other]
            &&& is_sound(next)
            &&& keys_are_derived(ledger) ==> keys_are_derived(next)
        }),
{
    let (next, after) = stake_effect(ledger, ctx, amount)->Ok_0;
    lemma_stays_sound(ledger, next, ctx.stake_info);
    if keys_are_derived(ledger) {
        lemma_stays_derived(ledger, next, ctx.stake_info);
    }
}

/// The units held in custody for the record kept under `key`: the balance of
/// its principal vault, and nothing where it has none.
pub open spec fn in_custody(ledger: LedgerView, key: Identity) -> nat {
    if ledger.positions.contains_key(key) && ledger.positions[key].vault is Some {
        ledger.positions[key].vault->Some_0.balance as nat
    } else {
        0
    }
}

/// A stake creates and destroys no unit: what the wallet and the principal
/// vault hold together is what they held before.
pub proof fn lemma_stake_conserves_units(ledger: LedgerView, ctx: Stake, amount: u64)
    requires
        is_sound(ledger),
        stake_effect(ledger, ctx, amount) is Ok,
    ensures
        ({
            let (next, after) = stake_effect(ledger, ctx, amount)->Ok_0;
            in_custody(next, ctx.stake_info) + after.staker_token_account.balance == in_custody(
                ledger,
                ctx.stake_info,
            ) + ctx.staker_token_account.balance
        }),
{
}

/// An unstake creates and destroys no unit: what the wallet, the principal
/// vault and the reward pool hold together is what they held before.
pub proof fn lemma_unstake_conserves_units(
    ledger: LedgerView,
    ctx: Unstake,
    amount: u64,
    pool_authority: Option<Seq<u8>>,
    record_authority: Option<Seq<u8>>,
)
    requires
        is_sound(ledger),
        unstake_effect(ledger, ctx, amount, pool_authority, record_authority) is Ok,
    ensures
        ({
            let (next, after, _) = unstake_effect(
                ledger,
                ctx,
                amount,
                pool_authority,
                record_authority,
            )->Ok_0;
            in_custody(next, ctx.stake_info) + after.reward_vault.balance
                + after.staker_token_account.balance == in_custody(ledger, ctx.stake_info)
                + ctx.reward_vault.balance + ctx.staker_token_account.balance
        }),
{
}

/// When a stake is owed: in a sound ledger, a request whose names match the
/// record, for an amount that is not nothing, that the wallet holds and that
/// the principal has room for, is granted, provided the record holds no
/// stake yet or the ledger takes one on top.
pub proof fn lemma_stake_is_granted(ledger: LedgerView, ctx: Stake, amount: u64)
    requires
        is_sound(ledger),
        ledger.positions.contains_key(ctx.stake_info),
        names_match(
            ledger.positions[ctx.stake_info].record,
            ctx.staker,
            ctx.mint,
            ctx.staker_token_account,
        ),
        amount > 0,
        !ledger.positions[ctx.stake_info].record.staked || ledger.allow_top_up,
        ledger.positions[ctx.stake_info].record.principal + amount <= u64::MAX,
        ctx.staker_token_account.balance >= amount,
    ensures
        stake_effect(ledger, ctx, amount) is Ok,
{
}

/// When an unstake is owed: in a sound ledger whose records are kept under
/// the identities that their proofs derive, the staker of a record that holds
/// a stake, asking with matching names for no more than the principal, is
/// paid, provided the reward fits, the reward pool is opened by the proof
/// given and holds the reward, and the wallet has room for what it is paid.
pub proof fn lemma_unstake_is_granted(
    ledger: LedgerView,
    ctx: Unstake,
    amount: u64,
    pool_authority: Option<Seq<u8>>,
)
    requires
        is_sound(ledger),
        keys_are_derived(ledger),
        ledger.positions.contains_key(ctx.stake_info),
        names_match(
            ledger.positions[ctx.stake_info].record,
            ctx.staker,
            ctx.mint,
            ctx.staker_token_account,
        ),
        ctx.reward_vault.asset == ctx.mint,
        ledger.positions[ctx.stake_info].record.staked,
        amount <= ledger.positions[ctx.stake_info].record.principal,
        pool_reward(
            ledger.positions[ctx.stake_info].record.principal,
            (ledger.clock - ledger.positions[ctx.stake_info].record.checkpoint) as u64,
        ) is Ok,
        ({
            let reward = pool_reward(
                ledger.positions[ctx.stake_info].record.principal,
                (ledger.clock - ledger.positions[ctx.stake_info].record.checkpoint) as u64,
            )->Ok_0;
            &&& reward > 0 ==> {
                &&& !ctx.reward_vault.retired
                &&& pool_authority == Some(ctx.reward_vault.authority@)
                &&& ctx.reward_vault.balance >= reward
            }
            &&& ctx.staker_token_account.balance + reward + amount <= u64::MAX
        }),
        amount == ledger.positions[ctx.stake_info].record.principal
            ==> ctx.staker_token_account.collateral
            + ledger.positions[ctx.stake_info].vault->Some_0.collateral <= u64::MAX,
    ensures
        unstake_effect(
            ledger,
            ctx,
            amount,
            pool_authority,
            authority_of_record(ledger, ctx.stake_info),
        ) is Ok,
{
}

} // verus!
