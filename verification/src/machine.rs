use crate::authority::{
    bytes_of, create_program_address, found_identity, found_program_address, pool_seeds,
    program_address, record_address, record_seeds, with_bump, AuthorityProof,
};
use crate::errors::AppError;
use crate::identity::{lemma_identity_of_its_bytes, Identity};
use crate::record::{stake_outcome, unstake_outcome, Settlement, StakeRecord};
use crate::store::{Position, RecordStore};
use crate::vault::{
    deposit, deposit_outcome, retire, retire_outcome, withdraw_as, withdraw_outcome, Vault, Wallet,
};
use vstd::prelude::*;

verus! {

/// The stake records and principal vaults of one program, with the tick it
/// last saw. Every operation is handed the ledger it works on.
#[derive(Debug)]
pub struct Ledger {
    program: Identity,
    allow_top_up: bool,
    vault_collateral: u64,
    clock: u64,
    store: RecordStore,
}

/// What a ledger holds.
pub struct LedgerView {
    /// The program under which identities and authorities are derived.
    pub program: Identity,
    /// Whether a record that holds a stake takes another on top.
    pub allow_top_up: bool,
    /// The collateral put down for each principal vault that is opened.
    pub vault_collateral: u64,
    /// The latest tick seen.
    pub clock: u64,
    /// What is kept, by key.
    pub positions: Map<Identity, Position>,
}

/// A request to create the record of `staker` in the asset `mint`.
#[derive(Clone, Copy, Debug, PartialEq, Eq)]
pub struct Initialize {
    pub staker: Identity,
    pub mint: Identity,
}

/// A request by `staker` to stake units of `mint` from their wallet into the
/// record kept under `stake_info`.
#[derive(Clone, Copy, Debug, PartialEq, Eq)]
pub struct Stake {
    pub staker: Identity,
    pub mint: Identity,
    pub stake_info: Identity,
    pub staker_token_account: Wallet,
}

/// A request by `staker` to take units of `mint` out of the record kept under
/// `stake_info`, with the reward pool that pays the reward and the wallet that
/// receives both.
#[derive(Clone, Copy, Debug, PartialEq, Eq)]
pub struct Unstake {
    pub staker: Identity,
    pub mint: Identity,
    pub stake_info: Identity,
    pub reward_vault: Vault,
    /// The bump that completes the reward pool's authority proof.
    pub reward_vault_bump: u8,
    pub staker_token_account: Wallet,
}

/// What an unstake paid.
#[derive(Clone, Copy, Debug, PartialEq, Eq)]
pub struct Receipt {
    /// Paid from the reward pool.
    pub reward: u64,
    /// Paid from the principal vault.
    pub principal: u64,
    /// Where the unstake took the whole principal: the collateral of the
    /// principal vault, which was closed, paid to the wallet with the rest.
    pub reclaimed: Option<u64>,
}

/// What has to hold of the position kept under `key` at the tick `clock`.
pub open spec fn position_is_sound(key: Identity, position: Position, clock: u64) -> bool {
    &&& position.record.wf()
    &&& position.record.checkpoint <= clock
    &&& position.record.staked <==> position.vault is Some
    &&& position.vault matches Some(vault) ==> {
        &&& !vault.retired
        &&& vault.asset == position.record.asset
        &&& vault.authority == key
        &&& vault.balance == position.record.principal
    }
}

/// Every record holds a stake exactly while its principal is not zero and
/// has a vault exactly while it holds a stake; the vault is open, under the
/// record's own authority, and holds exactly the principal; no checkpoint
/// lies ahead of the clock.
pub open spec fn is_sound(ledger: LedgerView) -> bool {
    forall|key: Identity| #[trigger]
        ledger.positions.contains_key(key) ==> position_is_sound(
            key,
            ledger.positions[key],
            ledger.clock,
        )
}

/// The authority that the proof of the record kept under `key` derives under
/// the ledger's program, where a record is kept there.
pub open spec fn authority_of_record(ledger: LedgerView, key: Identity) -> Option<Seq<u8>> {
    if ledger.positions.contains_key(key) {
        let record = ledger.positions[key].record;
        program_address(
            with_bump(record_seeds(record.staker, record.asset), record.bump),
            ledger.program@,
        )
    } else {
        None
    }
}

/// The authority that the proof of the reward pool of `mint`, completed by
/// `bump`, derives under the ledger's program.
pub open spec fn authority_of_pool(ledger: LedgerView, mint: Identity, bump: u8) -> Option<
    Seq<u8>,
> {
    program_address(with_bump(pool_seeds(mint), bump), ledger.program@)
}

/// Every record is kept under the identity that its own proof derives under
/// the ledger's program, so that the record opens its own vault: true of
/// every record that `initialize` creates.
pub open spec fn keys_are_derived(ledger: LedgerView) -> bool {
    forall|key: Identity| #[trigger]
        ledger.positions.contains_key(key) ==> authority_of_record(ledger, key) == Some(key@)
}

/// Whether the request names matching parties: the caller is the record's
/// staker, the asset is the record's, and the wallet is the caller's own, in
/// that asset.
pub open spec fn names_match(
    record: StakeRecord,
    staker: Identity,
    mint: Identity,
    wallet: Wallet,
) -> bool {
    &&& staker == record.staker
    &&& mint == record.asset
    &&& wallet.owner == staker
    &&& wallet.asset == mint
}

/// The record that `initialize` creates.
pub open spec fn fresh_position(ctx: Initialize, bump: u8) -> Position {
    Position {
        record: StakeRecord {
            staker: ctx.staker,
            asset: ctx.mint,
            principal: 0,
            checkpoint: 0,
            staked: false,
            bump,
        },
        vault: None,
    }
}

/// What `initialize` comes to, where the search for the record's identity
/// found `found`: the ledger after it and the key of the new record, or the
/// reason it is refused.
pub open spec fn initialize_effect(
    ledger: LedgerView,
    ctx: Initialize,
    found: Option<(Identity, u8)>,
) -> Result<(LedgerView, Identity), AppError> {
    match found {
        None => Err(AppError::Unauthorized),
        Some((key, bump)) => if ledger.positions.contains_key(key) {
            Err(AppError::AlreadyInitialized)
        } else {
            Ok(
                (
                    LedgerView {
                        positions: ledger.positions.insert(key, fresh_position(ctx, bump)),
                        ..ledger
                    },
                    key,
                ),
            )
        },
    }
}

/// The vault that a deposit goes to: the position's own, or a new one under
/// the record's authority where it has none yet.
pub open spec fn vault_to_fill(ledger: LedgerView, key: Identity, position: Position) -> Vault {
    match position.vault {
        Some(vault) => vault,
        None => Vault {
            asset: position.record.asset,
            authority: key,
            balance: 0,
            collateral: ledger.vault_collateral,
            retired: false,
        },
    }
}

/// What `stake` comes to: the ledger and the request's wallet after it, or
/// the reason it is refused.
pub open spec fn stake_effect(ledger: LedgerView, ctx: Stake, amount: u64) -> Result<
    (LedgerView, Stake),
    AppError,
> {
    if !ledger.positions.contains_key(ctx.stake_info) {
        Err(AppError::NotStaked)
    } else {
        let position = ledger.positions[ctx.stake_info];
        if !names_match(position.record, ctx.staker, ctx.mint, ctx.staker_token_account) {
            Err(AppError::Unauthorized)
        } else {
            match stake_outcome(
                position.record,
                ctx.staker,
                amount,
                ledger.clock,
                ledger.allow_top_up,
            ) {
                Err(error) => Err(error),
                Ok(record) => match deposit_outcome(
                    vault_to_fill(ledger, ctx.stake_info, position),
                    ctx.staker_token_account,
                    amount,
                ) {
                    Err(error) => Err(error),
                    Ok((vault, wallet)) => Ok(
                        (
                            LedgerView {
                                positions: ledger.positions.insert(
                                    ctx.stake_info,
                                    Position { record, vault: Some(vault) },
                                ),
                                ..ledger
                            },
                            Stake { staker_token_account: wallet, ..ctx },
                        ),
                    ),
                },
            }
        }
    }
}

/// The reward pool and the wallet after the reward is paid: a reward of
/// nothing moves nothing and asks for no authority.
pub open spec fn reward_paid(
    pool: Vault,
    wallet: Wallet,
    reward: u64,
    pool_authority: Option<Seq<u8>>,
) -> Result<(Vault, Wallet), AppError> {
    if reward > 0 {
        withdraw_outcome(pool, wallet, reward, pool_authority)
    } else {
        Ok((pool, wallet))
    }
}

/// The reward pool, the principal vault and the wallet after `settlement` is
/// paid, in this order: the reward from the pool, the principal from the
/// vault, and, where the record is retired, the vault's collateral.
pub open spec fn paid_out(
    pool: Vault,
    vault: Vault,
    wallet: Wallet,
    settlement: Settlement,
    pool_authority: Option<Seq<u8>>,
    record_authority: Option<Seq<u8>>,
) -> Result<(Vault, Vault, Wallet), AppError> {
    match reward_paid(pool, wallet, settlement.reward, pool_authority) {
        Err(error) => Err(error),
        Ok((pool, rewarded)) => match withdraw_outcome(
            vault,
            rewarded,
            settlement.principal,
            record_authority,
        ) {
            Err(error) => Err(error),
            Ok((vault, repaid)) => if settlement.retired {
                match retire_outcome(vault, repaid) {
                    Err(error) => Err(error),
                    Ok(refunded) => Ok((pool, vault, refunded)),
                }
            } else {
                Ok((pool, vault, repaid))
            },
        },
    }
}

/// What `unstake` comes to, where the reward pool's proof derives
/// `pool_authority` and the record's proof derives `record_authority`: the
/// ledger and the request's pool and wallet after it, with what was paid, or
/// the reason it is refused.
pub open spec fn unstake_effect(
    ledger: LedgerView,
    ctx: Unstake,
    amount: u64,
    pool_authority: Option<Seq<u8>>,
    record_authority: Option<Seq<u8>>,
) -> Result<(LedgerView, Unstake, Receipt), AppError> {
    if !ledger.positions.contains_key(ctx.stake_info) {
        Err(AppError::NotStaked)
    } else {
        let position = ledger.positions[ctx.stake_info];
        if !names_match(position.record, ctx.staker, ctx.mint, ctx.staker_token_account)
            || ctx.reward_vault.asset != ctx.mint {
            Err(AppError::Unauthorized)
        } else {
            match (
                unstake_outcome(position.record, ctx.staker, amount, ledger.clock),
                position.vault,
            ) {
                (Err(error), _) => Err(error),
                (Ok(_), None) => Err(AppError::NotStaked),
                (Ok((record, settlement)), Some(vault)) => match paid_out(
                    ctx.reward_vault,
                    vault,
                    ctx.staker_token_account,
                    settlement,
                    pool_authority,
                    record_authority,
                ) {
                    Err(error) => Err(error),
                    Ok((pool, vault, wallet)) => Ok(
                        (
                            LedgerView {
                                positions: if settlement.retired {
                                    ledger.positions.remove(ctx.stake_info)
                                } else {
                                    ledger.positions.insert(
                                        ctx.stake_info,
                                        Position { record, vault: Some(vault) },
                                    )
                                },
                                ..ledger
                            },
                            Unstake { reward_vault: pool, staker_token_account: wallet, ..ctx },
                            Receipt {
                                reward: settlement.reward,
                                principal: settlement.principal,
                                reclaimed: if settlement.retired {
                                    Some(vault.collateral)
                                } else {
                                    None
                                },
                            },
                        ),
                    ),
                },
            }
        }
    }
}

/// `after` is `before` but for what is kept under `changed`: nothing else
/// was added or altered, and the program and the clock are the same.
pub open spec fn differs_at(before: LedgerView, after: LedgerView, changed: Identity) -> bool {
    &&& after.program == before.program
    &&& after.clock == before.clock
    &&& forall|key: Identity| #[trigger]
        after.positions.contains_key(key) && key != changed ==> before.positions.contains_key(
            key,
        ) && after.positions[key] == before.positions[key]
}

/// A sound ledger stays sound where one position changes into a sound one, or
/// goes.
pub proof fn lemma_stays_sound(before: LedgerView, after: LedgerView, changed: Identity)
    requires
        is_sound(before),
        differs_at(before, after, changed),
        after.positions.contains_key(changed) ==> position_is_sound(
            changed,
            after.positions[changed],
            after.clock,
        ),
    ensures
        is_sound(after),
{
    assert forall|key: Identity| #[trigger]
        after.positions.contains_key(key) implies position_is_sound(
        key,
        after.positions[key],
        after.clock,
    ) by {
        if key != changed {
            assert(before.positions.contains_key(key));
        }
    }
}

/// The keys of a ledger stay derived where one position changes and keeps the
/// parties and the bump of its record, or goes.
pub proof fn lemma_stays_derived(before: LedgerView, after: LedgerView, changed: Identity)
    requires
        keys_are_derived(before),
        differs_at(before, after, changed),
        after.positions.contains_key(changed) ==> authority_of_record(after, changed) == Some(
            changed@,
        ),
    ensures
        keys_are_derived(after),
{
    assert forall|key: Identity| #[trigger]
        after.positions.contains_key(key) implies authority_of_record(after, key) == Some(key@) by {
        if key != changed {
            assert(before.positions.contains_key(key));
        }
    }
}

impl View for Ledger {
    type V = LedgerView;

    closed spec fn view(&self) -> LedgerView {
        LedgerView {
            program: self.program,
            allow_top_up: self.allow_top_up,
            vault_collateral: self.vault_collateral,
            clock: self.clock,
            positions: self.store@,
        }
    }
}

impl Ledger {
    /// The store holds no key twice.
    pub closed spec fn is_intact(&self) -> bool {
        self.store.wf()
    }

    /// What every operation asks of the ledger it is handed, and leaves true
    /// of it.
    pub open spec fn wf(&self) -> bool {
        self.is_intact() && is_sound(self@)
    }

    /// An empty ledger for `program`, at tick 0, in which a record that
    /// holds a stake refuses another on top.
    pub fn new(program: Identity, vault_collateral: u64) -> (ledger: Ledger)
        ensures
            ledger.wf(),
            keys_are_derived(ledger@),
            ledger@ == (LedgerView {
                program,
                allow_top_up: false,
                vault_collateral,
                clock: 0,
                positions: Map::empty(),
            }),
    {
        Ledger::with_top_up(program, vault_collateral, false)
    }

    /// An empty ledger for `program`, at tick 0, in which a record that
    /// holds a stake takes another on top if `allow_top_up` is set, and
    /// refuses it if not.
    pub fn with_top_up(program: Identity, vault_collateral: u64, allow_top_up: bool) -> (ledger:
        Ledger)
        ensures
            ledger.wf(),
            keys_are_derived(ledger@),
            ledger@ == (LedgerView {
                program,
                allow_top_up,
                vault_collateral,
                clock: 0,
                positions: Map::empty(),
            }),
    {
        Ledger { program, allow_top_up, vault_collateral, clock: 0, store: RecordStore::new() }
    }

    /// Takes note of the tick `now`. Time does not go back: a tick behind
    /// the clock leaves the clock where it is.
    pub fn advance(&mut self, now: u64)
        requires
            old(self).wf(),
        ensures
            final(self).wf(),
            keys_are_derived(old(self)@) ==> keys_are_derived(final(self)@),
            final(self)@ == (LedgerView {
                clock: if now > old(self)@.clock {
                    now
                } else {
                    old(self)@.clock
                },
                ..old(self)@
            }),
    {
        if now > self.clock {
            self.clock = now;
        }
        proof {
            assert forall|key: Identity| #[trigger]
                self@.positions.contains_key(key) implies position_is_sound(
                key,
                self@.positions[key],
                self@.clock,
            ) by {
                assert(old(self)@.positions.contains_key(key));
            }
            if keys_are_derived(old(self)@) {
                assert forall|key: Identity| #[trigger]
                    self@.positions.contains_key(key) implies authority_of_record(self@, key)
                    == Some(key@) by {
                    assert(old(self)@.positions.contains_key(key));
                }
            }
        }
    }

    /// The program under which identities and authorities are derived.
    pub fn program(&self) -> (program: Identity)
        ensures
            program == self@.program,
    {
        self.program
    }

    /// Whether a record that holds a stake takes another on top.
    pub fn allow_top_up(&self) -> (allowed: bool)
        ensures
            allowed == self@.allow_top_up,
    {
        self.allow_top_up
    }

    /// The collateral put down for each principal vault that is opened.
    pub fn vault_collateral(&self) -> (collateral: u64)
        ensures
            collateral == self@.vault_collateral,
    {
        self.vault_collateral
    }

    /// The latest tick seen.
    pub fn now(&self) -> (clock: u64)
        ensures
            clock == self@.clock,
    {
        self.clock
    }

    /// What is kept under `key`, if anything is.
    pub fn position(&self, key: &Identity) -> (found: Option<Position>)
        requires
            self.wf(),
        ensures
            found == if self@.positions.contains_key(*key) {
                Some(self@.positions[*key])
            } else {
                None
            },
    {
        self.store.lookup(key)
    }
}

/// Creates the record of `ctx.staker` in `ctx.mint`, empty, under the identity
/// `found` that the search derived for the two, and returns that identity. No
/// funds move. Refused, with the ledger unchanged, where the search found no
/// identity (`Unauthorized`) and where a record is kept under it already
/// (`AlreadyInitialized`).
pub fn initialize_with(
    ledger: &mut Ledger,
    ctx: &Initialize,
    found: Option<(Identity, u8)>,
) -> (result: Result<Identity, AppError>)
    requires
        old(ledger).wf(),
    ensures
        final(ledger).wf(),
        match result {
            Ok(key) => initialize_effect(old(ledger)@, *ctx, found) == Ok::<
                (LedgerView, Identity),
                AppError,
            >((final(ledger)@, key)),
            Err(error) => initialize_effect(old(ledger)@, *ctx, found) == Err::<
                (LedgerView, Identity),
                AppError,
            >(error) && final(ledger)@ == old(ledger)@,
        },
{
    let (key, bump) = match found {
        Some(found) => found,
        None => {
            return Err(AppError::Unauthorized);
        },
    };
    let position = Position { record: StakeRecord::new(ctx.staker, ctx.mint, bump), vault: None };
    match ledger.store.create(key, position) {
        Err(error) => Err(error),
        Ok(()) => {
            proof {
                assert(position == fresh_position(*ctx, bump));
                lemma_stays_sound(old(ledger)@, ledger@, key);
            }
            Ok(key)
        },
    }
}

/// Creates the record of `ctx.staker` in `ctx.mint`, empty, under the identity
/// that the ledger's program derives for the two, and returns that identity.
/// The record's own proof derives that identity. Otherwise as
/// `initialize_with`.
pub fn initialize(ledger: &mut Ledger, ctx: &Initialize) -> (result: Result<Identity, AppError>)
    requires
        old(ledger).wf(),
    ensures
        final(ledger).wf(),
        keys_are_derived(old(ledger)@) ==> keys_are_derived(final(ledger)@),
        match result {
            Ok(key) => initialize_effect(
                old(ledger)@,
                *ctx,
                found_identity(
                    found_program_address(
                        record_seeds(ctx.staker, ctx.mint),
                        old(ledger)@.program@,
                    ),
                ),
            ) == Ok::<(LedgerView, Identity), AppError>((final(ledger)@, key)),
            Err(error) => initialize_effect(
                old(ledger)@,
                *ctx,
                found_identity(
                    found_program_address(
                        record_seeds(ctx.staker, ctx.mint),
                        old(ledger)@.program@,
                    ),
                ),
            ) == Err::<(LedgerView, Identity), AppError>(error) && final(ledger)@ == old(ledger)@,
        },
{
    let found = record_address(&ctx.staker, &ctx.mint, &ledger.program);
    proof {
        if let Some((key, _)) = found {
            lemma_identity_of_its_bytes(key);
        }
    }
    let result = initialize_with(ledger, ctx, found);
    proof {
        if keys_are_derived(old(ledger)@) && result is Ok {
            lemma_stays_derived(old(ledger)@, ledger@, result->Ok_0);
        }
    }
    result
}

/// Stakes `amount` units from the wallet of the request into the record kept
/// under `ctx.stake_info`, at the ledger's tick: the units go to the record's
/// principal vault, which is opened where the record had none, the principal
/// grows by `amount`, and accrual starts over. Refused, with the ledger and
/// the request unchanged: where nothing is kept under the key (`NotStaked`);
/// where the caller is not the record's staker, the asset is not the
/// record's, or the wallet is not the caller's in that asset
/// (`Unauthorized`); where `amount` is zero (`NoToken`); where the record
/// holds a stake and the ledger takes none on top (`IsStaked`); where the
/// principal would leave `u64` (`ArithmeticOverflow`); and where the wallet
/// holds less than `amount` (`InsufficientFunds`).
pub fn stake(ledger: &mut Ledger, ctx: &mut Stake, amount: u64) -> (result: Result<(), AppError>)
    requires
        old(ledger).wf(),
    ensures
        final(ledger).wf(),
        keys_are_derived(old(ledger)@) ==> keys_are_derived(final(ledger)@),
        match result {
            Ok(()) => stake_effect(old(ledger)@, *old(ctx), amount) == Ok::<
                (LedgerView, Stake),
                AppError,
            >((final(ledger)@, *final(ctx))),
            Err(error) => {
                &&& stake_effect(old(ledger)@, *old(ctx), amount) == Err::<
                    (LedgerView, Stake),
                    AppError,
                >(error)
                &&& final(ledger)@ == old(ledger)@
                &&& *final(ctx) == *old(ctx)
            },
        },
{
    let position = match ledger.store.lookup(&ctx.stake_info) {
        Some(position) => position,
        None => {
            return Err(AppError::NotStaked);
        },
    };
    assert(old(ledger)@.positions.contains_key(ctx.stake_info));
    let mut record = position.record;
    let mut wallet = ctx.staker_token_account;
    if !(ctx.staker.same(&record.staker) && ctx.mint.same(&record.asset) && wallet.owner.same(
        &ctx.staker,
    ) && wallet.asset.same(&ctx.mint)) {
        return Err(AppError::Unauthorized);
    }
    match record.stake(&ctx.staker, amount, ledger.clock, ledger.allow_top_up) {
        Ok(()) => {},
        Err(error) => {
            return Err(error);
        },
    }
    let mut vault = match position.vault {
        Some(vault) => vault,
        None => Vault::open(record.asset, ctx.stake_info, ledger.vault_collateral),
    };
    match deposit(&mut vault, &mut wallet, amount) {
        Ok(()) => {},
        Err(error) => {
            return Err(error);
        },
    }
    let next = Position { record, vault: Some(vault) };
    ledger.store.update(&ctx.stake_info, next);
    ctx.staker_token_account = wallet;
    proof {
        lemma_stays_sound(old(ledger)@, ledger@, ctx.stake_info);
        if keys_are_derived(old(ledger)@) {
            lemma_stays_derived(old(ledger)@, ledger@, ctx.stake_info);
        }
    }
    Ok(())
}

/// Takes `amount` units out of the record kept under `ctx.stake_info`, at the
/// ledger's tick, for a caller whose proofs derive `pool_authority` for the
/// reward pool and `record_authority` for the record. The record is
/// checkpointed first; then the reward accrued on the whole principal since
/// the last checkpoint, if it is not nothing, is paid from the reward pool to
/// the wallet; then `amount` is paid from the principal vault to the wallet;
/// and where that leaves no principal, the vault is retired, its collateral
/// paid to the wallet, and the record taken out of the ledger for good.
///
/// Refused, with the ledger and the request unchanged: where nothing is kept
/// under the key (`NotStaked`); where the caller is not the record's staker,
/// the asset is not the record's, the wallet is not the caller's in that
/// asset, or the reward pool holds another asset (`Unauthorized`); where the
/// record holds no stake (`NotStaked`); where `amount` exceeds the principal
/// (`OverBalance`); where the reward does not fit (`ArithmeticOverflow`);
/// where a proof does not derive the authority of the vault it is to open
/// (`Unauthorized`); where the reward pool holds less than the reward
/// (`InsufficientFunds`); and where the wallet's balance, or its collateral,
/// would leave `u64` (`ArithmeticOverflow`).
pub fn unstake_with(
    ledger: &mut Ledger,
    ctx: &mut Unstake,
    amount: u64,
    pool_authority: Option<Identity>,
    record_authority: Option<Identity>,
) -> (result: Result<Receipt, AppError>)
    requires
        old(ledger).wf(),
    ensures
        final(ledger).wf(),
        keys_are_derived(old(ledger)@) ==> keys_are_derived(final(ledger)@),
        match result {
            Ok(receipt) => unstake_effect(
                old(ledger)@,
                *old(ctx),
                amount,
                bytes_of(pool_authority),
                bytes_of(record_authority),
            ) == Ok::<(LedgerView, Unstake, Receipt), AppError>(
                (final(ledger)@, *final(ctx), receipt),
            ),
            Err(error) => {
                &&& unstake_effect(
                    old(ledger)@,
                    *old(ctx),
                    amount,
                    bytes_of(pool_authority),
                    bytes_of(record_authority),
                ) == Err::<(LedgerView, Unstake, Receipt), AppError>(error)
                &&& final(ledger)@ == old(ledger)@
                &&& *final(ctx) == *old(ctx)
            },
        },
{
    let position = match ledger.store.lookup(&ctx.stake_info) {
        Some(position) => position,
        None => {
            return Err(AppError::NotStaked);
        },
    };
    assert(old(ledger)@.positions.contains_key(ctx.stake_info));
    let mut record = position.record;
    let mut wallet = ctx.staker_token_account;
    let mut pool = ctx.reward_vault;
    if !(ctx.staker.same(&record.staker) && ctx.mint.same(&record.asset) && wallet.owner.same(
        &ctx.staker,
    ) && wallet.asset.same(&ctx.mint) && pool.asset.same(&ctx.mint)) {
        return Err(AppError::Unauthorized);
    }
    let settlement = match record.unstake(&ctx.staker, amount, ledger.clock) {
        Ok(settlement) => settlement,
        Err(error) => {
            return Err(error);
        },
    };
    let mut vault = match position.vault {
        Some(vault) => vault,
        None => {
            return Err(AppError::NotStaked);
        },
    };
    if settlement.reward > 0 {
        match withdraw_as(&mut pool, &mut wallet, settlement.reward, pool_authority) {
            Ok(()) => {},
            Err(error) => {
                return Err(error);
            },
        }
    }
    match withdraw_as(&mut vault, &mut wallet, amount, record_authority) {
        Ok(()) => {},
        Err(error) => {
            return Err(error);
        },
    }
    let reclaimed = if settlement.retired {
        let collateral = vault.collateral;
        match retire(&mut vault, &mut wallet) {
            Ok(()) => {
                ledger.store.delete(&ctx.stake_info);
                Some(collateral)
            },
            Err(error) => {
                return Err(error);
            },
        }
    } else {
        ledger.store.update(&ctx.stake_info, Position { record, vault: Some(vault) });
        None
    };
    ctx.reward_vault = pool;
    ctx.staker_token_account = wallet;
    proof {
        lemma_stays_sound(old(ledger)@, ledger@, ctx.stake_info);
        if keys_are_derived(old(ledger)@) {
            lemma_stays_derived(old(ledger)@, ledger@, ctx.stake_info);
        }
    }
    Ok(Receipt { reward: settlement.reward, principal: amount, reclaimed })
}

/// Takes `amount` units out of the record kept under `ctx.stake_info`, at the
/// ledger's tick, and pays them with the reward accrued to the wallet of the
/// request. The reward pool is opened with the proof made of the asset and the
/// request's bump, the principal vault with the record's own proof; both are
/// derived under the ledger's program. Otherwise as `unstake_with`.
pub fn unstake(ledger: &mut Ledger, ctx: &mut Unstake, amount: u64) -> (result: Result<
    Receipt,
    AppError,
>)
    requires
        old(ledger).wf(),
    ensures
        final(ledger).wf(),
        keys_are_derived(old(ledger)@) ==> keys_are_derived(final(ledger)@),
        match result {
            Ok(receipt) => unstake_effect(
                old(ledger)@,
                *old(ctx),
                amount,
                authority_of_pool(old(ledger)@, old(ctx).mint, old(ctx).reward_vault_bump),
                authority_of_record(old(ledger)@, old(ctx).stake_info),
            ) == Ok::<(LedgerView, Unstake, Receipt), AppError>(
                (final(ledger)@, *final(ctx), receipt),
            ),
            Err(error) => {
                &&& unstake_effect(
                    old(ledger)@,
                    *old(ctx),
                    amount,
                    authority_of_pool(old(ledger)@, old(ctx).mint, old(ctx).reward_vault_bump),
                    authority_of_record(old(ledger)@, old(ctx).stake_info),
                ) == Err::<(LedgerView, Unstake, Receipt), AppError>(error)
                &&& final(ledger)@ == old(ledger)@
                &&& *final(ctx) == *old(ctx)
            },
        },
{
    let pool_proof = AuthorityProof::for_pool(&ctx.mint, ctx.reward_vault_bump);
    let of_pool = create_program_address(&pool_proof, &ledger.program);
    let of_record = match ledger.store.lookup(&ctx.stake_info) {
        Some(position) => create_program_address(
            &position.record.authority_proof(),
            &ledger.program,
        ),
        None => None,
    };
    unstake_with(ledger, ctx, amount, of_pool, of_record)
}

} // verus!
