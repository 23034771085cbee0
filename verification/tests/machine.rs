use stake_program::authority::{pool_address, record_address};
use stake_program::errors::AppError;
use stake_program::identity::Identity;
use stake_program::machine::{
    initialize, initialize_with, stake, unstake, unstake_with, Initialize, Ledger, Receipt, Stake,
    Unstake,
};
use stake_program::record::StakeRecord;
use stake_program::store::Position;
use stake_program::vault::{deposit, Vault, Wallet};

const COLLATERAL: u64 = 2_039_280;

fn id(byte: u8) -> Identity {
    Identity::new([byte; 32])
}

fn program() -> Identity {
    id(3)
}

fn staker() -> Identity {
    id(1)
}

fn mint() -> Identity {
    id(2)
}

/// A reward pool of `mint()` under its derived authority, holding `balance`.
fn funded_pool(balance: u64) -> (Vault, u8) {
    let (authority, bump) = pool_address(&mint(), &program()).unwrap();
    let mut pool = Vault::open(mint(), authority, 0);
    let mut treasury = Wallet::new(id(8), mint(), balance);
    assert_eq!(deposit(&mut pool, &mut treasury, balance), Ok(()));
    (pool, bump)
}

/// A ledger in which `staker()` has staked `amount` of their `held` units at tick 0.
fn ledger_with_stake(amount: u64, held: u64) -> (Ledger, Identity, Wallet) {
    let mut ledger = Ledger::new(program(), COLLATERAL);
    let key = initialize(&mut ledger, &Initialize { staker: staker(), mint: mint() }).unwrap();
    let mut ctx = Stake {
        staker: staker(),
        mint: mint(),
        stake_info: key,
        staker_token_account: Wallet::new(staker(), mint(), held),
    };
    assert_eq!(stake(&mut ledger, &mut ctx, amount), Ok(()));
    (ledger, key, ctx.staker_token_account)
}

fn request(key: Identity, pool: (Vault, u8), wallet: Wallet) -> Unstake {
    Unstake {
        staker: staker(),
        mint: mint(),
        stake_info: key,
        reward_vault: pool.0,
        reward_vault_bump: pool.1,
        staker_token_account: wallet,
    }
}

#[test]
fn new_ledger_is_empty_and_refuses_top_up() {
    let ledger = Ledger::new(program(), COLLATERAL);
    assert_eq!(ledger.program(), program());
    assert_eq!(ledger.vault_collateral(), COLLATERAL);
    assert_eq!(ledger.now(), 0);
    assert!(!ledger.allow_top_up());
    assert_eq!(ledger.position(&id(1)), None);
    assert!(Ledger::with_top_up(program(), 0, true).allow_top_up());
    assert!(!Ledger::with_top_up(program(), 0, false).allow_top_up());
}

#[test]
fn clock_never_goes_back() {
    let mut ledger = Ledger::new(program(), COLLATERAL);
    ledger.advance(10);
    assert_eq!(ledger.now(), 10);
    ledger.advance(4);
    assert_eq!(ledger.now(), 10);
    ledger.advance(10);
    assert_eq!(ledger.now(), 10);
    ledger.advance(u64::MAX);
    assert_eq!(ledger.now(), u64::MAX);
}

#[test]
fn initialize_creates_an_idle_record_under_the_derived_key() {
    let mut ledger = Ledger::new(program(), COLLATERAL);
    let (expected, bump) = record_address(&staker(), &mint(), &program()).unwrap();
    let key = initialize(&mut ledger, &Initialize { staker: staker(), mint: mint() });
    assert_eq!(key, Ok(expected));
    assert_eq!(
        ledger.position(&expected),
        Some(Position { record: StakeRecord::new(staker(), mint(), bump), vault: None })
    );
    assert_eq!(ledger.position(&staker()), None);
}

#[test]
fn initialize_twice_is_already_initialized() {
    let mut ledger = Ledger::new(program(), COLLATERAL);
    let ctx = Initialize { staker: staker(), mint: mint() };
    let key = initialize(&mut ledger, &ctx).unwrap();
    let before = ledger.position(&key);
    assert_eq!(initialize(&mut ledger, &ctx), Err(AppError::AlreadyInitialized));
    assert_eq!(ledger.position(&key), before);
    // Another staker, or another asset, has a record of its own.
    assert!(initialize(&mut ledger, &Initialize { staker: id(9), mint: mint() }).is_ok());
    assert!(initialize(&mut ledger, &Initialize { staker: staker(), mint: id(9) }).is_ok());
}

#[test]
fn initialize_with_takes_the_key_it_is_given() {
    let mut ledger = Ledger::new(program(), COLLATERAL);
    let ctx = Initialize { staker: staker(), mint: mint() };
    assert_eq!(initialize_with(&mut ledger, &ctx, Some((id(40), 7))), Ok(id(40)));
    assert_eq!(
        ledger.position(&id(40)),
        Some(Position { record: StakeRecord::new(staker(), mint(), 7), vault: None })
    );
    assert_eq!(
        initialize_with(&mut ledger, &ctx, Some((id(40), 8))),
        Err(AppError::AlreadyInitialized)
    );
    assert_eq!(initialize_with(&mut ledger, &ctx, None), Err(AppError::Unauthorized));
    assert_eq!(ledger.position(&id(40)).unwrap().record.bump, 7);
}

#[test]
fn stake_moves_the_amount_into_a_new_vault() {
    let (ledger, key, wallet) = ledger_with_stake(1000, 1500);
    assert_eq!(wallet.balance, 500);
    let position = ledger.position(&key).unwrap();
    assert_eq!((position.record.principal, position.record.checkpoint), (1000, 0));
    assert!(position.record.staked);
    assert_eq!(
        position.vault,
        Some(Vault {
            asset: mint(),
            authority: key,
            balance: 1000,
            collateral: COLLATERAL,
            retired: false
        })
    );
}

#[test]
fn stake_is_checkpointed_at_the_ledgers_tick() {
    let mut ledger = Ledger::new(program(), COLLATERAL);
    let key = initialize(&mut ledger, &Initialize { staker: staker(), mint: mint() }).unwrap();
    ledger.advance(42);
    let mut ctx = Stake {
        staker: staker(),
        mint: mint(),
        stake_info: key,
        staker_token_account: Wallet::new(staker(), mint(), 10),
    };
    assert_eq!(stake(&mut ledger, &mut ctx, 10), Ok(()));
    assert_eq!(ledger.position(&key).unwrap().record.checkpoint, 42);
}

#[test]
fn stake_without_a_record_is_not_staked() {
    let mut ledger = Ledger::new(program(), COLLATERAL);
    let mut ctx = Stake {
        staker: staker(),
        mint: mint(),
        stake_info: id(40),
        staker_token_account: Wallet::new(staker(), mint(), 10),
    };
    assert_eq!(stake(&mut ledger, &mut ctx, 10), Err(AppError::NotStaked));
    assert_eq!(ctx.staker_token_account.balance, 10);
    assert_eq!(ledger.position(&id(40)), None);
}

#[test]
fn stake_refusals_leave_everything_as_it_was() {
    let mut ledger = Ledger::new(program(), COLLATERAL);
    let key = initialize(&mut ledger, &Initialize { staker: staker(), mint: mint() }).unwrap();
    let idle = ledger.position(&key);
    let good = Stake {
        staker: staker(),
        mint: mint(),
        stake_info: key,
        staker_token_account: Wallet::new(staker(), mint(), 10),
    };

    let mut ctx = good;
    assert_eq!(stake(&mut ledger, &mut ctx, 0), Err(AppError::NoToken));
    assert_eq!(stake(&mut ledger, &mut ctx, 11), Err(AppError::InsufficientFunds));
    assert_eq!(ctx, good);

    let mut ctx = Stake { staker: id(9), ..good };
    assert_eq!(stake(&mut ledger, &mut ctx, 5), Err(AppError::Unauthorized));
    let mut ctx = Stake { mint: id(9), ..good };
    assert_eq!(stake(&mut ledger, &mut ctx, 5), Err(AppError::Unauthorized));
    let mut ctx = Stake { staker_token_account: Wallet::new(id(9), mint(), 10), ..good };
    assert_eq!(stake(&mut ledger, &mut ctx, 5), Err(AppError::Unauthorized));
    let mut ctx = Stake { staker_token_account: Wallet::new(staker(), id(9), 10), ..good };
    assert_eq!(stake(&mut ledger, &mut ctx, 5), Err(AppError::Unauthorized));
    assert_eq!(ctx.staker_token_account.balance, 10);

    assert_eq!(ledger.position(&key), idle);
}

#[test]
fn ledger_stake_on_top_is_refused_by_default() {
    let (mut ledger, key, wallet) = ledger_with_stake(1000, 1500);
    let before = ledger.position(&key);
    let mut ctx =
        Stake { staker: staker(), mint: mint(), stake_info: key, staker_token_account: wallet };
    assert_eq!(stake(&mut ledger, &mut ctx, 100), Err(AppError::IsStaked));
    assert_eq!(ctx.staker_token_account.balance, 500);
    assert_eq!(ledger.position(&key), before);
}

#[test]
fn stake_on_top_adds_up_where_allowed() {
    let mut ledger = Ledger::with_top_up(program(), COLLATERAL, true);
    let key = initialize(&mut ledger, &Initialize { staker: staker(), mint: mint() }).unwrap();
    let mut ctx = Stake {
        staker: staker(),
        mint: mint(),
        stake_info: key,
        staker_token_account: Wallet::new(staker(), mint(), 1500),
    };
    assert_eq!(stake(&mut ledger, &mut ctx, 1000), Ok(()));
    ledger.advance(6);
    assert_eq!(stake(&mut ledger, &mut ctx, 300), Ok(()));
    assert_eq!(ctx.staker_token_account.balance, 200);
    let position = ledger.position(&key).unwrap();
    assert_eq!((position.record.principal, position.record.checkpoint), (1300, 6));
    assert_eq!(position.vault.unwrap().balance, 1300);
    assert_eq!(position.vault.unwrap().collateral, COLLATERAL);
}

#[test]
fn ledger_stake_on_top_fails_where_the_principal_would_overflow() {
    let mut ledger = Ledger::with_top_up(program(), COLLATERAL, true);
    let key = initialize(&mut ledger, &Initialize { staker: staker(), mint: mint() }).unwrap();
    let mut ctx = Stake {
        staker: staker(),
        mint: mint(),
        stake_info: key,
        staker_token_account: Wallet::new(staker(), mint(), u64::MAX),
    };
    assert_eq!(stake(&mut ledger, &mut ctx, u64::MAX - 1), Ok(()));
    ctx.staker_token_account.balance = 10;
    assert_eq!(stake(&mut ledger, &mut ctx, 2), Err(AppError::ArithmeticOverflow));
    assert_eq!(ctx.staker_token_account.balance, 10);
    assert_eq!(ledger.position(&key).unwrap().record.principal, u64::MAX - 1);
}

#[test]
fn stake_a_thousand_unstake_all_after_ten_ticks() {
    let (mut ledger, key, wallet) = ledger_with_stake(1000, 1000);
    assert_eq!(wallet.balance, 0);
    ledger.advance(10);
    let mut ctx = request(key, funded_pool(5000), wallet);

    let receipt = unstake(&mut ledger, &mut ctx, 1000);
    assert_eq!(
        receipt,
        Ok(Receipt {
            reward: 100,
            principal: 1000,
            reclaimed: Some(COLLATERAL),
        })
    );
    // The staker receives 1100 in all; the reward pool pays the 100.
    assert_eq!(ctx.staker_token_account.balance, 1100);
    assert_eq!(ctx.reward_vault.balance, 4900);
    assert_eq!(ctx.staker_token_account.collateral, COLLATERAL);
    // The principal vault is closed and the record is gone.
    assert_eq!(ledger.position(&key), None);
}

#[test]
fn stake_a_thousand_unstake_in_two_parts() {
    let (mut ledger, key, wallet) = ledger_with_stake(1000, 1000);
    let mut ctx = request(key, funded_pool(5000), wallet);

    ledger.advance(5);
    let first = unstake(&mut ledger, &mut ctx, 400).unwrap();
    assert_eq!(first, Receipt { reward: 50, principal: 400, reclaimed: None });
    let position = ledger.position(&key).unwrap();
    assert_eq!((position.record.principal, position.record.checkpoint), (600, 5));
    assert!(position.record.staked);
    assert_eq!(position.vault.unwrap().balance, 600);
    assert_eq!(ctx.staker_token_account.balance, 450);
    assert_eq!(ctx.staker_token_account.collateral, 0);
    assert_eq!(ctx.reward_vault.balance, 4950);

    ledger.advance(8);
    let second = unstake(&mut ledger, &mut ctx, 600).unwrap();
    assert_eq!(
        second,
        Receipt {
            reward: 18,
            principal: 600,
            reclaimed: Some(COLLATERAL),
        }
    );
    assert_eq!(ledger.position(&key), None);

    assert_eq!(first.reward + second.reward, 68);
    assert_eq!(first.principal + second.principal, 1000);
    assert_eq!(ctx.staker_token_account.balance, 1068);
    assert_eq!(ctx.staker_token_account.collateral, COLLATERAL);
    assert_eq!(ctx.reward_vault.balance, 4932);
}

#[test]
fn unstake_again_at_the_same_tick_pays_no_reward_again() {
    let (mut ledger, key, wallet) = ledger_with_stake(1000, 1000);
    let mut ctx = request(key, funded_pool(5000), wallet);
    ledger.advance(5);
    assert_eq!(unstake(&mut ledger, &mut ctx, 400).unwrap().reward, 50);
    let again = unstake(&mut ledger, &mut ctx, 400).unwrap();
    assert_eq!(again, Receipt { reward: 0, principal: 400, reclaimed: None });
    assert_eq!(ctx.reward_vault.balance, 4950);
    assert_eq!(ctx.staker_token_account.balance, 850);
    assert_eq!(ledger.position(&key).unwrap().record.principal, 200);
}

#[test]
fn unstake_over_the_principal_changes_nothing() {
    let (mut ledger, key, wallet) = ledger_with_stake(1000, 1500);
    ledger.advance(10);
    let before = ledger.position(&key);
    let good = request(key, funded_pool(5000), wallet);
    let mut ctx = good;
    assert_eq!(unstake(&mut ledger, &mut ctx, 1001), Err(AppError::OverBalance));
    assert_eq!(unstake(&mut ledger, &mut ctx, u64::MAX), Err(AppError::OverBalance));
    assert_eq!(ctx, good);
    assert_eq!(ledger.position(&key), before);
}

#[test]
fn unstake_by_a_stranger_changes_nothing() {
    let (mut ledger, key, _) = ledger_with_stake(1000, 1500);
    ledger.advance(10);
    let before = ledger.position(&key);
    let stranger = id(9);
    let good = Unstake {
        staker: stranger,
        staker_token_account: Wallet::new(stranger, mint(), 7),
        ..request(key, funded_pool(5000), Wallet::new(stranger, mint(), 7))
    };
    let mut ctx = good;
    assert_eq!(unstake(&mut ledger, &mut ctx, 400), Err(AppError::Unauthorized));
    assert_eq!(unstake(&mut ledger, &mut ctx, 1001), Err(AppError::Unauthorized));
    assert_eq!(unstake(&mut ledger, &mut ctx, 0), Err(AppError::Unauthorized));
    assert_eq!(ctx, good);
    assert_eq!(ctx.reward_vault.balance, 5000);
    assert_eq!(ledger.position(&key), before);
}

#[test]
fn unstake_with_mismatched_names_is_unauthorized() {
    let (mut ledger, key, wallet) = ledger_with_stake(1000, 1500);
    let before = ledger.position(&key);
    let good = request(key, funded_pool(5000), wallet);

    let mut ctx = Unstake { mint: id(9), ..good };
    assert_eq!(unstake(&mut ledger, &mut ctx, 400), Err(AppError::Unauthorized));
    let mut ctx = Unstake { staker_token_account: Wallet::new(id(9), mint(), 0), ..good };
    assert_eq!(unstake(&mut ledger, &mut ctx, 400), Err(AppError::Unauthorized));
    let mut ctx = Unstake { staker_token_account: Wallet::new(staker(), id(9), 0), ..good };
    assert_eq!(unstake(&mut ledger, &mut ctx, 400), Err(AppError::Unauthorized));
    let mut ctx = Unstake { reward_vault: Vault { asset: id(9), ..good.reward_vault }, ..good };
    assert_eq!(unstake(&mut ledger, &mut ctx, 400), Err(AppError::Unauthorized));
    assert_eq!(ctx.reward_vault.balance, 5000);
    assert_eq!(ledger.position(&key), before);
}

#[test]
fn unstake_needs_the_reward_pools_own_proof() {
    let (mut ledger, key, wallet) = ledger_with_stake(1000, 1500);
    ledger.advance(10);
    let before = ledger.position(&key);
    let (pool, bump) = funded_pool(5000);

    // A bump that is not the pool's derives another authority, or none.
    let mut ctx = request(key, (pool, bump.wrapping_sub(1)), wallet);
    assert_eq!(unstake(&mut ledger, &mut ctx, 400), Err(AppError::Unauthorized));
    // A pool under some other authority is not opened by the asset's proof.
    let mut ctx = request(key, (Vault { authority: id(9), ..pool }, bump), wallet);
    assert_eq!(unstake(&mut ledger, &mut ctx, 400), Err(AppError::Unauthorized));
    assert_eq!(ctx.reward_vault.balance, 5000);
    assert_eq!(ctx.staker_token_account.balance, 500);
    assert_eq!(ledger.position(&key), before);

    // Where no reward is due the pool is not opened at all.
    let (mut fresh, key, wallet) = ledger_with_stake(1000, 1500);
    let mut ctx = request(key, (Vault { authority: id(9), ..pool }, bump), wallet);
    assert_eq!(
        unstake(&mut fresh, &mut ctx, 400),
        Ok(Receipt { reward: 0, principal: 400, reclaimed: None })
    );
    assert_eq!(ctx.reward_vault.balance, 5000);
    assert_eq!(ctx.staker_token_account.balance, 900);
}

#[test]
fn unstake_fails_where_the_pool_cannot_pay() {
    let (mut ledger, key, wallet) = ledger_with_stake(1000, 1500);
    ledger.advance(10);
    let before = ledger.position(&key);
    let good = request(key, funded_pool(99), wallet);
    let mut ctx = good;
    assert_eq!(unstake(&mut ledger, &mut ctx, 400), Err(AppError::InsufficientFunds));
    assert_eq!(ctx, good);
    assert_eq!(ledger.position(&key), before);

    let mut ctx = request(key, funded_pool(100), wallet);
    assert_eq!(unstake(&mut ledger, &mut ctx, 400).unwrap().reward, 100);
    assert_eq!(ctx.reward_vault.balance, 0);
}

#[test]
fn unstake_fails_where_the_wallet_would_overflow() {
    let (mut ledger, key, _) = ledger_with_stake(1000, 1500);
    ledger.advance(10);
    let before = ledger.position(&key);
    // Room for the reward of 100 but not for the principal on top of it.
    let good = request(key, funded_pool(5000), Wallet::new(staker(), mint(), u64::MAX - 499));
    let mut ctx = good;
    assert_eq!(unstake(&mut ledger, &mut ctx, 400), Err(AppError::ArithmeticOverflow));
    assert_eq!(ctx, good);
    assert_eq!(ledger.position(&key), before);
    // Not even room for the reward.
    let mut ctx = request(key, funded_pool(5000), Wallet::new(staker(), mint(), u64::MAX - 99));
    assert_eq!(unstake(&mut ledger, &mut ctx, 0), Err(AppError::ArithmeticOverflow));
    assert_eq!(ctx.reward_vault.balance, 5000);
    assert_eq!(ledger.position(&key), before);

    let mut ctx = request(key, funded_pool(5000), Wallet::new(staker(), mint(), u64::MAX - 500));
    assert_eq!(unstake(&mut ledger, &mut ctx, 400).unwrap().reward, 100);
    assert_eq!(ctx.staker_token_account.balance, u64::MAX);
}

#[test]
fn unstake_fails_where_the_collateral_would_overflow() {
    let (mut ledger, key, wallet) = ledger_with_stake(1000, 1000);
    ledger.advance(10);
    let before = ledger.position(&key);
    let full = Wallet { collateral: u64::MAX - COLLATERAL + 1, ..wallet };
    let good = request(key, funded_pool(5000), full);
    let mut ctx = good;
    assert_eq!(unstake(&mut ledger, &mut ctx, 1000), Err(AppError::ArithmeticOverflow));
    assert_eq!(ctx, good);
    assert_eq!(ledger.position(&key), before);
    // What does not retire the record releases no collateral.
    assert_eq!(unstake(&mut ledger, &mut ctx, 999).unwrap().reclaimed, None);
    assert_eq!(ctx.staker_token_account.collateral, u64::MAX - COLLATERAL + 1);
    ctx.staker_token_account.collateral -= 1;
    assert_eq!(unstake(&mut ledger, &mut ctx, 1).unwrap().reclaimed, Some(COLLATERAL));
    assert_eq!(ctx.staker_token_account.collateral, u64::MAX);
}

#[test]
fn ledger_unstake_fails_where_the_reward_overflows() {
    let principal = u64::MAX / 1000 + 1;
    let (mut ledger, key, wallet) = ledger_with_stake(principal, principal);
    let before = ledger.position(&key);
    let mut ctx = request(key, funded_pool(5000), wallet);
    assert_eq!(unstake(&mut ledger, &mut ctx, 1), Err(AppError::ArithmeticOverflow));
    assert_eq!(ctx.staker_token_account.balance, 0);
    assert_eq!(ledger.position(&key), before);
}

#[test]
fn unstake_of_an_idle_or_missing_record_is_not_staked() {
    let mut ledger = Ledger::new(program(), COLLATERAL);
    let wallet = Wallet::new(staker(), mint(), 0);
    let mut ctx = request(id(40), funded_pool(5000), wallet);
    assert_eq!(unstake(&mut ledger, &mut ctx, 0), Err(AppError::NotStaked));
    assert_eq!(unstake(&mut ledger, &mut ctx, 1), Err(AppError::NotStaked));

    let key = initialize(&mut ledger, &Initialize { staker: staker(), mint: mint() }).unwrap();
    let mut ctx = request(key, funded_pool(5000), wallet);
    assert_eq!(unstake(&mut ledger, &mut ctx, 0), Err(AppError::NotStaked));
    assert_eq!(unstake(&mut ledger, &mut ctx, 1), Err(AppError::NotStaked));
    assert_eq!(ctx.reward_vault.balance, 5000);
}

#[test]
fn drained_record_is_gone_for_good() {
    let (mut ledger, key, wallet) = ledger_with_stake(1000, 1000);
    ledger.advance(10);
    let mut ctx = request(key, funded_pool(5000), wallet);
    assert!(unstake(&mut ledger, &mut ctx, 1000).unwrap().reclaimed.is_some());
    assert_eq!(ledger.position(&key), None);

    let paid = ctx;
    assert_eq!(unstake(&mut ledger, &mut ctx, 1000), Err(AppError::NotStaked));
    assert_eq!(unstake(&mut ledger, &mut ctx, 0), Err(AppError::NotStaked));
    assert_eq!(ctx, paid);
    let mut again =
        Stake { staker: staker(), mint: mint(), stake_info: key, staker_token_account: paid.staker_token_account };
    assert_eq!(stake(&mut ledger, &mut again, 10), Err(AppError::NotStaked));

    // The key is free again: the staker may start over.
    assert_eq!(initialize(&mut ledger, &Initialize { staker: staker(), mint: mint() }), Ok(key));
    assert_eq!(stake(&mut ledger, &mut again, 10), Ok(()));
    assert_eq!(ledger.position(&key).unwrap().record.checkpoint, 10);
}

#[test]
fn records_do_not_touch_each_other() {
    let (mut ledger, key, wallet) = ledger_with_stake(1000, 1000);
    let other = initialize(&mut ledger, &Initialize { staker: id(9), mint: mint() }).unwrap();
    let mut theirs = Stake {
        staker: id(9),
        mint: mint(),
        stake_info: other,
        staker_token_account: Wallet::new(id(9), mint(), 70),
    };
    assert_eq!(stake(&mut ledger, &mut theirs, 70), Ok(()));
    let untouched = ledger.position(&other);

    ledger.advance(10);
    let mut ctx = request(key, funded_pool(5000), wallet);
    assert!(unstake(&mut ledger, &mut ctx, 1000).is_ok());
    assert_eq!(ledger.position(&other), untouched);

    // The staker of one record cannot reach into the other.
    let mut ctx = request(other, funded_pool(5000), ctx.staker_token_account);
    assert_eq!(unstake(&mut ledger, &mut ctx, 70), Err(AppError::Unauthorized));
    assert_eq!(ledger.position(&other), untouched);
}

#[test]
fn unstake_with_takes_the_authorities_it_is_given() {
    let mut ledger = Ledger::new(program(), COLLATERAL);
    let init = Initialize { staker: staker(), mint: mint() };
    assert_eq!(initialize_with(&mut ledger, &init, Some((id(40), 7))), Ok(id(40)));
    let mut staking = Stake {
        staker: staker(),
        mint: mint(),
        stake_info: id(40),
        staker_token_account: Wallet::new(staker(), mint(), 1000),
    };
    assert_eq!(stake(&mut ledger, &mut staking, 1000), Ok(()));
    ledger.advance(10);
    let before = ledger.position(&id(40));

    let mut pool = Vault::open(mint(), id(50), 0);
    pool.balance = 5000;
    let good = Unstake {
        staker: staker(),
        mint: mint(),
        stake_info: id(40),
        reward_vault: pool,
        reward_vault_bump: 0,
        staker_token_account: staking.staker_token_account,
    };
    let mut ctx = good;
    // The pool's authority is id(50), the vault's is the record's key.
    for (of_pool, of_record) in [
        (None, None),
        (Some(id(50)), None),
        (None, Some(id(40))),
        (Some(id(40)), Some(id(50))),
        (Some(id(50)), Some(id(41))),
        (Some(id(51)), Some(id(40))),
    ] {
        assert_eq!(
            unstake_with(&mut ledger, &mut ctx, 400, of_pool, of_record),
            Err(AppError::Unauthorized)
        );
        assert_eq!(ctx, good);
        assert_eq!(ledger.position(&id(40)), before);
    }
    assert_eq!(
        unstake_with(&mut ledger, &mut ctx, 400, Some(id(50)), Some(id(40))),
        Ok(Receipt { reward: 100, principal: 400, reclaimed: None })
    );
    assert_eq!(ctx.staker_token_account.balance, 500);
    assert_eq!(ctx.reward_vault.balance, 4900);
    assert_eq!(ledger.position(&id(40)).unwrap().vault.unwrap().balance, 600);
}

#[test]
fn units_are_neither_made_nor_lost() {
    let (mut ledger, key, wallet) = ledger_with_stake(1000, 1500);
    let in_vault = |ledger: &Ledger| {
        ledger.position(&key).and_then(|position| position.vault).map_or(0, |vault| vault.balance)
    };
    let mut ctx = request(key, funded_pool(5000), wallet);
    let total = 1500 + 5000;
    assert_eq!(in_vault(&ledger) + ctx.staker_token_account.balance + ctx.reward_vault.balance, total);

    for (tick, amount) in [(3u64, 250u64), (3, 1), (9, 700), (20, 49)] {
        ledger.advance(tick);
        assert!(unstake(&mut ledger, &mut ctx, amount).is_ok());
        assert_eq!(
            in_vault(&ledger) + ctx.staker_token_account.balance + ctx.reward_vault.balance,
            total
        );
    }
    assert_eq!(ledger.position(&key), None);
    // 3 * 10 + 0 * 7 + 6 * 7 + 11 * 0
    assert_eq!(ctx.reward_vault.balance, 5000 - 72);
    assert_eq!(ctx.staker_token_account.balance, 1500 + 72);
}
