use crate::authority::{bytes_of, create_program_address, program_address, AuthorityProof};
use crate::errors::AppError;
use crate::identity::{blank_bytes, lemma_identity_by_bytes, Identity};
use vstd::prelude::*;

verus! {

/// A party's own holdings, outside custody: a balance of one asset, and the
/// collateral that came back to the party from storage that was closed.
#[derive(Clone, Copy, Debug, PartialEq, Eq)]
pub struct Wallet {
    pub owner: Identity,
    pub asset: Identity,
    pub balance: u64,
    pub collateral: u64,
}

/// A custodial balance of one asset. Funds leave it only for a holder who
/// proves its authority.
#[derive(Clone, Copy, Debug, PartialEq, Eq)]
pub struct Vault {
    pub asset: Identity,
    pub authority: Identity,
    pub balance: u64,
    /// What was put down for the vault's storage, returned when it is retired.
    pub collateral: u64,
    /// Set once, by `retire`: the vault is closed for good.
    pub retired: bool,
}

impl Wallet {
    /// A wallet of `owner` that holds `balance` units of `asset` and no
    /// collateral.
    pub fn new(owner: Identity, asset: Identity, balance: u64) -> (wallet: Wallet)
        ensures
            wallet == (Wallet { owner, asset, balance, collateral: 0 }),
    {
        Wallet { owner, asset, balance, collateral: 0 }
    }
}

impl Vault {
    /// An empty, open vault of `asset` under `authority`.
    pub fn open(asset: Identity, authority: Identity, collateral: u64) -> (vault: Vault)
        ensures
            vault == (Vault { asset, authority, balance: 0, collateral, retired: false }),
    {
        Vault { asset, authority, balance: 0, collateral, retired: false }
    }

    /// The storage of a retired vault: closed, and every field zeroed.
    pub open spec fn is_blank(&self) -> bool {
        &&& self.retired
        &&& self.balance == 0
        &&& self.collateral == 0
        &&& self.asset@ == blank_bytes()
        &&& self.authority@ == blank_bytes()
    }
}

/// What a deposit of `amount` from `from` into `vault` comes to: the vault and
/// the wallet after it, or the reason it is refused.
pub open spec fn deposit_outcome(vault: Vault, from: Wallet, amount: u64) -> Result<
    (Vault, Wallet),
    AppError,
> {
    if vault.retired || from.asset != vault.asset {
        Err(AppError::Unauthorized)
    } else if from.balance < amount {
        Err(AppError::InsufficientFunds)
    } else if vault.balance + amount > u64::MAX {
        Err(AppError::ArithmeticOverflow)
    } else {
        Ok(
            (
                Vault { balance: (vault.balance + amount) as u64, ..vault },
                Wallet { balance: (from.balance - amount) as u64, ..from },
            ),
        )
    }
}

/// What a withdrawal of `amount` from `vault` to `to` comes to, for a holder
/// whose proof derives `authority`.
pub open spec fn withdraw_outcome(
    vault: Vault,
    to: Wallet,
    amount: u64,
    authority: Option<Seq<u8>>,
) -> Result<(Vault, Wallet), AppError> {
    if vault.retired || authority != Some(vault.authority@) || to.asset != vault.asset {
        Err(AppError::Unauthorized)
    } else if vault.balance < amount {
        Err(AppError::InsufficientFunds)
    } else if to.balance + amount > u64::MAX {
        Err(AppError::ArithmeticOverflow)
    } else {
        Ok(
            (
                Vault { balance: (vault.balance - amount) as u64, ..vault },
                Wallet { balance: (to.balance + amount) as u64, ..to },
            ),
        )
    }
}

/// Moves `amount` from the wallet `from` into `vault`. Refused, with nothing
/// moved, where the vault is retired or holds another asset (`Unauthorized`),
/// where the wallet holds less than `amount` (`InsufficientFunds`), and where
/// the vault's balance would leave `u64` (`ArithmeticOverflow`).
pub fn deposit(vault: &mut Vault, from: &mut Wallet, amount: u64) -> (result: Result<(), AppError>)
    ensures
        match result {
            Ok(()) => deposit_outcome(*old(vault), *old(from), amount) == Ok::<
                (Vault, Wallet),
                AppError,
            >((*final(vault), *final(from))),
            Err(error) => {
                &&& deposit_outcome(*old(vault), *old(from), amount) == Err::<
                    (Vault, Wallet),
                    AppError,
                >(error)
                &&& *final(vault) == *old(vault)
                &&& *final(from) == *old(from)
            },
        },
{
    if vault.retired || !from.asset.same(&vault.asset) {
        return Err(AppError::Unauthorized);
    }
    if from.balance < amount {
        return Err(AppError::InsufficientFunds);
    }
    match vault.balance.checked_add(amount) {
        None => Err(AppError::ArithmeticOverflow),
        Some(balance) => {
            vault.balance = balance;
            from.balance = from.balance - amount;
            Ok(())
        },
    }
}

/// Moves `amount` out of `vault` to the wallet `to`, for a holder whose proof
/// derives `authority`. Refused, with nothing moved, where the vault is
/// retired, `authority` is not the vault's, or the wallet holds another asset
/// (`Unauthorized`), where the vault holds less than `amount`
/// (`InsufficientFunds`), and where the wallet's balance would leave `u64`
/// (`ArithmeticOverflow`).
pub fn withdraw_as(
    vault: &mut Vault,
    to: &mut Wallet,
    amount: u64,
    authority: Option<Identity>,
) -> (result: Result<(), AppError>)
    ensures
        match result {
            Ok(()) => withdraw_outcome(
                *old(vault),
                *old(to),
                amount,
                bytes_of(authority),
            ) == Ok::<(Vault, Wallet), AppError>((*final(vault), *final(to))),
            Err(error) => {
                &&& withdraw_outcome(
                    *old(vault),
                    *old(to),
                    amount,
                    bytes_of(authority),
                ) == Err::<(Vault, Wallet), AppError>(error)
                &&& *final(vault) == *old(vault)
                &&& *final(to) == *old(to)
            },
        },
{
    let proven = match authority {
        Some(authority) => {
            proof {
                lemma_identity_by_bytes(authority, vault.authority);
            }
            authority.same(&vault.authority)
        },
        None => false,
    };
    if vault.retired || !proven || !to.asset.same(&vault.asset) {
        return Err(AppError::Unauthorized);
    }
    if vault.balance < amount {
        return Err(AppError::InsufficientFunds);
    }
    match to.balance.checked_add(amount) {
        None => Err(AppError::ArithmeticOverflow),
        Some(balance) => {
            to.balance = balance;
            vault.balance = vault.balance - amount;
            Ok(())
        },
    }
}

/// Moves `amount` out of `vault` to the wallet `to`, for the holder of
/// `authority_proof`: the authority that the proof derives under `program`
/// must be the vault's. Otherwise as `withdraw_as`.
pub fn withdraw(
    vault: &mut Vault,
    to: &mut Wallet,
    amount: u64,
    authority_proof: &AuthorityProof,
    program: &Identity,
) -> (result: Result<(), AppError>)
    ensures
        match result {
            Ok(()) => withdraw_outcome(
                *old(vault),
                *old(to),
                amount,
                program_address(authority_proof@, program@),
            ) == Ok::<(Vault, Wallet), AppError>((*final(vault), *final(to))),
            Err(error) => {
                &&& withdraw_outcome(
                    *old(vault),
                    *old(to),
                    amount,
                    program_address(authority_proof@, program@),
                ) == Err::<(Vault, Wallet), AppError>(error)
                &&& *final(vault) == *old(vault)
                &&& *final(to) == *old(to)
            },
        },
{
    let authority = create_program_address(authority_proof, program);
    withdraw_as(vault, to, amount, authority)
}

/// What retiring `vault` comes to: the beneficiary's wallet after the
/// vault's collateral is released to it, or the reason it is refused.
pub open spec fn retire_outcome(vault: Vault, beneficiary: Wallet) -> Result<Wallet, AppError> {
    if vault.retired {
        Err(AppError::Unauthorized)
    } else if beneficiary.collateral + vault.collateral > u64::MAX {
        Err(AppError::ArithmeticOverflow)
    } else {
        Ok(Wallet { collateral: (beneficiary.collateral + vault.collateral) as u64, ..beneficiary })
    }
}

/// Closes an emptied vault for good: its collateral goes to the wallet
/// `beneficiary`, and its storage is zeroed, so that nothing can be read
/// from it or done with it again. Refused, with nothing changed, where the
/// vault is retired already (`Unauthorized`) and where the beneficiary's
/// collateral would leave `u64` (`ArithmeticOverflow`).
pub fn retire(vault: &mut Vault, beneficiary: &mut Wallet) -> (result: Result<(), AppError>)
    requires
        old(vault).balance == 0,
    ensures
        match result {
            Ok(()) => retire_outcome(*old(vault), *old(beneficiary)) == Ok::<Wallet, AppError>(
                *final(beneficiary),
            ) && final(vault).is_blank(),
            Err(error) => {
                &&& retire_outcome(*old(vault), *old(beneficiary)) == Err::<Wallet, AppError>(
                    error,
                )
                &&& *final(vault) == *old(vault)
                &&& *final(beneficiary) == *old(beneficiary)
            },
        },
{
    if vault.retired {
        return Err(AppError::Unauthorized);
    }
    match beneficiary.collateral.checked_add(vault.collateral) {
        None => Err(AppError::ArithmeticOverflow),
        Some(collateral) => {
            beneficiary.collateral = collateral;
            vault.asset = Identity::blank();
            vault.authority = Identity::blank();
            vault.balance = 0;
            vault.collateral = 0;
            vault.retired = true;
            Ok(())
        },
    }
}

} // verus!
