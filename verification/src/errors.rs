use vstd::prelude::*;

verus! {

/// Why a staking operation was refused. Every error is terminal for the call
/// that raised it: the state the call was given is left as it was.
#[derive(Clone, Copy, Debug, PartialEq, Eq, Structural)]
pub enum AppError {
    /// A stake record already exists under the key.
    AlreadyInitialized,
    /// The record named by the request holds no stake, or does not exist.
    NotStaked,
    /// The amount to withdraw exceeds the staked principal.
    OverBalance,
    /// The caller is not the record's staker, or an authority proof does not
    /// derive the authority recorded for a vault.
    Unauthorized,
    /// A stake of zero units was requested.
    NoToken,
    /// The paying side of a transfer holds less than the amount.
    InsufficientFunds,
    /// A step of the reward computation, or a balance, would leave `u64`.
    ArithmeticOverflow,
    /// The record already holds a stake and topping up is switched off.
    IsStaked,
}

impl AppError {
    /// The text shown to a user for this error.
    pub fn message(&self) -> (text: &'static str)
        ensures
            text@ == match *self {
                AppError::AlreadyInitialized => "Stake record is already initialized"@,
                AppError::NotStaked => "Tokens are not staked"@,
                AppError::OverBalance => "Over vault balance"@,
                AppError::Unauthorized => "Vault owner mismatch"@,
                AppError::NoToken => "No tokens to stake"@,
                AppError::InsufficientFunds => "Insufficient funds"@,
                AppError::ArithmeticOverflow => "Arithmetic overflow"@,
                AppError::IsStaked => "Tokens are already staked"@,
            },
    {
        match self {
            AppError::AlreadyInitialized => "Stake record is already initialized",
            AppError::NotStaked => "Tokens are not staked",
            AppError::OverBalance => "Over vault balance",
            AppError::Unauthorized => "Vault owner mismatch",
            AppError::NoToken => "No tokens to stake",
            AppError::InsufficientFunds => "Insufficient funds",
            AppError::ArithmeticOverflow => "Arithmetic overflow",
            AppError::IsStaked => "Tokens are already staked",
        }
    }
}

} // verus!
