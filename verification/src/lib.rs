//! A time-weighted token escrow. A staker deposits units of an asset into a
//! custodial vault, earns a reward in proportion to the amount and to the
//! time it stays, and withdraws principal together with the reward earned
//! since the last checkpoint.
//!
//! - `reward`: the reward earned by a principal over a number of ticks.
//! - `record`: one stake record and what staking and unstaking do to it.
//! - `history`: what holds of a record over any sequence of requests.
//! - `vault`: wallets and custodial vaults; deposit, withdrawal, retirement.
//! - `authority`: the proofs by which a holder acts for a vault, and the
//!   identities that the program derives from them.
//! - `store`: the stake records, each under its derived identity.
//! - `machine`: the ledger and the operations `initialize`, `stake` and
//!   `unstake` on it.
//! - `laws`: what the operations guarantee, stated over their effects.
//! - `todo`: profiles and their todos.

pub mod authority;
pub mod errors;
pub mod history;
pub mod identity;
pub mod laws;
pub mod machine;
pub mod record;
pub mod reward;
pub mod store;
pub mod todo;
pub mod vault;

pub use errors::AppError;
pub use machine::{initialize, stake, unstake, Initialize, Stake, Unstake};
pub use todo::{
    createProfile, create_todo, delete_todo, toggle_todo, update_todo, CreateProfile, CreateTodo,
    DeleteTodo, ToggleTodo, UpdateTodo,
};
