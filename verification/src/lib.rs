//! A verified greeting-counter program.
//!
//! The library stores a 32-bit counter in an account's raw byte buffer as a
//! fixed four-byte little-endian encoding and increments it on every
//! invocation, after checking that the account is owned by the executing
//! program. Every function here carries a contract that pins down exactly
//! which result it returns and how the account buffer changes.

pub mod account;
pub mod error;
pub mod process;
pub mod state;

pub use crate::account::Account;
pub use crate::account::Identity;
pub use crate::error::ProgramError;
pub use crate::process::process_instruction;
pub use crate::state::GreetingAccount;
