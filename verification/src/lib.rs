//! Cross-chain message verification core.
//!
//! A message ledger admits cross-chain messages, stamps them with per-origin
//! nonces, and moves each message from `Pending` to a terminal `Verified` or
//! `Failed` state once a zero-knowledge proof for its canonical statement has
//! been checked against a registered verification key. The proof backend
//! itself runs outside this crate; the ledger consumes its outcome.

pub mod keys;
pub mod pallet;
pub mod store;
pub mod verification;

pub use keys::{KeyError, ProgramCacheEntry, VerificationKeyEntry};
pub use pallet::{ChainId, Config, Error, Event, Message, MessageStatus, Pallet};
pub use verification::{BackendFailure, VerificationContext, VerificationError,
    VerificationParams, VerificationResult};
