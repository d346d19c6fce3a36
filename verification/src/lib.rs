//! Custodial escrow vault core: deterministic authority derivation, vault
//! record lifecycle, token escrow accounting, and cross-program call
//! orchestration for a yield-routing protocol.

pub mod addr;
pub mod errors;
pub mod pda;
pub mod record;
pub mod ledger;
pub mod bridge;
pub mod laws;
