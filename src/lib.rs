//! A points-and-rewards ledger for an on-chain program: a fixed-layout
//! record of accrued points, the instruction set that changes it, and the
//! per-invocation decision procedure that validates accounts and plans the
//! writes and cross-program calls the host must carry out.

pub mod record;
pub mod host;
pub mod instruction;
pub mod processor;
