//! A ledger of money transfers sent by migrant workers abroad to their families at
//! home: a transfer is sent, then claimed by its recipient or cancelled by its sender.

pub mod contract;
pub mod laws;
pub mod model;
pub mod record;

pub use contract::RemittanceContract;
pub use model::{CancelOutcome, ClaimOutcome};
pub use record::{RemittanceRecord, TransferStatus};
