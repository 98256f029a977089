pub mod contract;
pub mod error;
pub mod ledger;
pub mod msg;
pub mod state;
