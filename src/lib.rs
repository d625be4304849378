pub mod error;
pub mod math;
pub mod positions;
pub mod claims;
pub mod ledger;
pub mod valuation;
pub mod shortfall;
pub mod address;
pub mod vault;
pub mod withdraw;
pub mod operations;
pub mod laws;
pub mod msg;
