//! Accounting core of a custodial health-aid wallet: an owner deposits a
//! stable asset, earmarks parts of it into funds, places idle balance in a
//! yield vault, and pays only destinations that an allow-list approves. Every
//! change is recorded in an append-only, sequentially numbered ledger.

pub mod key_order;
pub mod types;
pub mod ledger;
pub mod funds;
pub mod model;
pub mod wallet;
pub mod vault;
pub mod currency;
pub mod registry;
pub mod laws;
