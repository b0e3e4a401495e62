//! Block and transaction counting for a chain-notification stream, with
//! reorg- and revert-aware accounting and a monotone checkpoint policy.

pub mod model;
pub mod aggregate;
pub mod checkpoint;
pub mod exex;
pub mod laws;
