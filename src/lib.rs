//! A client-side library that checks remote chain state against merkle and
//! sparse-merkle-tree commitments, reconciles a local note store with
//! verified deltas, screens consumable notes and coordinates transactions.
pub mod coordinator;
pub mod digest;
pub mod errors;
pub mod merkle;
pub mod screener;
pub mod smt;
pub mod store;
pub mod sync;
pub mod transaction;
