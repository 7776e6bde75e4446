//! Fuzzing campaigns against a blockchain runtime: everything but the runtime and the database.
//!
//! - Inputs: [`input`] reads values out of the bytes of a fuzzer, [`calls`] and [`selection`] turn
//!   them into calls chosen by weight, [`blocks`] into several blocks of calls, and [`transfer`]
//!   into a single transfer.
//! - Execution: [`genesis`] and [`chain`] say what a chain and its blocks start with, [`execution`]
//!   what is to be done next with the runtime, [`invariants`] what must hold afterwards.
//! - Telemetry: [`records`] says what is kept of a campaign, [`kitchensink`] and [`solochain`]
//!   buffer it, [`setup`] and [`flush`] say what is to be done next with the database, [`store`]
//!   what becomes of the records in the end, and [`runlog`] writes the readable log.

pub mod accounts;
pub mod blocks;
pub mod calls;
pub mod chain;
pub mod execution;
pub mod flush;
pub mod genesis;
pub mod input;
pub mod invariants;
pub mod json;
pub mod kitchensink;
pub mod records;
pub mod runlog;
pub mod selection;
pub mod setup;
pub mod solochain;
pub mod store;
pub mod text;
pub mod transfer;
