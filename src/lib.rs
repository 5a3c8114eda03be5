//! Decision logic for keeping a wallet's scanned view of a chain in step with
//! a remote chain-data service.
//!
//! - `range`: scan ranges and their priorities.
//! - `batch`: splitting a range into bounded batches, one at a time.
//! - `recovery`: the rewind target after a reorg, tip validation, and when a
//!   scan changed the wallet's suggestions materially.
//! - `orchestrator`: the state machine of one synchronisation pass, which
//!   names each action its caller performs and is told each outcome.
//! - `laws`: properties of a pass stated over the state machine.
pub mod batch;
pub mod laws;
pub mod orchestrator;
pub mod range;
pub mod recovery;
