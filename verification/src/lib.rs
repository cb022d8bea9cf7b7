//! On-ledger state management for a review-and-comment record store.
//!
//! Records live in fixed-capacity storage slots addressed by deterministic,
//! program-owned derived addresses. The library decides, for every incoming
//! operation, which slot it may touch, whether that slot exists and in what
//! state, and what binary layout is written back.
//!
//! - [`instructions`] parses an opaque command buffer into a typed operation;
//! - [`addr`] derives and verifies slot addresses from namespaces;
//! - [`state`] defines the record layouts, their sizing and serialization;
//! - [`processors`] is the lifecycle state machine over explicit slot values;
//! - [`bytes`] holds the byte-level codecs these build on;
//! - [`error`] names every way an operation can fail.

pub mod addr;
pub mod bytes;
pub mod error;
pub mod instructions;
pub mod processors;
pub mod state;
