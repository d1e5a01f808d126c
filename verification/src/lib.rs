//! Rank-weighted decision engine for a decentralized organization.
//!
//! Three components build on one another:
//! - `membership`: a registry of ranked members with triangular vote weights,
//!   promotion/demotion rules and a cached total-weight sum;
//! - `governance`: a track-based proposal state machine with weighted voting
//!   and quorum evaluation;
//! - `escrow`: a mission/milestone escrow with strict sequential release and
//!   jury-based dispute resolution.
//!
//! All state transitions are pure functions of the stored state, the caller's
//! identity and the current time, which the host environment supplies with
//! each call.

pub mod escrow;
pub mod governance;
pub mod membership;
pub mod rank;
