//! Runs a long job on a remote job platform and folds its records into a
//! normalized export set and an updated state blob.
//!
//! The crate holds the decisions of one run: the state machine that submits,
//! polls and fetches ([`job`]), the field extractor ([`extraction`]) and the
//! state mapper ([`mapping_utils`]). Network calls, the clock and telemetry
//! belong to the caller, which performs the actions that the state machine
//! asks for.

pub mod actors;
pub mod client;
pub mod dto;
pub mod extraction;
pub mod job;
pub mod json;
pub mod keyed;
pub mod mapping_utils;
pub mod text;
pub mod web_utils;
