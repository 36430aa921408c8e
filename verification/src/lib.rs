//! A transaction benchmark for Starknet nodes: what to send, what to sign, when to poll, what to
//! keep on disk and what to report. Networking, files, clocks and floating point live in `app/`.
pub mod abigen;
pub mod benchmark;
pub mod duration;
pub mod felt;
pub mod prepare;
pub mod result;
pub mod setup;
pub mod tx;
