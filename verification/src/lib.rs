//! Brute-force search for integers whose SHA-256 digest ends in a requested
//! number of zero hex digits.
//!
//! The crate holds the search itself: the layout of a 256-bit value as four
//! words, the mask that selects trailing hex digits, the digest and its hex
//! text, the partition of the integers among workers, the scan of a batch,
//! the workers that report on a channel, and the coordinator that collects
//! what they report. Threads and printing are left to the caller.
pub mod channel;
pub mod coordinator;
pub mod digest;
pub mod error;
pub mod layout;
pub mod mask;
pub mod partition;
pub mod text;
pub mod worker;
