//! A minimal record store for signed "student introduction" records.
//!
//! Each record is owned by one signing identity and persisted at a storage
//! address derived deterministically from the owner's key and the record's
//! name.  The crate provides the fixed-layout record codec, the instruction
//! decoder, and the two instruction handlers (create and update) together
//! with their full functional contracts.

pub mod addr;
pub mod codec;
pub mod error;
pub mod instruction;
pub mod processor;
pub mod rent;
pub mod state;
