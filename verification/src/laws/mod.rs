//! What the library is for, said of all inputs.
//!
//! Each law relates what goes into an operation to what comes out of it. Addresses, ports, flags,
//! numbers of seconds and limits are written out, so that a law can be read without the
//! definitions that the contracts use.

pub mod flows;
pub mod outbound;
pub mod inbound;
pub mod leases;
pub mod rules;
pub mod tracking;
pub mod control;
pub mod policies;
pub mod requests;
pub mod setup;
pub mod texts;
pub mod views;
