//! Contracts with persistent storage and entrypoint dispatch: a counter, a
//! single-value store, and a counter whose starting value is set once by a
//! constructor. Values are 256-bit words; every failed invocation leaves
//! storage unchanged.
use vstd::prelude::*;

pub mod counter;
pub mod dispatch;
pub mod init_counter;
pub mod slot;
pub mod storage;
pub mod word;

verus! {

} // verus!
