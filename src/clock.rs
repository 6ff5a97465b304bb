//! The wall clock that bounds a time slice.
use vstd::prelude::*;

verus! {

/// Relies on `time::precise_time_ns`: it reads a high-resolution performance
/// counter, in nanoseconds since an unspecified epoch. The value depends on
/// when it is read, so nothing is promised of it.
pub assume_specification[ time::precise_time_ns ]() -> u64;

} // verus!
