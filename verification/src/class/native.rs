//! The built-in native methods, by their numbers in the host's table.
//!
//! A native method has no bytecode. When one is invoked the machine hands
//! its number and its frame of locals to the host, which carries it out.

use vstd::prelude::*;

verus! {

/// `java/lang/System.currentTimeMillis()J`: the milliseconds since the Unix
/// epoch, as a long.
pub const CURRENT_TIME_MILLIS: usize = 0;

/// `java/lang/Math.sqrt(D)D`: the square root of the double in local slot 0.
pub const SQRT: usize = 1;

} // verus!
