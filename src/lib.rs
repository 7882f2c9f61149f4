//! Host telemetry agent core: decoders for the kernel's login records, mount
//! table and disk statistics, and the batching state machine that decides when
//! collected snapshots are shipped.

use vstd::prelude::*;

pub mod text;
pub mod filesys;
pub mod iostats;
pub mod sessions;
pub mod batcher;
pub mod plugins;
pub mod identity;

verus! {

} // verus!
