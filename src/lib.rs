//! Native core of an x86 CPU/MMU emulator: a sparse, lazily growing backing
//! store for guest memory, and a register file with the x86 page-table walker
//! that translates linear addresses into physical ones.

use vstd::prelude::*;

pub mod memory_accessor;
pub mod memory_stream;
pub mod laws;

pub use memory_accessor::{CpuState, MemoryAccessor};
pub use memory_stream::{MemoryStream, StoreModel};
