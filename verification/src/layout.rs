//! Dual-port RAM layout and pipe numbering.
//!
//! The controller shares 4 KiB of RAM with the processor. A control area comes first, then one
//! fixed block per dedicated interrupt pipe, then the blocks that are handed out to the pipes
//! that take turns on the shared endpoint, EPX.

use vstd::prelude::*;

verus! {

/// Number of hardware endpoints. Endpoint zero is EPX, the others poll interrupt pipes.
pub const EP_COUNT: usize = 16;

/// Bytes of dual-port RAM.
pub const EP_MEMORY_SIZE: usize = 4096;

/// First byte after the control area.
pub const DPRAM_DATA_OFFSET: u16 = 0x180;

/// Granularity of buffer memory.
pub const EPX_BLOCK_SIZE: usize = 64;

/// First EPX buffer after the interrupt buffers.
pub const EPX_BUFFER_OFFSET: u16 = DPRAM_DATA_OFFSET + ((EP_COUNT - 1) * EPX_BLOCK_SIZE) as u16;

/// Number of allocatable EPX blocks.
pub const EPX_NUM_BLOCKS: usize = (EP_MEMORY_SIZE - EPX_BUFFER_OFFSET as usize) / EPX_BLOCK_SIZE;

/// Maximum number of concurrently allocated EPX pipes.
pub const EPX_MAX_PIPES: usize = 16;

/// The two buffer areas fill the RAM behind the control area, the interrupt blocks below the
/// EPX blocks, and a 64-bit map can name every EPX block.
pub proof fn layout_areas()
    ensures
        EPX_BUFFER_OFFSET == DPRAM_DATA_OFFSET + (EP_COUNT - 1) * EPX_BLOCK_SIZE,
        EPX_BUFFER_OFFSET + EPX_NUM_BLOCKS * EPX_BLOCK_SIZE == EP_MEMORY_SIZE,
        0 < EPX_NUM_BLOCKS < 64,
{
}

} // verus!
