//! The parts of a reconstructed hardware specification that the solver and
//! the tension metric read: functional blocks with their kind, address range,
//! registers, timing presence and DMA needs.

use vstd::prelude::*;

verus! {

/// What a functional block does.
#[derive(Debug, Clone, Copy, PartialEq, Eq, Structural)]
pub enum BlockKind {
    Gpu,
    Dma,
    Audio,
    Spi,
    I2c,
    Uart,
    Usb,
    Timer,
    InterruptController,
    Ethernet,
    MemoryController,
    Unknown,
}

/// How software may access a register.
#[derive(Debug, Clone, Copy, PartialEq, Eq, Structural)]
pub enum AccessType {
    Read,
    Write,
    ReadWrite,
}

/// A register of a block, by its offset from the block's base address.
#[derive(Debug, Clone, Copy, PartialEq, Eq, Structural)]
pub struct Register {
    pub offset: u32,
    pub access: AccessType,
}

/// Whether a block needs DMA.
#[derive(Debug, Clone, Copy, PartialEq, Eq, Structural)]
pub struct DmaRequirement {
    pub required: bool,
}

/// A functional block of the hardware specification.
#[derive(Debug)]
pub struct FunctionalBlock {
    pub id: String,
    pub kind: BlockKind,
    pub base_address: u64,
    pub size: u64,
    pub registers: Vec<Register>,
    /// Whether the block's timing profile gives an activation or a processing latency.
    pub has_timing: bool,
    pub dma: Option<DmaRequirement>,
}

/// Whether a register can be written.
pub open spec fn is_writable(r: Register) -> bool {
    r.access == AccessType::Write || r.access == AccessType::ReadWrite
}

} // verus!
