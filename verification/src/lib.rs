//! USB host driver logic for the RP2040 and RP235x controllers.

pub mod arbiter;
pub mod bits;
pub mod channel;
pub mod decisions;
pub mod effects;
pub mod epx;
pub mod epx_transaction;
pub mod host;
pub mod interrupt_pipes;
pub mod interrupt_transfer;
pub mod irq;
pub mod laws;
pub mod layout;
pub mod regs;
pub mod transaction;
pub mod transfer;
pub mod types;
pub mod uid;
