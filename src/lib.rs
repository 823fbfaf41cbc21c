//! Interrupt-side logic of an RC receiver and console firmware: an SBUS
//! frame decoder, an editable command line, and a serial console that queues
//! outgoing bytes.

pub mod sbus;
pub mod uarts;
pub mod command_buffer;
pub mod serialui;
