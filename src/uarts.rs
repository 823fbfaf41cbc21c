//! The capability that a UART driver offers to the console and the decoder.
use vstd::prelude::*;

verus! {

/// `nb::Error`: `WouldBlock` while the peripheral is not ready, `Other` for
/// a fault. Its variants are read as the crate declares them.
#[verifier::external_type_specification]
#[verifier::reject_recursive_types(E)]
pub struct ExNbError<E>(nb::Error<E>);

/// A fault that the receiver reported for a byte.
#[derive(Clone, Copy, Debug, PartialEq, Eq, Structural)]
pub enum LineError {
    Framing,
    Noise,
    Overrun,
    Parity,
}

/// What a byte read or a byte write on a UART gives back.
pub type LineResult<T> = Result<T, nb::Error<LineError>>;

/// Status and byte access of one UART. The flags are read from hardware, so
/// two reads may differ: nothing is promised of any result.
pub trait SerialRW {
    /// The line has been idle since the last byte.
    fn is_idle(&self) -> bool;

    /// The transmitter takes a byte.
    fn is_txe(&self) -> bool;

    /// A received byte is waiting.
    fn is_rxne(&self) -> bool;

    /// Takes the received byte.
    fn read(&mut self) -> LineResult<u8>;

    /// Hands a byte to the transmitter.
    fn write(&mut self, word: u8) -> LineResult<()>;
}

} // verus!
