//! A serial console driven from one UART interrupt: received bytes edit a
//! command line, bytes to send go out at once or wait in a queue.
use vstd::prelude::*;
use crate::command_buffer::{LineView, State, STORAGE};
use crate::uarts::{LineError, LineResult, SerialRW};

verus! {

/// Slots of the outgoing queue; it holds one byte fewer.
pub const TX_SLOTS: usize = 33;

/// The most bytes that can wait to be sent.
pub const TX_CAPACITY: usize = 32;

/// `heapless::spsc::Queue`, a fixed-size first-in first-out queue.
#[verifier::external_type_specification]
#[verifier::external_body]
#[verifier::reject_recursive_types(T)]
pub struct ExSpscQueue<T, const N: usize>(heapless::spsc::Queue<T, N>);

/// The bytes waiting in an outgoing queue, oldest first.
pub uninterp spec fn queued(q: heapless::spsc::Queue<u8, TX_SLOTS>) -> Seq<u8>;

/// Relies on heapless::spsc::Queue::new: a new queue is empty.
#[verifier::external_body]
fn queue_new() -> (r: heapless::spsc::Queue<u8, TX_SLOTS>)
    ensures
        queued(r) == Seq::<u8>::empty(),
{
    heapless::spsc::Queue::new()
}

/// Relies on heapless::spsc::Queue::len: the number of waiting bytes, at
/// most one fewer than the slots.
#[verifier::external_body]
fn queue_len(q: &heapless::spsc::Queue<u8, TX_SLOTS>) -> (r: usize)
    ensures
        r == queued(*q).len(),
        r <= TX_CAPACITY,
{
    q.len()
}

/// Relies on heapless::spsc::Queue::enqueue: the byte joins the back unless
/// the queue holds one fewer than its slots, in which case it is handed back
/// and the queue is unchanged.
#[verifier::external_body]
fn queue_enqueue(q: &mut heapless::spsc::Queue<u8, TX_SLOTS>, b: u8) -> (r: bool)
    ensures
        r == (queued(*old(q)).len() < TX_CAPACITY),
        r ==> queued(*final(q)) == queued(*old(q)).push(b),
        !r ==> queued(*final(q)) == queued(*old(q)),
{
    q.enqueue(b).is_ok()
}

/// Relies on heapless::spsc::Queue::dequeue: the front byte is removed and
/// returned, or `None` when the queue is empty.
#[verifier::external_body]
fn queue_dequeue(q: &mut heapless::spsc::Queue<u8, TX_SLOTS>) -> (r: Option<u8>)
    ensures
        queued(*old(q)).len() == 0 ==> r is None && queued(*final(q)) == queued(*old(q)),
        queued(*old(q)).len() > 0 ==> r == Some(queued(*old(q))[0]) && queued(*final(q))
            == queued(*old(q)).drop_first(),
{
    q.dequeue()
}

/// A console on one UART: the command line being typed and the bytes
/// waiting to go out.
pub struct SerialUi<UART: SerialRW> {
    pub uart: UART,
    tx_q: heapless::spsc::Queue<u8, TX_SLOTS>,
    rx_buf: State,
}

impl<UART: SerialRW> SerialUi<UART> {
    /// The bytes waiting to be sent, oldest first.
    pub closed spec fn pending(&self) -> Seq<u8> {
        queued(self.tx_q)
    }

    /// The UART. (The struct keeps its queue and line private, so Verus
    /// holds its fields opaque outside this module: callers reach the UART
    /// through [`Self::uart`].)
    pub closed spec fn transceiver(&self) -> UART {
        self.uart
    }

    /// The command line.
    pub closed spec fn line(&self) -> LineView {
        self.rx_buf@
    }

    /// The console's invariant: that of its line.
    pub open spec fn wf(&self) -> bool {
        self.line().wf()
    }

    /// A console on `uart` with an empty line and nothing waiting.
    pub fn init(uart: UART) -> (r: SerialUi<UART>)
        ensures
            r.wf(),
            r.transceiver() == uart,
            r.line() == LineView::empty(STORAGE as int),
            r.pending() == Seq::<u8>::empty(),
    {
        SerialUi { uart, tx_q: queue_new(), rx_buf: State::init() }
    }

    /// A console on `uart` with an empty line of at most `line_capacity`
    /// bytes (at most [`STORAGE`]) and nothing waiting.
    pub fn with_line_capacity(uart: UART, line_capacity: usize) -> (r: SerialUi<UART>)
        ensures
            r.wf(),
            r.transceiver() == uart,
            r.line() == LineView::empty(
                if line_capacity < STORAGE { line_capacity as int } else { STORAGE as int },
            ),
            r.pending() == Seq::<u8>::empty(),
    {
        SerialUi { uart, tx_q: queue_new(), rx_buf: State::with_capacity(line_capacity) }
    }

    /// Queues `c` for a transmitter that is busy: `Ok` when the queue had
    /// room, `WouldBlock` with the queue unchanged when it was full.
    pub fn queue_or_block(&mut self, c: u8) -> (r: LineResult<()>)
        requires
            old(self).wf(),
        ensures
            final(self).wf(),
            final(self).transceiver() == old(self).transceiver(),
            final(self).line() == old(self).line(),
            old(self).pending().len() < TX_CAPACITY ==> r is Ok
                && final(self).pending() == old(self).pending().push(c),
            old(self).pending().len() >= TX_CAPACITY ==> r == Err::<(), nb::Error<LineError>>(nb::Error::WouldBlock)
                && final(self).pending() == old(self).pending(),
    {
        if queue_enqueue(&mut self.tx_q, c) {
            Ok(())
        } else {
            Err(nb::Error::WouldBlock)
        }
    }

    /// Sends `c`: straight to the UART when its transmitter is ready,
    /// otherwise into the queue; `WouldBlock` when the queue is full, in
    /// which case the caller keeps the byte and tries again.
    pub fn write(&mut self, c: u8) -> (r: LineResult<()>)
        requires
            old(self).wf(),
        ensures
            final(self).wf(),
            final(self).line() == old(self).line(),
            final(self).pending() == old(self).pending() || (r is Ok && old(self).pending().len()
                < TX_CAPACITY && final(self).pending() == old(self).pending().push(c)),
    {
        if self.uart.is_txe() {
            self.uart.write(c)
        } else {
            self.queue_or_block(c)
        }
    }

    /// Hands a received byte, or the fault in its place, to the line: a byte
    /// is applied as the character of its code, a fault is dropped.
    pub fn receive(&mut self, received: LineResult<u8>)
        requires
            old(self).wf(),
        ensures
            final(self).wf(),
            final(self).transceiver() == old(self).transceiver(),
            final(self).pending() == old(self).pending(),
            final(self).line() == match received {
                Ok(c) => old(self).line().apply(c as char),
                Err(_) => old(self).line(),
            },
    {
        match received {
            Ok(c) => self.rx_buf.process(c as char),
            Err(_) => {},
        }
    }

    /// Work for a received byte: read it and apply it to the line.
    fn on_rxne(&mut self)
        requires
            old(self).wf(),
        ensures
            final(self).wf(),
            final(self).pending() == old(self).pending(),
            final(self).line() == old(self).line() || exists|c: u8|
                final(self).line() == #[trigger] old(self).line().apply(c as char),
    {
        let received = self.uart.read();
        self.receive(received);
        proof {
            if let Ok(c) = received {
                assert(final(self).line() == old(self).line().apply(c as char));
            }
        }
    }

    /// Takes the oldest waiting byte out of the queue, or `None` when nothing
    /// waits.
    pub fn take_next(&mut self) -> (r: Option<u8>)
        requires
            old(self).wf(),
        ensures
            final(self).wf(),
            final(self).line() == old(self).line(),
            final(self).transceiver() == old(self).transceiver(),
            old(self).pending().len() == 0 ==> r is None
                && final(self).pending() == old(self).pending(),
            old(self).pending().len() > 0 ==> r == Some(old(self).pending()[0])
                && final(self).pending() == old(self).pending().drop_first(),
    {
        queue_dequeue(&mut self.tx_q)
    }

    /// Work for a ready transmitter: the oldest waiting byte, if any, leaves
    /// the queue and goes to the UART, as [`Self::take_next`] gives it. A
    /// fault on the line drops it.
    fn on_txe(&mut self)
        requires
            old(self).wf(),
        ensures
            final(self).wf(),
            final(self).line() == old(self).line(),
            old(self).pending().len() == 0 ==> final(self).pending() == old(self).pending(),
            old(self).pending().len() > 0 ==> final(self).pending() == old(self).pending().drop_first(),
    {
        match self.take_next() {
            Some(c) => {
                let _ = self.uart.write(c);
            },
            None => {},
        }
    }

    /// Serves one interrupt of the UART: a received byte goes to the line,
    /// and a ready transmitter takes the oldest waiting byte. Both can happen
    /// in one call.
    pub fn on_event(&mut self)
        requires
            old(self).wf(),
        ensures
            final(self).wf(),
            final(self).line() == old(self).line() || exists|c: u8|
                final(self).line() == #[trigger] old(self).line().apply(c as char),
            final(self).pending() == old(self).pending() || (old(self).pending().len() > 0
                && final(self).pending() == old(self).pending().drop_first()),
    {
        if self.uart.is_rxne() {
            self.on_rxne();
        }
        if self.uart.is_txe() {
            self.on_txe();
        }
    }

    /// Applies one character to the line, as a received byte would be.
    pub fn process(&mut self, c: char)
        requires
            old(self).wf(),
        ensures
            final(self).wf(),
            final(self).transceiver() == old(self).transceiver(),
            final(self).pending() == old(self).pending(),
            final(self).line() == old(self).line().apply(c),
    {
        self.rx_buf.process(c);
    }

    /// The text of the line.
    pub fn content(&self) -> (r: &str)
        requires
            self.wf(),
        ensures
            r@ == crate::command_buffer::ascii_chars(self.line().text),
    {
        self.rx_buf.content()
    }

    /// The UART.
    pub fn uart(&self) -> (r: &UART)
        ensures
            *r == self.transceiver(),
    {
        &self.uart
    }

    /// The number of bytes waiting to be sent.
    pub fn pending_len(&self) -> (r: usize)
        ensures
            r == self.pending().len(),
    {
        queue_len(&self.tx_q)
    }
}

} // verus!
