use rflibs::serialui::{SerialUi, TX_CAPACITY};
use rflibs::uarts::{LineError, LineResult, SerialRW};

struct FakeUart {
    txe: bool,
    rxne: bool,
    incoming: Vec<LineResult<u8>>,
    sent: Vec<u8>,
}

impl FakeUart {
    fn new(txe: bool) -> FakeUart {
        FakeUart { txe, rxne: false, incoming: Vec::new(), sent: Vec::new() }
    }
}

impl SerialRW for FakeUart {
    fn is_idle(&self) -> bool {
        false
    }
    fn is_txe(&self) -> bool {
        self.txe
    }
    fn is_rxne(&self) -> bool {
        self.rxne
    }
    fn read(&mut self) -> LineResult<u8> {
        if self.incoming.is_empty() {
            Err(nb::Error::WouldBlock)
        } else {
            self.incoming.remove(0)
        }
    }
    fn write(&mut self, word: u8) -> LineResult<()> {
        self.sent.push(word);
        Ok(())
    }
}

#[test]
fn write_goes_straight_out_when_ready() {
    let mut ui = SerialUi::init(FakeUart::new(true));
    assert!(ui.write(b'a').is_ok());
    assert_eq!(ui.uart.sent, vec![b'a']);
    assert_eq!(ui.pending_len(), 0);
}

#[test]
fn full_queue_blocks_and_keeps_contents() {
    let mut ui = SerialUi::init(FakeUart::new(false));
    for i in 0..TX_CAPACITY {
        assert!(ui.write(i as u8).is_ok());
    }
    assert_eq!(ui.pending_len(), TX_CAPACITY);
    assert!(matches!(ui.write(0xaa), Err(nb::Error::WouldBlock)));
    assert!(matches!(ui.queue_or_block(0xbb), Err(nb::Error::WouldBlock)));
    assert_eq!(ui.pending_len(), TX_CAPACITY);
    ui.uart.txe = true;
    for _ in 0..TX_CAPACITY {
        ui.on_event();
    }
    let expected: Vec<u8> = (0..TX_CAPACITY).map(|i| i as u8).collect();
    assert_eq!(ui.uart.sent, expected);
    assert_eq!(ui.pending_len(), 0);
}

#[test]
fn on_event_serves_receive_and_transmit_together() {
    let mut ui = SerialUi::init(FakeUart::new(false));
    assert!(ui.write(b'x').is_ok());
    assert!(ui.write(b'y').is_ok());
    ui.uart.txe = true;
    ui.uart.rxne = true;
    ui.uart.incoming.push(Ok(b'h'));
    ui.uart.incoming.push(Ok(b'i'));
    ui.on_event();
    assert_eq!(ui.content(), "h");
    assert_eq!(ui.uart.sent, vec![b'x']);
    ui.on_event();
    assert_eq!(ui.content(), "hi");
    assert_eq!(ui.uart.sent, vec![b'x', b'y']);
    ui.on_event();
    assert_eq!(ui.uart.sent, vec![b'x', b'y']);
    assert_eq!(ui.pending_len(), 0);
}

#[test]
fn read_faults_are_swallowed() {
    let mut ui = SerialUi::init(FakeUart::new(false));
    ui.uart.rxne = true;
    ui.uart.incoming.push(Ok(b'a'));
    ui.uart.incoming.push(Err(nb::Error::Other(LineError::Parity)));
    ui.uart.incoming.push(Ok(b'\x08'));
    ui.on_event();
    ui.on_event();
    assert_eq!(ui.content(), "a");
    ui.on_event();
    assert_eq!(ui.content(), "");
}

#[test]
fn received_bytes_edit_the_line() {
    let mut ui = SerialUi::init(FakeUart::new(false));
    ui.receive(Ok(b'a'));
    ui.receive(Ok(b'c'));
    ui.receive(Ok(0x02));
    ui.receive(Ok(b'b'));
    ui.receive(Ok(0xe9));
    ui.receive(Err(nb::Error::WouldBlock));
    assert_eq!(ui.content(), "abc");
    ui.process('\x05');
    ui.process('!');
    assert_eq!(ui.content(), "abc!");
}

#[test]
fn take_next_gives_oldest_byte() {
    let mut ui = SerialUi::init(FakeUart::new(false));
    assert_eq!(ui.take_next(), None);
    assert!(ui.write(b'p').is_ok());
    assert!(ui.write(b'q').is_ok());
    assert_eq!(ui.take_next(), Some(b'p'));
    assert_eq!(ui.pending_len(), 1);
    assert_eq!(ui.take_next(), Some(b'q'));
    assert_eq!(ui.take_next(), None);
    assert_eq!(ui.pending_len(), 0);
    assert!(ui.uart().sent.is_empty());
}

#[test]
fn on_event_sends_the_queued_byte_itself() {
    let mut ui = SerialUi::init(FakeUart::new(false));
    assert!(ui.write(0x5a).is_ok());
    ui.uart.txe = true;
    ui.on_event();
    assert_eq!(ui.uart().sent, vec![0x5a]);
}

#[test]
fn line_capacity_is_honoured() {
    let mut ui = SerialUi::with_line_capacity(FakeUart::new(false), 32);
    for _ in 0..40 {
        ui.process('x');
    }
    assert_eq!(ui.content().len(), 32);
    let mut wide = SerialUi::with_line_capacity(FakeUart::new(false), 1000);
    for _ in 0..200 {
        wide.process('y');
    }
    assert_eq!(wide.content().len(), rflibs::command_buffer::STORAGE);
}
