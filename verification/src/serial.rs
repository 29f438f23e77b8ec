//! The 16550 UART used as the kernel's serial console.

use vstd::prelude::*;

verus! {

/// I/O port base of COM1.
pub const COM1_PORT: u16 = 0x3F8;

/// Divisor for 115200 baud.
pub const BAUD_DIVISOR_115200: u16 = 1;

pub const UART_DATA: u16 = 0;
pub const UART_INTERRUPT_ENABLE: u16 = 1;
pub const UART_FIFO_CONTROL: u16 = 2;
pub const UART_LINE_CONTROL: u16 = 3;
pub const UART_MODEM_CONTROL: u16 = 4;
pub const UART_LINE_STATUS: u16 = 5;

pub const LINE_STATUS_TRANSMIT_EMPTY: u8 = 0x20;
pub const DLAB_ENABLE: u8 = 0x80;
pub const WORD_LENGTH_8BIT: u8 = 0x03;
pub const FIFO_ENABLE_AND_CLEAR: u8 = 0xC7;
pub const DTR_RTS_OUT2: u8 = 0x0B;

/// A serial port.
#[derive(Clone, Copy, PartialEq, Eq)]
pub enum SerialPort {
    COM1,
}

impl SerialPort {
    /// The port's I/O base.
    pub fn base_port(self) -> (r: u16)
        ensures
            r == COM1_PORT,
    {
        match self {
            SerialPort::COM1 => COM1_PORT,
        }
    }

    /// The port writes, in order, that set the UART to 115200 baud, 8 data bits, FIFO on,
    /// with interrupts off.
    pub fn initialization_writes(self) -> (r: Vec<(u16, u8)>)
        ensures
            r@ == seq![
                ((COM1_PORT + UART_INTERRUPT_ENABLE) as u16, 0u8),
                ((COM1_PORT + UART_LINE_CONTROL) as u16, DLAB_ENABLE),
                ((COM1_PORT + UART_DATA) as u16, 1u8),
                ((COM1_PORT + UART_INTERRUPT_ENABLE) as u16, 0u8),
                ((COM1_PORT + UART_LINE_CONTROL) as u16, WORD_LENGTH_8BIT),
                ((COM1_PORT + UART_FIFO_CONTROL) as u16, FIFO_ENABLE_AND_CLEAR),
                ((COM1_PORT + UART_MODEM_CONTROL) as u16, DTR_RTS_OUT2),
            ],
    {
        let port = self.base_port();
        let mut w: Vec<(u16, u8)> = Vec::new();
        w.push((port + UART_INTERRUPT_ENABLE, 0x00));
        w.push((port + UART_LINE_CONTROL, DLAB_ENABLE));
        w.push((port + UART_DATA, BAUD_DIVISOR_115200 as u8));
        w.push((port + UART_INTERRUPT_ENABLE, (BAUD_DIVISOR_115200 >> 8u16) as u8));
        w.push((port + UART_LINE_CONTROL, WORD_LENGTH_8BIT));
        w.push((port + UART_FIFO_CONTROL, FIFO_ENABLE_AND_CLEAR));
        w.push((port + UART_MODEM_CONTROL, DTR_RTS_OUT2));
        proof {
            assert((1u16 >> 8u16) as u8 == 0u8) by (bit_vector);
        }
        assert(w@ =~= seq![
            ((COM1_PORT + UART_INTERRUPT_ENABLE) as u16, 0u8),
            ((COM1_PORT + UART_LINE_CONTROL) as u16, DLAB_ENABLE),
            ((COM1_PORT + UART_DATA) as u16, 1u8),
            ((COM1_PORT + UART_INTERRUPT_ENABLE) as u16, 0u8),
            ((COM1_PORT + UART_LINE_CONTROL) as u16, WORD_LENGTH_8BIT),
            ((COM1_PORT + UART_FIFO_CONTROL) as u16, FIFO_ENABLE_AND_CLEAR),
            ((COM1_PORT + UART_MODEM_CONTROL) as u16, DTR_RTS_OUT2),
        ]);
        w
    }
}

/// Whether a line-status value says the transmitter can take a byte.
pub fn transmit_ready(line_status: u8) -> (r: bool)
    ensures
        r == (line_status & LINE_STATUS_TRANSMIT_EMPTY != 0),
{
    line_status & LINE_STATUS_TRANSMIT_EMPTY != 0
}

/// The bytes sent for `s`: every line feed is preceded by a carriage return.
pub open spec fn crlf(s: Seq<u8>) -> Seq<u8>
    decreases s.len(),
{
    if s.len() == 0 {
        Seq::empty()
    } else {
        let last = s.last();
        crlf(s.drop_last()) + (if last == 10u8 { seq![13u8, 10u8] } else { seq![last] })
    }
}

/// The bytes written to the port for the text `s`.
pub fn serial_bytes(s: &[u8]) -> (r: Vec<u8>)
    ensures
        r@ == crlf(s@),
{
    let mut out: Vec<u8> = Vec::new();
    let mut i: usize = 0;
    while i < s.len()
        invariant
            i <= s@.len(),
            out@ == crlf(s@.take(i as int)),
        decreases s@.len() - i,
    {
        let b = s[i];
        if b == 10 {
            out.push(13);
        }
        out.push(b);
        proof {
            assert(s@.take(i + 1).drop_last() =~= s@.take(i as int));
        }
        i = i + 1;
    }
    assert(s@.take(s@.len() as int) =~= s@);
    out
}


/// Sending a text in two pieces sends the same bytes as sending it whole.
pub proof fn lemma_crlf_append(a: Seq<u8>, b: Seq<u8>)
    ensures
        crlf(a + b) == crlf(a) + crlf(b),
    decreases b.len(),
{
    if b.len() == 0 {
        assert(a + b =~= a);
        assert(crlf(a) + crlf(b) =~= crlf(a));
    } else {
        let b2 = b.drop_last();
        lemma_crlf_append(a, b2);
        assert((a + b).drop_last() =~= a + b2);
        assert((a + b).last() == b.last());
        let tail = if b.last() == 10u8 { seq![13u8, 10u8] } else { seq![b.last()] };
        assert(crlf(a) + crlf(b2) + tail =~= crlf(a) + (crlf(b2) + tail));
    }
}

/// Every byte other than a line feed is sent as it is; a line feed alone becomes a carriage
/// return and a line feed.
pub proof fn lemma_crlf_single(b: u8)
    ensures
        crlf(seq![b]) == (if b == 10u8 { seq![13u8, 10u8] } else { seq![b] }),
{
    assert(seq![b].drop_last() =~= Seq::<u8>::empty());
    assert(crlf(Seq::<u8>::empty()) + (if b == 10u8 { seq![13u8, 10u8] } else { seq![b] })
        =~= (if b == 10u8 { seq![13u8, 10u8] } else { seq![b] }));
}

} // verus!
