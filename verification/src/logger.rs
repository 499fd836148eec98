//! The serial console on COM1: how the port is set up, when a byte may be
//! sent, and which bytes a piece of text becomes.
use vstd::prelude::*;

verus! {

/// The I/O port of the first serial interface.
pub const COM1: u16 = 0x3F8;

/// The port that receives the bytes to send.
pub const COM1_DATA: u16 = 0x3F8;

/// The port that reports the line status.
pub const COM1_LINE_STATUS: u16 = 0x3FD;

/// The line-status bit that says the transmitter can take a byte.
pub const TRANSMIT_EMPTY: u8 = 0x20;

/// One byte written to an I/O port.
#[derive(Clone, Copy, Debug, PartialEq, Eq, Structural)]
pub struct PortWrite {
    pub port: u16,
    pub value: u8,
}

/// Logs to the serial console.
pub struct SerialLogger;

/// Writes text to the serial console.
pub struct SerialWriter;

/// The writes that set up COM1, in order: interrupts off, divisor latch on,
/// divisor 3 (38400 baud), 8 data bits with no parity and one stop bit,
/// FIFO on and cleared with a 14-byte threshold, and the modem lines.
pub open spec fn spec_init_sequence() -> Seq<PortWrite> {
    seq![
        PortWrite { port: 0x3F9, value: 0x00 },
        PortWrite { port: 0x3FB, value: 0x80 },
        PortWrite { port: 0x3F8, value: 0x03 },
        PortWrite { port: 0x3F9, value: 0x00 },
        PortWrite { port: 0x3FB, value: 0x03 },
        PortWrite { port: 0x3FA, value: 0xC7 },
        PortWrite { port: 0x3FC, value: 0x0B },
    ]
}

/// The bytes that reach the port for `text`: each line feed is sent twice.
pub open spec fn spec_serial_bytes(text: Seq<u8>) -> Seq<u8>
    decreases text.len(),
{
    if text.len() == 0 {
        seq![]
    } else {
        let prev = spec_serial_bytes(text.drop_last());
        if text.last() == 10u8 {
            prev + seq![10u8, 10u8]
        } else {
            prev.push(text.last())
        }
    }
}

impl SerialLogger {
    /// The port writes that set up COM1, in the order they are made.
    pub fn init_sequence() -> (r: Vec<PortWrite>)
        ensures
            r@ == spec_init_sequence(),
    {
        let mut writes: Vec<PortWrite> = Vec::new();
        writes.push(PortWrite { port: COM1 + 1, value: 0x00 });
        writes.push(PortWrite { port: COM1 + 3, value: 0x80 });
        writes.push(PortWrite { port: COM1 + 0, value: 0x03 });
        writes.push(PortWrite { port: COM1 + 1, value: 0x00 });
        writes.push(PortWrite { port: COM1 + 3, value: 0x03 });
        writes.push(PortWrite { port: COM1 + 2, value: 0xC7 });
        writes.push(PortWrite { port: COM1 + 4, value: 0x0B });
        assert(writes@ =~= spec_init_sequence());
        writes
    }

    /// A byte may be written to `COM1_DATA` once the line status read from
    /// `COM1_LINE_STATUS` has the transmit-empty bit set.
    pub fn transmit_ready(line_status: u8) -> (r: bool)
        ensures
            r == (line_status & TRANSMIT_EMPTY != 0),
    {
        line_status & TRANSMIT_EMPTY != 0
    }
}

impl SerialWriter {
    /// The bytes to send, one after another, for the bytes of `text`.
    pub fn serial_bytes(text: &[u8]) -> (r: Vec<u8>)
        ensures
            r@ == spec_serial_bytes(text@),
    {
        let mut out: Vec<u8> = Vec::new();
        let mut i: usize = 0;
        while i < text.len()
            invariant
                i <= text@.len(),
                out@ == spec_serial_bytes(text@.take(i as int)),
            decreases text@.len() - i,
        {
            let b = text[i];
            assert(text@.take(i as int + 1).drop_last() =~= text@.take(i as int));
            if b == 10u8 {
                out.push(10u8);
            }
            out.push(b);
            assert(out@ =~= spec_serial_bytes(text@.take(i as int + 1)));
            i = i + 1;
        }
        assert(text@.take(i as int) =~= text@);
        out
    }
}


/// The registers of a 16550 UART as port writes leave them: interrupt enable,
/// divisor latch (low and high byte), line control, FIFO control (the value last
/// written) and modem control.
pub ghost struct UartRegisters {
    pub ier: u8,
    pub dll: u8,
    pub dlm: u8,
    pub lcr: u8,
    pub fcr: u8,
    pub mcr: u8,
}

/// The divisor-latch access bit (bit 7 of the line control register) is set:
/// the two lowest ports then reach the divisor latch.
pub open spec fn divisor_latch_access(r: UartRegisters) -> bool {
    r.lcr >= 0x80
}

/// The registers after one write to a port of COM1. A write to the data port
/// with the divisor latch closed sends a byte and changes no register.
pub open spec fn apply_port_write(r: UartRegisters, w: PortWrite) -> UartRegisters {
    if w.port == COM1 {
        if divisor_latch_access(r) { UartRegisters { dll: w.value, ..r } } else { r }
    } else if w.port == COM1 + 1 {
        if divisor_latch_access(r) { UartRegisters { dlm: w.value, ..r } } else { UartRegisters { ier: w.value, ..r } }
    } else if w.port == COM1 + 2 {
        UartRegisters { fcr: w.value, ..r }
    } else if w.port == COM1 + 3 {
        UartRegisters { lcr: w.value, ..r }
    } else if w.port == COM1 + 4 {
        UartRegisters { mcr: w.value, ..r }
    } else {
        r
    }
}

/// The registers after the writes, in order.
pub open spec fn apply_port_writes(r: UartRegisters, ws: Seq<PortWrite>) -> UartRegisters
    decreases ws.len(),
{
    if ws.len() == 0 {
        r
    } else {
        apply_port_writes(apply_port_write(r, ws[0]), ws.drop_first())
    }
}

/// Starting with the divisor latch closed, setting COM1 up leaves interrupts
/// off, the divisor at 3, 8N1 line control, the FIFO control at `0xC7` and the
/// modem control at `0x0B`; setting it up a second time leaves it so.
pub proof fn lemma_init_sequence_idempotent(r: UartRegisters)
    requires
        !divisor_latch_access(r),
    ensures
        apply_port_writes(r, spec_init_sequence()) == (UartRegisters {
            ier: 0x00, dll: 0x03, dlm: 0x00, lcr: 0x03, fcr: 0xC7, mcr: 0x0B,
        }),
        apply_port_writes(apply_port_writes(r, spec_init_sequence()), spec_init_sequence())
            == apply_port_writes(r, spec_init_sequence()),
{
    assert(apply_port_writes(r, spec_init_sequence()) == (UartRegisters {
        ier: 0x00, dll: 0x03, dlm: 0x00, lcr: 0x03, fcr: 0xC7, mcr: 0x0B,
    })) by {
        reveal_with_fuel(apply_port_writes, 8);
    }
    let s = apply_port_writes(r, spec_init_sequence());
    assert(apply_port_writes(s, spec_init_sequence()) == s) by {
        reveal_with_fuel(apply_port_writes, 8);
    }
}

} // verus!
