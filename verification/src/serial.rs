use vstd::prelude::*;
use vstd::string::StringSliceAdditionalSpecFns;

verus! {

/// The I/O port of the first serial line (COM1).
pub const COM1: u16 = 0x3F8;

/// The line status bit that says the transmit holding register is empty.
pub const LSR_TX_EMPTY: u8 = 0x20;

/// A 16550 UART at I/O port `base`; its registers are the six ports from
/// `base` on.
pub struct SerialPort {
    base: u16,
}

/// The bytes that go on the wire to show `data`: backspace and delete
/// become backspace, space, backspace (erasing the previous character);
/// any other byte goes as it is.
pub open spec fn wire_bytes(data: u8) -> Seq<u8> {
    if data == 8 || data == 0x7F {
        seq![8u8, 32u8, 8u8]
    } else {
        seq![data]
    }
}

/// The bytes that go on the wire to show `bytes`, one after the other.
pub open spec fn wire_stream(bytes: Seq<u8>) -> Seq<u8>
    decreases bytes.len(),
{
    if bytes.len() == 0 {
        Seq::empty()
    } else {
        wire_stream(bytes.drop_last()) + wire_bytes(bytes.last())
    }
}

/// Whether the line status `lsr` says a byte may be written.
pub open spec fn tx_empty(lsr: u8) -> bool {
    lsr & LSR_TX_EMPTY != 0
}

/// Tests `tx_empty`: the wait before each byte polls the line status
/// register until this holds.
pub fn transmitter_empty(lsr: u8) -> (r: bool)
    ensures
        r == tx_empty(lsr),
{
    lsr & LSR_TX_EMPTY != 0
}

/// The bytes to write for `data`, each after waiting for `transmitter_empty`.
pub fn send_bytes(data: u8) -> (r: Vec<u8>)
    ensures
        r@ == wire_bytes(data),
{
    let mut r: Vec<u8> = Vec::new();
    match data {
        8 | 0x7F => {
            r.push(8);
            r.push(0x20);
            r.push(8);
        },
        _ => {
            r.push(data);
        },
    }
    proof {
        assert(r@ =~= wire_bytes(data));
    }
    r
}

/// The bytes to write for the string `s`, in order.
pub fn encode_str(s: &str) -> (r: Vec<u8>)
    ensures
        r@ == wire_stream(s.spec_bytes()),
{
    let bytes = s.as_bytes();
    let mut r: Vec<u8> = Vec::new();
    let mut i: usize = 0;
    while i < bytes.len()
        invariant
            i <= bytes@.len(),
            bytes@ == s.spec_bytes(),
            r@ == wire_stream(bytes@.take(i as int)),
        decreases bytes.len() - i,
    {
        let mut one = send_bytes(bytes[i]);
        proof {
            assert(bytes@.take(i + 1).drop_last() =~= bytes@.take(i as int));
        }
        r.append(&mut one);
        i = i + 1;
    }
    proof {
        assert(bytes@.take(bytes@.len() as int) =~= bytes@);
    }
    r
}

/// Text without backspace (0x08) or delete (0x7F) goes on the wire as it
/// is; each backspace or delete goes as "back, space, back", which erases
/// the character before it on the terminal, so the wire carries two more
/// bytes for each.
pub proof fn law_plain_text_is_sent_unchanged(bytes: Seq<u8>)
    ensures
        (forall|i: int| 0 <= i < bytes.len() ==> bytes[i] != 8 && bytes[i] != 0x7F) ==> wire_stream(
            bytes,
        ) == bytes,
        bytes.len() > 0 && (bytes.last() == 8 || bytes.last() == 0x7F) ==> wire_stream(bytes)
            == wire_stream(bytes.drop_last()) + seq![8u8, 0x20u8, 8u8],
    decreases bytes.len(),
{
    if bytes.len() > 0 {
        let rest = bytes.drop_last();
        law_plain_text_is_sent_unchanged(rest);
        if forall|i: int| 0 <= i < bytes.len() ==> bytes[i] != 8 && bytes[i] != 0x7F {
            assert forall|i: int| 0 <= i < rest.len() implies rest[i] != 8 && rest[i] != 0x7F by {
                assert(rest[i] == bytes[i]);
            }
            assert(bytes.last() == bytes[bytes.len() - 1]);
            assert(rest.push(bytes.last()) =~= bytes);
            assert(wire_stream(bytes) =~= bytes);
        }
    }
}

/// Writing two strings one after the other sends what writing them joined
/// sends.
pub proof fn law_wire_stream_concat(a: Seq<u8>, b: Seq<u8>)
    ensures
        wire_stream(a + b) == wire_stream(a) + wire_stream(b),
    decreases b.len(),
{
    if b.len() == 0 {
        assert(a + b =~= a);
        assert(wire_stream(a) + wire_stream(b) =~= wire_stream(a));
    } else {
        assert((a + b).drop_last() =~= a + b.drop_last());
        assert((a + b).last() == b.last());
        law_wire_stream_concat(a, b.drop_last());
        assert(wire_stream(a) + wire_stream(b.drop_last()) + wire_bytes(b.last()) =~= wire_stream(a)
            + (wire_stream(b.drop_last()) + wire_bytes(b.last())));
    }
}

impl SerialPort {
    pub closed spec fn spec_base(&self) -> u16 {
        self.base
    }

    /// The UART at `port`.
    pub fn new(port: u16) -> (p: Self)
        requires
            port + 5 <= u16::MAX,
        ensures
            p.spec_base() == port,
    {
        SerialPort { base: port }
    }

    /// The register writes that set the line up, in order: interrupts off,
    /// divisor latch on, divisor 3 (38400 baud), 8 data bits without parity
    /// and one stop bit, FIFOs on and cleared at a 14-byte threshold,
    /// IRQs with RTS/DSR set, and receive interrupts on.
    pub fn init_sequence(&self) -> (w: Vec<(u16, u8)>)
        requires
            self.spec_base() + 5 <= u16::MAX,
        ensures
            w@ == seq![
                ((self.spec_base() + 1) as u16, 0x00u8),
                ((self.spec_base() + 3) as u16, 0x80u8),
                (self.spec_base(), 0x03u8),
                ((self.spec_base() + 1) as u16, 0x00u8),
                ((self.spec_base() + 3) as u16, 0x03u8),
                ((self.spec_base() + 2) as u16, 0xC7u8),
                ((self.spec_base() + 4) as u16, 0x0Bu8),
                ((self.spec_base() + 1) as u16, 0x01u8),
            ],
    {
        let data = self.base;
        let int_en = self.base + 1;
        let fifo_ctrl = self.base + 2;
        let line_ctrl = self.base + 3;
        let modem_ctrl = self.base + 4;
        let mut w: Vec<(u16, u8)> = Vec::new();
        w.push((int_en, 0x00));
        w.push((line_ctrl, 0x80));
        w.push((data, 0x03));
        w.push((int_en, 0x00));
        w.push((line_ctrl, 0x03));
        w.push((fifo_ctrl, 0xC7));
        w.push((modem_ctrl, 0x0B));
        w.push((int_en, 0x01));
        proof {
            assert(w@ =~= seq![
                ((self.spec_base() + 1) as u16, 0x00u8),
                ((self.spec_base() + 3) as u16, 0x80u8),
                (self.spec_base(), 0x03u8),
                ((self.spec_base() + 1) as u16, 0x00u8),
                ((self.spec_base() + 3) as u16, 0x03u8),
                ((self.spec_base() + 2) as u16, 0xC7u8),
                ((self.spec_base() + 4) as u16, 0x0Bu8),
                ((self.spec_base() + 1) as u16, 0x01u8),
            ]);
        }
        w
    }

    /// The data register.
    pub fn data_port(&self) -> (r: u16)
        ensures
            r == self.spec_base(),
    {
        self.base
    }

    /// The line status register.
    pub fn line_status_port(&self) -> (r: u16)
        requires
            self.spec_base() + 5 <= u16::MAX,
        ensures
            r == self.spec_base() + 5,
    {
        self.base + 5
    }
}

} // verus!
