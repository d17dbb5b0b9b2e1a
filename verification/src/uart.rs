//! The PL011 UART: its registers, the line settings programmed at start-up,
//! the status-flag tests of the polling loops, and the outgoing byte stream
//! of the console.
use vstd::prelude::*;
use crate::mmio::RegWrite;
use vstd::string::StringSliceAdditionalSpecFns;
use crate::text::{hex_text, dec_digits, hex_byte_text, push_hex, push_dec_digits, push_hex_byte};

verus! {

/// Data register.
pub const UART0_DR: usize = 0x3F20_1000;
/// Flag register.
pub const UART0_FR: usize = 0x3F20_1018;
/// Integer baud-rate divisor.
pub const UART0_IBRD: usize = 0x3F20_1024;
/// Fractional baud-rate divisor.
pub const UART0_FBRD: usize = 0x3F20_1028;
/// Line control register.
pub const UART0_LCRH: usize = 0x3F20_102C;
/// Control register.
pub const UART0_CR: usize = 0x3F20_1030;

/// Reference clock of the UART, in Hz.
pub const UART_CLOCK_HZ: u32 = 48_000_000;
/// Line speed, in baud.
pub const UART_BAUD: u32 = 115_200;
/// Flag register bit: transmit FIFO full.
pub const UART_FR_TXFF: u32 = 0x20;
/// Flag register bit: receive FIFO empty.
pub const UART_FR_RXFE: u32 = 0x10;
/// Line control: 8 data bits, no parity, one stop bit.
pub const UART_LCRH_8N1: u32 = 0x60;
/// Control: UART, transmitter and receiver enabled.
pub const UART_CR_ENABLE: u32 = 0x301;

/// Integer part of the baud-rate divisor `clock / (16 * baud)`, as the
/// 16-bit IBRD field holds it.
pub open spec fn ibrd_value(clock: nat, baud: nat) -> nat {
    (clock / (16 * baud)) % 0x10000
}

/// Fractional part of the baud-rate divisor in 64ths, rounded to nearest.
pub open spec fn fbrd_value(clock: nat, baud: nat) -> nat {
    ((clock % (16 * baud)) * 64 + baud / 2) / baud
}

/// The register writes that bring the UART up: disable it, program the
/// divisors for `UART_BAUD` at `UART_CLOCK_HZ`, select 8N1, enable it.
pub open spec fn uart_init_writes() -> Seq<RegWrite> {
    seq![
        RegWrite { addr: UART0_CR, value: 0 },
        RegWrite { addr: UART0_IBRD, value: ibrd_value(UART_CLOCK_HZ as nat, UART_BAUD as nat) as u32 },
        RegWrite { addr: UART0_FBRD, value: fbrd_value(UART_CLOCK_HZ as nat, UART_BAUD as nat) as u32 },
        RegWrite { addr: UART0_LCRH, value: UART_LCRH_8N1 },
        RegWrite { addr: UART0_CR, value: UART_CR_ENABLE },
    ]
}

/// The sequence of register writes of the UART initialisation, in order.
pub fn uart_init() -> (w: Vec<RegWrite>)
    ensures
        w@ == uart_init_writes(),
{
    let baud_div: u32 = UART_CLOCK_HZ / (16 * UART_BAUD);
    let frac: u32 = ((UART_CLOCK_HZ % (16 * UART_BAUD)) * 64 + UART_BAUD / 2) / UART_BAUD;
    let mut w: Vec<RegWrite> = Vec::new();
    w.push(RegWrite { addr: UART0_CR, value: 0 });
    w.push(RegWrite { addr: UART0_IBRD, value: baud_div & 0xFFFF });
    w.push(RegWrite { addr: UART0_FBRD, value: frac });
    w.push(RegWrite { addr: UART0_LCRH, value: UART_LCRH_8N1 });
    w.push(RegWrite { addr: UART0_CR, value: UART_CR_ENABLE });
    proof {
        assert(baud_div & 0xFFFF == baud_div % 0x10000) by (bit_vector);
    }
    w
}

/// Whether the transmitter accepts a byte, given the flag register.
pub fn uart_tx_ready(fr: u32) -> (r: bool)
    ensures
        r == (fr & UART_FR_TXFF == 0),
{
    fr & UART_FR_TXFF == 0
}

/// Whether a received byte is waiting, given the flag register.
pub fn uart_rx_ready(fr: u32) -> (r: bool)
    ensures
        r == (fr & UART_FR_RXFE == 0),
{
    fr & UART_FR_RXFE == 0
}

/// The received byte held in a value read from the data register: its low
/// eight bits.
pub fn uart_receive(dr: u32) -> (c: u8)
    ensures
        c == dr % 256,
{
    proof {
        assert(dr as u8 == dr % 256) by (bit_vector);
    }
    dr as u8
}

/// The console output: bytes queued for transmission, in order, until the
/// caller hands them to the transmitter.
pub struct Uart {
    tx: Vec<u8>,
}

impl View for Uart {
    type V = Seq<u8>;

    closed spec fn view(&self) -> Seq<u8> {
        self.tx@
    }
}

impl Uart {
    /// A console with nothing queued.
    pub fn new() -> (u: Uart)
        ensures
            u@ == Seq::<u8>::empty(),
    {
        Uart { tx: Vec::new() }
    }

    /// The queued bytes, in order.
    pub fn pending(&self) -> (s: &[u8])
        ensures
            s@ == self@,
    {
        self.tx.as_slice()
    }

    /// Removes and returns all queued bytes.
    pub fn take_pending(&mut self) -> (s: Vec<u8>)
        ensures
            s@ == old(self)@,
            final(self)@ == Seq::<u8>::empty(),
    {
        let mut s: Vec<u8> = Vec::new();
        std::mem::swap(&mut s, &mut self.tx);
        s
    }

    /// Queues the bytes of `s`.
    pub fn write_bytes(&mut self, s: &[u8])
        ensures
            final(self)@ == old(self)@ + s@,
    {
        let mut i: usize = 0;
        while i < s.len()
            invariant
                i <= s.len(),
                self@ == old(self)@ + s@.subrange(0, i as int),
            decreases s.len() - i,
        {
            self.tx.push(s[i]);
            i += 1;
            proof {
                assert(s@.subrange(0, i as int) == s@.subrange(0, i - 1).push(s@[i - 1]));
            }
        }
        proof {
            assert(s@.subrange(0, s@.len() as int) == s@);
        }
    }

    /// Queues the UTF-8 bytes of `s`.
    pub fn write_str(&mut self, s: &str)
        ensures
            final(self)@ == old(self)@ + s.spec_bytes(),
    {
        self.write_bytes(s.as_bytes());
    }

    /// Queues `n` as `{:#x}` prints it.
    pub fn write_hex(&mut self, n: u64)
        ensures
            final(self)@ == old(self)@ + hex_text(n as nat),
    {
        push_hex(&mut self.tx, n);
    }

    /// Queues `b` as `{:02x}` prints it.
    pub fn write_hex_byte(&mut self, b: u8)
        ensures
            final(self)@ == old(self)@ + hex_byte_text(b),
    {
        push_hex_byte(&mut self.tx, b);
    }

    /// Queues `n` as `{}` prints it.
    pub fn write_dec(&mut self, n: u64)
        ensures
            final(self)@ == old(self)@ + dec_digits(n as nat),
    {
        push_dec_digits(&mut self.tx, n);
    }
}

/// Sends one byte to the console.
pub fn uart_send(uart: &mut Uart, c: u8)
    ensures
        final(uart)@ == old(uart)@.push(c),
{
    uart.tx.push(c);
}

/// Sends the bytes of `s`, in order, to the console.
pub fn uart_send_string(uart: &mut Uart, s: &[u8])
    ensures
        final(uart)@ == old(uart)@ + s@,
{
    uart.write_bytes(s);
}

/// The divisors fit the baud rate: `16 * baud * ibrd` is the largest
/// multiple of `16 * baud` not above the clock (when it fits in 16 bits),
/// and `fbrd / 64` is the remaining fraction rounded to the nearest 64th.
pub proof fn lemma_baud_divisors(clock: nat, baud: nat)
    requires
        baud > 0,
        clock < 16 * baud * 0x10000,
    ensures
        16 * baud * ibrd_value(clock, baud) <= clock < 16 * baud * (ibrd_value(clock, baud) + 1),
        fbrd_value(clock, baud) * baud <= (clock - 16 * baud * ibrd_value(clock, baud)) * 64 + baud
            / 2 < (fbrd_value(clock, baud) + 1) * baud,
{
    let d = 16 * baud;
    let q = clock / d;
    let r = clock % d;
    assert(d > 0) by (nonlinear_arith)
        requires
            baud > 0,
            d == 16 * baud,
    ;
    assert(q * d + r == clock && 0 <= r < d) by (nonlinear_arith)
        requires
            d > 0,
            q == clock / d,
            r == clock % d,
    ;
    assert(q < 0x10000) by (nonlinear_arith)
        requires
            q * d + r == clock,
            0 <= r,
            clock < d * 0x10000,
            d > 0,
    ;
    assert(ibrd_value(clock, baud) == q);
    let t = r * 64 + baud / 2;
    let f = t / baud;
    assert(f * baud <= t < (f + 1) * baud) by (nonlinear_arith)
        requires
            baud > 0,
            f == t / baud,
    ;
    assert(fbrd_value(clock, baud) == f);
    assert(clock - 16 * baud * q == r) by (nonlinear_arith)
        requires
            q * d + r == clock,
            d == 16 * baud,
    ;
    assert(16 * baud * (q + 1) == q * d + d) by (nonlinear_arith)
        requires
            d == 16 * baud,
    ;
    assert(16 * baud * q == q * d) by (nonlinear_arith)
        requires
            d == 16 * baud,
    ;
}

/// The console runs at 115200 baud from the 48 MHz clock: divisor 26 and
/// 43/64.
pub proof fn lemma_console_divisors()
    ensures
        uart_init_writes()[1] == (RegWrite { addr: UART0_IBRD, value: 26 }),
        uart_init_writes()[2] == (RegWrite { addr: UART0_FBRD, value: 43 }),
{
    assert(48_000_000nat / (16 * 115_200nat) == 26) by (nonlinear_arith);
    assert(48_000_000nat % (16 * 115_200nat) == 76_800) by (nonlinear_arith);
    assert((76_800nat * 64 + 115_200nat / 2) / 115_200nat == 43) by (nonlinear_arith);
    assert(ibrd_value(48_000_000, 115_200) == 26);
    assert(fbrd_value(48_000_000, 115_200) == 43);
}

} // verus!
