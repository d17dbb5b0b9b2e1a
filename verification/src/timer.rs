//! The ARM timer and its interrupt, the free-running system timer, and the
//! watchdog used to reboot.
use vstd::prelude::*;
use crate::mmio::RegWrite;
use crate::text::hex_text;
use crate::uart::Uart;
use vstd::string::StringSliceAdditionalSpecFns;

verus! {

/// ARM timer load register.
pub const TIMER_LOAD: usize = 0x3F00_B400;
/// ARM timer current value.
pub const TIMER_VALUE: usize = 0x3F00_B404;
/// ARM timer control register.
pub const TIMER_CTRL: usize = 0x3F00_B408;
/// ARM timer interrupt clear register.
pub const TIMER_CLR: usize = 0x3F00_B40C;
/// Basic interrupt enable register.
pub const IRQ_BASIC_ENABLE: usize = 0x3F00_B200;
/// Interrupt enable register 1.
pub const IRQ_ENABLE1: usize = 0x3F00_B210;
/// Enable bit of the ARM timer interrupt.
pub const ARM_TIMER_IRQ_BIT: u32 = 1;
/// Ticks between two timer interrupts.
pub const TIMER_RELOAD: u32 = 0x1000;
/// Control: timer enabled, periodic, interrupt enabled, 32-bit counter.
pub const TIMER_CTRL_ENABLE: u32 = 0xE2;
/// Low word of the free-running 1 MHz system timer.
pub const SYS_TIMER_CLO: usize = 0x3F00_3004;
/// System timer ticks per second.
pub const SYS_TIMER_HZ: u32 = 1_000_000;
/// Watchdog reset control register.
pub const PM_RSTC: usize = 0x3F10_001C;
/// Watchdog timeout register.
pub const PM_WDOG: usize = 0x3F10_0024;
/// Password that every watchdog write must carry.
pub const PM_PASSWORD: u32 = 0x5A00_0000;

/// The start-up writes of the ARM timer: reload value, clear a pending
/// interrupt, enable.
pub fn timer_init() -> (w: Vec<RegWrite>)
    ensures
        w@ == seq![
            RegWrite { addr: TIMER_LOAD, value: TIMER_RELOAD },
            RegWrite { addr: TIMER_CLR, value: 1u32 },
            RegWrite { addr: TIMER_CTRL, value: TIMER_CTRL_ENABLE },
        ],
{
    let mut w: Vec<RegWrite> = Vec::new();
    w.push(RegWrite { addr: TIMER_LOAD, value: TIMER_RELOAD });
    w.push(RegWrite { addr: TIMER_CLR, value: 1 });
    w.push(RegWrite { addr: TIMER_CTRL, value: TIMER_CTRL_ENABLE });
    w
}

/// The writes that route the ARM timer interrupt, given the value of
/// `IRQ_ENABLE1` read beforehand: enable it in the basic register, and set
/// bit 0 of `IRQ_ENABLE1` keeping its other bits.
pub fn interrupt_controller_init(enable1: u32) -> (w: Vec<RegWrite>)
    ensures
        w@ == seq![
            RegWrite { addr: IRQ_BASIC_ENABLE, value: ARM_TIMER_IRQ_BIT },
            RegWrite { addr: IRQ_ENABLE1, value: enable1 | 1u32 },
        ],
{
    let mut w: Vec<RegWrite> = Vec::new();
    w.push(RegWrite { addr: IRQ_BASIC_ENABLE, value: ARM_TIMER_IRQ_BIT });
    w.push(RegWrite { addr: IRQ_ENABLE1, value: enable1 | 1 });
    w
}

/// The console line that reports a timer value.
pub open spec fn timer_value_text(val: u32) -> Seq<u8> {
    "Timer value: ".spec_bytes() + hex_text(val as nat) + "\n".spec_bytes()
}

/// Reports the value read from `TIMER_VALUE`.
pub fn print_timer_value(uart: &mut Uart, val: u32)
    ensures
        final(uart)@ == old(uart)@ + timer_value_text(val),
{
    uart.write_str("Timer value: ");
    uart.write_hex(val as u64);
    uart.write_str("\n");
}

/// What the timer interrupt handler does: acknowledge the interrupt (the
/// returned store) and report it on the console.
pub fn rust_irq_handler(uart: &mut Uart) -> (w: RegWrite)
    ensures
        w == (RegWrite { addr: TIMER_CLR, value: 1u32 }),
        final(uart)@ == old(uart)@ + "\nTimer IRQ triggered!\n".spec_bytes(),
{
    uart.write_str("\nTimer IRQ triggered!\n");
    RegWrite { addr: TIMER_CLR, value: 1 }
}

/// Ticks of a 32-bit counter from `start` to `end`, modulo its wrap-around.
pub open spec fn ticks_between(start: u32, end: u32) -> int {
    (end as int - start as int) % 0x1_0000_0000
}

/// The value of a 32-bit counter `ticks` after it read `start`.
pub open spec fn counter_after(start: u32, ticks: int) -> int {
    (start as int + ticks) % 0x1_0000_0000
}

/// Ticks of the 32-bit system timer from `start` to `end`, across one
/// wrap-around of the counter.
pub fn elapsed_ticks(start: u32, end: u32) -> (d: u32)
    ensures
        d as int == ticks_between(start, end),
{
    if end >= start {
        end - start
    } else {
        (0xFFFF_FFFF - start) + end + 1
    }
}

/// The counter value at which a delay of `sec` seconds that starts at
/// `start` ends, with the counter's wrap-around.
pub fn delay_target(start: u32, sec: u32) -> (t: u32)
    requires
        sec * 1_000_000 <= u32::MAX,
    ensures
        t as int == counter_after(start, sec as int * 1_000_000),
{
    start.wrapping_add(sec * 1_000_000)
}

/// Whether a delay towards `target` is over at counter value `now`: the
/// wait goes on while the counter is below the target.
pub fn delay_done(now: u32, target: u32) -> (done: bool)
    ensures
        done == (now >= target),
{
    now >= target
}

/// The watchdog writes that reset the board: a short timeout, then a full
/// reset request, both with the password.
pub fn reboot() -> (w: Vec<RegWrite>)
    ensures
        w@ == seq![
            RegWrite { addr: PM_WDOG, value: (PM_PASSWORD + 100) as u32 },
            RegWrite { addr: PM_RSTC, value: (PM_PASSWORD + 0x20) as u32 },
        ],
{
    let mut w: Vec<RegWrite> = Vec::new();
    let wdog: u32 = PM_PASSWORD | 100;
    let rstc: u32 = PM_PASSWORD | 0x20;
    proof {
        assert(0x5A00_0000u32 | 100u32 == 0x5A00_0064u32) by (bit_vector);
        assert(0x5A00_0000u32 | 0x20u32 == 0x5A00_0020u32) by (bit_vector);
    }
    w.push(RegWrite { addr: PM_WDOG, value: wdog });
    w.push(RegWrite { addr: PM_RSTC, value: rstc });
    w
}

/// The elapsed time measured from `start` to a counter value `d` ticks
/// later is `d`, even when the counter wrapped around in between.
pub proof fn lemma_elapsed_after_wrap(start: u32, d: u32)
    ensures
        ticks_between(start, counter_after(start, d as int) as u32) == d as int,
{
    let s = start as int;
    let e = (s + d as int) % 0x1_0000_0000;
    if s + d < 0x1_0000_0000 {
        assert(e == s + d);
    } else {
        assert(e == s + d - 0x1_0000_0000);
    }
}

/// Without a wrap-around the elapsed ticks are `end - start`; across one
/// wrap-around they are the ticks up to the top of the counter plus those
/// after it. A delay target is `start + ticks` unless that passes the top.
pub proof fn lemma_ticks_between_cases(start: u32, end: u32, ticks: u32)
    ensures
        start <= end ==> ticks_between(start, end) == end - start,
        end < start ==> ticks_between(start, end) == (0xFFFF_FFFF - start) + end + 1,
        start as int + ticks as int <= 0xFFFF_FFFF ==> counter_after(start, ticks as int) == start
            + ticks,
        start as int + ticks as int > 0xFFFF_FFFF ==> counter_after(start, ticks as int) == start
            + ticks - 0x1_0000_0000,
{
}

/// The timer value report is `Timer value: ` with the value in `{:#x}`.
pub proof fn lemma_timer_value_line(val: u32)
    ensures
        timer_value_text(val) == "Timer value: ".spec_bytes() + seq![48u8, 120u8]
            + crate::text::hex_digits(val as nat) + "\n".spec_bytes(),
        crate::text::hex_value(crate::text::hex_digits(val as nat)) == val,
{
    crate::text::lemma_hex_digits_value(val as nat);
    assert(seq![48u8, 120u8] + crate::text::hex_digits(val as nat) == hex_text(val as nat));
}

} // verus!
