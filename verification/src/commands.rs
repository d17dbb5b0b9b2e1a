//! The shell's commands: what a command line means, what the shell answers
//! before touching the hardware, and the reports it prints from what the
//! hardware returned.
use vstd::prelude::*;
use crate::cmdline::{
    after, chars_equal, parse_u32, parse_u32_range, prefix_len, str_chars, trim, trim_bounds,
    dec_chars, has_prefix, lemma_parse_formatted, lemma_trim_digits, lemma_dec_chars_value,
};
use crate::gpio::{GPIO, GPIO_USER_PINS};
use crate::text::{
    dec_digits, hex_text, hex_byte_text, hex_digits, hex_value, dec_value, lemma_concat_regroup,
    lemma_dec_digits_value, lemma_hex_digits_value,
};
use crate::timer::{elapsed_ticks, ticks_between};
use crate::uart::Uart;
use vstd::string::StringSliceAdditionalSpecFns;

verus! {

/// A command line, as the shell reads it. The pin commands carry the result
/// of parsing their argument (`None` when it is not a `u32`).
#[derive(Clone, Copy, Debug, PartialEq, Eq, Structural)]
pub enum Command {
    Help,
    MemInfo,
    RamInfo,
    Demo,
    Gpio(Option<u32>),
    ShowGpio(Option<u32>),
    MemDump,
    RegDump,
    Uptime,
    Reboot,
    InitHdmi,
    ToggleGpio(Option<u32>),
    Unknown,
}

/// What the caller still has to do with the hardware once the shell has
/// answered a command line.
#[derive(Clone, Copy, Debug, PartialEq, Eq, Structural)]
pub enum Action {
    /// Nothing: the answer is complete.
    Done,
    /// Print the memory layout (`report_meminfo`).
    MemInfo,
    /// Ask the firmware for the ARM memory (`report_ram_info`).
    RamInfo,
    /// Time a busy loop (`report_demo`).
    Demo,
    /// Make the pin an output and toggle it `GPIO_DEMO_ROUNDS` times.
    GpioDemo(u32),
    /// Read the pin's level (`report_gpio_level`).
    ShowGpio(u32),
    /// Dump memory (`report_memdump`).
    MemDump,
    /// Dump system registers (`report_regdump`).
    RegDump,
    /// Print the time since boot.
    Uptime,
    /// Reset the board through the watchdog.
    Reboot,
    /// Bring up the framebuffer and draw the banner (`report_hdmi`).
    InitHdmi,
    /// Make the pin an output and flip its level.
    ToggleGpio(u32),
}

/// The meaning of a command line: exact words, or a word followed by a
/// space and a pin number (surrounding white space ignored).
pub open spec fn command_of(cmd: Seq<char>) -> Command {
    if cmd == "help"@ {
        Command::Help
    } else if cmd == "meminfo"@ {
        Command::MemInfo
    } else if cmd == "raminfo"@ {
        Command::RamInfo
    } else if cmd == "demo"@ {
        Command::Demo
    } else if crate::cmdline::has_prefix(cmd, "gpio "@) {
        Command::Gpio(parse_u32(trim(after(cmd, "gpio "@.len()))))
    } else if crate::cmdline::has_prefix(cmd, "showgpio "@) {
        Command::ShowGpio(parse_u32(trim(after(cmd, "showgpio "@.len()))))
    } else if cmd == "memdump"@ {
        Command::MemDump
    } else if cmd == "regdump"@ {
        Command::RegDump
    } else if cmd == "uptime"@ {
        Command::Uptime
    } else if cmd == "reboot"@ {
        Command::Reboot
    } else if cmd == "init_hdmi"@ {
        Command::InitHdmi
    } else if crate::cmdline::has_prefix(cmd, "togglegpio "@) {
        Command::ToggleGpio(parse_u32(trim(after(cmd, "togglegpio "@.len()))))
    } else {
        Command::Unknown
    }
}

fn pin_argument(v: &Vec<char>, n: usize) -> (r: Option<u32>)
    requires
        n <= v.len(),
    ensures
        r == parse_u32(trim(after(v@, n as nat))),
{
    let (lo, hi) = trim_bounds(v, n);
    parse_u32_range(v, lo, hi)
}

/// Reads a command line.
pub fn parse_command(cmd: &str) -> (c: Command)
    ensures
        c == command_of(cmd@),
{
    let v = str_chars(cmd);
    if chars_equal(&v, "help") {
        Command::Help
    } else if chars_equal(&v, "meminfo") {
        Command::MemInfo
    } else if chars_equal(&v, "raminfo") {
        Command::RamInfo
    } else if chars_equal(&v, "demo") {
        Command::Demo
    } else if let Some(n) = prefix_len(&v, "gpio ") {
        Command::Gpio(pin_argument(&v, n))
    } else if let Some(n) = prefix_len(&v, "showgpio ") {
        Command::ShowGpio(pin_argument(&v, n))
    } else if chars_equal(&v, "memdump") {
        Command::MemDump
    } else if chars_equal(&v, "regdump") {
        Command::RegDump
    } else if chars_equal(&v, "uptime") {
        Command::Uptime
    } else if chars_equal(&v, "reboot") {
        Command::Reboot
    } else if chars_equal(&v, "init_hdmi") {
        Command::InitHdmi
    } else if let Some(n) = prefix_len(&v, "togglegpio ") {
        Command::ToggleGpio(pin_argument(&v, n))
    } else {
        Command::Unknown
    }
}

/// The list of commands.
pub open spec fn help_text() -> Seq<u8> {
    "Available commands: help, meminfo, raminfo, demo, gpio xx, showgpio xx, memdump, regdump, reboot, uptime , init_hdmi , togglegpio xx\n".spec_bytes()
}

/// Answer to a pin argument that is not a number.
pub open spec fn invalid_number_text() -> Seq<u8> {
    "Invalid GPIO pin number.\n".spec_bytes()
}

/// Answer to a pin the shell does not drive.
pub open spec fn invalid_pin_text() -> Seq<u8> {
    "Invalid pin number. Pin must be less than 28.\n".spec_bytes()
}

/// Last line of the `gpio` command.
pub open spec fn gpio_demo_complete_text() -> Seq<u8> {
    "GPIO demo complete.\n".spec_bytes()
}

/// Announcement of `showgpio`.
pub open spec fn reading_text(pin: u32) -> Seq<u8> {
    "Reading GPIO pin ".spec_bytes() + dec_digits(pin as nat) + " state...\n".spec_bytes()
}

/// Announcement of `togglegpio`.
pub open spec fn toggling_state_text(pin: u32) -> Seq<u8> {
    "Toggling GPIO pin ".spec_bytes() + dec_digits(pin as nat) + " state...\n".spec_bytes()
}

/// Header of `memdump`.
pub open spec fn memdump_header_text() -> Seq<u8> {
    "Memory dump at 0x80000:\n".spec_bytes()
}

/// What the shell prints for a command before any hardware access.
pub open spec fn command_output(c: Command) -> Seq<u8> {
    match c {
        Command::Help => help_text(),
        Command::Gpio(arg) => match arg {
            None => invalid_number_text() + gpio_demo_complete_text(),
            Some(p) => if p < GPIO_USER_PINS {
                Seq::empty()
            } else {
                invalid_pin_text()
            },
        },
        Command::ShowGpio(arg) => match arg {
            None => invalid_number_text(),
            Some(p) => if p < GPIO_USER_PINS {
                reading_text(p)
            } else {
                invalid_pin_text()
            },
        },
        Command::ToggleGpio(arg) => match arg {
            None => invalid_number_text(),
            Some(p) => if p < GPIO_USER_PINS {
                toggling_state_text(p)
            } else {
                invalid_pin_text()
            },
        },
        Command::MemDump => memdump_header_text(),
        Command::Reboot => "Rebooting...\n".spec_bytes(),
        Command::Unknown => "Unknown command. Type 'help' for available commands.\n".spec_bytes(),
        _ => Seq::empty(),
    }
}

/// What is left to do with the hardware for a command.
pub open spec fn command_action(c: Command) -> Action {
    match c {
        Command::Help => Action::Done,
        Command::MemInfo => Action::MemInfo,
        Command::RamInfo => Action::RamInfo,
        Command::Demo => Action::Demo,
        Command::Gpio(arg) => match arg {
            Some(p) => if p < GPIO_USER_PINS {
                Action::GpioDemo(p)
            } else {
                Action::Done
            },
            None => Action::Done,
        },
        Command::ShowGpio(arg) => match arg {
            Some(p) => if p < GPIO_USER_PINS {
                Action::ShowGpio(p)
            } else {
                Action::Done
            },
            None => Action::Done,
        },
        Command::MemDump => Action::MemDump,
        Command::RegDump => Action::RegDump,
        Command::Uptime => Action::Uptime,
        Command::Reboot => Action::Reboot,
        Command::InitHdmi => Action::InitHdmi,
        Command::ToggleGpio(arg) => match arg {
            Some(p) => if p < GPIO_USER_PINS {
                Action::ToggleGpio(p)
            } else {
                Action::Done
            },
            None => Action::Done,
        },
        Command::Unknown => Action::Done,
    }
}

/// Answers the command line `cmd`: prints what needs no hardware and
/// returns what remains to be done.
pub fn process_command(cmd: &str, uart: &mut Uart) -> (a: Action)
    ensures
        a == command_action(command_of(cmd@)),
        final(uart)@ == old(uart)@ + command_output(command_of(cmd@)),
{
    let c = parse_command(cmd);
    match c {
        Command::Help => {
            uart.write_str(
                "Available commands: help, meminfo, raminfo, demo, gpio xx, showgpio xx, memdump, regdump, reboot, uptime , init_hdmi , togglegpio xx\n",
            );
            Action::Done
        },
        Command::MemInfo => Action::MemInfo,
        Command::RamInfo => Action::RamInfo,
        Command::Demo => Action::Demo,
        Command::Gpio(arg) => match arg {
            Some(p) => {
                if GPIO::check_pin_no(p) {
                    Action::GpioDemo(p)
                } else {
                    uart.write_str("Invalid pin number. Pin must be less than 28.\n");
                    Action::Done
                }
            },
            None => {
                uart.write_str("Invalid GPIO pin number.\n");
                uart.write_str("GPIO demo complete.\n");
                Action::Done
            },
        },
        Command::ShowGpio(arg) => match arg {
            Some(p) => {
                if GPIO::check_pin_no(p) {
                    uart.write_str("Reading GPIO pin ");
                    uart.write_dec(p as u64);
                    uart.write_str(" state...\n");
                    Action::ShowGpio(p)
                } else {
                    uart.write_str("Invalid pin number. Pin must be less than 28.\n");
                    Action::Done
                }
            },
            None => {
                uart.write_str("Invalid GPIO pin number.\n");
                Action::Done
            },
        },
        Command::MemDump => {
            uart.write_str("Memory dump at 0x80000:\n");
            Action::MemDump
        },
        Command::RegDump => Action::RegDump,
        Command::Uptime => Action::Uptime,
        Command::Reboot => {
            uart.write_str("Rebooting...\n");
            Action::Reboot
        },
        Command::InitHdmi => Action::InitHdmi,
        Command::ToggleGpio(arg) => match arg {
            Some(p) => {
                if GPIO::check_pin_no(p) {
                    uart.write_str("Toggling GPIO pin ");
                    uart.write_dec(p as u64);
                    uart.write_str(" state...\n");
                    Action::ToggleGpio(p)
                } else {
                    uart.write_str("Invalid pin number. Pin must be less than 28.\n");
                    Action::Done
                }
            },
            None => {
                uart.write_str("Invalid GPIO pin number.\n");
                Action::Done
            },
        },
        Command::Unknown => {
            uart.write_str("Unknown command. Type 'help' for available commands.\n");
            Action::Done
        },
    }
}

/// Rounds of the `gpio` command: set, report, wait, clear, report, wait.
pub const GPIO_DEMO_ROUNDS: u32 = 10;
/// Seconds the `gpio` command waits after each change.
pub const GPIO_DEMO_DELAY_SECONDS: u32 = 2;
/// Iterations of the busy loop that the `demo` command times.
pub const DEMO_LOOP_ITERATIONS: u32 = 50_000;
/// First address that `memdump` shows.
pub const MEMDUMP_ADDR: usize = 0x80000;
/// Number of bytes that `memdump` shows.
pub const MEMDUMP_LEN: usize = 64;
/// Bytes per `memdump` line.
pub const MEMDUMP_BYTES_PER_LINE: usize = 16;

/// The report of a pin's level.
pub open spec fn gpio_level_text(pin: u32, high: bool) -> Seq<u8> {
    "GPIO pin ".spec_bytes() + dec_digits(pin as nat) + " level: ".spec_bytes() + (if high {
        "HIGH".spec_bytes()
    } else {
        "LOW".spec_bytes()
    }) + "\n".spec_bytes()
}

/// Reports the level read from a pin.
pub fn report_gpio_level(uart: &mut Uart, pin: u32, high: bool)
    ensures
        final(uart)@ == old(uart)@ + gpio_level_text(pin, high),
{
    uart.write_str("GPIO pin ");
    uart.write_dec(pin as u64);
    uart.write_str(" level: ");
    if high {
        uart.write_str("HIGH");
    } else {
        uart.write_str("LOW");
    }
    uart.write_str("\n");
}

/// Announces the toggling of the `gpio` command, once the pin is an output.
pub fn gpio_demo_start(uart: &mut Uart, pin: u32)
    ensures
        final(uart)@ == old(uart)@ + "Toggling GPIO pin ".spec_bytes() + dec_digits(pin as nat)
            + "...\n".spec_bytes(),
{
    uart.write_str("Toggling GPIO pin ");
    uart.write_dec(pin as u64);
    uart.write_str("...\n");
}

/// Closes the `gpio` command after its rounds.
pub fn gpio_demo_finish(uart: &mut Uart)
    ensures
        final(uart)@ == old(uart)@ + "GPIO toggle complete.\n".spec_bytes()
            + gpio_demo_complete_text(),
{
    uart.write_str("GPIO toggle complete.\n");
    uart.write_str("GPIO demo complete.\n");
}

/// Section boundaries of the kernel image, from the linker script.
pub struct MemoryLayout {
    pub data_start: usize,
    pub data_end: usize,
    pub bss_start: usize,
    pub bss_end: usize,
    pub kernel_end: usize,
    pub stack_top: usize,
}

/// The `meminfo` report.
pub open spec fn meminfo_text(l: MemoryLayout) -> Seq<u8> {
    "Data: ".spec_bytes() + hex_text(l.data_start as nat) + " - ".spec_bytes() + hex_text(
        l.data_end as nat,
    ) + " (".spec_bytes() + dec_digits((l.data_end - l.data_start) as nat)
        + " bytes)\n".spec_bytes() + "BSS:  ".spec_bytes() + hex_text(l.bss_start as nat)
        + " - ".spec_bytes() + hex_text(l.bss_end as nat) + " (".spec_bytes() + dec_digits(
        (l.bss_end - l.bss_start) as nat,
    ) + " bytes)\n".spec_bytes() + "Kernel end: ".spec_bytes() + hex_text(l.kernel_end as nat)
        + "\n".spec_bytes() + "Stack top: ".spec_bytes() + hex_text(l.stack_top as nat)
        + "\n".spec_bytes()
}

/// Prints the memory layout. Sections end at or after their start.
pub fn report_meminfo(uart: &mut Uart, l: &MemoryLayout)
    requires
        l.data_start <= l.data_end,
        l.bss_start <= l.bss_end,
    ensures
        final(uart)@ == old(uart)@ + meminfo_text(*l),
{
    broadcast use lemma_concat_regroup;

    let data_size: usize = l.data_end - l.data_start;
    let bss_size: usize = l.bss_end - l.bss_start;
    uart.write_str("Data: ");
    uart.write_hex(l.data_start as u64);
    uart.write_str(" - ");
    uart.write_hex(l.data_end as u64);
    uart.write_str(" (");
    uart.write_dec(data_size as u64);
    uart.write_str(" bytes)\n");
    uart.write_str("BSS:  ");
    uart.write_hex(l.bss_start as u64);
    uart.write_str(" - ");
    uart.write_hex(l.bss_end as u64);
    uart.write_str(" (");
    uart.write_dec(bss_size as u64);
    uart.write_str(" bytes)\n");
    uart.write_str("Kernel end: ");
    uart.write_hex(l.kernel_end as u64);
    uart.write_str("\n");
    uart.write_str("Stack top: ");
    uart.write_hex(l.stack_top as u64);
    uart.write_str("\n");
}

/// The `raminfo` report for what the firmware answered.
pub open spec fn ram_info_text(info: Option<(u32, u32)>) -> Seq<u8> {
    match info {
        Some((base, size)) => "RAM base: ".spec_bytes() + hex_text(base as nat)
            + ", size: ".spec_bytes() + hex_text(size as nat) + "\n".spec_bytes(),
        None => "Failed to get RAM info.\n".spec_bytes(),
    }
}

/// Prints the ARM memory range, or that the firmware did not give it.
pub fn report_ram_info(uart: &mut Uart, info: Option<(u32, u32)>)
    ensures
        final(uart)@ == old(uart)@ + ram_info_text(info),
{
    match info {
        Some((base, size)) => {
            uart.write_str("RAM base: ");
            uart.write_hex(base as u64);
            uart.write_str(", size: ");
            uart.write_hex(size as u64);
            uart.write_str("\n");
        },
        None => {
            uart.write_str("Failed to get RAM info.\n");
        },
    }
}

/// Prints how long the `demo` loop ran, from the system timer read before
/// and after it.
pub fn report_demo(uart: &mut Uart, start: u32, end: u32)
    ensures
        final(uart)@ == old(uart)@ + "Loop ran for ".spec_bytes() + dec_digits(
            ticks_between(start, end) as nat,
        ) + " microseconds\n".spec_bytes(),
{
    let elapsed: u32 = elapsed_ticks(start, end);
    uart.write_str("Loop ran for ");
    uart.write_dec(elapsed as u64);
    uart.write_str(" microseconds\n");
}

/// The body of a memory dump: each byte as two hex digits and a space, a
/// newline after every sixteenth byte.
pub open spec fn memdump_text(bytes: Seq<u8>) -> Seq<u8>
    decreases bytes.len(),
{
    if bytes.len() == 0 {
        Seq::empty()
    } else {
        memdump_text(bytes.drop_last()) + hex_byte_text(bytes.last()) + " ".spec_bytes() + (if bytes.len()
            % 16 == 0 {
            "\n".spec_bytes()
        } else {
            Seq::empty()
        })
    }
}

/// Prints the bytes read by `memdump`.
pub fn report_memdump(uart: &mut Uart, bytes: &[u8])
    ensures
        final(uart)@ == old(uart)@ + memdump_text(bytes@),
{
    let mut i: usize = 0;
    while i < bytes.len()
        invariant
            i <= bytes.len(),
            uart@ == old(uart)@ + memdump_text(bytes@.subrange(0, i as int)),
        decreases bytes.len() - i,
    {
        proof {
            assert(bytes@.subrange(0, i + 1).drop_last() =~= bytes@.subrange(0, i as int));
        }
        uart.write_hex_byte(bytes[i]);
        uart.write_str(" ");
        if (i + 1) % MEMDUMP_BYTES_PER_LINE == 0 {
            uart.write_str("\n");
        }
        i += 1;
    }
    assert(bytes@.subrange(0, bytes@.len() as int) =~= bytes@);
}

/// System registers shown by `regdump`.
pub struct CpuRegisters {
    pub current_el: u64,
    pub sp: u64,
    pub midr_el1: u64,
    pub mpidr_el1: u64,
    pub tpidr_el0: u64,
    pub cntfrq_el0: u64,
    pub vbar_el1: u64,
}

/// The `regdump` report; the exception level sits in bits 3:2 of CurrentEL.
pub open spec fn regdump_text(r: CpuRegisters) -> Seq<u8> {
    "CurrentEL: ".spec_bytes() + hex_text((r.current_el / 4) as nat) + "\n".spec_bytes()
        + "SP: ".spec_bytes() + hex_text(r.sp as nat) + "\n".spec_bytes()
        + "MIDR_EL1: ".spec_bytes() + hex_text(r.midr_el1 as nat) + "\n".spec_bytes()
        + "MPIDR_EL1: ".spec_bytes() + hex_text(r.mpidr_el1 as nat) + "\n".spec_bytes()
        + "TPIDR_EL0: ".spec_bytes() + hex_text(r.tpidr_el0 as nat) + "\n".spec_bytes()
        + "CNTFRQ_EL0: ".spec_bytes() + hex_text(r.cntfrq_el0 as nat) + "\n".spec_bytes()
        + "VBAR_EL1: ".spec_bytes() + hex_text(r.vbar_el1 as nat) + "\n".spec_bytes()
}

/// Prints the system registers.
pub fn report_regdump(uart: &mut Uart, r: &CpuRegisters)
    ensures
        final(uart)@ == old(uart)@ + regdump_text(*r),
{
    broadcast use lemma_concat_regroup;

    let el: u64 = r.current_el >> 2;
    proof {
        let c = r.current_el;
        assert(c >> 2 == c / 4) by (bit_vector);
    }
    uart.write_str("CurrentEL: ");
    uart.write_hex(el);
    uart.write_str("\n");
    uart.write_str("SP: ");
    uart.write_hex(r.sp);
    uart.write_str("\n");
    uart.write_str("MIDR_EL1: ");
    uart.write_hex(r.midr_el1);
    uart.write_str("\n");
    uart.write_str("MPIDR_EL1: ");
    uart.write_hex(r.mpidr_el1);
    uart.write_str("\n");
    uart.write_str("TPIDR_EL0: ");
    uart.write_hex(r.tpidr_el0);
    uart.write_str("\n");
    uart.write_str("CNTFRQ_EL0: ");
    uart.write_hex(r.cntfrq_el0);
    uart.write_str("\n");
    uart.write_str("VBAR_EL1: ");
    uart.write_hex(r.vbar_el1);
    uart.write_str("\n");
}

/// A framebuffer as the firmware set it up.
#[derive(Clone, Copy, Debug, PartialEq, Eq, Structural)]
pub struct Framebuffer {
    pub addr: u32,
    pub pitch: u32,
    pub width: u32,
    pub height: u32,
    pub depth: u32,
}

/// The first `init_hdmi` report: the framebuffer, or the failure.
pub open spec fn hdmi_text(fb: Option<Framebuffer>) -> Seq<u8> {
    match fb {
        Some(f) => "Framebuffer at ".spec_bytes() + hex_text(f.addr as nat) + ", pitch: ".spec_bytes()
            + hex_text(f.pitch as nat) + ", resolution: ".spec_bytes() + dec_digits(f.width as nat)
            + "x".spec_bytes() + dec_digits(f.height as nat) + ", depth: ".spec_bytes()
            + dec_digits(f.depth as nat) + "\n".spec_bytes(),
        None => "HDMI initialization failed.\n".spec_bytes(),
    }
}

/// Prints what the framebuffer set-up gave.
pub fn report_hdmi(uart: &mut Uart, fb: Option<Framebuffer>)
    ensures
        final(uart)@ == old(uart)@ + hdmi_text(fb),
{
    match fb {
        Some(f) => {
            uart.write_str("Framebuffer at ");
            uart.write_hex(f.addr as u64);
            uart.write_str(", pitch: ");
            uart.write_hex(f.pitch as u64);
            uart.write_str(", resolution: ");
            uart.write_dec(f.width as u64);
            uart.write_str("x");
            uart.write_dec(f.height as u64);
            uart.write_str(", depth: ");
            uart.write_dec(f.depth as u64);
            uart.write_str("\n");
        },
        None => {
            uart.write_str("HDMI initialization failed.\n");
        },
    }
}

/// Closes `init_hdmi` once the banner is drawn.
pub fn report_hdmi_drawn(uart: &mut Uart)
    ensures
        final(uart)@ == old(uart)@ + "HDMI initialized and red square drawn.\n".spec_bytes(),
{
    uart.write_str("HDMI initialized and red square drawn.\n");
}

proof fn lemma_word_then_number(word: Seq<char>, p: u32)
    ensures
        has_prefix(word + dec_chars(p as nat), word),
        parse_u32(trim(after(word + dec_chars(p as nat), word.len()))) == Some(p),
{
    let line = word + dec_chars(p as nat);
    assert(line.subrange(0, word.len() as int) =~= word);
    assert(after(line, word.len()) =~= dec_chars(p as nat));
    lemma_parse_formatted(p);
    lemma_dec_chars_value(p as nat);
    lemma_trim_digits(dec_chars(p as nat));
}

/// The lines `gpio N`, `showgpio N` and `togglegpio N`, with `N` written
/// as `{}` prints it, name pin `N`.
pub proof fn lemma_pin_command_lines(p: u32)
    ensures
        command_of("gpio "@ + dec_chars(p as nat)) == Command::Gpio(Some(p)),
        command_of("showgpio "@ + dec_chars(p as nat)) == Command::ShowGpio(Some(p)),
        command_of("togglegpio "@ + dec_chars(p as nat)) == Command::ToggleGpio(Some(p)),
{
    reveal_strlit("help");
    reveal_strlit("meminfo");
    reveal_strlit("raminfo");
    reveal_strlit("demo");
    reveal_strlit("gpio ");
    reveal_strlit("showgpio ");
    reveal_strlit("memdump");
    reveal_strlit("regdump");
    reveal_strlit("uptime");
    reveal_strlit("reboot");
    reveal_strlit("init_hdmi");
    reveal_strlit("togglegpio ");
    lemma_word_then_number("gpio "@, p);
    lemma_word_then_number("showgpio "@, p);
    lemma_word_then_number("togglegpio "@, p);
    let g = "gpio "@ + dec_chars(p as nat);
    let sg = "showgpio "@ + dec_chars(p as nat);
    let tg = "togglegpio "@ + dec_chars(p as nat);
    assert(g[0] == 'g');
    assert(sg[0] == 's');
    assert(tg[0] == 't');
    assert(g != "help"@ && g != "meminfo"@ && g != "raminfo"@ && g != "demo"@) by {
        assert("help"@[0] == 'h');
        assert("meminfo"@[0] == 'm');
        assert("raminfo"@[0] == 'r');
        assert("demo"@[0] == 'd');
    }
    assert(sg != "help"@ && sg != "meminfo"@ && sg != "raminfo"@ && sg != "demo"@) by {
        assert("help"@[0] == 'h');
        assert("meminfo"@[0] == 'm');
        assert("raminfo"@[0] == 'r');
        assert("demo"@[0] == 'd');
    }
    assert(!has_prefix(sg, "gpio "@)) by {
        assert(sg.subrange(0, 5)[0] == 's');
    }
    assert(tg != "help"@ && tg != "meminfo"@ && tg != "raminfo"@ && tg != "demo"@ && tg
        != "memdump"@ && tg != "regdump"@ && tg != "uptime"@ && tg != "reboot"@ && tg
        != "init_hdmi"@) by {
        assert("help"@[0] == 'h');
        assert("meminfo"@[0] == 'm');
        assert("raminfo"@[0] == 'r');
        assert("demo"@[0] == 'd');
        assert("memdump"@[0] == 'm');
        assert("regdump"@[0] == 'r');
        assert("uptime"@[0] == 'u');
        assert("reboot"@[0] == 'r');
        assert("init_hdmi"@[0] == 'i');
    }
    assert(!has_prefix(tg, "gpio "@)) by {
        assert(tg.subrange(0, 5)[0] == 't');
    }
    assert(!has_prefix(tg, "showgpio "@)) by {
        assert(tg.subrange(0, 9)[0] == 't');
    }
}

/// Every pin the shell hands to the hardware is one it accepts.
pub proof fn lemma_actions_use_user_pins(c: Command)
    ensures
        command_action(c) matches Action::GpioDemo(p) ==> p < GPIO_USER_PINS,
        command_action(c) matches Action::ShowGpio(p) ==> p < GPIO_USER_PINS,
        command_action(c) matches Action::ToggleGpio(p) ==> p < GPIO_USER_PINS,
{
}

/// One hardware step of a pin command, in the order the caller performs
/// them.
#[derive(Clone, Copy, Debug, PartialEq, Eq, Structural)]
pub enum GpioStep {
    /// Make the pin an output (`GPIO::set_output`).
    SetOutput(u32),
    /// Print `gpio_demo_start`.
    Announce(u32),
    /// Drive the pin high (`GPIO::set`).
    Raise(u32),
    /// Drive the pin low (`GPIO::clear`).
    Lower(u32),
    /// Read the pin's level and flip it (`GPIO::toggle`).
    Toggle(u32),
    /// Read the pin's level and print it (`report_gpio_level`).
    ReportLevel(u32),
    /// Wait this many seconds.
    Delay(u32),
    /// Print `gpio_demo_finish`.
    Finish,
}

/// The steps of `n` rounds of the `gpio` command.
pub open spec fn demo_rounds(pin: u32, n: nat) -> Seq<GpioStep>
    decreases n,
{
    if n == 0 {
        Seq::empty()
    } else {
        demo_rounds(pin, (n - 1) as nat) + seq![
            GpioStep::Raise(pin),
            GpioStep::ReportLevel(pin),
            GpioStep::Delay(GPIO_DEMO_DELAY_SECONDS),
            GpioStep::Lower(pin),
            GpioStep::ReportLevel(pin),
            GpioStep::Delay(GPIO_DEMO_DELAY_SECONDS),
        ]
    }
}

/// The hardware steps left by an action on a pin; none for other actions.
pub open spec fn gpio_steps(a: Action) -> Seq<GpioStep> {
    match a {
        Action::GpioDemo(p) => seq![GpioStep::SetOutput(p), GpioStep::Announce(p)] + demo_rounds(
            p,
            GPIO_DEMO_ROUNDS as nat,
        ) + seq![GpioStep::Finish],
        Action::ShowGpio(p) => seq![GpioStep::ReportLevel(p)],
        Action::ToggleGpio(p) => seq![
            GpioStep::SetOutput(p),
            GpioStep::Toggle(p),
            GpioStep::ReportLevel(p),
        ],
        _ => Seq::empty(),
    }
}

/// The hardware steps the caller performs for `a`, in order.
pub fn gpio_plan(a: Action) -> (steps: Vec<GpioStep>)
    ensures
        steps@ == gpio_steps(a),
{
    let mut steps: Vec<GpioStep> = Vec::new();
    match a {
        Action::GpioDemo(p) => {
            steps.push(GpioStep::SetOutput(p));
            steps.push(GpioStep::Announce(p));
            let mut round: u32 = 0;
            while round < GPIO_DEMO_ROUNDS
                invariant
                    round <= GPIO_DEMO_ROUNDS,
                    steps@ == seq![GpioStep::SetOutput(p), GpioStep::Announce(p)] + demo_rounds(
                        p,
                        round as nat,
                    ),
                decreases GPIO_DEMO_ROUNDS - round,
            {
                proof {
                    crate::text::lemma_concat_regroup(
                        seq![GpioStep::SetOutput(p), GpioStep::Announce(p)],
                        demo_rounds(p, round as nat),
                        seq![
                            GpioStep::Raise(p),
                            GpioStep::ReportLevel(p),
                            GpioStep::Delay(GPIO_DEMO_DELAY_SECONDS),
                            GpioStep::Lower(p),
                            GpioStep::ReportLevel(p),
                            GpioStep::Delay(GPIO_DEMO_DELAY_SECONDS),
                        ],
                    );
                }
                let ghost before = steps@;
                steps.push(GpioStep::Raise(p));
                steps.push(GpioStep::ReportLevel(p));
                steps.push(GpioStep::Delay(GPIO_DEMO_DELAY_SECONDS));
                steps.push(GpioStep::Lower(p));
                steps.push(GpioStep::ReportLevel(p));
                steps.push(GpioStep::Delay(GPIO_DEMO_DELAY_SECONDS));
                assert(steps@ =~= before + seq![
                    GpioStep::Raise(p),
                    GpioStep::ReportLevel(p),
                    GpioStep::Delay(GPIO_DEMO_DELAY_SECONDS),
                    GpioStep::Lower(p),
                    GpioStep::ReportLevel(p),
                    GpioStep::Delay(GPIO_DEMO_DELAY_SECONDS),
                ]);
                round += 1;
            }
            steps.push(GpioStep::Finish);
        },
        Action::ShowGpio(p) => {
            steps.push(GpioStep::ReportLevel(p));
        },
        Action::ToggleGpio(p) => {
            steps.push(GpioStep::SetOutput(p));
            steps.push(GpioStep::Toggle(p));
            steps.push(GpioStep::ReportLevel(p));
        },
        _ => {},
    }
    proof {
        if let Action::ShowGpio(p) = a {
            assert(steps@ =~= seq![GpioStep::ReportLevel(p)]);
        }
        if let Action::ToggleGpio(p) = a {
            assert(steps@ =~= seq![GpioStep::SetOutput(p), GpioStep::Toggle(p), GpioStep::ReportLevel(p)]);
        }
        if let Action::GpioDemo(p) = a {
            assert(steps@ =~= seq![GpioStep::SetOutput(p), GpioStep::Announce(p)] + demo_rounds(
                p,
                GPIO_DEMO_ROUNDS as nat,
            ) + seq![GpioStep::Finish]);
        }
        if !(a is GpioDemo || a is ShowGpio || a is ToggleGpio) {
            assert(steps@ =~= Seq::<GpioStep>::empty());
        }
    }
    steps
}

/// A pin line `showgpio N`, `gpio N` or `togglegpio N` (N written in
/// decimal) is answered for pin N exactly when N < 28: `showgpio` announces
/// the read and asks for it, `togglegpio` announces the toggle and asks for
/// it, `gpio` asks for the demo silently; for N >= 28 each prints the
/// refusal and asks for nothing.
pub proof fn lemma_pin_command_answers(p: u32)
    ensures
        command_action(command_of("showgpio "@ + dec_chars(p as nat))) == (if p < 28 {
            Action::ShowGpio(p)
        } else {
            Action::Done
        }),
        command_output(command_of("showgpio "@ + dec_chars(p as nat))) == (if p < 28 {
            "Reading GPIO pin ".spec_bytes() + dec_digits(p as nat) + " state...\n".spec_bytes()
        } else {
            "Invalid pin number. Pin must be less than 28.\n".spec_bytes()
        }),
        command_action(command_of("togglegpio "@ + dec_chars(p as nat))) == (if p < 28 {
            Action::ToggleGpio(p)
        } else {
            Action::Done
        }),
        command_output(command_of("togglegpio "@ + dec_chars(p as nat))) == (if p < 28 {
            "Toggling GPIO pin ".spec_bytes() + dec_digits(p as nat) + " state...\n".spec_bytes()
        } else {
            "Invalid pin number. Pin must be less than 28.\n".spec_bytes()
        }),
        command_action(command_of("gpio "@ + dec_chars(p as nat))) == (if p < 28 {
            Action::GpioDemo(p)
        } else {
            Action::Done
        }),
        command_output(command_of("gpio "@ + dec_chars(p as nat))) == (if p < 28 {
            Seq::<u8>::empty()
        } else {
            "Invalid pin number. Pin must be less than 28.\n".spec_bytes()
        }),
{
    lemma_pin_command_lines(p);
}

/// A pin argument that is not a `u32` is refused with "Invalid GPIO pin
/// number."; `gpio` then also closes its demo. Nothing is asked of the
/// hardware.
pub proof fn lemma_bad_pin_argument()
    ensures
        command_action(Command::Gpio(None)) == Action::Done,
        command_action(Command::ShowGpio(None)) == Action::Done,
        command_action(Command::ToggleGpio(None)) == Action::Done,
        command_output(Command::Gpio(None)) == "Invalid GPIO pin number.\n".spec_bytes()
            + "GPIO demo complete.\n".spec_bytes(),
        command_output(Command::ShowGpio(None)) == "Invalid GPIO pin number.\n".spec_bytes(),
        command_output(Command::ToggleGpio(None)) == "Invalid GPIO pin number.\n".spec_bytes(),
{
}

/// Each command word is read as its command, and answered with its fixed
/// text and hardware action.
pub proof fn lemma_word_commands()
    ensures
        command_of("help"@) == Command::Help,
        command_of("meminfo"@) == Command::MemInfo,
        command_of("raminfo"@) == Command::RamInfo,
        command_of("demo"@) == Command::Demo,
        command_of("memdump"@) == Command::MemDump,
        command_of("regdump"@) == Command::RegDump,
        command_of("uptime"@) == Command::Uptime,
        command_of("reboot"@) == Command::Reboot,
        command_of("init_hdmi"@) == Command::InitHdmi,
        command_action(Command::Help) == Action::Done,
        command_output(Command::Help) == "Available commands: help, meminfo, raminfo, demo, gpio xx, showgpio xx, memdump, regdump, reboot, uptime , init_hdmi , togglegpio xx\n".spec_bytes(),
        command_action(Command::MemInfo) == Action::MemInfo,
        command_output(Command::MemInfo) == Seq::<u8>::empty(),
        command_action(Command::RamInfo) == Action::RamInfo,
        command_output(Command::RamInfo) == Seq::<u8>::empty(),
        command_action(Command::Demo) == Action::Demo,
        command_output(Command::Demo) == Seq::<u8>::empty(),
        command_action(Command::MemDump) == Action::MemDump,
        command_output(Command::MemDump) == "Memory dump at 0x80000:\n".spec_bytes(),
        command_action(Command::RegDump) == Action::RegDump,
        command_output(Command::RegDump) == Seq::<u8>::empty(),
        command_action(Command::Uptime) == Action::Uptime,
        command_output(Command::Uptime) == Seq::<u8>::empty(),
        command_action(Command::Reboot) == Action::Reboot,
        command_output(Command::Reboot) == "Rebooting...\n".spec_bytes(),
        command_action(Command::InitHdmi) == Action::InitHdmi,
        command_output(Command::InitHdmi) == Seq::<u8>::empty(),
        command_action(Command::Unknown) == Action::Done,
        command_output(Command::Unknown)
            == "Unknown command. Type 'help' for available commands.\n".spec_bytes(),
{
    reveal_strlit("help");
    reveal_strlit("meminfo");
    reveal_strlit("raminfo");
    reveal_strlit("demo");
    reveal_strlit("gpio ");
    reveal_strlit("showgpio ");
    reveal_strlit("memdump");
    reveal_strlit("regdump");
    reveal_strlit("uptime");
    reveal_strlit("reboot");
    reveal_strlit("init_hdmi");
    reveal_strlit("togglegpio ");
    assert("help"@.len() == 4 && "demo"@.len() == 4);
    assert("meminfo"@.len() == 7 && "raminfo"@.len() == 7 && "memdump"@.len() == 7 && "regdump"@.len() == 7);
    assert("uptime"@.len() == 6 && "reboot"@.len() == 6 && "init_hdmi"@.len() == 9);
    assert("gpio "@.len() == 5 && "showgpio "@.len() == 9 && "togglegpio "@.len() == 11);
    assert("meminfo"@ != "help"@) by { assert("meminfo"@[0] != "help"@[0]); }
    assert("raminfo"@ != "help"@) by { assert("raminfo"@[0] != "help"@[0]); }
    assert("raminfo"@ != "meminfo"@) by { assert("raminfo"@[0] != "meminfo"@[0]); }
    assert("demo"@ != "help"@) by { assert("demo"@[0] != "help"@[0]); }
    assert("uptime"@ != "reboot"@) by { assert("uptime"@[0] != "reboot"@[0]); }
    assert("demo"@ != "meminfo"@ && "demo"@ != "raminfo"@);
    assert(!has_prefix("demo"@, "gpio "@));
    assert(!has_prefix("demo"@, "showgpio "@));
    assert("memdump"@ != "help"@ && "memdump"@ != "raminfo"@ && "memdump"@ != "demo"@);
    assert("memdump"@ != "meminfo"@) by { assert("memdump"@[3] != "meminfo"@[3]); }
    assert(!has_prefix("memdump"@, "gpio "@)) by { assert("memdump"@.subrange(0, 5)[0] != "gpio "@[0]); }
    assert(!has_prefix("memdump"@, "showgpio "@));
    assert("regdump"@ != "help"@ && "regdump"@ != "demo"@);
    assert("regdump"@ != "memdump"@) by { assert("regdump"@[0] != "memdump"@[0]); }
    assert("regdump"@ != "meminfo"@) by { assert("regdump"@[0] != "meminfo"@[0]); }
    assert("regdump"@ != "raminfo"@) by { assert("regdump"@[1] != "raminfo"@[1]); }
    assert(!has_prefix("regdump"@, "gpio "@)) by { assert("regdump"@.subrange(0, 5)[0] != "gpio "@[0]); }
    assert(!has_prefix("regdump"@, "showgpio "@));
    assert("uptime"@ != "help"@ && "uptime"@ != "demo"@ && "uptime"@ != "meminfo"@ && "uptime"@ != "raminfo"@ && "uptime"@ != "memdump"@ && "uptime"@ != "regdump"@);
    assert(!has_prefix("uptime"@, "gpio "@)) by { assert("uptime"@.subrange(0, 5)[0] != "gpio "@[0]); }
    assert(!has_prefix("uptime"@, "showgpio "@));
    assert("reboot"@ != "help"@ && "reboot"@ != "demo"@ && "reboot"@ != "meminfo"@ && "reboot"@ != "memdump"@ && "reboot"@ != "uptime"@);
    assert("reboot"@ != "raminfo"@);
    assert("reboot"@ != "regdump"@) by { assert("reboot"@[2] != "regdump"@[2]); }
    assert(!has_prefix("reboot"@, "gpio "@)) by { assert("reboot"@.subrange(0, 5)[0] != "gpio "@[0]); }
    assert(!has_prefix("reboot"@, "showgpio "@));
    assert("init_hdmi"@ != "help"@ && "init_hdmi"@ != "demo"@ && "init_hdmi"@ != "meminfo"@ && "init_hdmi"@ != "raminfo"@ && "init_hdmi"@ != "memdump"@ && "init_hdmi"@ != "regdump"@ && "init_hdmi"@ != "uptime"@ && "init_hdmi"@ != "reboot"@);
    assert(!has_prefix("init_hdmi"@, "gpio "@)) by { assert("init_hdmi"@.subrange(0, 5)[0] != "gpio "@[0]); }
    assert(!has_prefix("init_hdmi"@, "showgpio "@)) by { assert("init_hdmi"@.subrange(0, 9)[0] != "showgpio "@[0]); }
}

/// The `meminfo` report gives each section's bounds in hex and its size,
/// `end - start`, in decimal, then the kernel end and the stack top.
pub proof fn lemma_meminfo_sizes(l: MemoryLayout)
    requires
        l.data_start <= l.data_end,
        l.bss_start <= l.bss_end,
    ensures
        meminfo_text(l) == "Data: ".spec_bytes() + hex_text(l.data_start as nat)
            + " - ".spec_bytes() + hex_text(l.data_end as nat) + " (".spec_bytes()
            + dec_digits((l.data_end - l.data_start) as nat) + " bytes)\n".spec_bytes()
            + "BSS:  ".spec_bytes() + hex_text(l.bss_start as nat) + " - ".spec_bytes()
            + hex_text(l.bss_end as nat) + " (".spec_bytes() + dec_digits(
            (l.bss_end - l.bss_start) as nat,
        ) + " bytes)\n".spec_bytes() + "Kernel end: ".spec_bytes() + hex_text(
            l.kernel_end as nat,
        ) + "\n".spec_bytes() + "Stack top: ".spec_bytes() + hex_text(l.stack_top as nat)
            + "\n".spec_bytes(),
        dec_value(dec_digits((l.data_end - l.data_start) as nat)) + l.data_start == l.data_end,
        dec_value(dec_digits((l.bss_end - l.bss_start) as nat)) + l.bss_start == l.bss_end,
{
    lemma_dec_digits_value((l.data_end - l.data_start) as nat);
    lemma_dec_digits_value((l.bss_end - l.bss_start) as nat);
}

/// The first `regdump` line shows the exception level, bits 3:2 of
/// CurrentEL (`CurrentEL >> 2`); the others show each register whole.
pub proof fn lemma_regdump_lines(r: CpuRegisters)
    ensures
        regdump_text(r) == "CurrentEL: ".spec_bytes() + hex_text((r.current_el >> 2u64) as nat)
            + "\n".spec_bytes() + "SP: ".spec_bytes() + hex_text(r.sp as nat) + "\n".spec_bytes()
            + "MIDR_EL1: ".spec_bytes() + hex_text(r.midr_el1 as nat) + "\n".spec_bytes()
            + "MPIDR_EL1: ".spec_bytes() + hex_text(r.mpidr_el1 as nat) + "\n".spec_bytes()
            + "TPIDR_EL0: ".spec_bytes() + hex_text(r.tpidr_el0 as nat) + "\n".spec_bytes()
            + "CNTFRQ_EL0: ".spec_bytes() + hex_text(r.cntfrq_el0 as nat) + "\n".spec_bytes()
            + "VBAR_EL1: ".spec_bytes() + hex_text(r.vbar_el1 as nat) + "\n".spec_bytes(),
        hex_value(hex_digits((r.current_el >> 2u64) as nat)) * 4 + r.current_el % 4 == r.current_el,
{
    let c = r.current_el;
    assert(c >> 2u64 == c / 4) by (bit_vector);
    lemma_hex_digits_value((c >> 2u64) as nat);
}

proof fn lemma_demo_rounds_shape(pin: u32, n: nat)
    ensures
        demo_rounds(pin, n).len() == 6 * n,
        forall|k: int|
            0 <= k < n ==> {
                &&& #[trigger] demo_rounds(pin, n)[6 * k] == GpioStep::Raise(pin)
                &&& demo_rounds(pin, n)[6 * k + 1] == GpioStep::ReportLevel(pin)
                &&& demo_rounds(pin, n)[6 * k + 2] == GpioStep::Delay(2)
                &&& demo_rounds(pin, n)[6 * k + 3] == GpioStep::Lower(pin)
                &&& demo_rounds(pin, n)[6 * k + 4] == GpioStep::ReportLevel(pin)
                &&& demo_rounds(pin, n)[6 * k + 5] == GpioStep::Delay(2)
            },
    decreases n,
{
    if n > 0 {
        lemma_demo_rounds_shape(pin, (n - 1) as nat);
        let prev = demo_rounds(pin, (n - 1) as nat);
        assert forall|k: int| 0 <= k < n implies {
            &&& #[trigger] demo_rounds(pin, n)[6 * k] == GpioStep::Raise(pin)
            &&& demo_rounds(pin, n)[6 * k + 1] == GpioStep::ReportLevel(pin)
            &&& demo_rounds(pin, n)[6 * k + 2] == GpioStep::Delay(2)
            &&& demo_rounds(pin, n)[6 * k + 3] == GpioStep::Lower(pin)
            &&& demo_rounds(pin, n)[6 * k + 4] == GpioStep::ReportLevel(pin)
            &&& demo_rounds(pin, n)[6 * k + 5] == GpioStep::Delay(2)
        } by {
            if k < n - 1 {
                assert(prev[6 * k] == GpioStep::Raise(pin));
            }
        }
    }
}

/// The `gpio N` demo makes the pin an output, announces itself, then ten
/// times drives the pin high, reports, waits two seconds, drives it low,
/// reports and waits two seconds, and finally closes; `togglegpio` makes the
/// pin an output, flips it and reports; `showgpio` only reports.
pub proof fn lemma_gpio_plans(pin: u32)
    ensures
        gpio_steps(Action::GpioDemo(pin)).len() == 63,
        gpio_steps(Action::GpioDemo(pin))[0] == GpioStep::SetOutput(pin),
        gpio_steps(Action::GpioDemo(pin))[1] == GpioStep::Announce(pin),
        forall|k: int|
            0 <= k < 10 ==> {
                &&& #[trigger] gpio_steps(Action::GpioDemo(pin))[2 + 6 * k] == GpioStep::Raise(pin)
                &&& gpio_steps(Action::GpioDemo(pin))[3 + 6 * k] == GpioStep::ReportLevel(pin)
                &&& gpio_steps(Action::GpioDemo(pin))[4 + 6 * k] == GpioStep::Delay(2)
                &&& gpio_steps(Action::GpioDemo(pin))[5 + 6 * k] == GpioStep::Lower(pin)
                &&& gpio_steps(Action::GpioDemo(pin))[6 + 6 * k] == GpioStep::ReportLevel(pin)
                &&& gpio_steps(Action::GpioDemo(pin))[7 + 6 * k] == GpioStep::Delay(2)
            },
        gpio_steps(Action::GpioDemo(pin))[62] == GpioStep::Finish,
        gpio_steps(Action::ToggleGpio(pin)) == seq![
            GpioStep::SetOutput(pin),
            GpioStep::Toggle(pin),
            GpioStep::ReportLevel(pin),
        ],
        gpio_steps(Action::ShowGpio(pin)) == seq![GpioStep::ReportLevel(pin)],
{
    lemma_demo_rounds_shape(pin, 10);
    let head = seq![GpioStep::SetOutput(pin), GpioStep::Announce(pin)];
    let rounds = demo_rounds(pin, 10);
    let all = gpio_steps(Action::GpioDemo(pin));
    assert(all == head + rounds + seq![GpioStep::Finish]);
    assert forall|k: int| 0 <= k < 10 implies {
        &&& #[trigger] all[2 + 6 * k] == GpioStep::Raise(pin)
        &&& all[3 + 6 * k] == GpioStep::ReportLevel(pin)
        &&& all[4 + 6 * k] == GpioStep::Delay(2)
        &&& all[5 + 6 * k] == GpioStep::Lower(pin)
        &&& all[6 + 6 * k] == GpioStep::ReportLevel(pin)
        &&& all[7 + 6 * k] == GpioStep::Delay(2)
    } by {
        assert(rounds[6 * k] == GpioStep::Raise(pin));
        assert(all[2 + 6 * k] == rounds[6 * k]);
        assert(all[3 + 6 * k] == rounds[6 * k + 1]);
        assert(all[4 + 6 * k] == rounds[6 * k + 2]);
        assert(all[5 + 6 * k] == rounds[6 * k + 3]);
        assert(all[6 + 6 * k] == rounds[6 * k + 4]);
        assert(all[7 + 6 * k] == rounds[6 * k + 5]);
    }
}

/// A level report names the pin in decimal and says HIGH for a high pin,
/// LOW for a low one.
pub proof fn lemma_gpio_level_lines(pin: u32)
    ensures
        gpio_level_text(pin, true) == "GPIO pin ".spec_bytes() + dec_digits(pin as nat)
            + " level: HIGH\n".spec_bytes(),
        gpio_level_text(pin, false) == "GPIO pin ".spec_bytes() + dec_digits(pin as nat)
            + " level: LOW\n".spec_bytes(),
{
    reveal_strlit(" level: ");
    reveal_strlit("HIGH");
    reveal_strlit("LOW");
    reveal_strlit("\n");
    reveal_strlit(" level: HIGH\n");
    reveal_strlit(" level: LOW\n");
    vstd::string::is_ascii_spec_bytes(" level: ");
    vstd::string::is_ascii_spec_bytes("HIGH");
    vstd::string::is_ascii_spec_bytes("LOW");
    vstd::string::is_ascii_spec_bytes("\n");
    vstd::string::is_ascii_spec_bytes(" level: HIGH\n");
    vstd::string::is_ascii_spec_bytes(" level: LOW\n");
    let pre = "GPIO pin ".spec_bytes() + dec_digits(pin as nat);
    assert(" level: ".spec_bytes() + "HIGH".spec_bytes() + "\n".spec_bytes() =~= " level: HIGH\n".spec_bytes());
    assert(" level: ".spec_bytes() + "LOW".spec_bytes() + "\n".spec_bytes() =~= " level: LOW\n".spec_bytes());
    assert(pre + " level: ".spec_bytes() + "HIGH".spec_bytes() + "\n".spec_bytes() =~= pre + " level: HIGH\n".spec_bytes());
    assert(pre + " level: ".spec_bytes() + "LOW".spec_bytes() + "\n".spec_bytes() =~= pre + " level: LOW\n".spec_bytes());
}

/// The memory dump prints three characters per byte and one newline per
/// full line of sixteen bytes, and each byte reads back from its two hex
/// digits.
pub proof fn lemma_memdump_length(bytes: Seq<u8>)
    ensures
        memdump_text(bytes).len() == 3 * bytes.len() + bytes.len() / 16,
    decreases bytes.len(),
{
    reveal_strlit(" ");
    reveal_strlit("\n");
    vstd::string::is_ascii_spec_bytes(" ");
    vstd::string::is_ascii_spec_bytes("\n");
    if bytes.len() > 0 {
        lemma_memdump_length(bytes.drop_last());
        let n = bytes.len();
        assert((n - 1) / 16 + (if n % 16 == 0 { 1int } else { 0 }) == n / 16) by (nonlinear_arith)
            requires
                n > 0,
        ;
    }
}

/// The `raminfo` and framebuffer reports: the values in `{:#x}` and `{}`
/// with their labels, or the failure line.
pub proof fn lemma_report_lines(base: u32, size: u32, f: Framebuffer)
    ensures
        ram_info_text(Some((base, size))) == "RAM base: ".spec_bytes() + hex_text(base as nat)
            + ", size: ".spec_bytes() + hex_text(size as nat) + "\n".spec_bytes(),
        ram_info_text(None) == "Failed to get RAM info.\n".spec_bytes(),
        hdmi_text(Some(f)) == "Framebuffer at ".spec_bytes() + hex_text(f.addr as nat)
            + ", pitch: ".spec_bytes() + hex_text(f.pitch as nat) + ", resolution: ".spec_bytes()
            + dec_digits(f.width as nat) + "x".spec_bytes() + dec_digits(f.height as nat)
            + ", depth: ".spec_bytes() + dec_digits(f.depth as nat) + "\n".spec_bytes(),
        hdmi_text(None) == "HDMI initialization failed.\n".spec_bytes(),
{
}

} // verus!
