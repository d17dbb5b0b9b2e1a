//! The start-up self test: the tasks it registers and what they report.
use vstd::prelude::*;
use vstd::string::StringSliceAdditionalSpecFns;
use crate::text::hex_text;
use crate::uart::Uart;

verus! {

/// Pin that the GPIO self test drives.
pub const SELFTEST_GPIO_PIN: u32 = 16;
/// Busy-loop iterations while the self-test pin is high.
pub const SELFTEST_GPIO_SPIN: u32 = 1_000_000;
/// Busy-loop iterations during which timer interrupts may fire.
pub const SELFTEST_IRQ_SPIN: u32 = 5_000_000;

/// The line the mailbox self test prints before it queries the firmware.
pub open spec fn selftest_mailbox_header() -> Seq<u8> {
    "[Selftest] Checking mailbox for RAM info...\n".spec_bytes()
}

/// The mailbox self-test result for what the firmware answered.
pub open spec fn selftest_mailbox_text(info: Option<(u32, u32)>) -> Seq<u8> {
    match info {
        Some((base, size)) => "[Selftest] RAM base: ".spec_bytes() + hex_text(base as nat)
            + ", size: ".spec_bytes() + hex_text(size as nat) + "\n".spec_bytes(),
        None => "[Selftest] Failed to retrieve RAM info.\n".spec_bytes(),
    }
}

/// Starts the mailbox self test: queues its header, which goes out before
/// the firmware is queried.
pub fn test_mailbox_start(uart: &mut Uart)
    ensures
        final(uart)@ == old(uart)@ + selftest_mailbox_header(),
{
    uart.write_str("[Selftest] Checking mailbox for RAM info...\n");
}

/// Finishes the mailbox self test, given the ARM memory range the firmware
/// gave (`None` when it did not answer): queues the result line only.
pub fn test_mailbox(uart: &mut Uart, info: Option<(u32, u32)>)
    ensures
        final(uart)@ == old(uart)@ + selftest_mailbox_text(info),
{
    broadcast use crate::text::lemma_concat_regroup;

    match info {
        Some((base, size)) => {
            uart.write_str("[Selftest] RAM base: ");
            uart.write_hex(base as u64);
            uart.write_str(", size: ");
            uart.write_hex(size as u64);
            uart.write_str("\n");
        },
        None => {
            uart.write_str("[Selftest] Failed to retrieve RAM info.\n");
        },
    }
}

/// The mailbox self test announces itself, then prints the base and size
/// in `{:#x}` or the failure.
pub proof fn lemma_selftest_mailbox_lines(base: u32, size: u32)
    ensures
        selftest_mailbox_header() == "[Selftest] Checking mailbox for RAM info...\n".spec_bytes(),
        selftest_mailbox_text(Some((base, size))) == "[Selftest] RAM base: ".spec_bytes()
            + hex_text(base as nat) + ", size: ".spec_bytes() + hex_text(size as nat)
            + "\n".spec_bytes(),
        selftest_mailbox_text(None) == "[Selftest] Failed to retrieve RAM info.\n".spec_bytes(),
{
}

} // verus!
