//! Verified core of the KRHOS bare-metal shell for the Raspberry Pi 3:
//! command parsing, register-value computation for the GPIO, UART, mailbox
//! and timer peripherals, text formatting and the line editor of the console.
//! The memory-mapped accesses themselves are performed by the caller.
pub mod cmdline;
pub mod commands;
pub mod framebuffer;
pub mod gpio;
pub mod mailbox;
pub mod logo;
pub mod mmio;
pub mod scheduler;
pub mod selftest;
pub mod shell;
pub mod text;
pub mod timer;
pub mod uart;
