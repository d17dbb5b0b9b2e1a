# krhos

The verified core of KRHOS, a small bare-metal shell for the Raspberry Pi 3
(BCM2837, AArch64).

- `src/` is the library, checked by Verus: the command parser and the shell's
  answers (`commands`, `cmdline`), the line editor of the console (`shell`),
  the register values for the GPIO, UART, mailbox and timer peripherals
  (`gpio`, `uart`, `mailbox`, `timer`), number formatting (`text`), the banner
  (`logo`), the framebuffer square (`framebuffer`), the task table
  (`scheduler`) and the self-test reports (`selftest`).
- `app/` is the kernel around it: entry points, the memory-mapped loads and
  stores, the polling loops, inline assembly and the uptime report (which
  prints a float).
- `tests/` runs the library on concrete values.
