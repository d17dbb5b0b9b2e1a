use krhos::commands::Action;
use krhos::framebuffer::draw_square;
use krhos::logo::{logo_hdmi_row, logo_line, print_logo, LOGO_LINES};
use krhos::selftest::{test_mailbox, test_mailbox_start};
use krhos::shell::{prompt, KeyOutcome, Shell, CMD_LINE_MAX, KEY_ERASE};
use krhos::uart::Uart;

fn type_line(shell: &mut Shell, uart: &mut Uart, text: &[u8]) -> Vec<KeyOutcome> {
    text.iter().map(|&b| shell.feed(b, uart)).collect()
}

#[test]
fn typing_echoes_and_submits() {
    let mut s = Shell::new();
    let mut u = Uart::new();
    let outs = type_line(&mut s, &mut u, b"demo");
    assert!(outs.iter().all(|o| *o == KeyOutcome::Editing));
    assert_eq!(s.line(), b"demo");
    assert_eq!(u.take_pending(), b"demo".to_vec());
    assert_eq!(s.feed(b'\r', &mut u), KeyOutcome::Submitted(Action::Demo));
    assert_eq!(s.len(), 0);
    assert_eq!(u.take_pending(), b"\n".to_vec());
    prompt(&mut u);
    assert_eq!(u.take_pending(), b">>".to_vec());
}

#[test]
fn help_line_prints_the_list() {
    let mut s = Shell::new();
    let mut u = Uart::new();
    type_line(&mut s, &mut u, b"help");
    assert_eq!(s.feed(b'\n', &mut u), KeyOutcome::Submitted(Action::Done));
    let out = u.take_pending();
    assert!(out.starts_with(b"help\nAvailable commands: help, meminfo"));
    assert!(out.ends_with(b"togglegpio xx\n"));
}

#[test]
fn erase_removes_the_last_byte() {
    let mut s = Shell::new();
    let mut u = Uart::new();
    type_line(&mut s, &mut u, b"gpiox");
    assert_eq!(s.feed(KEY_ERASE, &mut u), KeyOutcome::Editing);
    assert_eq!(s.line(), b"gpio");
    assert_eq!(u.take_pending(), b"gpiox\x08 \x08".to_vec());
    let mut empty = Shell::new();
    assert_eq!(empty.feed(KEY_ERASE, &mut u), KeyOutcome::Editing);
    assert!(u.pending().is_empty());
    assert_eq!(empty.len(), 0);
}

#[test]
fn line_is_capped_at_127_bytes() {
    let mut s = Shell::new();
    let mut u = Uart::new();
    let long = vec![b'a'; 130];
    type_line(&mut s, &mut u, &long);
    assert_eq!(s.len(), CMD_LINE_MAX);
    assert_eq!(u.take_pending().len(), 127);
    assert_eq!(s.feed(b'\r', &mut u), KeyOutcome::Submitted(Action::Done));
    let out = u.take_pending();
    assert!(out.ends_with(b"Unknown command. Type 'help' for available commands.\n"));
}

#[test]
fn invalid_utf8_is_dropped() {
    let mut s = Shell::new();
    let mut u = Uart::new();
    assert_eq!(s.feed(0xFF, &mut u), KeyOutcome::Editing);
    assert_eq!(s.feed(b'\n', &mut u), KeyOutcome::InvalidUtf8);
    assert_eq!(u.take_pending(), b"\xff\nInvalid UTF-8 input.\n".to_vec());
    assert_eq!(s.len(), 0);
}

#[test]
fn gpio_line_through_the_shell() {
    let mut s = Shell::new();
    let mut u = Uart::new();
    type_line(&mut s, &mut u, b"togglegpio 16");
    assert_eq!(s.feed(b'\r', &mut u), KeyOutcome::Submitted(Action::ToggleGpio(16)));
    assert_eq!(u.take_pending(), b"togglegpio 16\nToggling GPIO pin 16 state...\n".to_vec());
}

#[test]
fn banner() {
    let mut u = Uart::new();
    print_logo(&mut u);
    let out = String::from_utf8(u.take_pending()).unwrap();
    assert_eq!(out.lines().count(), 13);
    assert!(out.starts_with("   ________________________________________________________  \n"));
    assert!(out.ends_with("------------------------v 0.1.0----------------------------- \n"));
    assert!(out.contains("     K         R          H           O            S         \n"));
    assert_eq!(LOGO_LINES, 13);
    assert_eq!(logo_line(0), "   ________________________________________________________  \n");
    assert_eq!(logo_hdmi_row(0), 100);
    assert_eq!(logo_hdmi_row(12), 340);
}

#[test]
fn square_pixels() {
    let p = draw_square(0, 0);
    assert_eq!(p.len(), 10_000);
    assert_eq!(p[0], 0);
    assert_eq!(p[99], 99);
    assert_eq!(p[100], 1024);
    assert_eq!(p[9999], 99 * 1024 + 99);
    let q = draw_square(100, 400);
    assert_eq!(q[0], 400 * 1024 + 100);
    assert_eq!(q[150], 401 * 1024 + 150);
}

#[test]
fn selftest_mailbox_report() {
    let mut u = Uart::new();
    test_mailbox_start(&mut u);
    assert_eq!(u.take_pending(), b"[Selftest] Checking mailbox for RAM info...\n".to_vec());
    test_mailbox(&mut u, Some((0, 0x3B40_0000)));
    assert_eq!(
        u.take_pending(),
        b"[Selftest] RAM base: 0x0, size: 0x3b400000\n".to_vec()
    );
    test_mailbox(&mut u, None);
    assert_eq!(u.take_pending(), b"[Selftest] Failed to retrieve RAM info.\n".to_vec());
}
