use krhos::text::{format_dec, format_hex, push_hex_byte};
use krhos::uart::{
    uart_init, uart_receive, uart_rx_ready, uart_send, uart_send_string, uart_tx_ready, Uart,
    UART0_CR, UART0_FBRD, UART0_IBRD, UART0_LCRH,
};
use krhos::mmio::RegWrite;

#[test]
fn decimal_formatting() {
    assert_eq!(format_dec(0), b"0".to_vec());
    assert_eq!(format_dec(7), b"7".to_vec());
    assert_eq!(format_dec(10), b"10".to_vec());
    assert_eq!(format_dec(4_294_967_295), b"4294967295".to_vec());
    assert_eq!(format_dec(u64::MAX), b"18446744073709551615".to_vec());
}

#[test]
fn hex_formatting() {
    assert_eq!(format_hex(0), b"0x0".to_vec());
    assert_eq!(format_hex(0x3F20_1000), b"0x3f201000".to_vec());
    assert_eq!(format_hex(0xABCDEF), b"0xabcdef".to_vec());
    assert_eq!(format_hex(u64::MAX), b"0xffffffffffffffff".to_vec());
    let mut v = Vec::new();
    push_hex_byte(&mut v, 0x0a);
    push_hex_byte(&mut v, 0xff);
    assert_eq!(v, b"0aff".to_vec());
}

#[test]
fn uart_init_programs_115200_8n1() {
    let w = uart_init();
    assert_eq!(
        w,
        vec![
            RegWrite { addr: UART0_CR, value: 0 },
            RegWrite { addr: UART0_IBRD, value: 26 },
            RegWrite { addr: UART0_FBRD, value: 43 },
            RegWrite { addr: UART0_LCRH, value: 0x60 },
            RegWrite { addr: UART0_CR, value: 0x301 },
        ]
    );
    assert_eq!(UART0_CR, 0x3F20_1030);
}

#[test]
fn uart_flags_and_receive() {
    assert!(uart_tx_ready(0));
    assert!(!uart_tx_ready(0x20));
    assert!(uart_tx_ready(0x10));
    assert!(uart_rx_ready(0x20));
    assert!(!uart_rx_ready(0x10));
    assert_eq!(uart_receive(0x0000_0141), 0x41);
    assert_eq!(uart_receive(0xFFFF_FF0D), 0x0D);
}

#[test]
fn uart_queue_keeps_order() {
    let mut u = Uart::new();
    uart_send_string(&mut u, b"ab");
    uart_send(&mut u, b'c');
    u.write_str("d\u{e9}");
    u.write_hex(255);
    u.write_dec(42);
    assert_eq!(u.pending(), "abcd\u{e9}0xff42".as_bytes());
    let taken = u.take_pending();
    assert_eq!(taken, "abcd\u{e9}0xff42".as_bytes().to_vec());
    assert!(u.pending().is_empty());
}
