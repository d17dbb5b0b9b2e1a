use krhos::gpio::{
    GPIO, GPIO_CLRO, GPIO_FSEL0, GPIO_FSEL1, GPIO_FSEL2, GPIO_LEV0, GPIO_LEV1, GPIO_SETO,
};
use krhos::mailbox::{
    get_framebuffer_address, get_ram_info, mailbox_can_read, mailbox_can_write, mailbox_read,
    mailbox_write, property_request, MailboxBuffer, RamInfoBuffer, MAILBOX_CHANNEL_PROP,
    MAILBOX_WRITE,
};
use krhos::mmio::RegWrite;

#[test]
fn pin_numbers_below_28_are_accepted() {
    assert!(GPIO::check_pin_no(0));
    assert!(GPIO::check_pin_no(27));
    assert!(!GPIO::check_pin_no(28));
    assert!(!GPIO::check_pin_no(u32::MAX));
}

#[test]
fn function_select_registers() {
    assert_eq!(GPIO::fsel_register(9), GPIO_FSEL0);
    assert_eq!(GPIO::fsel_register(10), GPIO_FSEL1);
    assert_eq!(GPIO::fsel_register(19), GPIO_FSEL1);
    assert_eq!(GPIO::fsel_register(29), GPIO_FSEL2);
}

#[test]
fn set_output_touches_only_the_pins_field() {
    let w = GPIO::set_output(17, 0xFFFF_FFFF);
    assert_eq!(w, RegWrite { addr: GPIO_FSEL1, value: 0xFF3F_FFFF });
    let w = GPIO::set_output(0, 0);
    assert_eq!(w, RegWrite { addr: GPIO_FSEL0, value: 1 });
    let w = GPIO::set_output(29, 0x3FFF_FFFF);
    assert_eq!(w, RegWrite { addr: GPIO_FSEL2, value: 0x0FFF_FFFF });
    // Idempotent: selecting output again changes nothing.
    let again = GPIO::set_output(17, 0xFF3F_FFFF);
    assert_eq!(again.value, 0xFF3F_FFFF);
}

#[test]
fn set_clear_and_levels() {
    assert_eq!(GPIO::set(16, 0), RegWrite { addr: GPIO_SETO, value: 0x1_0000 });
    assert_eq!(GPIO::clear(16, 1), RegWrite { addr: GPIO_CLRO, value: 0x1_0001 });
    assert_eq!(GPIO::set(31, 0), RegWrite { addr: GPIO_SETO, value: 0x8000_0000 });
    assert!(GPIO::read_level(16, 0x1_0000));
    assert!(!GPIO::read_level(15, 0x1_0000));
    assert_eq!(GPIO::level_register(31), GPIO_LEV0);
    assert_eq!(GPIO::level_register(40), GPIO_LEV1);
    assert!(GPIO::read_level(40, 1 << 8));
    assert_eq!(GPIO::toggle_register(true), GPIO_CLRO);
    assert_eq!(GPIO::toggle_register(false), GPIO_SETO);
    assert_eq!(GPIO::toggle(5, true, 0), RegWrite { addr: GPIO_CLRO, value: 0x20 });
    assert_eq!(GPIO::toggle(5, false, 2), RegWrite { addr: GPIO_SETO, value: 0x22 });
}

#[test]
fn mailbox_words() {
    assert_eq!(mailbox_write(8, 0x1234), RegWrite { addr: MAILBOX_WRITE, value: 0x12348 });
    assert_eq!(mailbox_write(8, 0xF000_0001).value, 0x0000_0018);
    assert_eq!(mailbox_read(8, 0x12348), Some(0x1234));
    assert_eq!(mailbox_read(1, 0x12348), None);
    // A word read back on its own channel gives the data that was posted.
    let posted = mailbox_write(3, 0x0ABC_DEF0).value;
    assert_eq!(mailbox_read(3, posted), Some(0x0ABC_DEF0));
    assert!(mailbox_can_read(0x8000_0000));
    assert!(!mailbox_can_read(0x4000_0000));
    assert!(mailbox_can_write(0x4000_0000));
    assert!(!mailbox_can_write(0x8000_0000));
    assert_eq!(property_request(0x8_0010).value, 0x8_0018);
    assert_eq!(MAILBOX_CHANNEL_PROP, 8);
}

#[test]
fn property_buffers() {
    let fb = MailboxBuffer::new();
    assert_eq!(fb.buffer, [32, 0, 0x0004_0001, 8, 8, 800, 600, 0]);
    let ram = RamInfoBuffer::new();
    assert_eq!(ram.buffer, [32, 0, 0x0001_0005, 8, 8, 0, 0, 0]);
}

#[test]
fn framebuffer_answer() {
    let mut fb = MailboxBuffer::new();
    fb.buffer[1] = 0x8000_0000;
    fb.buffer[5] = 0xC010_0000;
    fb.buffer[6] = 3200;
    assert_eq!(get_framebuffer_address(0x8_0000, 0x8000, &fb), Some((0x0010_0000, 3200)));
    assert_eq!(get_framebuffer_address(0x8_0000, 0x8001, &fb), None);
    fb.buffer[1] = 0x8000_0001;
    assert_eq!(get_framebuffer_address(0x8_0000, 0x8000, &fb), None);
}

#[test]
fn ram_info_answer() {
    let mut ram = RamInfoBuffer::new();
    assert_eq!(get_ram_info(0x9_0000, 0x9000, &ram), None);
    ram.buffer[1] = 0x8000_0000;
    ram.buffer[5] = 0;
    ram.buffer[6] = 0x3B40_0000;
    assert_eq!(get_ram_info(0x9_0000, 0x9000, &ram), Some((0, 0x3B40_0000)));
    assert_eq!(get_ram_info(0x9_0000, 0x9001, &ram), None);
}
