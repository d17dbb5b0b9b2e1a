use krhos::commands::{
    gpio_demo_finish, gpio_demo_start, gpio_plan, parse_command, GpioStep, process_command, report_demo,
    report_gpio_level, report_hdmi, report_hdmi_drawn, report_meminfo, report_memdump,
    report_ram_info, report_regdump, Action, Command, CpuRegisters, Framebuffer, MemoryLayout,
};
use krhos::text::format_dec;
use krhos::uart::Uart;

const HELP: &[u8] = b"Available commands: help, meminfo, raminfo, demo, gpio xx, showgpio xx, memdump, regdump, reboot, uptime , init_hdmi , togglegpio xx\n";

#[test]
fn exact_words() {
    assert_eq!(parse_command("help"), Command::Help);
    assert_eq!(parse_command("meminfo"), Command::MemInfo);
    assert_eq!(parse_command("raminfo"), Command::RamInfo);
    assert_eq!(parse_command("demo"), Command::Demo);
    assert_eq!(parse_command("memdump"), Command::MemDump);
    assert_eq!(parse_command("regdump"), Command::RegDump);
    assert_eq!(parse_command("uptime"), Command::Uptime);
    assert_eq!(parse_command("reboot"), Command::Reboot);
    assert_eq!(parse_command("init_hdmi"), Command::InitHdmi);
    assert_eq!(parse_command("Help"), Command::Unknown);
    assert_eq!(parse_command("help "), Command::Unknown);
    assert_eq!(parse_command(""), Command::Unknown);
    assert_eq!(parse_command("gpio"), Command::Unknown);
}

#[test]
fn pin_arguments() {
    assert_eq!(parse_command("gpio 17"), Command::Gpio(Some(17)));
    assert_eq!(parse_command("gpio   +17  "), Command::Gpio(Some(17)));
    assert_eq!(parse_command("gpio 007"), Command::Gpio(Some(7)));
    assert_eq!(parse_command("gpio \u{a0}5\u{3000}"), Command::Gpio(Some(5)));
    assert_eq!(parse_command("gpio abc"), Command::Gpio(None));
    assert_eq!(parse_command("gpio "), Command::Gpio(None));
    assert_eq!(parse_command("gpio +"), Command::Gpio(None));
    assert_eq!(parse_command("gpio -1"), Command::Gpio(None));
    assert_eq!(parse_command("gpio 1 2"), Command::Gpio(None));
    assert_eq!(parse_command("gpio 4294967295"), Command::Gpio(Some(u32::MAX)));
    assert_eq!(parse_command("gpio 4294967296"), Command::Gpio(None));
    assert_eq!(parse_command("gpio 99999999999x"), Command::Gpio(None));
    assert_eq!(parse_command("showgpio 5"), Command::ShowGpio(Some(5)));
    assert_eq!(parse_command("togglegpio 3"), Command::ToggleGpio(Some(3)));
    assert_eq!(parse_command("togglegpio x"), Command::ToggleGpio(None));
}

#[test]
fn printed_numbers_parse_back() {
    for n in [0u32, 5, 27, 28, 1000, u32::MAX] {
        let digits = String::from_utf8(format_dec(n as u64)).unwrap();
        assert_eq!(parse_command(&format!("showgpio {}", digits)), Command::ShowGpio(Some(n)));
    }
}

fn answer(cmd: &str) -> (Action, Vec<u8>) {
    let mut u = Uart::new();
    let a = process_command(cmd, &mut u);
    (a, u.take_pending())
}

#[test]
fn answers_without_hardware() {
    assert_eq!(answer("help"), (Action::Done, HELP.to_vec()));
    assert_eq!(
        answer("nope"),
        (Action::Done, b"Unknown command. Type 'help' for available commands.\n".to_vec())
    );
    assert_eq!(
        answer("gpio x"),
        (Action::Done, b"Invalid GPIO pin number.\nGPIO demo complete.\n".to_vec())
    );
    assert_eq!(
        answer("gpio 28"),
        (Action::Done, b"Invalid pin number. Pin must be less than 28.\n".to_vec())
    );
    assert_eq!(answer("gpio 27"), (Action::GpioDemo(27), Vec::new()));
    assert_eq!(answer("showgpio x"), (Action::Done, b"Invalid GPIO pin number.\n".to_vec()));
    assert_eq!(
        answer("showgpio 4"),
        (Action::ShowGpio(4), b"Reading GPIO pin 4 state...\n".to_vec())
    );
    assert_eq!(
        answer("togglegpio 21"),
        (Action::ToggleGpio(21), b"Toggling GPIO pin 21 state...\n".to_vec())
    );
    assert_eq!(
        answer("togglegpio 99"),
        (Action::Done, b"Invalid pin number. Pin must be less than 28.\n".to_vec())
    );
    assert_eq!(answer("memdump"), (Action::MemDump, b"Memory dump at 0x80000:\n".to_vec()));
    assert_eq!(answer("reboot"), (Action::Reboot, b"Rebooting...\n".to_vec()));
    assert_eq!(answer("meminfo"), (Action::MemInfo, Vec::new()));
    assert_eq!(answer("raminfo"), (Action::RamInfo, Vec::new()));
    assert_eq!(answer("demo"), (Action::Demo, Vec::new()));
    assert_eq!(answer("regdump"), (Action::RegDump, Vec::new()));
    assert_eq!(answer("uptime"), (Action::Uptime, Vec::new()));
    assert_eq!(answer("init_hdmi"), (Action::InitHdmi, Vec::new()));
}

#[test]
fn gpio_reports() {
    let mut u = Uart::new();
    gpio_demo_start(&mut u, 16);
    report_gpio_level(&mut u, 16, true);
    report_gpio_level(&mut u, 16, false);
    gpio_demo_finish(&mut u);
    assert_eq!(
        u.pending(),
        &b"Toggling GPIO pin 16...\nGPIO pin 16 level: HIGH\nGPIO pin 16 level: LOW\nGPIO toggle complete.\nGPIO demo complete.\n"[..]
    );
}

#[test]
fn meminfo_report() {
    let mut u = Uart::new();
    let l = MemoryLayout {
        data_start: 0x9_0000,
        data_end: 0x9_0010,
        bss_start: 0x9_1000,
        bss_end: 0x9_1000,
        kernel_end: 0xA_0000,
        stack_top: 0x8_0000,
    };
    report_meminfo(&mut u, &l);
    assert_eq!(
        u.pending(),
        &b"Data: 0x90000 - 0x90010 (16 bytes)\nBSS:  0x91000 - 0x91000 (0 bytes)\nKernel end: 0xa0000\nStack top: 0x80000\n"[..]
    );
}

#[test]
fn ram_info_report() {
    let mut u = Uart::new();
    report_ram_info(&mut u, Some((0, 0x3B40_0000)));
    report_ram_info(&mut u, None);
    assert_eq!(
        u.pending(),
        &b"RAM base: 0x0, size: 0x3b400000\nFailed to get RAM info.\n"[..]
    );
}

#[test]
fn demo_report() {
    let mut u = Uart::new();
    report_demo(&mut u, 100, 350);
    report_demo(&mut u, 0xFFFF_FFFF, 1);
    assert_eq!(
        u.pending(),
        &b"Loop ran for 250 microseconds\nLoop ran for 2 microseconds\n"[..]
    );
}

#[test]
fn memdump_report() {
    let bytes: Vec<u8> = (0..64u32).map(|i| (i * 5) as u8).collect();
    let mut u = Uart::new();
    report_memdump(&mut u, &bytes);
    let mut expected = String::new();
    for (i, b) in bytes.iter().enumerate() {
        expected.push_str(&format!("{:02x} ", b));
        if (i + 1) % 16 == 0 {
            expected.push('\n');
        }
    }
    assert_eq!(u.pending(), expected.as_bytes());
    assert!(u.pending().starts_with(b"00 05 0a 0f 14 "));
    assert_eq!(u.pending().iter().filter(|&&c| c == b'\n').count(), 4);
}

#[test]
fn regdump_report() {
    let r = CpuRegisters {
        current_el: 0x4,
        sp: 0x8_0000,
        midr_el1: 0x410F_D034,
        mpidr_el1: 0x8000_0000,
        tpidr_el0: 0,
        cntfrq_el0: 19_200_000,
        vbar_el1: 0x8_1000,
    };
    let mut u = Uart::new();
    report_regdump(&mut u, &r);
    assert_eq!(
        u.pending(),
        &b"CurrentEL: 0x1\nSP: 0x80000\nMIDR_EL1: 0x410fd034\nMPIDR_EL1: 0x80000000\nTPIDR_EL0: 0x0\nCNTFRQ_EL0: 0x124f800\nVBAR_EL1: 0x81000\n"[..]
    );
}

#[test]
fn hdmi_reports() {
    let mut u = Uart::new();
    report_hdmi(
        &mut u,
        Some(Framebuffer { addr: 0x3E40_2000, pitch: 0xC80, width: 800, height: 600, depth: 32 }),
    );
    report_hdmi_drawn(&mut u);
    report_hdmi(&mut u, None);
    assert_eq!(
        u.pending(),
        &b"Framebuffer at 0x3e402000, pitch: 0xc80, resolution: 800x600, depth: 32\nHDMI initialized and red square drawn.\nHDMI initialization failed.\n"[..]
    );
}

#[test]
fn pin_command_plans() {
    let demo = gpio_plan(Action::GpioDemo(16));
    assert_eq!(demo.len(), 2 + 6 * 10 + 1);
    assert_eq!(demo[0], GpioStep::SetOutput(16));
    assert_eq!(demo[1], GpioStep::Announce(16));
    assert_eq!(
        demo[2..8].to_vec(),
        vec![
            GpioStep::Raise(16),
            GpioStep::ReportLevel(16),
            GpioStep::Delay(2),
            GpioStep::Lower(16),
            GpioStep::ReportLevel(16),
            GpioStep::Delay(2),
        ]
    );
    assert_eq!(demo[62], GpioStep::Finish);
    assert_eq!(gpio_plan(Action::ShowGpio(3)), vec![GpioStep::ReportLevel(3)]);
    assert_eq!(
        gpio_plan(Action::ToggleGpio(5)),
        vec![GpioStep::SetOutput(5), GpioStep::Toggle(5), GpioStep::ReportLevel(5)]
    );
    assert!(gpio_plan(Action::Demo).is_empty());
}
