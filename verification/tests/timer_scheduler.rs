use krhos::mmio::RegWrite;
use krhos::scheduler::Scheduler;
use krhos::timer::{
    delay_done, delay_target, elapsed_ticks, interrupt_controller_init, print_timer_value, reboot,
    rust_irq_handler, timer_init, IRQ_BASIC_ENABLE, IRQ_ENABLE1, PM_RSTC, PM_WDOG, TIMER_CLR,
    TIMER_CTRL, TIMER_LOAD,
};
use krhos::uart::Uart;

#[test]
fn timer_start_up_writes() {
    assert_eq!(
        timer_init(),
        vec![
            RegWrite { addr: TIMER_LOAD, value: 0x1000 },
            RegWrite { addr: TIMER_CLR, value: 1 },
            RegWrite { addr: TIMER_CTRL, value: 0xE2 },
        ]
    );
    assert_eq!(
        interrupt_controller_init(0x6),
        vec![
            RegWrite { addr: IRQ_BASIC_ENABLE, value: 1 },
            RegWrite { addr: IRQ_ENABLE1, value: 0x7 },
        ]
    );
    assert_eq!(interrupt_controller_init(0x1)[1].value, 0x1);
}

#[test]
fn elapsed_time_wraps_around() {
    assert_eq!(elapsed_ticks(5, 10), 5);
    assert_eq!(elapsed_ticks(10, 10), 0);
    assert_eq!(elapsed_ticks(10, 5), 0xFFFF_FFFB);
    assert_eq!(elapsed_ticks(0xFFFF_FFF0, 0x10), 0x20);
    // d ticks after any start reads as d ticks elapsed.
    let start = 0xFFFF_0000u32;
    assert_eq!(elapsed_ticks(start, start.wrapping_add(0x2_0000)), 0x2_0000);
}

#[test]
fn delay_targets() {
    assert_eq!(delay_target(0, 2), 2_000_000);
    assert_eq!(delay_target(0xFFFF_FFFF, 1), 999_999);
    assert!(!delay_done(1_999_999, 2_000_000));
    assert!(delay_done(2_000_000, 2_000_000));
    assert!(delay_done(2_000_001, 2_000_000));
}

#[test]
fn watchdog_reboot_writes() {
    assert_eq!(
        reboot(),
        vec![
            RegWrite { addr: PM_WDOG, value: 0x5A00_0064 },
            RegWrite { addr: PM_RSTC, value: 0x5A00_0020 },
        ]
    );
}

#[test]
fn timer_reports() {
    let mut u = Uart::new();
    print_timer_value(&mut u, 0xFFF);
    assert_eq!(u.pending(), b"Timer value: 0xfff\n");
    let mut u = Uart::new();
    let w = rust_irq_handler(&mut u);
    assert_eq!(w, RegWrite { addr: TIMER_CLR, value: 1 });
    assert_eq!(u.pending(), b"\nTimer IRQ triggered!\n");
}

#[test]
fn scheduler_keeps_first_eight_in_order() {
    let mut s: Scheduler<u32> = Scheduler::new();
    assert_eq!(s.task_count(), 0);
    assert!(s.run_tasks().is_empty());
    for t in 0..10u32 {
        s.add_task(t);
    }
    assert_eq!(s.task_count(), 8);
    assert_eq!(s.run_tasks(), &[0, 1, 2, 3, 4, 5, 6, 7]);
}

#[test]
fn scheduler_runs_function_tasks() {
    fn one() -> u32 {
        1
    }
    fn two() -> u32 {
        2
    }
    let mut s: Scheduler<fn() -> u32> = Scheduler::new();
    s.add_task(one);
    s.add_task(two);
    let results: Vec<u32> = s.run_tasks().iter().map(|t| t()).collect();
    assert_eq!(results, vec![1, 2]);
}
