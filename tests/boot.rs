use kernel_boot::board::Board;
use kernel_boot::console::Console;
use kernel_boot::init::{InitAction, InitSequence};
use kernel_boot::main_loop::{MainLoop, MainPhase};
use kernel_boot::text::{push_decimal, push_str};

fn board(name: &str, drivers: &[&str]) -> Board {
    Board::new(name.to_string(), drivers.iter().map(|d| d.to_string()).collect())
}

fn text(v: &[char]) -> String {
    v.iter().collect()
}

/// Drives early init with the given driver outcomes; returns the drivers asked
/// for, whether the hook ran, and the final action.
fn drive(count: usize, outcomes: &[bool]) -> (Vec<usize>, bool, InitAction, InitSequence) {
    let mut seq = InitSequence::new(count);
    let mut asked = Vec::new();
    let mut hook = false;
    loop {
        match seq.next_action() {
            InitAction::InitDriver(i) => {
                asked.push(i);
                seq.driver_done(outcomes[i]);
            }
            InitAction::RunPostHook => {
                assert!(!hook);
                hook = true;
                seq.hook_done();
            }
            a => return (asked, hook, a, seq),
        }
    }
}

fn feed(console: &mut Console, s: &str) {
    for c in s.chars() {
        console.receive(c);
    }
}

fn run_main(m: &mut MainLoop, b: &Board, console: &mut Console) {
    while m.poll(b, console) {}
}

#[test]
fn scenario_success_prints_banner_then_echoes() {
    let b = board("X", &["uart", "gpio"]);
    let (asked, hook, last, seq) = drive(b.driver_count(), &[true, true]);
    assert_eq!(asked, vec![0, 1]);
    assert!(hook);
    assert_eq!(last, InitAction::EnterMainLoop);
    let mut m = MainLoop::new(seq);
    let mut console = Console::new();
    feed(&mut console, "\nhi");
    run_main(&mut m, &b, &mut console);
    let out = text(&console.take_output());
    assert_eq!(
        out,
        "[0] Booting on: X\n[1] Drivers loaded:\n      1. uart\n      2. gpio\n\
         [2] Chars written: 0\n[3] Echoing input now\nhi"
    );
    assert!(out.contains("1. uart"));
    assert!(out.contains("2. gpio"));
    assert!(out.contains("[2] Chars written: 0"));
    assert!(out.ends_with("hi"));
    assert_eq!(m.phase(), MainPhase::Echo);
    assert_eq!(console.chars_written() as usize, out.chars().count());
}

#[test]
fn scenario_failure_halts_naming_driver() {
    let b = board("X", &["uart", "gpio"]);
    let (asked, hook, last, _) = drive(b.driver_count(), &[true, false]);
    assert_eq!(asked, vec![0, 1]);
    assert!(!hook);
    assert_eq!(last, InitAction::Halt(1));
    assert_eq!(text(&b.fatal_message(1)), "Error loading driver: gpio");
}

#[test]
fn init_runs_drivers_in_board_order() {
    let (asked, hook, last, _) = drive(5, &[true; 5]);
    assert_eq!(asked, vec![0, 1, 2, 3, 4]);
    assert!(hook);
    assert_eq!(last, InitAction::EnterMainLoop);
}

#[test]
fn init_stops_at_first_failure() {
    let (asked, hook, last, _) = drive(4, &[true, false, true, true]);
    assert_eq!(asked, vec![0, 1]);
    assert!(!hook);
    assert_eq!(last, InitAction::Halt(1));
}

#[test]
fn init_first_driver_failing_runs_no_other() {
    let (asked, hook, last, seq) = drive(3, &[false, true, true]);
    assert_eq!(asked, vec![0]);
    assert!(!hook);
    assert_eq!(last, InitAction::Halt(0));
    assert_eq!(seq.next_action(), InitAction::Halt(0));
}

#[test]
fn init_last_driver_failing_skips_hook() {
    let (asked, hook, last, _) = drive(3, &[true, true, false]);
    assert_eq!(asked, vec![0, 1, 2]);
    assert!(!hook);
    assert_eq!(last, InitAction::Halt(2));
}

#[test]
fn init_without_drivers_runs_hook_at_once() {
    let seq = InitSequence::new(0);
    assert_eq!(seq.next_action(), InitAction::RunPostHook);
    let (asked, hook, last, _) = drive(0, &[]);
    assert!(asked.is_empty());
    assert!(hook);
    assert_eq!(last, InitAction::EnterMainLoop);
}

#[test]
fn counter_counts_each_write() {
    let mut c = Console::new();
    assert_eq!(c.chars_written(), 0);
    c.write_char('a');
    assert_eq!(c.chars_written(), 1);
    let before = c.chars_written();
    c.write_all(&vec!['x', 'y', 'z', 'w']);
    assert_eq!(c.chars_written(), before + 4);
    c.write_all(&vec![]);
    assert_eq!(c.chars_written(), before + 4);
    assert_eq!(text(&c.take_output()), "axyzw");
    assert_eq!(c.chars_written(), 5);
    assert!(c.take_output().is_empty());
}

#[test]
fn console_reads_in_arrival_order() {
    let mut c = Console::new();
    assert_eq!(c.read_char(), None);
    feed(&mut c, "ab");
    assert_eq!(c.read_char(), Some('a'));
    assert_eq!(c.read_char(), Some('b'));
    assert_eq!(c.read_char(), None);
    assert_eq!(c.chars_written(), 0);
}

#[test]
fn echo_writes_back_each_character_in_order() {
    let b = board("pi", &[]);
    let (_, _, _, seq) = drive(0, &[]);
    let mut m = MainLoop::new(seq);
    let mut c = Console::new();
    feed(&mut c, "\n");
    run_main(&mut m, &b, &mut c);
    c.take_output();
    let before = c.chars_written();
    feed(&mut c, "Hello,\n world\r\n");
    run_main(&mut m, &b, &mut c);
    assert_eq!(text(&c.take_output()), "Hello,\n world\r\n");
    assert_eq!(c.chars_written(), before + 15);
}

#[test]
fn wait_phase_drops_everything_but_newline() {
    let b = board("pi", &["uart"]);
    let (_, _, _, seq) = drive(1, &[true]);
    let mut m = MainLoop::new(seq);
    let mut c = Console::new();
    feed(&mut c, "abc \r");
    run_main(&mut m, &b, &mut c);
    assert_eq!(m.phase(), MainPhase::WaitForStart);
    assert!(c.take_output().is_empty());
    assert_eq!(c.chars_written(), 0);
    feed(&mut c, "\n\nz");
    run_main(&mut m, &b, &mut c);
    assert_eq!(m.phase(), MainPhase::Echo);
    let out = text(&c.take_output());
    assert_eq!(out.matches("[0] Booting on: pi").count(), 1);
    assert!(out.ends_with("[3] Echoing input now\n\nz"));
}

#[test]
fn poll_without_input_changes_nothing() {
    let b = board("pi", &["uart"]);
    let (_, _, _, seq) = drive(1, &[true]);
    let mut m = MainLoop::new(seq);
    let mut c = Console::new();
    assert!(!m.poll(&b, &mut c));
    assert_eq!(m.phase(), MainPhase::WaitForStart);
    assert_eq!(c.chars_written(), 0);
}

#[test]
fn banner_reports_counter_and_numbers_drivers() {
    let names: Vec<String> = (0..11).map(|i| format!("d{}", i)).collect();
    let b = Board::new("board".to_string(), names);
    let out = text(&b.banner(1234));
    assert!(out.starts_with("[0] Booting on: board\n[1] Drivers loaded:\n      1. d0\n"));
    assert!(out.contains("      10. d9\n      11. d10\n"));
    assert!(out.ends_with("[2] Chars written: 1234\n[3] Echoing input now\n"));
}

#[test]
fn banner_without_drivers() {
    let b = board("empty", &[]);
    assert_eq!(
        text(&b.banner(7)),
        "[0] Booting on: empty\n[1] Drivers loaded:\n[2] Chars written: 7\n[3] Echoing input now\n"
    );
}

#[test]
fn banner_counts_writes_made_before_it() {
    let b = board("X", &["uart"]);
    let (_, _, _, seq) = drive(1, &[true]);
    let mut m = MainLoop::new(seq);
    let mut c = Console::new();
    c.write_all(&vec!['o', 'k']);
    feed(&mut c, "\n");
    run_main(&mut m, &b, &mut c);
    assert!(text(&c.take_output()).contains("[2] Chars written: 2\n"));
}

#[test]
fn decimal_digits() {
    let mut v = Vec::new();
    push_decimal(&mut v, 0);
    assert_eq!(text(&v), "0");
    let mut v = Vec::new();
    push_decimal(&mut v, 9);
    push_str(&mut v, ",");
    push_decimal(&mut v, 10);
    assert_eq!(text(&v), "9,10");
    let mut v = Vec::new();
    push_decimal(&mut v, u64::MAX as u128);
    assert_eq!(text(&v), "18446744073709551615");
}

#[test]
fn board_accessors() {
    let b = board("rpi3", &["BCM GPIO", "BCM PL011 UART"]);
    assert_eq!(b.name(), "rpi3");
    assert_eq!(b.driver_count(), 2);
    assert_eq!(b.compatible(1), "BCM PL011 UART");
    assert_eq!(text(&b.fatal_message(0)), "Error loading driver: BCM GPIO");
}
