use primoria::apps::simple_counter_1;
use primoria::serial::number_chars;
use primoria::serial::spawn_stack_message;
use primoria::serial::thread_count_message;
use primoria::apps::simple_counter_args;
use primoria::apps::DigitDraw;
use primoria::ata::is_busy;
use primoria::ata::is_drive_ready;
use primoria::ata::read_sector_commands;
use primoria::ata::write_sector_commands;
use primoria::ata::PortWrite;
use primoria::idt::InterruptIndex;
use primoria::memory::Allocator;
use primoria::qemu::QemuExitCode;
use primoria::vga::cell_rect;
use primoria::vga::cursor_rect;
use primoria::vga::height;
use primoria::vga::width;

#[test]
fn allocator_bumps_and_aligns() {
    let mut a = Allocator::new(0x1000, 100);
    assert_eq!(a.allocate(10, 8), Some(0x1000));
    // the next request is aligned up past the ten used bytes
    assert_eq!(a.allocate(4, 8), Some(0x1010));
    assert!(a.can_allocate(64, 4));
    assert!(!a.can_allocate(100, 8));
    // an oversized request is refused and consumes nothing
    assert_eq!(a.allocate(100, 8), None);
    assert_eq!(a.allocate(4, 4), Some(0x1014));
}

#[test]
fn allocator_exhausts_exactly() {
    let mut a = Allocator::new(0, 32);
    assert_eq!(a.allocate(16, 8), Some(0));
    assert_eq!(a.allocate(16, 8), Some(16));
    assert_eq!(a.allocate(1, 1), None);
}

#[test]
fn ata_write_command_words() {
    let v = write_sector_commands(0x0234_5678);
    assert_eq!(v.len(), 7);
    assert_eq!(v[0], PortWrite { port: 0x1f6, value: 0xe2 });
    assert_eq!(v[1], PortWrite { port: 0x1f1, value: 0x00 });
    assert_eq!(v[2], PortWrite { port: 0x1f2, value: 0x01 });
    assert_eq!(v[3], PortWrite { port: 0x1f3, value: 0x78 });
    assert_eq!(v[4], PortWrite { port: 0x1f4, value: 0x56 });
    assert_eq!(v[5], PortWrite { port: 0x1f5, value: 0x34 });
    assert_eq!(v[6], PortWrite { port: 0x1f7, value: 0x30 });
}

#[test]
fn ata_read_command_words() {
    let v = read_sector_commands(0);
    assert_eq!(v[0], PortWrite { port: 0x1f6, value: 0xe0 });
    assert_eq!(v[6], PortWrite { port: 0x1f7, value: 0x20 });
}

#[test]
fn ata_status_bits() {
    assert!(is_busy(0x80));
    assert!(!is_busy(0x7f));
    assert!(is_drive_ready(0x40));
    assert!(!is_drive_ready(0xbf));
}

#[test]
fn interrupt_vectors() {
    assert_eq!(InterruptIndex::Timer.as_u8(), 32);
    assert_eq!(InterruptIndex::Keyboard.as_u8(), 33);
    assert_eq!(InterruptIndex::System.as_u8(), 0x80);
    assert_eq!(InterruptIndex::System.as_usize(), 128);
}

#[test]
fn qemu_exit_codes() {
    assert_eq!(QemuExitCode::Success.code(), 0x10);
    assert_eq!(QemuExitCode::Failed.code(), 0x11);
}

#[test]
fn screen_geometry() {
    assert_eq!(width(), 640);
    assert_eq!(height(), 480);
    assert_eq!(cell_rect(2, 3), (24, 16));
    assert_eq!(cursor_rect(0, 0), (1, 6, 6, 2));
}

#[test]
fn counter_digits_and_redraws() {
    let prev: Vec<u8> = vec![0; 16];
    let (digits, draws) = simple_counter_args(123, &prev, 79);
    assert_eq!(&digits[..4], &[3, 2, 1, 0]);
    assert_eq!(
        draws,
        vec![
            DigitDraw { col: 79, digit: 3 },
            DigitDraw { col: 78, digit: 2 },
            DigitDraw { col: 77, digit: 1 },
        ]
    );
    // a second frame with the same value redraws nothing
    let (_again, draws2) = simple_counter_args(123, &digits, 79);
    assert_eq!(draws2, vec![]);
    // one step later only the low digit changed
    let (_next, draws3) = simple_counter_args(124, &digits, 79);
    assert_eq!(draws3, vec![DigitDraw { col: 79, digit: 4 }]);
}

#[test]
fn counter_one_draws_at_its_column() {
    let prev: Vec<u8> = vec![0; 16];
    let (digits, draws) = simple_counter_1(7, &prev);
    assert_eq!(digits[0], 7);
    assert_eq!(draws, vec![DigitDraw { col: 79, digit: 7 }]);
}

#[test]
fn counter_zero_draws_nothing() {
    let prev: Vec<u8> = vec![0; 16];
    let (digits, draws) = simple_counter_args(0, &prev, 79);
    assert_eq!(digits, vec![0; 16]);
    assert_eq!(draws, vec![]);
}

#[test]
fn serial_number_text() {
    assert_eq!(number_chars(0, 16), vec!['0']);
    assert_eq!(number_chars(255, 16), vec!['f', 'f']);
    assert_eq!(number_chars(0x1a2b, 16), vec!['1', 'a', '2', 'b']);
    assert_eq!(number_chars(255, 10), vec!['2', '5', '5']);
    assert_eq!(number_chars(8, 2), vec!['1', '0', '0', '0']);
}

#[test]
fn serial_log_lines() {
    let line: String = spawn_stack_message(0x10_2000).into_iter().collect();
    assert_eq!(line, "new stack pointer: 102000\n");
    let line2: String = thread_count_message(3).into_iter().collect();
    assert_eq!(line2, "tcount: 3\n");
}
