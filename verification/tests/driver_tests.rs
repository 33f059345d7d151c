use gc9a01a::add;
use gc9a01a::driver::Error;
use gc9a01a::driver::GC9A01A;
use gc9a01a::recorder::Recorder;
use gc9a01a::recorder::TraceOp;
use gc9a01a::registers::init_table;
use gc9a01a::registers::InitOp;
use gc9a01a::registers::CASET;
use gc9a01a::registers::PASET;
use gc9a01a::registers::RAMWR;

const PIXELS: usize = 240 * 240;

fn push_command(expected: &mut Vec<TraceOp>, op: u8) {
    expected.push(TraceOp::Dc(false));
    expected.push(TraceOp::Cs(false));
    expected.push(TraceOp::Write(vec![op]));
    expected.push(TraceOp::Cs(true));
}

fn push_data(expected: &mut Vec<TraceOp>, data: Vec<u8>) {
    expected.push(TraceOp::Dc(true));
    expected.push(TraceOp::Cs(false));
    expected.push(TraceOp::Write(data));
    expected.push(TraceOp::Cs(true));
}

fn push_window(expected: &mut Vec<TraceOp>) {
    push_command(expected, CASET);
    push_data(expected, vec![0x00, 0x00, 0x00, 239]);
    push_command(expected, PASET);
    push_data(expected, vec![0x00, 0x00, 0x00, 239]);
    push_command(expected, RAMWR);
}

#[test]
fn it_works() {
    let result = add(2, 2);
    assert_eq!(result, 4);
}

#[test]
fn send_command_frames_one_opcode() {
    let mut drv = GC9A01A::new(Recorder::new());
    drv.send_command(0x2A).unwrap();
    let rec = drv.release();
    let mut expected: Vec<TraceOp> = Vec::new();
    push_command(&mut expected, 0x2A);
    assert_eq!(*rec.ops(), expected);
}

#[test]
fn send_data_frames_payload() {
    let mut drv = GC9A01A::new(Recorder::new());
    drv.send_data(&[0x10, 0x20, 0x30]).unwrap();
    let rec = drv.release();
    let mut expected: Vec<TraceOp> = Vec::new();
    push_data(&mut expected, vec![0x10, 0x20, 0x30]);
    assert_eq!(*rec.ops(), expected);
}

#[test]
fn send_data_empty_still_brackets_chip_select() {
    let mut drv = GC9A01A::new(Recorder::new());
    drv.send_data(&[]).unwrap();
    let rec = drv.release();
    let mut expected: Vec<TraceOp> = Vec::new();
    push_data(&mut expected, vec![]);
    assert_eq!(*rec.ops(), expected);
}

#[test]
fn reset_pulses_three_transitions_with_holds() {
    let mut drv = GC9A01A::new(Recorder::new());
    drv.reset().unwrap();
    let rec = drv.release();
    let expected = vec![
        TraceOp::Rst(true),
        TraceOp::Delay(100),
        TraceOp::Rst(false),
        TraceOp::Delay(100),
        TraceOp::Rst(true),
        TraceOp::Delay(100),
    ];
    assert_eq!(*rec.ops(), expected);
}

#[test]
fn set_backlight_forwards_duty() {
    let mut drv = GC9A01A::new(Recorder::new());
    drv.set_backlight(128);
    let rec = drv.release();
    assert_eq!(*rec.ops(), vec![TraceOp::Duty(128)]);
}

#[test]
fn initialize_replays_table_in_order() {
    let mut drv = GC9A01A::new(Recorder::new());
    drv.initialize().unwrap();
    let rec = drv.release();
    let mut expected: Vec<TraceOp> = Vec::new();
    for entry in init_table() {
        match entry {
            InitOp::Cmd(op, data) => {
                push_command(&mut expected, op);
                push_data(&mut expected, data);
            }
            InitOp::Delay(ms) => expected.push(TraceOp::Delay(ms)),
        }
    }
    assert_eq!(*rec.ops(), expected);
}

#[test]
fn table_holds_vendor_sequence_ends() {
    let t = init_table();
    assert_eq!(t.len(), 52);
    assert_eq!(t[0], InitOp::Cmd(0xEF, vec![]));
    assert_eq!(t[1], InitOp::Cmd(0xEB, vec![0x14]));
    let n = t.len();
    assert_eq!(t[n - 4], InitOp::Cmd(0x11, vec![]));
    assert_eq!(t[n - 3], InitOp::Delay(120));
    assert_eq!(t[n - 2], InitOp::Cmd(0x29, vec![]));
    assert_eq!(t[n - 1], InitOp::Delay(20));
}

#[test]
fn clear_black_end_to_end() {
    let mut drv = GC9A01A::new(Recorder::new());
    drv.reset().unwrap();
    drv.initialize().unwrap();
    drv.clear(0x0000).unwrap();
    let rec = drv.release();

    let mut expected: Vec<TraceOp> = Vec::new();
    expected.push(TraceOp::Rst(true));
    expected.push(TraceOp::Delay(100));
    expected.push(TraceOp::Rst(false));
    expected.push(TraceOp::Delay(100));
    expected.push(TraceOp::Rst(true));
    expected.push(TraceOp::Delay(100));
    for entry in init_table() {
        match entry {
            InitOp::Cmd(op, data) => {
                push_command(&mut expected, op);
                push_data(&mut expected, data);
            }
            InitOp::Delay(ms) => expected.push(TraceOp::Delay(ms)),
        }
    }
    push_window(&mut expected);
    expected.push(TraceOp::Dc(true));
    expected.push(TraceOp::Cs(false));
    for _ in 0..PIXELS {
        expected.push(TraceOp::Write(vec![0x00, 0x00]));
    }
    expected.push(TraceOp::Cs(true));
    assert_eq!(*rec.ops(), expected);
}

#[test]
fn clear_red_streams_big_endian_pixels() {
    let mut drv = GC9A01A::new(Recorder::new());
    drv.clear(0xF800).unwrap();
    let rec = drv.release();

    let mut expected: Vec<TraceOp> = Vec::new();
    push_window(&mut expected);
    expected.push(TraceOp::Dc(true));
    expected.push(TraceOp::Cs(false));
    for _ in 0..PIXELS {
        expected.push(TraceOp::Write(vec![0xF8, 0x00]));
    }
    expected.push(TraceOp::Cs(true));
    assert_eq!(*rec.ops(), expected);
}

#[test]
fn transport_failure_mid_pixel_still_releases_chip_select() {
    // Window writes take 1 + 4 + 1 + 4 + 1 = 11 bytes; allow five whole
    // pixels and one byte more, so the sixth pixel burst fails on its
    // second byte.
    let mut drv = GC9A01A::new(Recorder::with_budget(11 + 2 * 5 + 1));
    let result = drv.clear(0x1234);
    assert!(matches!(result, Err(Error::Spi(_))));
    let rec = drv.release();
    let ops = rec.ops();
    // The failing burst wrote one byte of the pixel; chip-select was
    // still released afterwards.
    assert_eq!(ops[ops.len() - 2], TraceOp::Write(vec![0x12]));
    assert_eq!(ops[ops.len() - 1], TraceOp::Cs(true));
    // Five whole pixels made it out before the failing one.
    assert_eq!(ops[ops.len() - 3], TraceOp::Write(vec![0x12, 0x34]));
}

#[test]
fn transport_failure_on_first_opcode_byte() {
    let mut drv = GC9A01A::new(Recorder::with_budget(0));
    let result = drv.send_command(0x11);
    assert!(matches!(result, Err(Error::Spi(_))));
    let rec = drv.release();
    let expected = vec![
        TraceOp::Dc(false),
        TraceOp::Cs(false),
        TraceOp::Write(vec![]),
        TraceOp::Cs(true),
    ];
    assert_eq!(*rec.ops(), expected);
}

#[test]
fn line_failure_before_burst_moves_nothing() {
    let mut drv = GC9A01A::new(Recorder::with_line_budget(0));
    let result = drv.send_command(0x11);
    assert!(matches!(result, Err(Error::Gpio(_))));
    let rec = drv.release();
    assert!(rec.ops().is_empty());
}

#[test]
fn line_failure_mid_reset_stops_after_first_hold() {
    let mut drv = GC9A01A::new(Recorder::with_line_budget(1));
    let result = drv.reset();
    assert!(matches!(result, Err(Error::Gpio(_))));
    let rec = drv.release();
    let expected = vec![TraceOp::Rst(true), TraceOp::Delay(100)];
    assert_eq!(*rec.ops(), expected);
}

#[test]
fn line_failure_on_final_release_reports_gpio() {
    // A clear toggles lines 15 times for the window script, twice to
    // open the stream, and once to release chip-select at the end;
    // allow all but the last.
    let mut drv = GC9A01A::new(Recorder::with_line_budget(17));
    let result = drv.clear(0xABCD);
    assert!(matches!(result, Err(Error::Gpio(_))));
    let rec = drv.release();
    let ops = rec.ops();
    // Every pixel went out, but the final release is missing.
    assert_eq!(ops.len(), 20 + 2 + PIXELS);
    assert_eq!(ops[ops.len() - 1], TraceOp::Write(vec![0xAB, 0xCD]));
}

#[test]
fn transport_failure_during_initialize_propagates() {
    // The budget covers the first entry's opcode and its empty data
    // burst; the second entry's opcode burst fails and replay stops.
    let mut drv = GC9A01A::new(Recorder::with_budget(1));
    let result = drv.initialize();
    assert!(matches!(result, Err(Error::Spi(_))));
    let rec = drv.release();
    let ops = rec.ops();
    let expected = vec![
        TraceOp::Dc(false),
        TraceOp::Cs(false),
        TraceOp::Write(vec![0xEF]),
        TraceOp::Cs(true),
        TraceOp::Dc(true),
        TraceOp::Cs(false),
        TraceOp::Write(vec![]),
        TraceOp::Cs(true),
        TraceOp::Dc(false),
        TraceOp::Cs(false),
        TraceOp::Write(vec![]),
        TraceOp::Cs(true),
    ];
    assert_eq!(*ops, expected);
}
