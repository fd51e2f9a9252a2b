use sensor_node::display::is_busy;
use sensor_node::display::BusOp;
use sensor_node::display::Display;
use sensor_node::display::DisplayError;
use sensor_node::display::DriverState;
use sensor_node::framebuffer::Color;
use sensor_node::framebuffer::Epd1in54Buffer;

fn command(c: u8) -> Vec<BusOp> {
    vec![BusOp::SetDataMode(false), BusOp::Write(vec![c])]
}

fn data(bytes: &[u8]) -> Vec<BusOp> {
    vec![BusOp::SetDataMode(true), BusOp::Write(bytes.to_vec())]
}

fn refresh() -> Vec<BusOp> {
    let mut ops = command(0x22);
    ops.extend(data(&[0xf7]));
    ops.extend(command(0x20));
    ops.push(BusOp::WaitUntilIdle);
    ops
}

#[test]
fn initialize_sequence() {
    let mut display = Display::new();
    assert_eq!(display.state(), DriverState::Reset);
    let ops = display.initialize();
    assert_eq!(display.state(), DriverState::Idle);

    let mut expected = vec![
        BusOp::SetReset(true),
        BusOp::DelayMs(10),
        BusOp::SetReset(false),
        BusOp::DelayMs(10),
        BusOp::SetReset(true),
        BusOp::DelayMs(200),
        BusOp::WaitUntilIdle,
    ];
    expected.extend(command(0x12));
    expected.push(BusOp::WaitUntilIdle);
    expected.extend(command(0x01));
    expected.extend(data(&[0xc7, 0x00, 0x01]));
    expected.extend(command(0x11));
    expected.extend(data(&[0x01]));
    expected.extend(command(0x44));
    expected.extend(data(&[0x00, 0x18]));
    expected.extend(command(0x45));
    expected.extend(data(&[0xc7, 0x00, 0x00, 0x00]));
    expected.extend(command(0x3c));
    expected.extend(data(&[0x05]));
    expected.extend(command(0x4e));
    expected.extend(data(&[0x00]));
    expected.extend(command(0x4f));
    expected.extend(data(&[0xc7]));
    expected.extend(data(&[0x00]));
    expected.push(BusOp::WaitUntilIdle);
    assert_eq!(ops, expected);
}

#[test]
fn transfers_need_initialization() {
    let mut display = Display::new();
    assert_eq!(display.transfer_black(&[0xff]), Err(DisplayError::NotInitialized));
    assert_eq!(display.transfer_chromatic(&[0xff]), Err(DisplayError::NotInitialized));
    assert_eq!(display.clear(), Err(DisplayError::NotInitialized));
    assert_eq!(display.transfer_channels(None, None), Err(DisplayError::NotInitialized));
    assert_eq!(display.state(), DriverState::Reset);
}

#[test]
fn chromatic_plane_is_sent_complemented() {
    let mut display = Display::new();
    display.initialize();
    let ops = display.transfer_chromatic(&[0x0f, 0xff, 0x00]).unwrap();
    assert_eq!(display.state(), DriverState::Transferring);
    let mut inverted = vec![0u8; 5000];
    inverted[0] = 0xf0;
    inverted[1] = 0x00;
    inverted[2] = 0xff;
    let mut expected = command(0x26);
    expected.extend(data(&inverted));
    assert_eq!(ops, expected);
}

#[test]
fn black_plane_is_sent_as_is() {
    let mut display = Display::new();
    display.initialize();
    let ops = display.transfer_black(&[0x0f, 0x55]).unwrap();
    let mut expected = command(0x24);
    expected.extend(data(&[0x0f, 0x55]));
    assert_eq!(ops, expected);
}

#[test]
fn chunked_writes_preserve_order() {
    let mut display = Display::new_with_max_transfer(2);
    display.initialize();
    let ops = display.transfer_black(&[1, 2, 3, 4, 5]).unwrap();
    let mut expected = command(0x24);
    expected.push(BusOp::SetDataMode(true));
    expected.push(BusOp::Write(vec![1, 2]));
    expected.push(BusOp::Write(vec![3, 4]));
    expected.push(BusOp::Write(vec![5]));
    assert_eq!(ops, expected);
}

#[test]
fn individual_writes_send_one_byte_each() {
    let mut display = Display::new_with_individual_writes();
    display.initialize();
    let ops = display.transfer_black(&[7, 8, 9]).unwrap();
    let mut expected = command(0x24);
    expected.push(BusOp::SetDataMode(true));
    expected.push(BusOp::Write(vec![7]));
    expected.push(BusOp::Write(vec![8]));
    expected.push(BusOp::Write(vec![9]));
    assert_eq!(ops, expected);
}

#[test]
fn draw_buffer_sends_both_planes_and_refreshes() {
    let mut buffer = Epd1in54Buffer::new();
    buffer.draw_pixel(0, 0, Color::Black);
    buffer.draw_pixel(8, 0, Color::Chromatic);
    let mut display = Display::new();
    display.initialize();
    let ops = display.draw_buffer(&buffer).unwrap();
    assert_eq!(display.state(), DriverState::Idle);
    let mut black = vec![0xffu8; 5000];
    black[0] = 0x7f;
    let mut chromatic = vec![0x00u8; 5000];
    chromatic[1] = 0x80;
    let mut expected = command(0x24);
    expected.extend(data(&black));
    expected.extend(command(0x26));
    expected.extend(data(&chromatic));
    expected.extend(refresh());
    assert_eq!(ops, expected);
}

#[test]
fn transfer_channels_sends_what_is_given() {
    let mut display = Display::new();
    display.initialize();
    let ops = display.transfer_channels(Some(&[0x01]), None).unwrap();
    let mut expected = command(0x24);
    expected.extend(data(&[0x01]));
    expected.extend(refresh());
    assert_eq!(ops, expected);
    assert_eq!(display.transfer_channels(None, None).unwrap(), refresh());
}

#[test]
fn clear_writes_white_then_refreshes() {
    let mut display = Display::new();
    display.initialize();
    let ops = display.clear().unwrap();
    assert_eq!(ops.len(), 2 + 2 * 5000 + 2 + 2 * 5000 + 7);
    assert_eq!(ops[0..2], command(0x24)[..]);
    assert_eq!(ops[2..4], data(&[0xff])[..]);
    assert_eq!(ops[10_002..10_004], command(0x26)[..]);
    assert_eq!(ops[10_004..10_006], data(&[0x00])[..]);
    assert_eq!(ops[20_004..], refresh()[..]);
}

#[test]
fn release_enters_deep_sleep() {
    let mut display = Display::new();
    display.initialize();
    let ops = display.release();
    let mut expected = command(0x10);
    expected.extend(data(&[0x01]));
    expected.push(BusOp::DelayMs(200));
    assert_eq!(ops, expected);
    assert_eq!(display.state(), DriverState::Sleeping);
    assert_eq!(display.transfer_black(&[0]), Err(DisplayError::NotInitialized));
    display.initialize();
    assert_eq!(display.state(), DriverState::Idle);
}

#[test]
fn busy_line_is_active_high() {
    assert!(is_busy(true));
    assert!(!is_busy(false));
}
