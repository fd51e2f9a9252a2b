use sensor_node::framebuffer::get_bit_index;
use sensor_node::framebuffer::get_index_and_offset;
use sensor_node::framebuffer::get_index_and_offset_from_bit_index;
use sensor_node::framebuffer::Color;
use sensor_node::framebuffer::Epd1in54Buffer;
use sensor_node::framebuffer::Rotation;

#[test]
fn new_buffer_is_all_white() {
    let buffer = Epd1in54Buffer::new();
    assert_eq!(buffer.black_buffer().len(), 5000);
    assert_eq!(buffer.chromatic_buffer().len(), 5000);
    assert!(buffer.black_buffer().iter().all(|b| *b == 0xff));
    assert!(buffer.chromatic_buffer().iter().all(|b| *b == 0xff));
    assert_eq!(buffer.size(), (200, 200));
}

#[test]
fn default_buffer_is_new_buffer() {
    let buffer = Epd1in54Buffer::default();
    assert!(buffer.black_buffer().iter().all(|b| *b == 0xff));
}

#[test]
fn black_pixel_clears_black_bit_only() {
    let mut buffer = Epd1in54Buffer::new();
    buffer.draw_pixel(0, 0, Color::Black);
    assert_eq!(buffer.black_buffer()[0], 0b0111_1111);
    assert_eq!(buffer.chromatic_buffer()[0], 0xff);
    assert!(buffer.black_buffer()[1..].iter().all(|b| *b == 0xff));
}

#[test]
fn pixel_lands_at_computed_index_and_offset() {
    let (index, offset) = get_index_and_offset::<200>(3, 1);
    assert_eq!((index, offset), (25, 3));
    let mut buffer = Epd1in54Buffer::new();
    buffer.draw_pixel(3, 1, Color::Black);
    assert_eq!(buffer.black_buffer()[index], 0xff & !(1u8 << (7 - offset)));
    assert_eq!(buffer.black_buffer()[index], 0b1110_1111);
    assert_eq!(buffer.chromatic_buffer()[index], 0xff);
}

#[test]
fn white_pixel_sets_both_bits() {
    let mut buffer = Epd1in54Buffer::new();
    buffer.draw_pixel(5, 0, Color::Black);
    buffer.draw_pixel(5, 0, Color::Chromatic);
    assert_eq!(buffer.black_buffer()[0], 0b1111_1011);
    assert_eq!(buffer.chromatic_buffer()[0], 0b1111_1011);
    buffer.draw_pixel(5, 0, Color::White);
    assert_eq!(buffer.black_buffer()[0], 0xff);
    assert_eq!(buffer.chromatic_buffer()[0], 0xff);
}

#[test]
fn chromatic_pixel_clears_chromatic_bit_only() {
    let mut buffer = Epd1in54Buffer::new();
    buffer.draw_pixel(9, 0, Color::Chromatic);
    assert_eq!(buffer.chromatic_buffer()[1], 0b1011_1111);
    assert_eq!(buffer.black_buffer()[1], 0xff);
}

#[test]
fn transparent_pixel_changes_nothing() {
    let mut buffer = Epd1in54Buffer::new();
    buffer.draw_pixel(0, 0, Color::Black);
    buffer.draw_pixel(0, 0, Color::Transparent);
    assert_eq!(buffer.black_buffer()[0], 0b0111_1111);
    assert_eq!(buffer.chromatic_buffer()[0], 0xff);
}

#[test]
fn pixels_off_the_panel_are_ignored() {
    let mut buffer = Epd1in54Buffer::new();
    buffer.draw_pixel(-1, 0, Color::Black);
    buffer.draw_pixel(0, -1, Color::Black);
    buffer.draw_pixel(200, 0, Color::Black);
    buffer.draw_pixel(0, 200, Color::Black);
    assert!(buffer.black_buffer().iter().all(|b| *b == 0xff));
}

#[test]
fn last_pixel_is_last_bit() {
    let mut buffer = Epd1in54Buffer::new();
    buffer.draw_pixel(199, 199, Color::Black);
    assert_eq!(buffer.black_buffer()[4999], 0b1111_1110);
}

#[test]
fn rotation_maps_to_panel_coordinates() {
    let mut buffer = Epd1in54Buffer::new();
    buffer.set_rotation(Rotation::Rotate90);
    buffer.draw_pixel(0, 0, Color::Black);
    // (0, 0) rotated by 90 degrees is the panel's top right corner
    assert_eq!(buffer.black_buffer()[24], 0b1111_1110);

    let mut buffer = Epd1in54Buffer::new();
    buffer.set_rotation(Rotation::Rotate180);
    buffer.draw_pixel(0, 0, Color::Black);
    assert_eq!(buffer.black_buffer()[4999], 0b1111_1110);

    let mut buffer = Epd1in54Buffer::new();
    buffer.set_rotation(Rotation::Rotate270);
    buffer.draw_pixel(0, 0, Color::Black);
    // (0, 0) rotated by 270 degrees is the panel's bottom left corner
    assert_eq!(buffer.black_buffer()[4975], 0b0111_1111);
}

#[test]
fn rotation_swaps_size_of_non_square_buffer() {
    let mut buffer = sensor_node::framebuffer::Buffer::<16, 8, 16>::new();
    assert_eq!(buffer.size(), (16, 8));
    buffer.set_rotation(Rotation::Rotate90);
    assert_eq!(buffer.size(), (8, 16));
    buffer.draw_pixel(7, 15, Color::Black);
    // logical (7, 15) is panel (0, 7): bit 112, byte 14, first bit
    assert_eq!(buffer.black_buffer()[14], 0b0111_1111);
    buffer.draw_pixel(8, 0, Color::Black);
    assert!(buffer.black_buffer()[..14].iter().all(|b| *b == 0xff));
}

#[test]
fn draw_pixels_in_order() {
    let mut buffer = Epd1in54Buffer::new();
    buffer.draw_pixels(&[(0, 0, Color::Black), (1, 0, Color::Chromatic), (0, 0, Color::White)]);
    assert_eq!(buffer.black_buffer()[0], 0xff);
    assert_eq!(buffer.chromatic_buffer()[0], 0b1011_1111);
}

#[test]
fn bit_index_helpers() {
    assert_eq!(get_bit_index::<200>(3, 1), 203);
    assert_eq!(get_index_and_offset_from_bit_index(203), (25, 3));
    assert_eq!(get_index_and_offset_from_bit_index(7), (0, 7));
    assert_eq!(get_index_and_offset_from_bit_index(8), (1, 0));
}

#[test]
fn color_conversions() {
    assert_eq!(Color::from_raw(0), Color::Black);
    assert_eq!(Color::from_raw(1), Color::White);
    assert_eq!(Color::from_raw(2), Color::Chromatic);
    assert_eq!(Color::from_raw(3), Color::Transparent);
    assert_eq!(Color::from_raw(7), Color::Transparent);
    assert_eq!(Color::from_binary(true), Color::Black);
    assert_eq!(Color::from_binary(false), Color::White);
    assert_eq!(Color::Black.to_rgb(), (0, 0, 0));
    assert_eq!(Color::Chromatic.to_rgb(), (255, 0, 0));
    assert_eq!(Color::White.to_rgb(), (255, 255, 255));
    assert_eq!(Color::Transparent.to_rgb(), (0, 255, 0));
}

#[test]
fn rows_start_on_a_byte_when_width_is_not_a_multiple_of_eight() {
    assert_eq!(get_index_and_offset::<12>(0, 1), (2, 0));
    assert_eq!(get_index_and_offset::<12>(11, 0), (1, 3));
    assert_eq!(get_bit_index::<12>(0, 1), 16);
    let mut buffer = sensor_node::framebuffer::Buffer::<12, 2, 4>::new();
    buffer.draw_pixel(0, 1, Color::Black);
    assert_eq!(buffer.black_buffer(), &[0xff, 0xff, 0x7f, 0xff]);
    buffer.draw_pixel(11, 1, Color::Chromatic);
    assert_eq!(buffer.chromatic_buffer(), &[0xff, 0xff, 0xff, 0b1110_1111]);
}
