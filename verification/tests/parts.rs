use chip8::frontend::render_frame;
use chip8::frontend::schedule;
use chip8::controller::get_millis;
use chip8::controller::remaining_delay;
use chip8::controller::Controller;
use chip8::display::Display;
use chip8::keyboard::HostKey;
use chip8::keyboard::Keyboard;
use chip8::ram::Ram;

const FONT: [u8; 80] = [
    0xF0, 0x90, 0x90, 0x90, 0xF0, 0x20, 0x60, 0x20, 0x20, 0x70, 0xF0, 0x10, 0xF0, 0x80, 0xF0,
    0xF0, 0x10, 0xF0, 0x10, 0xF0, 0x90, 0x90, 0xF0, 0x10, 0x10, 0xF0, 0x80, 0xF0, 0x10, 0xF0,
    0xF0, 0x80, 0xF0, 0x90, 0xF0, 0xF0, 0x10, 0x20, 0x40, 0x40, 0xF0, 0x90, 0xF0, 0x90, 0xF0,
    0xF0, 0x90, 0xF0, 0x10, 0xF0, 0xF0, 0x90, 0xF0, 0x90, 0x90, 0xE0, 0x90, 0xE0, 0x90, 0xE0,
    0xF0, 0x80, 0x80, 0x80, 0xF0, 0xE0, 0x90, 0x90, 0x90, 0xE0, 0xF0, 0x80, 0xF0, 0x80, 0xF0,
    0xF0, 0x80, 0xF0, 0x80, 0x80,
];

#[test]
fn new_ram_holds_the_font_and_zeros() {
    let ram = Ram::new();
    assert_eq!(&ram.bytes[0..80], &FONT[..]);
    assert!(ram.bytes[80..].iter().all(|b| *b == 0));
}

#[test]
fn ram_read_after_write() {
    let mut ram = Ram::new();
    ram.write_byte(0x300, 0xAB);
    assert_eq!(ram.read_byte(0x300), 0xAB);
    assert_eq!(ram.read_byte(0x301), 0);
    assert_eq!(ram.read_byte(0), 0xF0);
    ram.write_byte(4095, 7);
    assert_eq!(ram.read_byte(4095), 7);
}

#[test]
fn index_from_coords() {
    assert_eq!(Display::get_index_from_coords(0, 0), 0);
    assert_eq!(Display::get_index_from_coords(3, 2), 131);
    assert_eq!(Display::get_index_from_coords(63, 31), 2047);
}

#[test]
fn draw_byte_lights_msb_first() {
    let mut d = Display::new();
    assert!(!d.draw_byte(0b1010_0001, 10, 4));
    let b = d.get_display_buffer();
    let row = &b[4 * 64 + 10..4 * 64 + 18];
    assert_eq!(row, &[1, 0, 1, 0, 0, 0, 0, 1]);
    assert_eq!(b.iter().map(|p| *p as u32).sum::<u32>(), 3);
}

#[test]
fn draw_byte_wraps_at_the_edges() {
    let mut d = Display::new();
    d.draw_byte(0xFF, 62, 33);
    let b = d.get_display_buffer();
    // row 33 wraps to row 1; columns 62, 63, 0..5
    assert_eq!(b[64 + 62], 1);
    assert_eq!(b[64 + 63], 1);
    assert_eq!(&b[64..70], &[1, 1, 1, 1, 1, 1]);
    assert_eq!(b[64 + 6], 0);
    let mut d = Display::new();
    d.draw_byte(0x80, 70, 0);
    assert_eq!(d.get_display_buffer()[6], 1);
}

#[test]
fn draw_twice_restores_and_reports_erase() {
    let mut d = Display::new();
    d.draw_byte(0x3C, 20, 7);
    let before = d.get_display_buffer().to_vec();
    assert!(!d.draw_byte(0x81, 5, 9));
    assert!(d.draw_byte(0x81, 5, 9));
    assert_eq!(d.get_display_buffer(), &before[..]);
    // Overlapping draw: one pixel switched off.
    assert!(d.draw_byte(0x10, 20, 7));
    // Disjoint draw: nothing switched off.
    assert!(!d.draw_byte(0x01, 20, 7));
}

#[test]
fn draw_zero_byte_changes_nothing() {
    let mut d = Display::new();
    d.draw_byte(0xFF, 0, 0);
    let before = d.get_display_buffer().to_vec();
    assert!(!d.draw_byte(0x00, 0, 0));
    assert_eq!(d.get_display_buffer(), &before[..]);
}

#[test]
fn clear_blanks_the_display() {
    let mut d = Display::new();
    d.draw_byte(0xFF, 0, 0);
    d.draw_byte(0xFF, 56, 31);
    d.clear();
    assert!(d.get_display_buffer().iter().all(|p| *p == 0));
    assert_eq!(d.get_display_buffer().len(), 2048);
}

#[test]
fn keyboard_set_and_query() {
    let mut k = Keyboard::new();
    assert_eq!(k.get_key_pressed(), None);
    assert!(!k.is_key_pressed(0));
    k.set_key_pressed(Some(0xA));
    assert_eq!(k.get_key_pressed(), Some(0xA));
    assert!(k.is_key_pressed(0xA));
    assert!(!k.is_key_pressed(0xB));
    k.set_key_pressed(None);
    assert!(!k.is_key_pressed(0xA));
}

#[test]
fn keypad_layout() {
    let cases = [
        (HostKey::Key1, 0x1), (HostKey::Key2, 0x2), (HostKey::Key3, 0x3), (HostKey::Key4, 0xC),
        (HostKey::Q, 0x4), (HostKey::W, 0x5), (HostKey::E, 0x6), (HostKey::R, 0xD),
        (HostKey::A, 0x7), (HostKey::S, 0x8), (HostKey::D, 0x9), (HostKey::F, 0xE),
        (HostKey::Z, 0xA), (HostKey::X, 0x0), (HostKey::C, 0xB), (HostKey::V, 0xF),
    ];
    for (key, code) in cases {
        assert_eq!(Keyboard::get_chip8_keycode(Some(key)), Some(code));
    }
    assert_eq!(Keyboard::get_chip8_keycode(Some(HostKey::Other)), None);
    assert_eq!(Keyboard::get_chip8_keycode(None), None);
}

#[test]
fn millis_of_durations() {
    assert_eq!(get_millis(0, 0), 0);
    assert_eq!(get_millis(1, 500_000_000), 1500);
    assert_eq!(get_millis(0, 999_999), 0);
    assert_eq!(get_millis(2, 1_000_000), 2001);
}

#[test]
fn delay_counts_down_in_16ms_ticks() {
    assert_eq!(remaining_delay(10, 0), 10);
    assert_eq!(remaining_delay(10, 15), 10);
    assert_eq!(remaining_delay(10, 16), 9);
    assert_eq!(remaining_delay(10, 32), 8);
    assert_eq!(remaining_delay(10, 160), 0);
    assert_eq!(remaining_delay(3, 1000), 0);
    assert_eq!(remaining_delay(255, u64::MAX), 0);
    assert_eq!(remaining_delay(0, 0), 0);
}

#[test]
fn controller_parts() {
    let mut c = Controller::new();
    assert_eq!(c.read_byte(5), 0x20);
    c.write_byte(0x200, 0x12);
    assert_eq!(c.read_byte(0x200), 0x12);
    assert_eq!(c.get_key_pressed(), None);
    c.set_key_pressed(Some(3));
    assert!(c.is_key_pressed(3));
    assert_eq!(c.get_key_pressed(), Some(3));
    assert!(!c.draw_byte(0x80, 0, 0));
    assert_eq!(c.get_display_buffer()[0], 1);
    assert!(c.draw_byte(0x80, 0, 0));
    c.draw_byte(0x80, 1, 1);
    c.clr_scr();
    assert!(c.get_display_buffer().iter().all(|p| *p == 0));
}

#[test]
fn controller_delay_timer() {
    let mut c = Controller::new();
    assert_eq!(c.get_delay_timer(), 0);
    c.set_delay_timer(200);
    let t = c.get_delay_timer();
    assert!(t <= 200 && t >= 190);
    let start = std::time::Instant::now();
    while start.elapsed() < std::time::Duration::from_millis(50) {}
    let later = c.get_delay_timer();
    assert!(later <= t);
    assert!(later < 200);
}

#[test]
fn schedule_decisions() {
    let s = schedule(Some(3), 0, 0, 0);
    assert!(s.update_key && !s.run_instruction && !s.refresh_display);
    let s = schedule(None, 99_999_999, 1_000_001, 10_000_001);
    assert!(!s.update_key && s.run_instruction && s.refresh_display);
    let s = schedule(None, 100_000_000, 1_000_000, 10_000_000);
    assert!(s.update_key && !s.run_instruction && !s.refresh_display);
}

#[test]
fn render_frame_scales_pixels() {
    let mut d = Display::new();
    d.draw_byte(0x80, 1, 2);
    let frame = render_frame(d.get_display_buffer());
    assert_eq!(frame.len(), 1280 * 640);
    // Screen pixel (1, 2) covers window pixels x in 20..40, y in 40..60.
    assert_eq!(frame[40 * 1280 + 20], 0x009900);
    assert_eq!(frame[59 * 1280 + 39], 0x009900);
    assert_eq!(frame[40 * 1280 + 19], 0xFFFFFF);
    assert_eq!(frame[60 * 1280 + 20], 0xFFFFFF);
    assert_eq!(frame.iter().filter(|c| **c == 0x009900).count(), 400);
}
