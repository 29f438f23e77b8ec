use vain::framebuffer::{pixel_offset, DrawOp, FramebufferWriter, Geometry};
use vain::keyboard::{translate_scancode, KeyboardDriver};
use vain::serial::{serial_bytes, transmit_ready, SerialPort};

#[test]
fn scancodes_become_characters() {
    assert_eq!(translate_scancode(false, 0x1E), (false, Some(b'a')));
    assert_eq!(translate_scancode(true, 0x1E), (true, Some(b'A')));
    assert_eq!(translate_scancode(false, 0x02), (false, Some(b'1')));
    assert_eq!(translate_scancode(true, 0x02), (true, Some(b'!')));
    assert_eq!(translate_scancode(false, 0x1C), (false, Some(b'\n')));
    assert_eq!(translate_scancode(false, 0x39), (false, Some(b' ')));
}

#[test]
fn shift_and_unmapped_codes() {
    assert_eq!(translate_scancode(false, 0x2A), (true, None));
    assert_eq!(translate_scancode(false, 0x36), (true, None));
    assert_eq!(translate_scancode(true, 0xAA), (false, None));
    assert_eq!(translate_scancode(true, 0xB6), (false, None));
    // Key release of 'a', a code past the map, and a code mapped to '?'.
    assert_eq!(translate_scancode(false, 0x9E), (false, None));
    assert_eq!(translate_scancode(false, 0x40), (false, None));
    assert_eq!(translate_scancode(false, 0x00), (false, None));
    assert_eq!(translate_scancode(true, 0x35), (true, None));
}

#[test]
fn keyboard_driver_tracks_shift() {
    let mut d = KeyboardDriver::new();
    assert_eq!(d.handle_scancode(0x10), Some(b'q'));
    assert_eq!(d.handle_scancode(0x2A), None);
    assert_eq!(d.handle_scancode(0x10), Some(b'Q'));
    assert_eq!(d.handle_scancode(0xAA), None);
    assert_eq!(d.handle_scancode(0x10), Some(b'q'));
}

#[test]
fn serial_sends_crlf() {
    assert_eq!(serial_bytes(b"a\nb"), b"a\r\nb".to_vec());
    assert_eq!(serial_bytes(b""), Vec::<u8>::new());
    assert_eq!(serial_bytes(b"\n\n"), b"\r\n\r\n".to_vec());
    let mut whole = serial_bytes(b"x\n");
    whole.extend(serial_bytes(b"y"));
    assert_eq!(whole, serial_bytes(b"x\ny"));
}

#[test]
fn serial_port_setup() {
    let p = SerialPort::COM1;
    assert_eq!(p.base_port(), 0x3F8);
    assert_eq!(
        p.initialization_writes(),
        vec![(0x3F9, 0x00), (0x3FB, 0x80), (0x3F8, 0x01), (0x3F9, 0x00), (0x3FB, 0x03), (0x3FA, 0xC7), (0x3FC, 0x0B)]
    );
    assert!(transmit_ready(0x60));
    assert!(!transmit_ready(0x40));
}

#[test]
fn framebuffer_wraps_lines_and_clears() {
    let fb = Some(Geometry { width: 20, height: 45 });
    let mut w = FramebufferWriter::new();
    let mut ops = Vec::new();
    w.write_byte(b'a', fb, &mut ops);
    w.write_byte(b'b', fb, &mut ops);
    assert_eq!((w.x_pos, w.y_pos), (18, 0));
    w.write_byte(b'c', fb, &mut ops);
    assert_eq!((w.x_pos, w.y_pos), (9, 20));
    w.write_byte(b'\n', fb, &mut ops);
    assert_eq!((w.x_pos, w.y_pos), (0, 0));
    assert_eq!(
        ops,
        vec![
            DrawOp::Glyph { x: 0, y: 0, byte: b'a' },
            DrawOp::Glyph { x: 9, y: 0, byte: b'b' },
            DrawOp::Glyph { x: 0, y: 20, byte: b'c' },
            DrawOp::Clear,
        ]
    );
}

#[test]
fn framebuffer_without_screen_only_moves_lines() {
    let mut w = FramebufferWriter::new();
    let mut ops = Vec::new();
    w.write_byte(b'z', None, &mut ops);
    w.write_byte(b'\n', None, &mut ops);
    w.write_byte(b'\r', None, &mut ops);
    assert!(ops.is_empty());
    assert_eq!((w.x_pos, w.y_pos), (0, 20));
    w.reset();
    assert_eq!((w.x_pos, w.y_pos), (0, 0));
}

#[test]
fn glyph_pixels() {
    let w = FramebufferWriter::new();
    assert_eq!(w.pixel_color(0b0000_0100, 2), 0x00FF_FFFF);
    assert_eq!(w.pixel_color(0b0000_0100, 3), 0);
    assert_eq!(pixel_offset(3, 2, 4096, 4), 2 * 4096 + 12);
}
