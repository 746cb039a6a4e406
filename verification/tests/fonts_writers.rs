use ferrum_os::drivers::fonts::ansii_parser::Performer;
use ferrum_os::drivers::fonts::psf_font::glyph::Glyphs;
use ferrum_os::drivers::fonts::psf_font::PsfFont;
use ferrum_os::drivers::fonts::text_writer::bub_tw::BubTextWriter;
use ferrum_os::drivers::fonts::text_writer::tdf_tw::TdfTextWriter;
use ferrum_os::drivers::framebuffer::{FrameBuffer, FrameBufferError};

const FG: u32 = 0xFFFF_FFFF;
const BG: u32 = 0xFF00_0000;
const RED: u32 = 0xFFAA_0000;

/// A PSF2 font of three 8-by-2 glyphs with the given code points.  The
/// bitmaps of the first two are `A`: rows 0x81, 0x40 and `B`: rows 0xFF,
/// 0x01; the last glyph is never loaded.
fn font_bytes(codes: &[char; 3]) -> Vec<u8> {
    let mut d = Vec::new();
    for v in [0x864a_b572u32, 0, 32, 1, 3, 16, 2, 8] {
        d.extend_from_slice(&v.to_le_bytes());
    }
    let mut a = vec![0u8; 16];
    a[0] = 0x81;
    a[1] = 0x40;
    let mut b = vec![0u8; 16];
    b[0] = 0xFF;
    b[1] = 0x01;
    let c = vec![0x3Cu8; 16];
    d.extend(a);
    d.extend(b);
    d.extend(c);
    for ch in codes {
        let mut buf = [0u8; 4];
        d.extend_from_slice(ch.encode_utf8(&mut buf).as_bytes());
        d.push(0xFF);
    }
    d
}

#[test]
fn utf8_decoding() {
    assert_eq!(Glyphs::get_utf8(&[0x41, 0, 0, 0]), Some(0x41));
    assert_eq!(Glyphs::get_utf8(&[0xC3, 0xA9, 0, 0]), Some(0xE9));
    assert_eq!(Glyphs::get_utf8(&[0xE2, 0x82, 0xAC, 0]), Some(0x20AC));
    assert_eq!(Glyphs::get_utf8(&[0xF0, 0x9F, 0x98, 0x80]), Some(0x1F600));
}

#[test]
fn glyph_table_parse() {
    let d = font_bytes(&['A', 'é', '€']);
    let g = Glyphs::new(&d[32..], 3, 16);
    // one bitmap for each of the three glyphs
    assert_eq!(g.glyph_count(), 3);
    assert_eq!(g.unicode_count(), 3);
    assert_eq!(g.get_unicode(0), 'A' as u32);
    assert_eq!(g.get_unicode(1), 0xE9);
    assert_eq!(g.get_unicode(2), 0x20AC);
    assert_eq!(g.get_glyph(1)[0], 0xFF);
    assert_eq!(g.bitmap_len(0), 16);
    assert_eq!(g.bitmap_len(2), 16);
}

#[test]
fn every_glyph_bitmap_is_kept() {
    let mut data = vec![0x11u8; 16];
    data.extend(vec![0x22u8; 16]);
    data.extend(vec![0x41, 0xFF, 0x42, 0xFF]);
    let g = Glyphs::new(&data, 2, 16);
    assert_eq!(g.glyph_count(), 2);
    assert_eq!(g.get_glyph(0), &vec![0x11u8; 16]);
    assert_eq!(g.get_glyph(1), &vec![0x22u8; 16]);
    assert_eq!(g.get_unicode(0), 0x41);
    assert_eq!(g.get_unicode(1), 0x42);
}

#[test]
fn psf_font_header_and_lookup() {
    let f = PsfFont::from(&font_bytes(&['A', 'B', 'C']));
    assert_eq!(f.get_height(), 2);
    assert_eq!(f.get_width(), 8);
    let a = f.find_glyph('A' as u32).unwrap();
    assert_eq!(a.len(), 16);
    assert_eq!(&a[0..2], &[0x81, 0x40]);
    assert_eq!(f.find_glyph('B' as u32).unwrap()[0], 0xFF);
    assert!(f.find_glyph('C' as u32).is_some());
    assert!(f.find_glyph('Z' as u32).is_none());
    assert_eq!(f.get_glyphs_unicodes(), vec!['A' as u32, 'B' as u32, 'C' as u32]);
}

#[test]
fn psf_font_padding_widens_cells() {
    let mut f = PsfFont::from(&font_bytes(&['A', 'B', 'C']));
    f.set_padding_before(1);
    f.set_padding_after(2);
    assert_eq!(f.get_width(), 11);
}

#[test]
fn framebuffer_init_answers() {
    assert!(matches!(FrameBuffer::init(None), Err(FrameBufferError::ResponseNotReady)));
    assert!(matches!(FrameBuffer::init(Some(None)), Err(FrameBufferError::NoFrameBufferFound)));
    let fb = FrameBuffer::init(Some(Some((64, 10, 3)))).unwrap();
    assert_eq!((fb.get_pitch(), fb.get_width(), fb.get_height()), (64, 10, 3));
    assert_eq!(fb.get_pixel(9, 2), 0);
}

#[test]
fn framebuffer_pixel_read_after_write() {
    let mut fb = FrameBuffer::new(64, 16, 4);
    fb.put_pixel(3, 2, 0x1234);
    assert_eq!(fb.get_pixel(3, 2), 0x1234);
    assert_eq!(fb.get_pixel(2, 3), 0);
    // byte offset of (3, 2) is 2 * 64 + 3 * 4
    assert_eq!(fb.get_pixel_on_coords(12, 128), 0x1234);
    fb.put_pixel_on_coords(4, 64, 7);
    assert_eq!(fb.get_pixel(1, 1), 7);
}

#[test]
fn framebuffer_square() {
    let mut fb = FrameBuffer::new(64, 16, 4);
    fb.put_pixel_on_square(2, 1, 5, 3);
    for y in 0..4u64 {
        for x in 0..16u64 {
            let inside = (2..5).contains(&x) && (1..4).contains(&y);
            assert_eq!(fb.get_pixel(x, y), if inside { 5 } else { 0 });
        }
    }
    fb.put_pixel_on_square(0, 0, 9, 0);
    assert_eq!(fb.get_pixel(0, 0), 0);
}

#[test]
fn display_char_draws_glyph_bits() {
    let f = PsfFont::from(&font_bytes(&['A', 'B', 'C']));
    let mut fb = FrameBuffer::new(64, 16, 4);
    f.display_char('A', &mut fb, (0, 0), 1, 2, 1);
    let row0: Vec<u32> = (0..8).map(|x| fb.get_pixel(x, 0)).collect();
    assert_eq!(row0, vec![1, 2, 2, 2, 2, 2, 2, 1]);
    let row1: Vec<u32> = (0..8).map(|x| fb.get_pixel(x, 1)).collect();
    assert_eq!(row1, vec![2, 1, 2, 2, 2, 2, 2, 2]);
    assert_eq!(fb.get_pixel(8, 0), 0);
    assert_eq!(fb.get_pixel(0, 2), 0);
}

#[test]
fn display_char_scaled_and_missing_glyph() {
    let f = PsfFont::from(&font_bytes(&['A', 'B', 'C']));
    let mut fb = FrameBuffer::new(64, 16, 4);
    f.display_char('A', &mut fb, (0, 0), 1, 2, 2);
    assert_eq!(fb.get_pixel(0, 0), 1);
    assert_eq!(fb.get_pixel(1, 1), 1);
    assert_eq!(fb.get_pixel(2, 0), 2);
    assert_eq!(fb.get_pixel(2, 2), 1);
    assert_eq!(fb.get_pixel(15, 3), 2);
    let mut fb2 = FrameBuffer::new(64, 16, 4);
    f.display_char('Z', &mut fb2, (8, 2), 1, 2, 1);
    for x in 8..16 {
        assert_eq!(fb2.get_pixel(x, 2), 2);
        assert_eq!(fb2.get_pixel(x, 3), 2);
    }
    assert_eq!(fb2.get_pixel(7, 2), 0);
}

#[test]
fn display_bold_char_smears_right() {
    let f = PsfFont::from(&font_bytes(&['A', 'B', 'C']));
    let mut fb = FrameBuffer::new(64, 16, 4);
    f.display_bold_char('A', &mut fb, (0, 0), 1, 2, 1);
    let row0: Vec<u32> = (0..9).map(|x| fb.get_pixel(x, 0)).collect();
    assert_eq!(row0, vec![1, 1, 2, 2, 2, 2, 2, 1, 1]);
    let row1: Vec<u32> = (0..9).map(|x| fb.get_pixel(x, 1)).collect();
    assert_eq!(row1, vec![2, 1, 1, 2, 2, 2, 2, 2, 2]);
}

fn tdf() -> TdfTextWriter {
    TdfTextWriter::new(&font_bytes(&['A', 'B', 'C']), FrameBuffer::new(160, 40, 8))
}

#[test]
fn tdf_starts_in_first_cell() {
    let w = tdf();
    assert_eq!(w.get_cursor_position(), (1, 1));
    assert_eq!(w.get_saved_cursor_position(), None);
}

#[test]
fn tdf_writes_character_with_padding() {
    let mut w = tdf();
    w.write_string("A");
    assert_eq!(w.get_cursor_position(), (2, 1));
    let fb = w.framebuffer();
    let row: Vec<u32> = (10..20).map(|x| fb.get_pixel(x, 2)).collect();
    assert_eq!(row, vec![BG, FG, BG, BG, BG, BG, BG, BG, FG, BG]);
    assert_eq!(fb.get_pixel(12, 3), FG);
    assert_eq!(fb.get_pixel(0, 0), 0);
}

#[test]
fn tdf_escape_sequences_move_and_colour() {
    let mut w = tdf();
    w.write_string("\x1b[2;3H");
    assert_eq!(w.get_cursor_position(), (3, 2));
    w.write_string("\x1b[31mB");
    assert_eq!(w.framebuffer().get_pixel(31, 4), RED);
    assert_eq!(w.framebuffer().get_pixel(30, 4), BG);
    assert_eq!(w.get_cursor_position(), (4, 2));
    w.write_string("\r");
    assert_eq!(w.get_cursor_position(), (1, 2));
    w.write_string("\x08");
    assert_eq!(w.get_cursor_position(), (1, 2));
    w.write_string("\x1b[0mA");
    assert_eq!(w.framebuffer().get_pixel(11, 4), FG);
}

#[test]
fn tdf_move_is_clamped_to_screen() {
    let mut w = tdf();
    w.write_string("\x1b[9;9H");
    assert_eq!(w.get_cursor_position(), (4, 4));
}

#[test]
fn tdf_save_and_restore_cursor() {
    let mut w = tdf();
    w.write_string("\x1b[2;3H\x1b[s");
    assert_eq!(w.get_saved_cursor_position(), Some((3, 2)));
    w.write_string("\x1b[1;1H");
    assert_eq!(w.get_cursor_position(), (1, 1));
    w.write_string("\x1b[u");
    assert_eq!(w.get_cursor_position(), (3, 2));
}

#[test]
fn tdf_cursor_back() {
    let mut w = tdf();
    w.write_string("\x1b[1;3H\x1b[D");
    assert_eq!(w.get_cursor_position(), (2, 1));
    w.write_string("\x1b[2D");
    assert_eq!(w.get_cursor_position(), (0, 1));
}

#[test]
fn tdf_clear_screen() {
    let mut w = tdf();
    w.write_string("A\x1b[2J");
    let fb = w.framebuffer();
    for y in 0..8 {
        for x in 0..40 {
            assert_eq!(fb.get_pixel(x, y), BG);
        }
    }
    assert_eq!(w.get_cursor_position(), (2, 1));
}

#[test]
fn tdf_newline_and_scroll() {
    let mut w = tdf();
    w.write_string("\n");
    assert_eq!(w.get_cursor_position(), (1, 2));
    w.write_string("A\n");
    assert_eq!(w.get_cursor_position(), (1, 3));
    assert_eq!(w.framebuffer().get_pixel(11, 4), FG);
    // the next line would not fit: the screen scrolls up one line
    w.write_string("\n");
    assert_eq!(w.get_cursor_position(), (1, 3));
    assert_eq!(w.framebuffer().get_pixel(11, 2), FG);
    assert_eq!(w.framebuffer().get_pixel(11, 6), BG);
}

#[test]
fn tdf_wraps_at_right_edge() {
    let mut w = tdf();
    w.write_string("AAA");
    assert_eq!(w.get_cursor_position(), (4, 1));
    w.write_string("A");
    assert_eq!(w.get_cursor_position(), (2, 2));
    assert_eq!(w.framebuffer().get_pixel(11, 4), FG);
}

#[test]
fn tdf_bold_mode() {
    let mut w = tdf();
    w.write_string("\x1b[1mA");
    let fb = w.framebuffer();
    assert_eq!(fb.get_pixel(10, 2), FG);
    assert_eq!(fb.get_pixel(11, 2), FG);
    assert_eq!(fb.get_pixel(12, 2), BG);
}

#[test]
fn tdf_trait_actions() {
    let mut w = tdf();
    w.move_cursor(2, 2);
    assert_eq!(w.get_cursor_position(), (2, 2));
    w.save_cursor();
    assert_eq!(w.get_saved_cursor_position(), Some((2, 2)));
    w.move_cursor_to_start();
    assert_eq!(w.get_cursor_position(), (1, 2));
    w.backspace();
    assert_eq!(w.get_cursor_position(), (1, 2));
    w.set_fg_color(RED);
    w.print('A');
    assert_eq!(w.framebuffer().get_pixel(11, 4), RED);
    w.backspace();
    assert_eq!(w.get_cursor_position(), (1, 2));
    w.set_bg_color(0xFF00_00AA);
    w.clear_screen();
    assert_eq!(w.framebuffer().get_pixel(0, 0), 0xFF00_00AA);
}

#[test]
fn tdf_available_chars() {
    let mut w = TdfTextWriter::new(&font_bytes(&['A', 'B', 'A']), FrameBuffer::new(160, 40, 8));
    w.prin_available_chars();
    assert_eq!(w.get_cursor_position(), (4, 1));
    assert_eq!(w.framebuffer().get_pixel(21, 2), FG);
}

#[test]
fn tdf_write_char_directly() {
    let mut w = tdf();
    w.write_char('B');
    assert_eq!(w.framebuffer().get_pixel(11, 2), FG);
    w.write_char('\n');
    assert_eq!(w.get_cursor_position(), (1, 2));
}

fn bub() -> BubTextWriter {
    BubTextWriter::new(&font_bytes(&['A', 'B', 'C']), FrameBuffer::new(160, 40, 8))
}

#[test]
fn bub_writes_on_bottom_line() {
    let mut w = bub();
    w.write_string("A");
    let fb = w.framebuffer();
    let row: Vec<u32> = (0..8).map(|x| fb.get_pixel(x, 6)).collect();
    assert_eq!(row, vec![FG, BG, BG, BG, BG, BG, BG, FG]);
    assert_eq!(fb.get_pixel(1, 7), FG);
    assert_eq!(fb.get_pixel(0, 0), 0);
}

#[test]
fn bub_newline_moves_text_up() {
    let mut w = bub();
    w.write_string("A\nB");
    let fb = w.framebuffer();
    assert_eq!(fb.get_pixel(0, 4), FG);
    assert_eq!(fb.get_pixel(1, 5), FG);
    // B on the bottom line: first row all set
    for x in 0..8 {
        assert_eq!(fb.get_pixel(x, 6), FG);
    }
}

#[test]
fn bub_backspace_overwrites() {
    let mut w = bub();
    w.write_char('B');
    w.write_char('\x08');
    w.write_char('A');
    let fb = w.framebuffer();
    assert_eq!(fb.get_pixel(1, 6), BG);
    assert_eq!(fb.get_pixel(0, 6), FG);
}
