use core::fmt::Write;

use ruos_vga::{Buffer, Color, ColorCode, ScreenChar, Writer, BUFFER_HEIGHT, BUFFER_WIDTH};
use volatile::Volatile;

const YELLOW_ON_BLACK: u8 = 0x0e;

fn grid_filled(value: u16) -> Buffer {
    let cells: [[Volatile<u16>; BUFFER_WIDTH]; BUFFER_HEIGHT] =
        core::array::from_fn(|_| core::array::from_fn(|_| Volatile::new(value)));
    Buffer::new(Box::leak(Box::new(cells)))
}

fn fresh_writer() -> Writer {
    Writer::new(grid_filled(0))
}

fn code_point(w: &Writer, row: usize, col: usize) -> u8 {
    w.read_char(row, col).ascii_character
}

fn row_text(w: &Writer, row: usize) -> Vec<u8> {
    (0..BUFFER_WIDTH).map(|c| code_point(w, row, c)).collect()
}

const LAST: usize = BUFFER_HEIGHT - 1;

#[test]
fn new_writer_starts_at_column_zero_in_yellow_on_black() {
    let w = fresh_writer();
    assert_eq!(w.column_position(), 0);
    assert_eq!(w.color_code(), ColorCode(YELLOW_ON_BLACK));
}

#[test]
fn hello_fills_first_five_cells_without_scrolling() {
    let mut w = fresh_writer();
    for b in [b'H', b'e', b'l', b'l', b'o'] {
        w.write_byte(b);
    }
    assert_eq!(w.column_position(), 5);
    let expected = [b'H', b'e', b'l', b'l', b'o'];
    for (c, &b) in expected.iter().enumerate() {
        let ch = w.read_char(LAST, c);
        assert_eq!(ch, ScreenChar { ascii_character: b, color_code: ColorCode(YELLOW_ON_BLACK) });
    }
    // Nothing scrolled: the other cells still hold what the grid started with.
    assert_eq!(w.read_char(LAST, 5), ScreenChar { ascii_character: 0, color_code: ColorCode(0) });
    for row in 0..LAST {
        assert!(row_text(&w, row).iter().all(|&b| b == 0));
    }
}

#[test]
fn eighty_one_bytes_scroll_exactly_once() {
    let mut w = fresh_writer();
    let line = "A".repeat(81);
    w.write_string(&line);
    assert_eq!(w.column_position(), 1);
    // The first 80 bytes moved up one row.
    assert!(row_text(&w, LAST - 1).iter().all(|&b| b == b'A'));
    // The 81st is at column 0 of the refreshed last row, the rest blank.
    assert_eq!(code_point(&w, LAST, 0), b'A');
    for c in 1..BUFFER_WIDTH {
        let ch = w.read_char(LAST, c);
        assert_eq!(ch, ScreenChar { ascii_character: b' ', color_code: ColorCode(YELLOW_ON_BLACK) });
    }
    // Only one scroll: the row above still holds the grid's original content.
    assert!(row_text(&w, LAST - 2).iter().all(|&b| b == 0));
}

#[test]
fn null_byte_is_stored_as_marker_glyph() {
    let mut w = fresh_writer();
    w.write_string("\u{0}");
    assert_eq!(w.column_position(), 1);
    assert_eq!(code_point(&w, LAST, 0), 0xfe);
}

#[test]
fn non_ascii_bytes_each_become_a_marker_glyph() {
    let mut w = fresh_writer();
    // 'ö' is two bytes in UTF-8, '\t' and DEL are not printable.
    w.write_string("a\u{f6}\t\u{7f}~");
    assert_eq!(w.column_position(), 6);
    let got: Vec<u8> = (0..6).map(|c| code_point(&w, LAST, c)).collect();
    assert_eq!(got, vec![b'a', 0xfe, 0xfe, 0xfe, 0xfe, b'~']);
}

#[test]
fn printable_range_is_stored_as_is() {
    let mut w = fresh_writer();
    w.write_string(" ~");
    assert_eq!(code_point(&w, LAST, 0), b' ');
    assert_eq!(code_point(&w, LAST, 1), b'~');
}

#[test]
fn newline_resets_column() {
    let mut w = fresh_writer();
    w.write_string("abc");
    assert_eq!(w.column_position(), 3);
    w.write_byte(b'\n');
    assert_eq!(w.column_position(), 0);
    w.write_byte(b'\n');
    assert_eq!(w.column_position(), 0);
    let mut full = fresh_writer();
    full.write_string(&"x".repeat(80));
    assert_eq!(full.column_position(), 80);
    full.write_string("\n");
    assert_eq!(full.column_position(), 0);
}

#[test]
fn newline_shifts_every_row_up_and_blanks_the_last() {
    let mut w = Writer::new(grid_filled(0x1f00 | b'#' as u16));
    for row in 0..BUFFER_HEIGHT {
        w.write_string(&format!("row{:02}", row));
        if row + 1 < BUFFER_HEIGHT {
            w.write_byte(b'\n');
        }
    }
    let before: Vec<Vec<u8>> = (0..BUFFER_HEIGHT).map(|r| row_text(&w, r)).collect();
    assert_eq!(&before[LAST][..5], b"row24");
    assert_eq!(&before[0][..5], b"row00");
    w.write_byte(b'\n');
    for r in 0..LAST {
        assert_eq!(row_text(&w, r), before[r + 1]);
    }
    for c in 0..BUFFER_WIDTH {
        let ch = w.read_char(LAST, c);
        assert_eq!(ch, ScreenChar { ascii_character: b' ', color_code: ColorCode(YELLOW_ON_BLACK) });
    }
}

#[test]
fn wrap_keeps_final_segment_in_last_row() {
    let mut w = fresh_writer();
    let input: Vec<u8> = (0..165u32).map(|i| b'!' + (i % 90) as u8).collect();
    let text = String::from_utf8(input.clone()).unwrap();
    w.write_string(&text);
    // 165 = 2 * 80 + 5
    assert_eq!(w.column_position(), 5);
    let last: Vec<u8> = (0..5).map(|c| code_point(&w, LAST, c)).collect();
    assert_eq!(last, input[160..].to_vec());
    assert!(row_text(&w, LAST)[5..].iter().all(|&b| b == b' '));
    assert_eq!(row_text(&w, LAST - 1), input[80..160].to_vec());
    assert_eq!(row_text(&w, LAST - 2), input[..80].to_vec());
}

#[test]
fn wrap_at_exact_multiple_of_width_fills_the_row() {
    let mut w = fresh_writer();
    let text = "z".repeat(160);
    w.write_string(&text);
    assert_eq!(w.column_position(), 80);
    assert!(row_text(&w, LAST).iter().all(|&b| b == b'z'));
    assert!(row_text(&w, LAST - 1).iter().all(|&b| b == b'z'));
    assert!(row_text(&w, LAST - 2).iter().all(|&b| b == 0));
}

#[test]
fn color_code_round_trips_for_all_pairs() {
    let colors = [
        Color::Black,
        Color::Blue,
        Color::Green,
        Color::Cyan,
        Color::Red,
        Color::Magenta,
        Color::Brown,
        Color::LightGray,
        Color::DarkGray,
        Color::LightBlue,
        Color::LightGreen,
        Color::LightCyan,
        Color::LightRed,
        Color::Pink,
        Color::Yellow,
        Color::White,
    ];
    for (i, &fg) in colors.iter().enumerate() {
        assert_eq!(fg.to_index() as usize, i);
        assert_eq!(Color::of_index(i as u8), fg);
        for (j, &bg) in colors.iter().enumerate() {
            let code = ColorCode::new(fg, bg);
            assert_eq!(code.0 as usize, j * 16 + i);
            assert_eq!(code.foreground(), fg);
            assert_eq!(code.background(), bg);
        }
    }
}

#[test]
fn color_code_packs_background_high() {
    assert_eq!(ColorCode::new(Color::Yellow, Color::Black).0, 0x0e);
    assert_eq!(ColorCode::new(Color::White, Color::Blue).0, 0x1f);
    assert_eq!(ColorCode(0x4a).foreground(), Color::LightGreen);
    assert_eq!(ColorCode(0x4a).background(), Color::Red);
}

#[test]
fn cell_encoding_is_attribute_high_code_point_low() {
    let ch = ScreenChar { ascii_character: b'A', color_code: ColorCode(0x0e) };
    assert_eq!(ch.encode(), 0x0e41);
    assert_eq!(ScreenChar::decode(0x1f7e), ScreenChar { ascii_character: b'~', color_code: ColorCode(0x1f) });
    assert_eq!(ScreenChar::decode(ch.encode()), ch);
}

#[test]
fn formatted_text_goes_through_write_string() {
    let mut w = fresh_writer();
    w.write_str("n=42\u{e9}").unwrap();
    let got: Vec<u8> = (0..6).map(|c| code_point(&w, LAST, c)).collect();
    assert_eq!(got, vec![b'n', b'=', b'4', b'2', 0xfe, 0xfe]);
}

#[test]
fn test_print_writes_hello_world_line() {
    let mut w = fresh_writer();
    ruos_vga::test_print(&mut w);
    assert_eq!(w.column_position(), 0);
    let mut expected = b"HelloW".to_vec();
    expected.extend([0xfe, 0xfe]);
    expected.extend(b"rld!");
    assert_eq!(row_text(&w, LAST - 1)[..12].to_vec(), expected);
    assert!(row_text(&w, LAST).iter().all(|&b| b == b' '));
}
