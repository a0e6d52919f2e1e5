use framebuffer::cell::ScreenChar;
use framebuffer::writer::{write_fmt, FrameBufferWriter, Writer};

const WHITE: u8 = 0x0f;

fn cell(c: u8, color: u8) -> ScreenChar {
    ScreenChar { ascii_character: c, color_code: color }
}

#[test]
fn fresh_writer_starts_blank_at_top_left_in_white() {
    let w = FrameBufferWriter::new();
    assert_eq!(w.cursor(), (0, 0));
    assert_eq!(w.color_code, WHITE);
    assert_eq!(w.buffer.read(0, 0), cell(b' ', WHITE));
    assert_eq!(w.buffer.read(5, 5), cell(b' ', WHITE));
    assert_eq!(w.buffer.read(24, 79), cell(b' ', WHITE));
}

#[test]
fn plain_text_moves_cursor_by_its_length() {
    let mut w = FrameBufferWriter::new();
    w.write_str("hello");
    assert_eq!(w.cursor(), (0, 5));
    assert_eq!(w.buffer.read(0, 0), cell(b'h', WHITE));
    assert_eq!(w.buffer.read(0, 4), cell(b'o', WHITE));
}

#[test]
fn writing_a_full_row_and_one_more_wraps_to_the_next_row() {
    let mut w = FrameBufferWriter::new();
    for _ in 0..80 {
        w.write_byte(b'x');
    }
    assert_eq!(w.cursor(), (0, 80));
    w.write_byte(b'y');
    assert_eq!(w.cursor(), (1, 1));
    assert_eq!(w.buffer.read(1, 0), cell(b'y', WHITE));
    assert_eq!(w.buffer.read(0, 79), cell(b'x', WHITE));
}

#[test]
fn scrolling_shifts_rows_up_and_clears_the_last_row() {
    let mut w = FrameBufferWriter::new();
    w.write_byte(b'A');
    for _ in 0..24 {
        w.write_byte(b'\n');
    }
    assert_eq!(w.cursor(), (24, 0));
    w.write_byte(b'B');
    w.write_byte(b'\n');
    // the 'A' row was the top row and is discarded; the 'B' row moved up
    assert_eq!(w.cursor(), (24, 0));
    assert_eq!(w.buffer.read(23, 0), cell(b'B', WHITE));
    assert_eq!(w.buffer.read(0, 0), cell(b' ', WHITE));
    for col in 0..80 {
        assert_eq!(w.buffer.read(24, col), cell(b' ', WHITE));
    }
}

#[test]
fn scrolling_clears_the_last_row_in_the_active_color() {
    let mut w = FrameBufferWriter::new();
    w.write_str("\\cRed x");
    assert_eq!(w.color_code, 0x04);
    for _ in 0..25 {
        w.write_byte(b'\n');
    }
    for col in 0..80 {
        assert_eq!(w.buffer.read(24, col), cell(b' ', 0x04));
    }
}

#[test]
fn newline_separated_lines_scroll_the_topmost_line_away() {
    let mut w = FrameBufferWriter::new();
    for i in 0..26u8 {
        // line i holds the byte b'a' + (i % 26)
        w.write_byte(b'a' + i % 26);
        if i < 25 {
            w.write_byte(b'\n');
        }
    }
    // 26 lines on 25 rows: line 0 ('a') is gone, line 1 ('b') is at the top
    assert_eq!(w.buffer.read(0, 0), cell(b'b', WHITE));
    assert_eq!(w.buffer.read(24, 0), cell(b'z', WHITE));
}

#[test]
fn tab_writes_four_spaces() {
    let mut w = FrameBufferWriter::new();
    w.write_str("\\cBlue ");
    w.write_byte(b'\t');
    assert_eq!(w.cursor(), (0, 5));
    for col in 1..5 {
        assert_eq!(w.buffer.read(0, col), cell(b' ', 0x01));
    }
}

#[test]
fn tab_wraps_when_the_line_fills_mid_tab() {
    let mut w = FrameBufferWriter::new();
    for _ in 0..78 {
        w.write_byte(b'x');
    }
    w.write_byte(b'\t');
    assert_eq!(w.cursor(), (1, 2));
    assert_eq!(w.buffer.read(0, 78), cell(b' ', WHITE));
    assert_eq!(w.buffer.read(0, 79), cell(b' ', WHITE));
    assert_eq!(w.buffer.read(1, 0), cell(b' ', WHITE));
    assert_eq!(w.buffer.read(1, 1), cell(b' ', WHITE));
}

#[test]
fn escape_n_advances_the_line() {
    let mut w = FrameBufferWriter::new();
    w.write_str("a\\nb");
    assert_eq!(w.cursor(), (1, 1));
    assert_eq!(w.buffer.read(0, 0), cell(b'a', WHITE));
    assert_eq!(w.buffer.read(1, 0), cell(b'b', WHITE));
}

#[test]
fn escape_t_writes_four_spaces() {
    let mut w = FrameBufferWriter::new();
    w.write_str("a\\tb");
    assert_eq!(w.cursor(), (0, 6));
    assert_eq!(w.buffer.read(0, 2), cell(b' ', WHITE));
    assert_eq!(w.buffer.read(0, 5), cell(b'b', WHITE));
}

#[test]
fn valid_color_escape_recolors_the_terminating_space_and_what_follows() {
    let mut w = FrameBufferWriter::new();
    w.write_str("a\\cBlue b");
    assert_eq!(w.color_code, 0x01);
    assert_eq!(w.buffer.read(0, 0), cell(b'a', WHITE));
    // the terminating space renders in the new color
    assert_eq!(w.buffer.read(0, 1), cell(b' ', 0x01));
    assert_eq!(w.buffer.read(0, 2), cell(b'b', 0x01));
    assert_eq!(w.cursor(), (0, 3));
}

#[test]
fn invalid_color_escape_changes_nothing_and_parsing_goes_on() {
    let mut w = FrameBufferWriter::new();
    w.write_str("\\cNotAColor xy");
    assert_eq!(w.color_code, WHITE);
    assert_eq!(w.buffer.read(0, 0), cell(b' ', WHITE));
    assert_eq!(w.buffer.read(0, 1), cell(b'x', WHITE));
    assert_eq!(w.buffer.read(0, 2), cell(b'y', WHITE));
    assert_eq!(w.cursor(), (0, 3));
}

#[test]
fn color_name_at_end_of_input_still_resolves() {
    let mut w = FrameBufferWriter::new();
    w.write_str("\\cYellow");
    assert_eq!(w.color_code, 0x0e);
    assert_eq!(w.cursor(), (0, 0));
}

#[test]
fn unrecognized_escape_renders_backslash_and_the_character() {
    let mut w = FrameBufferWriter::new();
    w.write_str("\\q");
    assert_eq!(w.buffer.read(0, 0), cell(b'\\', WHITE));
    assert_eq!(w.buffer.read(0, 1), cell(b'q', WHITE));
    assert_eq!(w.cursor(), (0, 2));
}

#[test]
fn trailing_lone_backslash_renders_literally() {
    let mut w = FrameBufferWriter::new();
    w.write_str("ab\\");
    assert_eq!(w.buffer.read(0, 0), cell(b'a', WHITE));
    assert_eq!(w.buffer.read(0, 1), cell(b'b', WHITE));
    assert_eq!(w.buffer.read(0, 2), cell(b'\\', WHITE));
    assert_eq!(w.cursor(), (0, 3));
}

#[test]
fn round_trip_byte_then_read_at_the_old_cursor() {
    let mut w = FrameBufferWriter::new();
    let (row, col) = w.cursor();
    w.write_byte(b'Z');
    assert_eq!(w.buffer.read(row, col), cell(b'Z', WHITE));
    w.write_str("\\cPink ");
    let (row, col) = w.cursor();
    w.write_byte(b'!');
    assert_eq!(w.buffer.read(row, col), cell(b'!', 0x0d));
}

#[test]
fn scenario_hi_newline_blue_ok() {
    let mut w = FrameBufferWriter::new();
    w.write_str("Hi\n\\cBlue ok");
    assert_eq!(w.buffer.read(0, 0), cell(b'H', WHITE));
    assert_eq!(w.buffer.read(0, 1), cell(b'i', WHITE));
    assert_eq!(w.buffer.read(1, 0), cell(b' ', 0x01));
    assert_eq!(w.buffer.read(1, 1), cell(b'o', 0x01));
    assert_eq!(w.buffer.read(1, 2), cell(b'k', 0x01));
    assert_eq!(w.cursor(), (1, 3));
}

#[test]
fn writer_handle_and_write_fmt_render_through_the_same_path() {
    let mut w = Writer::new();
    w.write_str("one ");
    write_fmt(&mut w, "two");
    assert_eq!(w.fb.cursor(), (0, 7));
    assert_eq!(w.fb.buffer.read(0, 4), cell(b't', WHITE));
}

#[test]
fn unicode_whitespace_terminates_a_color_name() {
    let mut w = FrameBufferWriter::new();
    // a no-break space ends the name "blue" and renders as its low byte
    w.write_str("\u{5c}cblue\u{a0}x");
    assert_eq!(w.color_code, 0x01);
    assert_eq!(w.buffer.read(0, 0), cell(0xa0, 0x01));
    assert_eq!(w.buffer.read(0, 1), cell(b'x', 0x01));
}
