//! The mathematical model of the display writer: an abstract grid, cursor and
//! color, and the transition functions that every write is proved against.

use vstd::prelude::*;

use crate::cell::ScreenChar;
use crate::palette::color_of_name;

verus! {

/// Columns of the character grid.
pub const BUFFER_WIDTH: usize = 80;

/// Rows of the character grid.
pub const BUFFER_HEIGHT: usize = 25;

/// The abstract state of the display writer: the grid contents, the cursor
/// position and the active foreground color.
pub struct WriterView {
    pub grid: Seq<Seq<ScreenChar>>,
    pub row: int,
    pub col: int,
    pub color: u8,
}

/// Well-formedness: the grid is exactly `BUFFER_HEIGHT` rows of
/// `BUFFER_WIDTH` cells, the row is on the grid, and the column is at most
/// one past the last cell of a row (a column of `BUFFER_WIDTH` means the row
/// is full and the next plain character wraps).
pub open spec fn wf_view(w: WriterView) -> bool {
    &&& w.grid.len() == BUFFER_HEIGHT
    &&& forall|r: int|
        0 <= r < BUFFER_HEIGHT ==> (#[trigger] w.grid[r]).len() == BUFFER_WIDTH
    &&& 0 <= w.row < BUFFER_HEIGHT
    &&& 0 <= w.col <= BUFFER_WIDTH
}

/// A space character in the given color.
pub open spec fn blank_cell(color: u8) -> ScreenChar {
    ScreenChar { ascii_character: 32, color_code: color }
}

/// A full row of spaces in the given color.
pub open spec fn blank_row(color: u8) -> Seq<ScreenChar> {
    Seq::new(BUFFER_WIDTH as nat, |c: int| blank_cell(color))
}

/// The grid after a scroll: every row moves up one place, the top row is
/// discarded, and the last row is cleared to spaces in the active color.
/// Cursor and color are untouched.
pub open spec fn scrolled(w: WriterView) -> WriterView {
    WriterView {
        grid: Seq::new(
            BUFFER_HEIGHT as nat,
            |r: int|
                if r < BUFFER_HEIGHT - 1 {
                    w.grid[r + 1]
                } else {
                    blank_row(w.color)
                },
        ),
        row: w.row,
        col: w.col,
        color: w.color,
    }
}

/// A line advance: the cursor moves to the start of the next row, scrolling
/// when it already sits on the last row.
pub open spec fn line_advanced(w: WriterView) -> WriterView {
    let moved = if w.row + 1 < BUFFER_HEIGHT {
        WriterView { grid: w.grid, row: w.row + 1, col: w.col, color: w.color }
    } else {
        scrolled(w)
    };
    WriterView { grid: moved.grid, row: moved.row, col: 0, color: moved.color }
}

/// One plain character placed at the cursor in the active color: a full row
/// wraps first, then the cell at the cursor is overwritten and the column
/// advances by one.
pub open spec fn printed(w: WriterView, b: u8) -> WriterView {
    let at = if w.col >= BUFFER_WIDTH {
        line_advanced(w)
    } else {
        w
    };
    WriterView {
        grid: at.grid.update(
            at.row,
            at.grid[at.row].update(at.col, ScreenChar { ascii_character: b, color_code: at.color }),
        ),
        row: at.row,
        col: at.col + 1,
        color: at.color,
    }
}

/// One byte through the byte-oriented entry point: newline advances the line,
/// tab prints four spaces, anything else prints literally.
pub open spec fn byte_written(w: WriterView, b: u8) -> WriterView {
    if b == 10 {
        line_advanced(w)
    } else if b == 9 {
        printed(printed(printed(printed(w, 32), 32), 32), 32)
    } else {
        printed(w, b)
    }
}

/// The low byte of a character: multi-byte characters are narrowed to it when
/// rendered, since the driver is single-byte only.
pub open spec fn low_byte(c: char) -> u8 {
    (((c as u32) % 256) as u8)
}

/// The whitespace characters that terminate a color name: exactly the
/// Unicode White_Space set that `char::is_whitespace` recognizes.
pub open spec fn is_space_char(c: char) -> bool {
    let u = c as u32;
    ||| 9 <= u <= 13
    ||| u == 32
    ||| u == 0x85
    ||| u == 0xa0
    ||| u == 0x1680
    ||| 0x2000 <= u <= 0x200a
    ||| u == 0x2028
    ||| u == 0x2029
    ||| u == 0x202f
    ||| u == 0x205f
    ||| u == 0x3000
}

/// The state of the escape interpreter between two characters of the input.
pub enum EscState {
    /// Outside any escape sequence.
    Normal,
    /// A `\` has been read and its follower decides the escape.
    AfterBackslash,
    /// Inside `\c...`: the characters of the color name read so far.
    ColorName(Seq<char>),
}

/// The writer after a color name resolves: a known name sets the active
/// color, an unknown one changes nothing.
pub open spec fn color_applied(w: WriterView, name: Seq<char>) -> WriterView {
    match color_of_name(name) {
        Some(code) => WriterView { grid: w.grid, row: w.row, col: w.col, color: code },
        None => w,
    }
}

/// One character through the escape interpreter.
pub open spec fn esc_step(w: WriterView, st: EscState, c: char) -> (WriterView, EscState) {
    match st {
        EscState::Normal => {
            if c == '\\' {
                (w, EscState::AfterBackslash)
            } else {
                (byte_written(w, low_byte(c)), EscState::Normal)
            }
        },
        EscState::AfterBackslash => {
            if c == 'n' {
                (line_advanced(w), EscState::Normal)
            } else if c == 't' {
                (byte_written(w, 9), EscState::Normal)
            } else if c == 'c' {
                (w, EscState::ColorName(Seq::empty()))
            } else if c == '\\' {
                // the pending backslash is literal, and c starts a new escape
                (byte_written(w, 92), EscState::AfterBackslash)
            } else {
                // the pending backslash is literal, and c is reprocessed normally
                (byte_written(byte_written(w, 92), low_byte(c)), EscState::Normal)
            }
        },
        EscState::ColorName(name) => {
            if is_space_char(c) {
                // resolve the name; the terminating whitespace is not consumed
                // by the escape and renders normally, in the new color
                (byte_written(color_applied(w, name), low_byte(c)), EscState::Normal)
            } else {
                (w, EscState::ColorName(name.push(c)))
            }
        },
    }
}

/// The escape interpreter run over a whole character sequence.
pub open spec fn esc_run(w: WriterView, st: EscState, cs: Seq<char>) -> (WriterView, EscState)
    decreases cs.len(),
{
    if cs.len() == 0 {
        (w, st)
    } else {
        let stepped = esc_step(w, st, cs[0]);
        esc_run(stepped.0, stepped.1, cs.skip(1))
    }
}

/// The end of the input: a pending backslash is rendered literally, and a
/// pending color name resolves.
pub open spec fn esc_finished(w: WriterView, st: EscState) -> WriterView {
    match st {
        EscState::Normal => w,
        EscState::AfterBackslash => byte_written(w, 92),
        EscState::ColorName(name) => color_applied(w, name),
    }
}

/// Running the interpreter over `a + b` is running it over `a`, then over
/// `b` from where that left off.
pub proof fn lemma_esc_run_app(w: WriterView, st: EscState, a: Seq<char>, b: Seq<char>)
    ensures
        esc_run(w, st, a + b) == ({
            let r = esc_run(w, st, a);
            esc_run(r.0, r.1, b)
        }),
    decreases a.len(),
{
    if a.len() == 0 {
        assert(a + b =~= b);
    } else {
        assert((a + b)[0] == a[0]);
        assert((a + b).skip(1) =~= a.skip(1) + b);
        let stepped = esc_step(w, st, a[0]);
        lemma_esc_run_app(stepped.0, stepped.1, a.skip(1), b);
    }
}

/// A one-character run is exactly one step.
pub proof fn lemma_esc_run_one(w: WriterView, st: EscState, c: char)
    ensures
        esc_run(w, st, seq![c]) == esc_step(w, st, c),
{
    assert(seq![c][0] == c);
    let stepped = esc_step(w, st, c);
    assert(seq![c].skip(1) =~= Seq::<char>::empty());
    assert(esc_run(w, st, seq![c]) == esc_run(stepped.0, stepped.1, seq![c].skip(1)));
    assert(esc_run(stepped.0, stepped.1, Seq::<char>::empty()) == (stepped.0, stepped.1));
}

/// A two-character run is exactly two steps.
pub proof fn lemma_esc_run_two(w: WriterView, st: EscState, c1: char, c2: char)
    ensures
        esc_run(w, st, seq![c1, c2]) == ({
            let first = esc_step(w, st, c1);
            esc_step(first.0, first.1, c2)
        }),
{
    assert(seq![c1, c2] =~= seq![c1] + seq![c2]);
    lemma_esc_run_app(w, st, seq![c1], seq![c2]);
    lemma_esc_run_one(w, st, c1);
    let first = esc_step(w, st, c1);
    lemma_esc_run_one(first.0, first.1, c2);
}

/// Running the interpreter over `cs.push(c)` is running it over `cs`, then
/// one step on `c`.
pub proof fn lemma_esc_run_snoc(w: WriterView, st: EscState, cs: Seq<char>, c: char)
    ensures
        esc_run(w, st, cs.push(c)) == ({
            let r = esc_run(w, st, cs);
            esc_step(r.0, r.1, c)
        }),
{
    assert(cs.push(c) =~= cs + seq![c]);
    lemma_esc_run_app(w, st, cs, seq![c]);
    let r = esc_run(w, st, cs);
    assert(seq![c][0] == c);
    let stepped = esc_step(r.0, r.1, c);
    assert(seq![c].skip(1) =~= Seq::<char>::empty());
    assert(esc_run(r.0, r.1, seq![c]) == esc_run(stepped.0, stepped.1, seq![c].skip(1)));
    assert(esc_run(stepped.0, stepped.1, Seq::<char>::empty()) == (stepped.0, stepped.1));
}

/// The writer after a whole text fragment goes through the string-oriented
/// entry point.
pub open spec fn text_written(w: WriterView, cs: Seq<char>) -> WriterView {
    let run = esc_run(w, EscState::Normal, cs);
    esc_finished(run.0, run.1)
}

} // verus!
