//! The character grid and the display writer: cursor movement, line wrap,
//! scrolling and the escape-sequence interpreter.

use vstd::prelude::*;

use crate::cell::{cell_value, vol_new, vol_read, vol_write, ScreenChar};
use crate::model::{
    blank_cell, blank_row, byte_written, lemma_esc_run_snoc, line_advanced, low_byte, is_space_char,
    printed, scrolled, text_written, wf_view, esc_run, EscState, WriterView, BUFFER_HEIGHT,
    BUFFER_WIDTH,
};
use crate::palette::{color_of_name, lookup_color};

verus! {

/// The fixed-size rectangular array of display cells. Every cell is held in
/// a volatile wrapper, so each write reaches the underlying memory exactly
/// once per call.
pub struct Buffer {
    chars: Vec<Vec<volatile::Volatile<ScreenChar>>>,
}

impl View for Buffer {
    type V = Seq<Seq<ScreenChar>>;

    closed spec fn view(&self) -> Seq<Seq<ScreenChar>> {
        self.chars@.map(
            |r: int, rowv: Vec<volatile::Volatile<ScreenChar>>|
                rowv@.map(|c: int, cell: volatile::Volatile<ScreenChar>| cell_value(cell)),
        )
    }
}

impl Buffer {
    /// The grid has exactly `BUFFER_HEIGHT` rows of `BUFFER_WIDTH` cells.
    pub open spec fn wf(&self) -> bool {
        &&& self@.len() == BUFFER_HEIGHT
        &&& forall|r: int|
            0 <= r < BUFFER_HEIGHT ==> (#[trigger] self@[r]).len() == BUFFER_WIDTH
    }

    /// A fresh grid, cleared to spaces in the given color.
    pub fn new(color: u8) -> (b: Buffer)
        ensures
            b.wf(),
            forall|r: int| 0 <= r < BUFFER_HEIGHT ==> (#[trigger] b@[r]) == blank_row(color),
    {
        let mut chars: Vec<Vec<volatile::Volatile<ScreenChar>>> = Vec::new();
        while chars.len() < BUFFER_HEIGHT
            invariant
                chars@.len() <= BUFFER_HEIGHT,
                forall|r: int|
                    0 <= r < chars@.len() ==> (#[trigger] chars@[r])@.map(
                        |c: int, cell: volatile::Volatile<ScreenChar>| cell_value(cell),
                    ) =~= blank_row(color),
            decreases BUFFER_HEIGHT - chars@.len(),
        {
            let mut rowv: Vec<volatile::Volatile<ScreenChar>> = Vec::new();
            while rowv.len() < BUFFER_WIDTH
                invariant
                    rowv@.len() <= BUFFER_WIDTH,
                    forall|c: int|
                        0 <= c < rowv@.len() ==> cell_value(#[trigger] rowv@[c]) == (ScreenChar {
                            ascii_character: 32,
                            color_code: color,
                        }),
                decreases BUFFER_WIDTH - rowv@.len(),
            {
                rowv.push(vol_new(ScreenChar { ascii_character: 32, color_code: color }));
            }
            proof {
                assert(rowv@.map(|c: int, cell: volatile::Volatile<ScreenChar>| cell_value(cell))
                    =~= blank_row(color));
            }
            chars.push(rowv);
        }
        let b = Buffer { chars };
        proof {
            assert(b.wf());
        }
        b
    }

    /// Reads the cell at a grid position.
    pub fn read(&self, row: usize, col: usize) -> (c: ScreenChar)
        requires
            self.wf(),
            row < BUFFER_HEIGHT,
            col < BUFFER_WIDTH,
        ensures
            c == self@[row as int][col as int],
    {
        proof {
            assert(self@.len() == self.chars@.len());
            assert(self@[row as int].len() == self.chars@[row as int]@.len());
        }
        vol_read(&self.chars[row][col])
    }

    /// Overwrites the cell at a grid position; every other cell keeps its
    /// value.
    pub fn write(&mut self, row: usize, col: usize, value: ScreenChar)
        requires
            old(self).wf(),
            row < BUFFER_HEIGHT,
            col < BUFFER_WIDTH,
        ensures
            final(self).wf(),
            final(self)@ == old(self)@.update(
                row as int,
                old(self)@[row as int].update(col as int, value),
            ),
    {
        proof {
            assert(self@.len() == self.chars@.len());
            assert(self@[row as int].len() == self.chars@[row as int]@.len());
        }
        vol_write(&mut self.chars[row][col], value);
        proof {
            let newg = old(self)@.update(
                row as int,
                old(self)@[row as int].update(col as int, value),
            );
            assert forall|r: int| 0 <= r < BUFFER_HEIGHT implies self@[r] =~= newg[r] by {
                if r != row as int {
                    assert(self.chars@[r] == old(self).chars@[r]);
                }
            }
            assert(self@ =~~= newg);
        }
    }
}

/// The display writer: owns the grid, the cursor and the active color, and
/// carries the write, wrap and scroll algorithm.
pub struct FrameBufferWriter {
    pub column_position: usize,
    pub row_position: usize,
    pub color_code: u8,
    pub buffer: Buffer,
}

impl View for FrameBufferWriter {
    type V = WriterView;

    open spec fn view(&self) -> WriterView {
        WriterView {
            grid: self.buffer@,
            row: self.row_position as int,
            col: self.column_position as int,
            color: self.color_code,
        }
    }
}

impl FrameBufferWriter {
    /// The writer's invariant: its abstract state is well-formed.
    pub open spec fn wf(&self) -> bool {
        wf_view(self@)
    }

    /// A fresh writer: cursor at the top left, color white, grid cleared to
    /// white spaces.
    pub fn new() -> (w: FrameBufferWriter)
        ensures
            w.wf(),
            w@.row == 0,
            w@.col == 0,
            w@.color == 0x0f,
            forall|r: int| 0 <= r < BUFFER_HEIGHT ==> (#[trigger] w@.grid[r]) == blank_row(0x0f),
    {
        FrameBufferWriter {
            column_position: 0,
            row_position: 0,
            color_code: 0x0f,
            buffer: Buffer::new(0x0f),
        }
    }

    /// The cursor as (row, column).
    pub fn cursor(&self) -> (rc: (usize, usize))
        ensures
            rc.0 == self@.row,
            rc.1 == self@.col,
    {
        (self.row_position, self.column_position)
    }

    /// Clears one row to spaces in the active color.
    fn clear_row(&mut self, row: usize)
        requires
            old(self).wf(),
            row < BUFFER_HEIGHT,
        ensures
            final(self).wf(),
            final(self)@ == (WriterView {
                grid: old(self)@.grid.update(row as int, blank_row(old(self)@.color)),
                row: old(self)@.row,
                col: old(self)@.col,
                color: old(self)@.color,
            }),
    {
        let mut col: usize = 0;
        while col < BUFFER_WIDTH
            invariant
                old(self).wf(),
                row < BUFFER_HEIGHT,
                col <= BUFFER_WIDTH,
                self.buffer.wf(),
                self.color_code == old(self).color_code,
                self.row_position == old(self).row_position,
                self.column_position == old(self).column_position,
                forall|r: int|
                    0 <= r < BUFFER_HEIGHT && r != row ==> #[trigger] self.buffer@[r]
                        == old(self).buffer@[r],
                forall|c: int|
                    0 <= c < col ==> #[trigger] self.buffer@[row as int][c] == blank_cell(
                        old(self).color_code,
                    ),
                forall|c: int|
                    col <= c < BUFFER_WIDTH ==> #[trigger] self.buffer@[row as int][c]
                        == old(self).buffer@[row as int][c],
            decreases BUFFER_WIDTH - col,
        {
            let color = self.color_code;
            self.buffer.write(
                row,
                col,
                ScreenChar { ascii_character: 32, color_code: color },
            );
            col += 1;
        }
        proof {
            assert(self.buffer@[row as int] =~= blank_row(old(self).color_code));
            assert(self.buffer@ =~~= old(self)@.grid.update(
                row as int,
                blank_row(old(self)@.color),
            ));
        }
    }

    /// Moves every row up one place, discards the top row, and clears the
    /// last row to spaces in the active color.
    fn scroll_up(&mut self)
        requires
            old(self).wf(),
        ensures
            final(self).wf(),
            final(self)@ == scrolled(old(self)@),
    {
        let mut row: usize = 1;
        while row < BUFFER_HEIGHT
            invariant
                old(self).wf(),
                1 <= row <= BUFFER_HEIGHT,
                self.buffer.wf(),
                self.color_code == old(self).color_code,
                self.row_position == old(self).row_position,
                self.column_position == old(self).column_position,
                forall|r: int|
                    0 <= r < row - 1 ==> #[trigger] self.buffer@[r] == old(self).buffer@[r + 1],
                forall|r: int|
                    row - 1 <= r < BUFFER_HEIGHT ==> #[trigger] self.buffer@[r]
                        == old(self).buffer@[r],
            decreases BUFFER_HEIGHT - row,
        {
            let mut col: usize = 0;
            while col < BUFFER_WIDTH
                invariant
                    old(self).wf(),
                    1 <= row < BUFFER_HEIGHT,
                    col <= BUFFER_WIDTH,
                    self.buffer.wf(),
                    self.color_code == old(self).color_code,
                    self.row_position == old(self).row_position,
                    self.column_position == old(self).column_position,
                    forall|r: int|
                        0 <= r < row - 1 ==> #[trigger] self.buffer@[r] == old(self).buffer@[r
                            + 1],
                    forall|r: int|
                        row <= r < BUFFER_HEIGHT ==> #[trigger] self.buffer@[r]
                            == old(self).buffer@[r],
                    forall|c: int|
                        0 <= c < col ==> #[trigger] self.buffer@[row - 1][c]
                            == old(self).buffer@[row as int][c],
                    forall|c: int|
                        col <= c < BUFFER_WIDTH ==> #[trigger] self.buffer@[row - 1][c]
                            == old(self).buffer@[row - 1][c],
                decreases BUFFER_WIDTH - col,
            {
                let character = self.buffer.read(row, col);
                self.buffer.write(row - 1, col, character);
                col += 1;
            }
            proof {
                assert(self.buffer@[row - 1] =~= old(self).buffer@[row as int]);
            }
            row += 1;
        }
        self.clear_row(BUFFER_HEIGHT - 1);
        proof {
            assert forall|r: int| 0 <= r < BUFFER_HEIGHT implies #[trigger] self.buffer@[r]
                == scrolled(old(self)@).grid[r] by {}
            assert(self.buffer@ =~= scrolled(old(self)@).grid);
        }
    }

    /// A line advance: to the start of the next row, scrolling from the last
    /// row.
    fn new_line(&mut self)
        requires
            old(self).wf(),
        ensures
            final(self).wf(),
            final(self)@ == line_advanced(old(self)@),
    {
        if self.row_position + 1 < BUFFER_HEIGHT {
            self.row_position = self.row_position + 1;
        } else {
            self.scroll_up();
        }
        self.column_position = 0;
    }

    /// Places one literal byte at the cursor in the active color, wrapping
    /// first when the row is full.
    fn write_plain(&mut self, byte: u8)
        requires
            old(self).wf(),
        ensures
            final(self).wf(),
            final(self)@ == printed(old(self)@, byte),
    {
        if self.column_position >= BUFFER_WIDTH {
            self.new_line();
        }
        let row = self.row_position;
        let col = self.column_position;
        let color = self.color_code;
        self.buffer.write(row, col, ScreenChar { ascii_character: byte, color_code: color });
        self.column_position = col + 1;
    }

    /// The byte-oriented write entry point: newline advances the line, tab
    /// prints four spaces, any other byte prints literally.
    pub fn write_byte(&mut self, byte: u8)
        requires
            old(self).wf(),
        ensures
            final(self).wf(),
            final(self)@ == byte_written(old(self)@, byte),
    {
        if byte == 10 {
            self.new_line();
        } else if byte == 9 {
            self.write_plain(32);
            self.write_plain(32);
            self.write_plain(32);
            self.write_plain(32);
        } else {
            self.write_plain(byte);
        }
    }

    /// The string-oriented write entry point: decodes the escape
    /// mini-language and renders everything else literally.
    pub fn write_str(&mut self, s: &str)
        requires
            old(self).wf(),
        ensures
            final(self).wf(),
            final(self)@ == text_written(old(self)@, s@),
    {
        let n = s.unicode_len();
        let mut i: usize = 0;
        let mut mode = EscMode::Normal;
        let mut name: Vec<char> = Vec::new();
        proof {
            assert(s@.take(0) =~= Seq::<char>::empty());
        }
        while i < n
            invariant
                self.wf(),
                i <= n,
                n == s@.len(),
                esc_run(old(self)@, EscState::Normal, s@.take(i as int)) == (
                    self@,
                    st_of(mode, name@),
                ),
            decreases n - i,
        {
            let c = s.get_char(i);
            proof {
                lemma_esc_run_snoc(old(self)@, EscState::Normal, s@.take(i as int), c);
                assert(s@.take(i as int).push(c) =~= s@.take(i as int + 1));
            }
            match mode {
                EscMode::Normal => {
                    if c == '\\' {
                        mode = EscMode::AfterBackslash;
                    } else {
                        let b = low_byte_of(c);
                        self.write_byte(b);
                    }
                },
                EscMode::AfterBackslash => {
                    if c == 'n' {
                        self.new_line();
                        mode = EscMode::Normal;
                    } else if c == 't' {
                        self.write_byte(9);
                        mode = EscMode::Normal;
                    } else if c == 'c' {
                        name = Vec::new();
                        mode = EscMode::ColorName;
                    } else if c == '\\' {
                        self.write_byte(92);
                    } else {
                        self.write_byte(92);
                        let b = low_byte_of(c);
                        self.write_byte(b);
                        mode = EscMode::Normal;
                    }
                },
                EscMode::ColorName => {
                    if is_space(c) {
                        match lookup_color(&name) {
                            Some(code) => {
                                self.color_code = code;
                            },
                            None => {},
                        }
                        let b = low_byte_of(c);
                        self.write_byte(b);
                        mode = EscMode::Normal;
                    } else {
                        name.push(c);
                    }
                },
            }
            i += 1;
        }
        proof {
            assert(s@.take(n as int) =~= s@);
        }
        match mode {
            EscMode::Normal => {},
            EscMode::AfterBackslash => {
                self.write_byte(92);
            },
            EscMode::ColorName => {
                match lookup_color(&name) {
                    Some(code) => {
                        self.color_code = code;
                    },
                    None => {},
                }
            },
        }
    }

    /// The palette lookup on a color name given as a string.
    pub fn color_from_name(name: &str) -> (r: Option<u8>)
        ensures
            r == color_of_name(name@),
    {
        let n = name.unicode_len();
        let mut buf: Vec<char> = Vec::new();
        let mut i: usize = 0;
        proof {
            assert(name@.take(0) =~= Seq::<char>::empty());
        }
        while i < n
            invariant
                i <= n,
                n == name@.len(),
                buf@ == name@.take(i as int),
            decreases n - i,
        {
            buf.push(name.get_char(i));
            proof {
                assert(name@.take(i as int).push(name@[i as int]) =~= name@.take(i as int + 1));
            }
            i += 1;
        }
        proof {
            assert(name@.take(n as int) =~= name@);
        }
        lookup_color(&buf)
    }
}

/// A high-level handle for formatted output: it owns the display writer that
/// the formatting front end renders into.
pub struct Writer {
    pub fb: FrameBufferWriter,
}

impl View for Writer {
    type V = WriterView;

    open spec fn view(&self) -> WriterView {
        self.fb@
    }
}

impl Writer {
    /// The handle's invariant: the owned writer is well-formed.
    pub open spec fn wf(&self) -> bool {
        self.fb.wf()
    }

    /// A fresh handle over a fresh writer.
    pub fn new() -> (w: Writer)
        ensures
            w.wf(),
            w@.row == 0,
            w@.col == 0,
            w@.color == 0x0f,
            forall|r: int| 0 <= r < BUFFER_HEIGHT ==> (#[trigger] w@.grid[r]) == blank_row(0x0f),
    {
        Writer { fb: FrameBufferWriter::new() }
    }

    /// The string write entry point on the handle.
    pub fn write_str(&mut self, s: &str)
        requires
            old(self).wf(),
        ensures
            final(self).wf(),
            final(self)@ == text_written(old(self)@, s@),
    {
        self.fb.write_str(s);
    }
}

/// Renders one already-formatted text fragment through a handle; the
/// formatting itself (of arguments into text) is the caller's.
pub fn write_fmt(w: &mut Writer, s: &str)
    requires
        old(w).wf(),
    ensures
        final(w).wf(),
        final(w)@ == text_written(old(w)@, s@),
{
    w.write_str(s);
}

/// The interpreter's mode between two input characters; a pending color name
/// sits in a separate buffer.
enum EscMode {
    Normal,
    AfterBackslash,
    ColorName,
}

/// The abstract interpreter state an exec mode and name buffer stand for.
spec fn st_of(mode: EscMode, name: Seq<char>) -> EscState {
    match mode {
        EscMode::Normal => EscState::Normal,
        EscMode::AfterBackslash => EscState::AfterBackslash,
        EscMode::ColorName => EscState::ColorName(name),
    }
}

/// The low byte of a character, as rendered by the single-byte driver.
fn low_byte_of(c: char) -> (b: u8)
    ensures
        b == low_byte(c),
{
    ((c as u32) % 256) as u8
}

/// Whether a character terminates a color name.
fn is_space(c: char) -> (r: bool)
    ensures
        r == is_space_char(c),
{
    let u = c as u32;
    (9 <= u && u <= 13) || u == 32 || u == 0x85 || u == 0xa0 || u == 0x1680 || (0x2000 <= u && u
        <= 0x200a) || u == 0x2028 || u == 0x2029 || u == 0x202f || u == 0x205f || u == 0x3000
}

} // verus!
