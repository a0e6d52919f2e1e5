//! The driver's general laws, proved over the model: cursor arithmetic for
//! plain text, automatic wrap, scrolling, the color escape, the literal
//! backslash fallback, and the write/read round trip.

use vstd::prelude::*;

use crate::cell::ScreenChar;
use crate::model::{
    blank_row, byte_written, color_applied, esc_run, esc_step, is_space_char, lemma_esc_run_app,
    lemma_esc_run_one, lemma_esc_run_two, low_byte, printed, text_written, wf_view, EscState,
    WriterView, BUFFER_HEIGHT, BUFFER_WIDTH,
};
use crate::palette::color_of_name;

verus! {

/// A character the interpreter renders as one literal in-row cell: it starts
/// no escape and its low byte is neither newline nor tab.
pub open spec fn is_plain_char(c: char) -> bool {
    c != '\\' && low_byte(c) != 10 && low_byte(c) != 9
}

/// One plain in-row character: the cursor cell is overwritten in the active
/// color, the column advances by one, and everything else is untouched.
proof fn lemma_printed_step(w: WriterView, b: u8)
    requires
        wf_view(w),
        w.col < BUFFER_WIDTH,
    ensures
        ({
            let r = printed(w, b);
            &&& wf_view(r)
            &&& r.row == w.row
            &&& r.col == w.col + 1
            &&& r.color == w.color
            &&& r.grid[w.row][w.col] == (ScreenChar { ascii_character: b, color_code: w.color })
            &&& forall|rr: int, cc: int|
                0 <= rr < BUFFER_HEIGHT && 0 <= cc < BUFFER_WIDTH && !(rr == w.row && cc == w.col)
                    ==> r.grid[rr][cc] == w.grid[rr][cc]
        }),
{
    let r = printed(w, b);
    assert forall|rr: int| 0 <= rr < BUFFER_HEIGHT implies (#[trigger] r.grid[rr]).len()
        == BUFFER_WIDTH by {
        if rr != w.row {
            assert(r.grid[rr] == w.grid[rr]);
        }
    }
}

/// A run of plain in-row characters: the interpreter stays out of any escape,
/// each character advances the column by one, and row and color hold still.
proof fn lemma_plain_run(w: WriterView, cs: Seq<char>)
    requires
        wf_view(w),
        w.col + cs.len() <= BUFFER_WIDTH,
        forall|i: int| 0 <= i < cs.len() ==> is_plain_char(#[trigger] cs[i]),
    ensures
        ({
            let r = esc_run(w, EscState::Normal, cs);
            &&& r.1 == EscState::Normal
            &&& wf_view(r.0)
            &&& r.0.col == w.col + cs.len()
            &&& r.0.row == w.row
            &&& r.0.color == w.color
        }),
    decreases cs.len(),
{
    if cs.len() > 0 {
        lemma_printed_step(w, low_byte(cs[0]));
        let w1 = printed(w, low_byte(cs[0]));
        assert(esc_step(w, EscState::Normal, cs[0]) == (w1, EscState::Normal));
        lemma_plain_run(w1, cs.skip(1));
    }
}

/// Writing a string of plain characters shorter than a row, from the start
/// of a line, leaves the cursor column at the string's length and the row
/// unchanged.
pub proof fn lemma_plain_text_cursor(w: WriterView, cs: Seq<char>)
    requires
        wf_view(w),
        w.col == 0,
        cs.len() < BUFFER_WIDTH,
        forall|i: int| 0 <= i < cs.len() ==> is_plain_char(#[trigger] cs[i]),
    ensures
        text_written(w, cs).col == cs.len(),
        text_written(w, cs).row == w.row,
{
    lemma_plain_run(w, cs);
}

/// Writing exactly a full row of plain characters and then one more wraps:
/// the extra character lands at column 0 of the next row, in the active
/// color, and the cursor follows it.
pub proof fn lemma_wrap(w: WriterView, cs: Seq<char>)
    requires
        wf_view(w),
        w.col == 0,
        w.row + 1 < BUFFER_HEIGHT,
        cs.len() == BUFFER_WIDTH + 1,
        forall|i: int| 0 <= i < cs.len() ==> is_plain_char(#[trigger] cs[i]),
    ensures
        ({
            let t = text_written(w, cs);
            &&& t.row == w.row + 1
            &&& t.col == 1
            &&& t.grid[w.row + 1][0] == (ScreenChar {
                ascii_character: low_byte(cs[BUFFER_WIDTH as int]),
                color_code: w.color,
            })
        }),
{
    let full = cs.take(BUFFER_WIDTH as int);
    let extra = cs.skip(BUFFER_WIDTH as int);
    assert(cs =~= full + extra);
    lemma_esc_run_app(w, EscState::Normal, full, extra);
    lemma_plain_run(w, full);
    let r = esc_run(w, EscState::Normal, full);
    let w1 = r.0;
    let c = cs[BUFFER_WIDTH as int];
    assert(extra[0] == c);
    let stepped = esc_step(w1, EscState::Normal, c);
    assert(extra.skip(1) =~= Seq::<char>::empty());
    assert(esc_run(w1, EscState::Normal, extra) == esc_run(stepped.0, stepped.1, extra.skip(1)));
    assert(w1.col == BUFFER_WIDTH);
    let wrapped = WriterView { grid: w1.grid, row: w1.row + 1, col: 0, color: w1.color };
    assert(printed(w1, low_byte(c)).grid == wrapped.grid.update(
        wrapped.row,
        wrapped.grid[wrapped.row].update(
            0,
            ScreenChar { ascii_character: low_byte(c), color_code: w1.color },
        ),
    ));
}

/// A newline on the last row scrolls: every line's contents move up one row,
/// the top line is discarded, and the freed last row is spaces in the active
/// color; the cursor stays on the last row, at column 0.
pub proof fn lemma_scroll(w: WriterView)
    requires
        wf_view(w),
        w.row == BUFFER_HEIGHT - 1,
    ensures
        ({
            let t = byte_written(w, 10);
            &&& t.row == BUFFER_HEIGHT - 1
            &&& t.col == 0
            &&& forall|r: int| 0 <= r < BUFFER_HEIGHT - 1 ==> #[trigger] t.grid[r] == w.grid[r + 1]
            &&& t.grid[BUFFER_HEIGHT - 1] == blank_row(w.color)
        }),
{
}

/// Accumulating a color name: non-whitespace characters only extend the
/// pending name and write nothing.
proof fn lemma_name_run(w: WriterView, buf: Seq<char>, name: Seq<char>)
    requires
        forall|i: int| 0 <= i < name.len() ==> !is_space_char(#[trigger] name[i]),
    ensures
        esc_run(w, EscState::ColorName(buf), name) == (w, EscState::ColorName(buf + name)),
    decreases name.len(),
{
    if name.len() == 0 {
        assert(buf + name =~= buf);
    } else {
        assert(esc_step(w, EscState::ColorName(buf), name[0]) == (
            w,
            EscState::ColorName(buf.push(name[0])),
        ));
        lemma_name_run(w, buf.push(name[0]), name.skip(1));
        assert(buf.push(name[0]) + name.skip(1) =~= buf + name);
    }
}

/// The color escape, resolved at its terminating space: the rest of the
/// input renders exactly as if it were written, space first, by a writer
/// whose color the name lookup decided.
proof fn lemma_color_escape(w: WriterView, name: Seq<char>, rest: Seq<char>)
    requires
        forall|i: int| 0 <= i < name.len() ==> !is_space_char(#[trigger] name[i]),
    ensures
        text_written(w, seq!['\\', 'c'] + name + seq![' '] + rest) == text_written(
            byte_written(color_applied(w, name), 32),
            rest,
        ),
{
    let input = seq!['\\', 'c'] + name + seq![' '] + rest;
    let prefix = seq!['\\', 'c'];
    let tail = name + seq![' '] + rest;
    assert(input =~= prefix + tail);
    lemma_esc_run_app(w, EscState::Normal, prefix, tail);
    lemma_esc_run_two(w, EscState::Normal, '\\', 'c');
    assert(esc_run(w, EscState::Normal, prefix) == (w, EscState::ColorName(Seq::empty())));
    assert(tail =~= name + (seq![' '] + rest));
    lemma_esc_run_app(w, EscState::ColorName(Seq::empty()), name, seq![' '] + rest);
    lemma_name_run(w, Seq::empty(), name);
    assert(Seq::empty() + name =~= name);
    let spaced = seq![' '] + rest;
    assert(spaced[0] == ' ');
    assert(is_space_char(' '));
    assert(low_byte(' ') == 32);
    let w2 = byte_written(color_applied(w, name), 32);
    assert(esc_step(w, EscState::ColorName(name), ' ') == (w2, EscState::Normal));
    assert(spaced.skip(1) =~= rest);
    lemma_esc_run_app(w, EscState::ColorName(name), seq![' '], rest);
    lemma_esc_run_one(w, EscState::ColorName(name), ' ');
    assert(esc_run(w, EscState::ColorName(name), seq![' ']) == (w2, EscState::Normal));
}

/// A known color name with its terminating space changes the active color
/// for everything after the space, and the space itself renders in the new
/// color at the old cursor cell.
pub proof fn lemma_color_escape_known(
    w: WriterView,
    name: Seq<char>,
    code: u8,
    rest: Seq<char>,
)
    requires
        wf_view(w),
        w.col < BUFFER_WIDTH,
        forall|i: int| 0 <= i < name.len() ==> !is_space_char(#[trigger] name[i]),
        color_of_name(name) == Some(code),
    ensures
        ({
            let recolored = WriterView { grid: w.grid, row: w.row, col: w.col, color: code };
            let after_space = byte_written(recolored, 32);
            &&& text_written(w, seq!['\\', 'c'] + name + seq![' '] + rest) == text_written(
                after_space,
                rest,
            )
            &&& after_space.color == code
            &&& after_space.grid[w.row][w.col] == (ScreenChar {
                ascii_character: 32,
                color_code: code,
            })
        }),
{
    lemma_color_escape(w, name, rest);
    let recolored = WriterView { grid: w.grid, row: w.row, col: w.col, color: code };
    lemma_printed_step(recolored, 32);
}

/// An unknown color name with its terminating space leaves the active color
/// unchanged and does not disturb the rest of the input: everything after
/// the escape renders as if only the space and the rest were written.
pub proof fn lemma_color_escape_unknown(w: WriterView, name: Seq<char>, rest: Seq<char>)
    requires
        forall|i: int| 0 <= i < name.len() ==> !is_space_char(#[trigger] name[i]),
        color_of_name(name) == None::<u8>,
    ensures
        text_written(w, seq!['\\', 'c'] + name + seq![' '] + rest) == text_written(
            byte_written(w, 32),
            rest,
        ),
        byte_written(w, 32).color == w.color,
{
    lemma_color_escape(w, name, rest);
}

/// A lone trailing backslash renders as a literal backslash.
pub proof fn lemma_trailing_backslash(w: WriterView)
    ensures
        text_written(w, seq!['\\']) == byte_written(w, 92),
{
    lemma_esc_run_one(w, EscState::Normal, '\\');
    assert(esc_run(w, EscState::Normal, seq!['\\']) == (w, EscState::AfterBackslash));
}

/// A backslash before a character that names no escape renders the backslash
/// and then that character literally; the rest of the input is undisturbed.
pub proof fn lemma_unknown_escape(w: WriterView, c: char, rest: Seq<char>)
    requires
        c != 'n',
        c != 't',
        c != 'c',
        c != '\\',
    ensures
        text_written(w, seq!['\\', c] + rest) == text_written(
            byte_written(byte_written(w, 92), low_byte(c)),
            rest,
        ),
{
    let prefix = seq!['\\', c];
    assert(seq!['\\', c] + rest =~= prefix + rest);
    lemma_esc_run_app(w, EscState::Normal, prefix, rest);
    lemma_esc_run_two(w, EscState::Normal, '\\', c);
    let w2 = byte_written(byte_written(w, 92), low_byte(c));
    assert(esc_run(w, EscState::Normal, prefix) == (w2, EscState::Normal));
}

/// The active color persists across every byte write, newlines and scrolls
/// included: only a resolved color escape changes it.
pub proof fn lemma_color_persists(w: WriterView, b: u8)
    ensures
        byte_written(w, b).color == w.color,
{
}

/// The write/read round trip: a literal byte written at an in-row cursor is
/// exactly what the pre-write cursor cell then holds, in the color active at
/// the time of the write.
pub proof fn lemma_round_trip(w: WriterView, b: u8)
    requires
        wf_view(w),
        w.col < BUFFER_WIDTH,
        b != 10,
        b != 9,
    ensures
        byte_written(w, b).grid[w.row][w.col] == (ScreenChar {
            ascii_character: b,
            color_code: w.color,
        }),
{
    lemma_printed_step(w, b);
}

} // verus!
