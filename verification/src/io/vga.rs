//! The text screen: where the cursor stands, and what a character that is
//! written does to the screen buffer.

use crate::io::Op;
use vstd::prelude::*;

verus! {

/// Address of the screen buffer.
pub const BUFFER: usize = 0xB8000;

/// Number of columns of the screen.
pub const COLS: usize = 80;

/// Number of rows of the screen.
pub const ROWS: usize = 25;

/// Size in bytes of one row in the screen buffer: a character and its
/// attribute for each column.
pub const ROW_BYTES: usize = COLS * 2;

/// The attribute that characters are shown with.
pub const ATTR: u8 = 0xb;

/// The tabulator.
pub const TAB: u8 = 0x09;

/// The newline character.
pub const NEWLINE: u8 = 0x0a;

/// The carriage return.
pub const RETURN: u8 = 0x0d;

/// The space character.
pub const SPACE: u8 = 0x20;

/// The VGA instance remembers the cursor position on the screen
pub struct VGA {
    col: usize,
    row: usize,
}

/// What clears the screen.
pub open spec fn init_ops() -> Seq<Op> {
    seq![Op::Fill { dst: BUFFER, byte: 0, len: (ROWS * COLS * 2) as usize }]
}

/// Inits the VGA screen (clears it)
pub fn init() -> (ops: Vec<Op>)
    ensures
        ops@ == init_ops(),
{
    let mut ops: Vec<Op> = Vec::new();
    ops.push(Op::Fill { dst: BUFFER, byte: 0, len: ROWS * COLS * 2 });
    ops
}

/// A position of the cursor.
pub struct Cursor {
    pub col: int,
    pub row: int,
}

/// Whether `b` is a character that leaves a mark on the screen.
pub open spec fn is_graphic(b: u8) -> bool {
    0x21 <= b <= 0x7e
}

/// What moves all rows up by one and clears the last.
pub open spec fn scroll_ops() -> Seq<Op> {
    seq![
        Op::Move {
            dst: BUFFER,
            src: (BUFFER + ROW_BYTES) as usize,
            len: ((ROWS - 1) * ROW_BYTES) as usize,
        },
        Op::Fill { dst: (BUFFER + (ROWS - 1) * ROW_BYTES) as usize, byte: 0, len: ROW_BYTES },
    ]
}

/// What shows character `b` at cursor position `at`.
pub open spec fn put_ops(at: Cursor, b: u8) -> Seq<Op> {
    let off = at.row * ROW_BYTES + at.col * 2;
    seq![
        Op::Store8 { addr: (BUFFER + off) as usize, byte: b },
        Op::Store8 { addr: (BUFFER + off + 1) as usize, byte: ATTR },
    ]
}

/// Where the cursor goes before `b` is written: to the start of the next
/// row at the end of a row and for a newline, to the start of its row for a
/// carriage return.
pub open spec fn line_start(at: Cursor, b: u8) -> Cursor {
    if at.col >= COLS || b == NEWLINE {
        Cursor { col: 0, row: at.row + 1 }
    } else if b == RETURN {
        Cursor { col: 0, row: at.row }
    } else {
        at
    }
}

/// Where the cursor stands once character `b` has been written at `at`,
/// and what that does to the screen buffer.
///
/// The cursor first goes to its line start. If it has left the screen, the
/// screen scrolls and the cursor goes back to the last row. Then a tab is
/// written as two spaces, a space or a graphic character is shown and moves
/// the cursor on by one column, and every other character shows nothing.
pub open spec fn written(at: Cursor, b: u8) -> (Cursor, Seq<Op>)
    decreases
            (if b == TAB {
                1nat
            } else {
                0nat
            }),
{
    let moved = line_start(at, b);
    let (pos, scroll) = if moved.row >= ROWS {
        (Cursor { col: moved.col, row: moved.row - 1 }, scroll_ops())
    } else {
        (moved, Seq::<Op>::empty())
    };
    if b == TAB {
        let (first, ops1) = written(pos, SPACE);
        let (second, ops2) = written(first, SPACE);
        (second, scroll + ops1 + ops2)
    } else if b == SPACE || is_graphic(b) {
        (Cursor { col: pos.col + 1, row: pos.row }, scroll + put_ops(pos, b))
    } else {
        (pos, scroll)
    }
}

/// Whether `op` changes nothing but bytes of the screen buffer.
pub open spec fn on_screen(op: Op) -> bool {
    match op {
        Op::Store8 { addr, .. } => BUFFER <= addr < BUFFER + ROWS * ROW_BYTES,
        Op::Fill { dst, len, .. } => BUFFER <= dst && dst + len <= BUFFER + ROWS * ROW_BYTES,
        Op::Move { dst, src, len } => BUFFER <= dst && dst + len <= BUFFER + ROWS * ROW_BYTES
            && BUFFER <= src && src + len <= BUFFER + ROWS * ROW_BYTES,
        _ => false,
    }
}

/// Whether the cursor position `at` is on the screen, or behind the last
/// column of a row.
pub open spec fn in_bounds(at: Cursor) -> bool {
    &&& 0 <= at.col <= COLS
    &&& 0 <= at.row < ROWS
}

/// Writing a character leaves the cursor in bounds and changes nothing but
/// bytes of the screen buffer.
pub proof fn lemma_written_on_screen(at: Cursor, b: u8)
    requires
        in_bounds(at),
    ensures
        in_bounds(written(at, b).0),
        forall|i: int| 0 <= i < written(at, b).1.len() ==> on_screen(#[trigger] written(at, b).1[i]),
    decreases
            (if b == TAB {
                1nat
            } else {
                0nat
            }),
{
    let moved = line_start(at, b);
    let pos = if moved.row >= ROWS {
        Cursor { col: moved.col, row: moved.row - 1 }
    } else {
        moved
    };
    assert(0 <= pos.col < COLS && 0 <= pos.row < ROWS);
    assert(pos.row * ROW_BYTES + pos.col * 2 + 1 < ROWS * ROW_BYTES) by (nonlinear_arith)
        requires
            0 <= pos.col < COLS,
            0 <= pos.row < ROWS,
            ROW_BYTES == COLS * 2,
            COLS == 80,
            ROWS == 25,
    ;
    if b == TAB {
        lemma_written_on_screen(pos, SPACE);
        lemma_written_on_screen(written(pos, SPACE).0, SPACE);
    }
}

impl View for VGA {
    type V = Cursor;

    /// The position of the cursor.
    closed spec fn view(&self) -> Cursor {
        Cursor { col: self.col as int, row: self.row as int }
    }
}

impl VGA {
    /// The cursor is on the screen, or behind the last column of a row.
    pub open spec fn wf(&self) -> bool {
        in_bounds(self@)
    }

    /// The cursor in the upper left corner
    pub fn new() -> (vga: VGA)
        ensures
            vga.wf(),
            vga@ == (Cursor { col: 0, row: 0 }),
    {
        VGA { col: 0, row: 0 }
    }

    /// Returns the column of the cursor
    pub fn col(&self) -> (col: usize)
        ensures
            col == self@.col,
    {
        self.col
    }

    /// Returns the row of the cursor
    pub fn row(&self) -> (row: usize)
        ensures
            row == self@.row,
    {
        self.row
    }

    /// Writes the given character to the current screen position, potentially moving lines up if
    /// required.
    pub fn write_char(&mut self, b: u8) -> (ops: Vec<Op>)
        requires
            old(self).wf(),
        ensures
            final(self).wf(),
            (final(self)@, ops@) == written(old(self)@, b),
        decreases
                (if b == TAB {
                    1nat
                } else {
                    0nat
                }),
    {
        let mut ops: Vec<Op> = Vec::new();
        // explicit newline or end of line?
        if self.col >= COLS || b == NEWLINE {
            self.row += 1;
            self.col = 0;
        }
        // carriage return?
         else if b == RETURN {
            self.col = 0;
        }
        // last line?

        if self.row >= ROWS {
            // copy all chars one line back
            ops.push(
                Op::Move { dst: BUFFER, src: BUFFER + COLS * 2, len: (ROWS - 1) * COLS * 2 },
            );
            ops.push(Op::Fill { dst: BUFFER + (ROWS - 1) * COLS * 2, byte: 0, len: COLS * 2 });
            self.row -= 1;
        }
        // tabs

        if b == TAB {
            let mut first = self.write_char(SPACE);
            let mut second = self.write_char(SPACE);
            ops.append(&mut first);
            ops.append(&mut second);
        }
        // whitespace and printable chars
         else if b == SPACE || (b >= 0x21 && b <= 0x7e) {
            let off = self.row * COLS * 2 + self.col * 2;
            ops.push(Op::Store8 { addr: BUFFER + off, byte: b });
            ops.push(Op::Store8 { addr: BUFFER + off + 1, byte: ATTR });
            self.col += 1;
        }
        ops
    }
}

} // verus!
