//! A text console kept as a grid of characters.
//!
//! The console keeps the characters it has shown and a cursor; drawing and
//! erasing glyphs is left to the caller, to whom every write hands the glyph
//! operations in the order they are to be carried out.
use vstd::prelude::*;
use crate::graphics::PixelWriter;
use vstd::arithmetic::div_mod::{
    lemma_fundamental_div_mod_converse_div,
    lemma_fundamental_div_mod_converse_mod,
};

verus! {

pub const MAX_ROWS: usize = 500;

pub const MAX_COLUMNS: usize = 120;

/// Number of cells of the screen grid.
pub const SCREEN_CELLS: usize = 60000;

/// A glyph operation for the caller to carry out.
#[derive(Debug, Copy, Clone, PartialEq, Eq)]
pub enum ConsoleOp {
    /// Draw the glyph of `character` at (`x`, `y`).
    Draw { character: char, x: usize, y: usize },
    /// Erase the glyph of `character` at (`x`, `y`).
    Clear { character: char, x: usize, y: usize },
}

impl ConsoleOp {
    fn clear(character: char, x: usize, y: usize) -> (op: ConsoleOp)
        ensures
            op == (ConsoleOp::Clear { character, x, y }),
    {
        ConsoleOp::Clear { character, x, y }
    }

    fn draw(character: char, x: usize, y: usize) -> (op: ConsoleOp)
        ensures
            op == (ConsoleOp::Draw { character, x, y }),
    {
        ConsoleOp::Draw { character, x, y }
    }
}

/// The state of a console: the grid, column-major (`cell(x, y)`), and the cursor.
pub struct ConsoleModel {
    pub screen: Seq<char>,
    pub column: int,
    pub row: int,
}

/// Index of cell (`x`, `y`) in the column-major grid.
pub open spec fn cell(x: int, y: int) -> int {
    x * 500 + y
}

/// A grid of NUL characters.
pub open spec fn blank_screen() -> Seq<char> {
    Seq::new(60000, |i: int| '\0')
}

/// The grid moved up by one row in every column, with the last row blanked.
pub open spec fn scroll_screen(screen: Seq<char>) -> Seq<char> {
    Seq::new(60000, |i: int| if i % 500 == 499 { '\0' } else { screen[i + 1] })
}

/// Erasing the glyph of cell `k`, in column-major order.
pub open spec fn clear_op(screen: Seq<char>, k: int) -> ConsoleOp {
    ConsoleOp::Clear { character: screen[k], x: (k / 500) as usize, y: (k % 500) as usize }
}

/// Drawing the `k`-th cell of the grid in row-major order.
pub open spec fn draw_op(screen: Seq<char>, k: int) -> ConsoleOp {
    ConsoleOp::Draw {
        character: screen[cell(k % 120, k / 120)],
        x: (k % 120) as usize,
        y: (k / 120) as usize,
    }
}

/// The operations of a scroll: every cell of the old grid is erased, column by
/// column, then every row of the new grid but the last is drawn, row by row.
pub open spec fn scroll_ops(screen: Seq<char>) -> Seq<ConsoleOp> {
    Seq::new(60000, |k: int| clear_op(screen, k)) + Seq::new(
        59880,
        |k: int| draw_op(scroll_screen(screen), k),
    )
}

/// A line feed: the cursor goes to column 0 and 20 rows down; from the last
/// rows the grid scrolls instead and the row stays.
pub open spec fn line_feed(m: ConsoleModel) -> (ConsoleModel, Seq<ConsoleOp>) {
    if m.row < 499 {
        (ConsoleModel { screen: m.screen, column: 0, row: m.row + 20 }, seq![])
    } else {
        (ConsoleModel { screen: scroll_screen(m.screen), column: 0, row: m.row }, scroll_ops(m.screen))
    }
}

/// The state in which a character other than a newline is stored: after a
/// line feed when the cursor is past the last column.
pub open spec fn before_store(m: ConsoleModel) -> (ConsoleModel, Seq<ConsoleOp>) {
    if m.column >= 120 {
        line_feed(m)
    } else {
        (m, seq![])
    }
}

/// Storing `c` would index past the last row.
pub open spec fn put_char_faults(m: ConsoleModel, c: char) -> bool {
    c != '\n' && before_store(m).0.row >= 500
}

/// One character: a newline is a line feed; any other character is stored at
/// the cursor (after a line feed when the cursor is past the last column) and
/// drawn there, and the cursor moves 8 columns right. Meant for characters
/// that do not fault.
pub open spec fn put_char(m: ConsoleModel, c: char) -> (ConsoleModel, Seq<ConsoleOp>) {
    if c == '\n' {
        line_feed(m)
    } else {
        let (m1, ops1) = before_store(m);
        (
            ConsoleModel {
                screen: m1.screen.update(cell(m1.column, m1.row), c),
                column: m1.column + 8,
                row: m1.row,
            },
            ops1.push(ConsoleOp::Draw { character: c, x: m1.column as usize, y: m1.row as usize }),
        )
    }
}

/// A string, character by character.
pub open spec fn write_model(m: ConsoleModel, chars: Seq<char>) -> (ConsoleModel, Seq<ConsoleOp>)
    decreases chars.len(),
{
    if chars.len() == 0 {
        (m, seq![])
    } else {
        let (m1, ops1) = put_char(m, chars[0]);
        let (m2, ops2) = write_model(m1, chars.drop_first());
        (m2, ops1 + ops2)
    }
}

/// Some character of `chars` faults when they are written from `m`.
pub open spec fn write_faults(m: ConsoleModel, chars: Seq<char>) -> bool
    decreases chars.len(),
{
    if chars.len() == 0 {
        false
    } else if put_char_faults(m, chars[0]) {
        true
    } else {
        write_faults(put_char(m, chars[0]).0, chars.drop_first())
    }
}

/// Writing `a` and then `b` is writing `a + b`: the state after `a` is where
/// `b` starts, the operations follow one another, and `a + b` faults exactly
/// when `a` does or `b` does from where `a` left the console.
pub proof fn lemma_write_concat(m: ConsoleModel, a: Seq<char>, b: Seq<char>)
    ensures
        write_model(m, a + b) == ({
            let (m1, ops1) = write_model(m, a);
            let (m2, ops2) = write_model(m1, b);
            (m2, ops1 + ops2)
        }),
        write_faults(m, a + b) == (write_faults(m, a) || write_faults(write_model(m, a).0, b)),
    decreases a.len(),
{
    if a.len() == 0 {
        assert(a + b =~= b);
        let (m2, ops2) = write_model(m, b);
        assert(Seq::<ConsoleOp>::empty() + ops2 =~= ops2);
    } else {
        assert((a + b)[0] == a[0]);
        assert((a + b).drop_first() =~= a.drop_first() + b);
        let (m1, ops1) = put_char(m, a[0]);
        lemma_write_concat(m1, a.drop_first(), b);
        let (ma, opsa) = write_model(m1, a.drop_first());
        let (m2, ops2) = write_model(ma, b);
        assert(ops1 + (opsa + ops2) =~= (ops1 + opsa) + ops2);
    }
}

/// A character other than a newline, written at a column and row inside the
/// grid, is stored at the cursor and drawn there, the cursor moves 8 columns
/// right, and nothing else is drawn or erased.
pub proof fn lemma_put_char_inside(m: ConsoleModel, c: char)
    requires
        c != '\n',
        0 <= m.column < 120,
        0 <= m.row < 500,
    ensures
        !put_char_faults(m, c),
        put_char(m, c).0 == (ConsoleModel {
            screen: m.screen.update(cell(m.column, m.row), c),
            column: m.column + 8,
            row: m.row,
        }),
        put_char(m, c).1 == seq![
            ConsoleOp::Draw { character: c, x: m.column as usize, y: m.row as usize },
        ],
{
    assert(seq![].push(ConsoleOp::Draw { character: c, x: m.column as usize, y: m.row as usize })
        =~= seq![ConsoleOp::Draw { character: c, x: m.column as usize, y: m.row as usize }]);
}

/// A character other than a newline written past the last column goes on the
/// next line: the line feed comes first (a scroll from the last rows), then
/// the character is stored in column 0 of the row the feed leads to and drawn
/// there, and the cursor stands 8 columns right of it. It faults when that row
/// is past the last one.
pub proof fn lemma_put_char_wraps(m: ConsoleModel, c: char)
    requires
        c != '\n',
        m.column >= 120,
    ensures
        ({
            let r2 = if m.row < 499 { m.row + 20 } else { m.row };
            &&& put_char_faults(m, c) == (r2 >= 500)
            &&& put_char(m, c).0 == (ConsoleModel {
                screen: line_feed(m).0.screen.update(cell(0, r2), c),
                column: 8,
                row: r2,
            })
            &&& put_char(m, c).1 == line_feed(m).1.push(
                ConsoleOp::Draw { character: c, x: 0, y: r2 as usize },
            )
        }),
{
}

/// After a scroll each column holds what its next row held, and its last row
/// is blank.
pub proof fn lemma_scroll_cells(screen: Seq<char>, x: int, y: int)
    requires
        0 <= x < 120,
        0 <= y < 500,
    ensures
        y < 499 ==> scroll_screen(screen)[cell(x, y)] == screen[cell(x, y + 1)],
        y == 499 ==> scroll_screen(screen)[cell(x, y)] == '\0',
{
    lemma_cell_div_mod(x, y);
    assert(0 <= cell(x, y) < 60000);
}

/// Index of cell (`x`, `y`) in row-major order.
pub open spec fn row_major(x: int, y: int) -> int {
    y * 120 + x
}

/// A line feed above the last rows moves the cursor to column 0, 20 rows
/// down, and changes nothing else. From the last rows it scrolls: every
/// column of the grid moves up one row and its last row becomes blank; the
/// cursor goes to column 0 and its row stays; the operations erase every old
/// glyph where it was, column by column, then draw every row of the new grid
/// but the last, row by row.
pub proof fn lemma_line_feed_scrolls(m: ConsoleModel)
    requires
        m.screen.len() == 60000,
    ensures
        m.row < 499 ==> line_feed(m).0 == (ConsoleModel { screen: m.screen, column: 0, row: m.row + 20 })
            && line_feed(m).1.len() == 0,
        m.row >= 499 ==> {
            let (m2, ops) = line_feed(m);
            &&& m2.column == 0
            &&& m2.row == m.row
            &&& m2.screen.len() == 60000
            &&& forall|x: int, y: int|
                0 <= x < 120 && 0 <= y < 499 ==> m2.screen[#[trigger] cell(x, y)] == m.screen[x * 500 + y + 1]
            &&& forall|x: int| 0 <= x < 120 ==> m2.screen[#[trigger] cell(x, 499)] == '\0'
            &&& ops.len() == 119880
            &&& forall|x: int, y: int|
                0 <= x < 120 && 0 <= y < 500 ==> ops[#[trigger] cell(x, y)] == (ConsoleOp::Clear {
                    character: m.screen[x * 500 + y],
                    x: x as usize,
                    y: y as usize,
                })
            &&& forall|x: int, y: int|
                0 <= x < 120 && 0 <= y < 499 ==> ops[60000 + #[trigger] row_major(x, y)] == (ConsoleOp::Draw {
                    character: m.screen[x * 500 + y + 1],
                    x: x as usize,
                    y: y as usize,
                })
        },
{
    if m.row >= 499 {
        let (m2, ops) = line_feed(m);
        assert forall|x: int, y: int| 0 <= x < 120 && 0 <= y < 499 implies m2.screen[#[trigger] cell(x, y)]
            == m.screen[x * 500 + y + 1] by {
            lemma_scroll_cells(m.screen, x, y);
        }
        assert forall|x: int| 0 <= x < 120 implies m2.screen[#[trigger] cell(x, 499)] == '\0' by {
            lemma_scroll_cells(m.screen, x, 499);
        }
        assert forall|x: int, y: int| 0 <= x < 120 && 0 <= y < 500 implies ops[#[trigger] cell(x, y)] == (
        ConsoleOp::Clear { character: m.screen[x * 500 + y], x: x as usize, y: y as usize }) by {
            lemma_cell_div_mod(x, y);
        }
        assert forall|x: int, y: int| 0 <= x < 120 && 0 <= y < 499 implies ops[60000 + #[trigger] row_major(
            x,
            y,
        )] == (ConsoleOp::Draw {
            character: m.screen[x * 500 + y + 1],
            x: x as usize,
            y: y as usize,
        }) by {
            lemma_row_major_div_mod(x, y);
            lemma_scroll_cells(m.screen, x, y);
            assert(0 <= row_major(x, y) < 59880);
        }
    }
}

proof fn lemma_cell_div_mod(x: int, y: int)
    requires
        0 <= y < 500,
    ensures
        cell(x, y) / 500 == x,
        cell(x, y) % 500 == y,
{
    lemma_fundamental_div_mod_converse_div(cell(x, y), 500, x, y);
    lemma_fundamental_div_mod_converse_mod(cell(x, y), 500, x, y);
}

proof fn lemma_row_major_div_mod(x: int, y: int)
    requires
        0 <= x < 120,
    ensures
        (y * 120 + x) / 120 == y,
        (y * 120 + x) % 120 == x,
{
    lemma_fundamental_div_mod_converse_div(y * 120 + x, 120, y, x);
    lemma_fundamental_div_mod_converse_mod(y * 120 + x, 120, y, x);
}

proof fn lemma_cell_split(i: int)
    requires
        0 <= i < 60000,
    ensures
        0 <= i / 500 < 120,
        0 <= i % 500 < 500,
        i == cell(i / 500, i % 500),
{
    assert(0 <= i / 500 < 120 && 0 <= i % 500 < 500 && i == (i / 500) * 500 + i % 500)
        by (nonlinear_arith)
        requires
            0 <= i < 60000,
    ;
}

/// A text console: a grid of `MAX_COLUMNS` columns of `MAX_ROWS` rows, a
/// cursor, and the pixel writer its glyphs are drawn with.
pub struct ConsoleWriter<'a, T: PixelWriter> {
    screen: Vec<char>,
    cursor_row: usize,
    cursor_column: usize,
    writer: &'a T,
}

impl<'a, T: PixelWriter> ConsoleWriter<'a, T> {
    /// The grid has all its cells and the cursor stays near the grid.
    pub closed spec fn wf(self) -> bool {
        &&& self.screen@.len() == 60000
        &&& self.cursor_column < 128
        &&& self.cursor_row < 520
    }

    /// The grid and the cursor.
    pub closed spec fn model(self) -> ConsoleModel {
        ConsoleModel {
            screen: self.screen@,
            column: self.cursor_column as int,
            row: self.cursor_row as int,
        }
    }

    pub closed spec fn writer_spec(self) -> &'a T {
        self.writer
    }

    /// A blank console with the cursor at the origin.
    pub fn new(writer: &'a T) -> (console: Self)
        ensures
            console.model() == (ConsoleModel { screen: blank_screen(), column: 0, row: 0 }),
            console.writer_spec() == writer,
            console.wf(),
    {
        let mut screen: Vec<char> = Vec::new();
        let mut i: usize = 0;
        while i < SCREEN_CELLS
            invariant
                i <= SCREEN_CELLS,
                screen@.len() == i,
                forall|k: int| 0 <= k < i ==> screen@[k] == '\0',
            decreases SCREEN_CELLS - i,
        {
            screen.push('\0');
            i = i + 1;
        }
        assert(screen@ =~= blank_screen());
        ConsoleWriter { screen, cursor_row: 0, cursor_column: 0, writer }
    }

    /// Whether `string` can be written: no character of it would be stored
    /// past the last row.
    pub fn can_write(&self, string: &str) -> (ok: bool)
        requires
            self.wf(),
        ensures
            ok == !write_faults(self.model(), string@),
    {
        let n = string.unicode_len();
        let mut column = self.cursor_column;
        let mut row = self.cursor_row;
        let ghost mut m = self.model();
        let mut i: usize = 0;
        proof {
            assert(string@.skip(0) =~= string@);
        }
        while i < n
            invariant
                i <= n,
                n == string@.len(),
                m.column == column,
                m.row == row,
                column < 128,
                row < 520,
                write_faults(self.model(), string@) == write_faults(m, string@.skip(i as int)),
            decreases n - i,
        {
            let c = string.get_char(i);
            proof {
                let rest = string@.skip(i as int);
                assert(rest[0] == c);
                assert(rest.drop_first() =~= string@.skip(i + 1));
            }
            if c == '\n' {
                column = 0;
                if row < MAX_ROWS - 1 {
                    row = row + 20;
                }
            } else {
                if column >= MAX_COLUMNS {
                    column = 0;
                    if row < MAX_ROWS - 1 {
                        row = row + 20;
                    }
                }
                if row >= MAX_ROWS {
                    return false;
                }
                column = column + 8;
            }
            proof {
                m = put_char(m, c).0;
            }
            i = i + 1;
        }
        proof {
            assert(string@.skip(i as int) =~= Seq::<char>::empty());
        }
        true
    }

    /// The pixel writer the console was made with.
    pub fn writer(&self) -> (w: &'a T)
        ensures
            w == self.writer_spec(),
    {
        self.writer
    }

    /// Writes `string` and returns the glyph operations that show it.
    /// No character of `string` would be stored past the last row.
    pub fn write(&mut self, string: &str) -> (ops: Vec<ConsoleOp>)
        requires
            old(self).wf(),
            !write_faults(old(self).model(), string@),
        ensures
            final(self).wf(),
            (final(self).model(), ops@) == write_model(old(self).model(), string@),
            final(self).writer_spec() == old(self).writer_spec(),
    {
        let mut ops: Vec<ConsoleOp> = Vec::new();
        let n = string.unicode_len();
        let ghost m0 = self.model();
        let mut i: usize = 0;
        proof {
            assert(string@.skip(0) =~= string@);
            let (mf, opsf) = write_model(self.model(), string@);
            assert(ops@ + opsf =~= opsf);
        }
        while i < n
            invariant
                i <= n,
                n == string@.len(),
                self.wf(),
                self.writer_spec() == old(self).writer_spec(),
                m0 == old(self).model(),
                !write_faults(self.model(), string@.skip(i as int)),
                write_model(m0, string@) == ({
                    let (mf, opsf) = write_model(self.model(), string@.skip(i as int));
                    (mf, ops@ + opsf)
                }),
            decreases n - i,
        {
            let c = string.get_char(i);
            let ghost before = self.model();
            let ghost ops_before = ops@;
            proof {
                let rest = string@.skip(i as int);
                assert(rest[0] == c);
                assert(rest.drop_first() =~= string@.skip(i + 1));
            }
            self.write_character(c, &mut ops);
            proof {
                let rest = string@.skip(i as int);
                let (m2, ops2) = write_model(self.model(), string@.skip(i + 1));
                assert(write_model(before, rest) == (m2, put_char(before, c).1 + ops2));
                assert(ops_before + (put_char(before, c).1 + ops2) =~= ops@ + ops2);
            }
            i = i + 1;
        }
        proof {
            assert(string@.skip(i as int) =~= Seq::<char>::empty());
            assert(ops@ + Seq::<ConsoleOp>::empty() =~= ops@);
        }
        ops
    }

    /// One character.
    fn write_character(&mut self, c: char, ops: &mut Vec<ConsoleOp>)
        requires
            old(self).wf(),
            !put_char_faults(old(self).model(), c),
        ensures
            final(self).wf(),
            final(self).model() == put_char(old(self).model(), c).0,
            final(ops)@ == old(ops)@ + put_char(old(self).model(), c).1,
            final(self).writer_spec() == old(self).writer_spec(),
    {
        if c == '\n' {
            self.new_line(ops);
            return ;
        }
        let ghost m0 = self.model();
        let ghost ops0 = ops@;
        if self.cursor_column >= MAX_COLUMNS {
            self.new_line(ops);
        } else {
            assert(ops@ == ops0 + Seq::<ConsoleOp>::empty());
        }
        let column = self.cursor_column;
        let row = self.cursor_row;
        assert(column < 120);
        let index = column * MAX_ROWS + row;
        self.screen.set(index, c);
        ops.push(ConsoleOp::draw(c, column, row));
        self.cursor_column = column + 8;
        proof {
            assert(ops@ =~= ops0 + before_store(m0).1.push(
                ConsoleOp::Draw { character: c, x: column, y: row },
            ));
        }
    }

    /// Line feed, or scroll from the last rows.
    fn new_line(&mut self, ops: &mut Vec<ConsoleOp>)
        requires
            old(self).wf(),
        ensures
            final(self).wf(),
            final(self).model() == line_feed(old(self).model()).0,
            final(ops)@ == old(ops)@ + line_feed(old(self).model()).1,
            final(self).writer_spec() == old(self).writer_spec(),
    {
        self.cursor_column = 0;
        if self.cursor_row < MAX_ROWS - 1 {
            self.cursor_row = self.cursor_row + 20;
            assert(ops@ =~= old(ops)@ + Seq::<ConsoleOp>::empty());
            return ;
        }
        let ghost old_screen = self.screen@;
        let mut local: Vec<ConsoleOp> = Vec::new();
        let ghost ops0 = local@;
        let mut x: usize = 0;
        while x < MAX_COLUMNS
            invariant
                x <= MAX_COLUMNS,
                self.screen@ == old_screen,
                old_screen.len() == 60000,
                local@.len() == ops0.len() + x * 500,
                forall|k: int| 0 <= k < ops0.len() ==> local@[k] == ops0[k],
                forall|k: int| 0 <= k < x * 500 ==> local@[ops0.len() + k] == clear_op(old_screen, k),
            decreases MAX_COLUMNS - x,
        {
            let mut y: usize = 0;
            while y < MAX_ROWS
                invariant
                    x < MAX_COLUMNS,
                    y <= MAX_ROWS,
                    self.screen@ == old_screen,
                    old_screen.len() == 60000,
                    local@.len() == ops0.len() + x * 500 + y,
                    forall|k: int| 0 <= k < ops0.len() ==> local@[k] == ops0[k],
                    forall|k: int|
                        0 <= k < x * 500 + y ==> local@[ops0.len() + k] == clear_op(old_screen, k),
                decreases MAX_ROWS - y,
            {
                let character = self.screen[x * MAX_ROWS + y];
                local.push(ConsoleOp::clear(character, x, y));
                proof {
                    lemma_cell_div_mod(x as int, y as int);
                }
                y = y + 1;
            }
            x = x + 1;
        }
        let ghost ops1 = local@;
        let ghost shifted = scroll_screen(old_screen);
        let mut y: usize = 0;
        while y < MAX_ROWS - 1
            invariant
                y <= MAX_ROWS - 1,
                self.screen@.len() == 60000,
                old_screen.len() == 60000,
                shifted == scroll_screen(old_screen),
                self.cursor_column == 0,
                self.cursor_row == old(self).cursor_row,
                self.writer == old(self).writer,
                forall|x2: int, y2: int|
                    0 <= x2 < 120 && 0 <= y2 < 500 ==> self.screen@[#[trigger] cell(x2, y2)] == (
                    if y2 < y {
                        old_screen[cell(x2, y2) + 1]
                    } else {
                        old_screen[cell(x2, y2)]
                    }),
                local@.len() == ops1.len() + y * 120,
                forall|k: int| 0 <= k < ops1.len() ==> local@[k] == ops1[k],
                forall|k: int| 0 <= k < y * 120 ==> local@[ops1.len() + k] == draw_op(shifted, k),
            decreases MAX_ROWS - 1 - y,
        {
            let mut x: usize = 0;
            while x < MAX_COLUMNS
                invariant
                    x <= MAX_COLUMNS,
                    y < MAX_ROWS - 1,
                    self.screen@.len() == 60000,
                    old_screen.len() == 60000,
                    shifted == scroll_screen(old_screen),
                    self.cursor_column == 0,
                    self.cursor_row == old(self).cursor_row,
                    self.writer == old(self).writer,
                    forall|x2: int, y2: int|
                        0 <= x2 < 120 && 0 <= y2 < 500 ==> self.screen@[#[trigger] cell(x2, y2)]
                            == (if y2 < y || (y2 == y && x2 < x) {
                            old_screen[cell(x2, y2) + 1]
                        } else {
                            old_screen[cell(x2, y2)]
                        }),
                    local@.len() == ops1.len() + y * 120 + x,
                    forall|k: int| 0 <= k < ops1.len() ==> local@[k] == ops1[k],
                    forall|k: int|
                        0 <= k < y * 120 + x ==> local@[ops1.len() + k] == draw_op(shifted, k),
                decreases MAX_COLUMNS - x,
            {
                let index = x * MAX_ROWS + y;
                proof {
                    assert(self.screen@[cell(x as int, y + 1)] == old_screen[cell(x as int, y + 1)]);
                    assert(cell(x as int, y + 1) == cell(x as int, y as int) + 1);
                }
                let character = self.screen[index + 1];
                self.screen.set(index, character);
                local.push(ConsoleOp::draw(character, x, y));
                proof {
                    lemma_row_major_div_mod(x as int, y as int);
                    lemma_cell_div_mod(x as int, y as int);
                    assert(shifted[cell(x as int, y as int)] == old_screen[cell(x as int, y as int) + 1]);
                    assert forall|x2: int, y2: int|
                        0 <= x2 < 120 && 0 <= y2 < 500 implies self.screen@[#[trigger] cell(x2, y2)]
                            == (if y2 < y || (y2 == y && x2 < x + 1) {
                            old_screen[cell(x2, y2) + 1]
                        } else {
                            old_screen[cell(x2, y2)]
                        }) by {
                        if x2 != x || y2 != y {
                            assert(cell(x2, y2) != cell(x as int, y as int)) by {
                                lemma_cell_div_mod(x2, y2);
                                lemma_cell_div_mod(x as int, y as int);
                            }
                        }
                    }
                }
                x = x + 1;
            }
            y = y + 1;
        }
        let mut x: usize = 0;
        while x < MAX_COLUMNS
            invariant
                x <= MAX_COLUMNS,
                self.screen@.len() == 60000,
                old_screen.len() == 60000,
                self.cursor_column == 0,
                self.cursor_row == old(self).cursor_row,
                self.writer == old(self).writer,
                forall|x2: int, y2: int|
                    0 <= x2 < 120 && 0 <= y2 < 500 ==> self.screen@[#[trigger] cell(x2, y2)] == (
                    if y2 < 499 {
                        old_screen[cell(x2, y2) + 1]
                    } else if x2 < x {
                        '\0'
                    } else {
                        old_screen[cell(x2, y2)]
                    }),
            decreases MAX_COLUMNS - x,
        {
            self.screen.set(x * MAX_ROWS + (MAX_ROWS - 1), '\0');
            proof {
                assert forall|x2: int, y2: int|
                    0 <= x2 < 120 && 0 <= y2 < 500 implies self.screen@[#[trigger] cell(x2, y2)]
                        == (if y2 < 499 {
                        old_screen[cell(x2, y2) + 1]
                    } else if x2 < x + 1 {
                        '\0'
                    } else {
                        old_screen[cell(x2, y2)]
                    }) by {
                    if x2 != x || y2 != 499 {
                        assert(cell(x2, y2) != cell(x as int, 499)) by {
                            lemma_cell_div_mod(x2, y2);
                            lemma_cell_div_mod(x as int, 499);
                        }
                    }
                }
            }
            x = x + 1;
        }
        proof {
            assert forall|i: int| 0 <= i < 60000 implies self.screen@[i] == shifted[i] by {
                lemma_cell_split(i);
                let x2 = i / 500;
                let y2 = i % 500;
                assert(self.screen@[cell(x2, y2)] == shifted[i]);
            }
            assert(self.screen@ =~= shifted);
            assert(local@ =~= scroll_ops(old_screen));
        }
        ops.append(&mut local);
    }
}

} // verus!
