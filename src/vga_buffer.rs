//! The console writer: writes text into the last row of the grid, wrapping
//! at the right edge and scrolling the grid up by one row on each new line.
use vstd::prelude::*;
use vstd::arithmetic::div_mod::{lemma_fundamental_div_mod, lemma_fundamental_div_mod_converse};
use vstd::string::StringSliceAdditionalSpecFns;
use crate::buffer::{grid_cells, grid_shape, Buffer, BUFFER_HEIGHT, BUFFER_WIDTH};
use crate::color::{
    attribute_of, cell_value, code_point_of, color_byte, lemma_cell_round_trip, Color, ColorCode,
    ScreenChar,
};

verus! {

/// The error type of `core::fmt::Write`, which the writer never returns.
#[verifier::external_type_specification]
#[verifier::external_body]
pub struct ExFmtError(core::fmt::Error);

/// The byte that starts a new line.
pub const NEWLINE: u8 = 0x0a;

/// The glyph stored in place of a byte that the display cannot show.
pub const MARKER_GLYPH: u8 = 0xfe;

/// The code point of a blank cell.
pub const BLANK: u8 = 0x20;

/// What a writer is, as a value: the write column, the attribute byte in use
/// and the contents of the grid.
pub struct ConsoleState {
    pub column: nat,
    pub color: u8,
    pub grid: Seq<Seq<u16>>,
}

/// A byte between space and tilde.
pub open spec fn is_printable(b: u8) -> bool {
    0x20 <= b <= 0x7e
}

/// The byte that is written for an input byte: printable bytes and newlines
/// stand, every other byte becomes the marker glyph.
pub open spec fn sanitize(b: u8) -> u8 {
    if is_printable(b) || b == NEWLINE {
        b
    } else {
        MARKER_GLYPH
    }
}

pub open spec fn sanitized(bytes: Seq<u8>) -> Seq<u8> {
    bytes.map_values(|b: u8| sanitize(b))
}

/// A row of blank cells in the given attribute.
pub open spec fn blank_row(color: u8) -> Seq<u16> {
    Seq::new(BUFFER_WIDTH as nat, |c: int| cell_value(BLANK, color))
}

/// The grid shifted up by one row, its last row blank in the given attribute.
pub open spec fn scrolled(grid: Seq<Seq<u16>>, color: u8) -> Seq<Seq<u16>> {
    Seq::new(
        BUFFER_HEIGHT as nat,
        |r: int|
            if r < BUFFER_HEIGHT - 1 {
                grid[r + 1]
            } else {
                blank_row(color)
            },
    )
}

/// Scroll-and-reset: shift the grid up, blank the last row, go to column 0.
pub open spec fn new_line_state(s: ConsoleState) -> ConsoleState {
    ConsoleState { column: 0, color: s.color, grid: scrolled(s.grid, s.color) }
}

/// The state after writing one byte.
pub open spec fn step(s: ConsoleState, b: u8) -> ConsoleState {
    if b == NEWLINE {
        new_line_state(s)
    } else {
        let t = if s.column >= BUFFER_WIDTH {
            new_line_state(s)
        } else {
            s
        };
        let last = BUFFER_HEIGHT - 1;
        ConsoleState {
            column: t.column + 1,
            color: t.color,
            grid: t.grid.update(last, t.grid[last].update(t.column as int, cell_value(b, t.color))),
        }
    }
}

/// The state after writing a sequence of bytes, one after the other.
pub open spec fn run(s: ConsoleState, bytes: Seq<u8>) -> ConsoleState
    decreases bytes.len(),
{
    if bytes.len() == 0 {
        s
    } else {
        step(run(s, bytes.drop_last()), bytes.last())
    }
}

/// A state that a writer can be in.
pub open spec fn state_wf(s: ConsoleState) -> bool {
    s.column <= BUFFER_WIDTH && grid_shape(s.grid)
}

/// Writes text into the last row of a grid of character cells.
pub struct Writer {
    /// Current position in the last row.
    column_position: usize,
    /// The attribute of the cells being written.
    color_code: ColorCode,
    buffer: Buffer,
}

impl View for Writer {
    type V = ConsoleState;

    closed spec fn view(&self) -> ConsoleState {
        ConsoleState {
            column: self.column_position as nat,
            color: self.color_code.0,
            grid: grid_cells(self.buffer),
        }
    }
}

impl Writer {
    /// The column stays within the row and the grid keeps its shape.
    #[verifier::type_invariant]
    spec fn wf(&self) -> bool {
        state_wf(self@)
    }

    /// A writer at column 0 writing yellow on black.
    pub fn new(buffer: Buffer) -> (r: Writer)
        requires
            grid_shape(grid_cells(buffer)),
        ensures
            state_wf(r@),
            r@ == (ConsoleState {
                column: 0,
                color: color_byte(Color::Yellow, Color::Black),
                grid: grid_cells(buffer),
            }),
    {
        Writer {
            column_position: 0,
            color_code: ColorCode::new(Color::Yellow, Color::Black),
            buffer,
        }
    }

    /// Fill a row with blank cells in the current attribute.
    fn clear_row(&mut self, row: usize)
        requires
            row < BUFFER_HEIGHT,
        ensures
            state_wf(final(self)@),
            final(self)@ == (ConsoleState {
                grid: old(self)@.grid.update(row as int, blank_row(old(self)@.color)),
                ..old(self)@
            }),
    {
        proof {
            use_type_invariant(&*self);
        }
        let blank = ScreenChar { ascii_character: BLANK, color_code: self.color_code }.encode();
        let ghost g0 = self@.grid;
        let mut col: usize = 0;
        while col < BUFFER_WIDTH
            invariant
                col <= BUFFER_WIDTH,
                row < BUFFER_HEIGHT,
                grid_shape(g0),
                blank == cell_value(BLANK, self@.color),
                state_wf(self@),
                self@.column == old(self)@.column,
                self@.color == old(self)@.color,
                g0 == old(self)@.grid,
                self@.grid.len() == g0.len(),
                forall|r: int| 0 <= r < BUFFER_HEIGHT && r != row ==> self@.grid[r] == g0[r],
                self@.grid[row as int].len() == BUFFER_WIDTH,
                forall|c: int| 0 <= c < col ==> self@.grid[row as int][c] == blank,
            decreases BUFFER_WIDTH - col,
        {
            self.buffer.write(row, col, blank);
            col = col + 1;
        }
        assert(self@.grid[row as int] =~= blank_row(self@.color));
        assert(self@.grid =~= g0.update(row as int, blank_row(self@.color)));
    }

    /// Scroll-and-reset: every row but the first moves up by one, the last row
    /// becomes blank in the current attribute, and the column goes back to 0.
    fn new_line(&mut self)
        ensures
            state_wf(final(self)@),
            final(self)@ == new_line_state(old(self)@),
            forall|r: int|
                0 <= r < BUFFER_HEIGHT - 1 ==> #[trigger] final(self)@.grid[r] == old(self)@.grid[r
                    + 1],
            final(self)@.grid[BUFFER_HEIGHT - 1] == blank_row(old(self)@.color),
    {
        proof {
            use_type_invariant(&*self);
        }
        let ghost g0 = self@.grid;
        let mut row: usize = 1;
        while row < BUFFER_HEIGHT
            invariant
                1 <= row <= BUFFER_HEIGHT,
                grid_shape(g0),
                g0 == old(self)@.grid,
                self@.column == old(self)@.column,
                self@.color == old(self)@.color,
                state_wf(self@),
                forall|r: int| 0 <= r < row - 1 ==> self@.grid[r] == g0[r + 1],
                forall|r: int| row - 1 <= r < BUFFER_HEIGHT ==> self@.grid[r] == g0[r],
            decreases BUFFER_HEIGHT - row,
        {
            let mut col: usize = 0;
            while col < BUFFER_WIDTH
                invariant
                    1 <= row < BUFFER_HEIGHT,
                    col <= BUFFER_WIDTH,
                    grid_shape(g0),
                    self@.column == old(self)@.column,
                    self@.color == old(self)@.color,
                    state_wf(self@),
                    forall|r: int| 0 <= r < row - 1 ==> self@.grid[r] == g0[r + 1],
                    forall|r: int| row <= r < BUFFER_HEIGHT ==> self@.grid[r] == g0[r],
                    forall|c: int|
                        0 <= c < col ==> #[trigger] self@.grid[row - 1][c] == g0[row as int][c],
                    forall|c: int|
                        col <= c < BUFFER_WIDTH ==> #[trigger] self@.grid[row - 1][c] == g0[row - 1][c],
                decreases BUFFER_WIDTH - col,
            {
                let cell = self.buffer.read(row, col);
                self.buffer.write(row - 1, col, cell);
                col = col + 1;
            }
            assert(self@.grid[row - 1] =~= g0[row as int]);
            row = row + 1;
        }
        self.clear_row(BUFFER_HEIGHT - 1);
        self.column_position = 0;
        assert(self@.grid =~= scrolled(g0, self@.color));
    }
    /// Write one byte: a newline scrolls; any other byte goes into the last
    /// row at the current column, after a scroll if the row is full.
    pub fn write_byte(&mut self, byte: u8)
        ensures
            state_wf(final(self)@),
            final(self)@ == step(old(self)@, byte),
            byte == NEWLINE ==> final(self)@.column == 0,
    {
        proof {
            use_type_invariant(&*self);
        }
        if byte == NEWLINE {
            self.new_line();
        } else {
            if self.column_position >= BUFFER_WIDTH {
                self.new_line();
            }
            let cell = ScreenChar { ascii_character: byte, color_code: self.color_code }.encode();
            self.buffer.write(BUFFER_HEIGHT - 1, self.column_position, cell);
            self.column_position = self.column_position + 1;
        }
    }

    /// Write the bytes of a string, each byte outside space..tilde other than
    /// a newline replaced by the marker glyph.
    pub fn write_string(&mut self, s: &str)
        ensures
            state_wf(final(self)@),
            final(self)@ == run(old(self)@, sanitized(s.spec_bytes())),
    {
        proof {
            use_type_invariant(&*self);
        }
        let bytes = s.as_bytes();
        let ghost start = self@;
        let mut i: usize = 0;
        while i < bytes.len()
            invariant
                i <= bytes@.len(),
                bytes@ == s.spec_bytes(),
                start == old(self)@,
                state_wf(self@),
                self@ == run(start, sanitized(bytes@.take(i as int))),
            decreases bytes@.len() - i,
        {
            let b = bytes[i];
            let out: u8 = if (0x20u8 <= b && b <= 0x7eu8) || b == NEWLINE {
                b
            } else {
                MARKER_GLYPH
            };
            self.write_byte(out);
            proof {
                let next = sanitized(bytes@.take(i + 1));
                assert(next.drop_last() =~= sanitized(bytes@.take(i as int)));
                assert(next.last() == out);
            }
            i = i + 1;
        }
        assert(bytes@.take(i as int) =~= bytes@);
    }

    /// The column in the last row where the next byte goes.
    pub fn column_position(&self) -> (r: usize)
        ensures
            r == self@.column,
    {
        self.column_position
    }

    /// The attribute of the cells being written.
    pub fn color_code(&self) -> (r: ColorCode)
        ensures
            r.0 == self@.color,
    {
        self.color_code
    }

    /// The cell at a row and a column of the grid.
    pub fn read_char(&self, row: usize, col: usize) -> (r: ScreenChar)
        requires
            row < BUFFER_HEIGHT,
            col < BUFFER_WIDTH,
        ensures
            r.ascii_character == code_point_of(self@.grid[row as int][col as int]),
            r.color_code.0 == attribute_of(self@.grid[row as int][col as int]),
    {
        proof {
            use_type_invariant(&*self);
        }
        ScreenChar::decode(self.buffer.read(row, col))
    }
}

/// The formatted-write sink: formatted text goes through `write_string`.
impl core::fmt::Write for Writer {
    fn write_str(&mut self, s: &str) -> (r: core::fmt::Result)
        ensures
            r is Ok,
            final(self)@ == run(old(self)@, sanitized(s.spec_bytes())),
    {
        proof {
            use_type_invariant(&*self);
        }
        self.write_string(s);
        Ok(())
    }
}

/// Writes a byte, then two strings, one of them with a byte that the display
/// cannot show.
pub fn test_print(writer: &mut Writer)
    ensures
        state_wf(final(writer)@),
        final(writer)@ == run(
            old(writer)@,
            seq![0x48u8] + sanitized("ello".spec_bytes()) + sanitized("W\u{f6}rld!\n".spec_bytes()),
        ),
{
    proof {
        use_type_invariant(&*writer);
    }
    writer.write_byte(0x48);
    writer.write_string("ello");
    writer.write_string("W\u{f6}rld!\n");
    proof {
        let s0 = old(writer)@;
        let a = seq![0x48u8];
        let b = sanitized("ello".spec_bytes());
        let c = sanitized("W\u{f6}rld!\n".spec_bytes());
        assert(a.drop_last() =~= Seq::<u8>::empty());
        assert(run(s0, a.drop_last()) == s0);
        assert(run(s0, a) == step(s0, 0x48));
        lemma_run_concat(s0, a, b);
        lemma_run_concat(s0, a + b, c);
    }
}

/// Writing two byte sequences one after the other is writing their
/// concatenation: bytes reach the grid in the order they are issued.
pub proof fn lemma_run_concat(s: ConsoleState, a: Seq<u8>, b: Seq<u8>)
    ensures
        run(s, a + b) == run(run(s, a), b),
    decreases b.len(),
{
    if b.len() == 0 {
        assert(a + b =~= a);
    } else {
        assert((a + b).drop_last() =~= a + b.drop_last());
        lemma_run_concat(s, a, b.drop_last());
    }
}

/// Writing a byte other than a newline: the byte goes to the current column
/// of the last row, after a scroll-and-reset when the row is full.
proof fn lemma_step_char(s: ConsoleState, b: u8)
    requires
        state_wf(s),
        b != NEWLINE,
    ensures
        ({
            let t = step(s, b);
            let last = t.grid[BUFFER_HEIGHT - 1];
            &&& state_wf(t)
            &&& t.color == s.color
            &&& s.column < BUFFER_WIDTH ==> t.column == s.column + 1 && last == s.grid[BUFFER_HEIGHT
                - 1].update(s.column as int, cell_value(b, s.color))
            &&& s.column >= BUFFER_WIDTH ==> t.column == 1 && last == blank_row(s.color).update(
                0,
                cell_value(b, s.color),
            )
        }),
{
    if s.column >= BUFFER_WIDTH {
        let u = new_line_state(s);
        assert(u.grid[BUFFER_HEIGHT - 1] == blank_row(s.color));
    }
}

/// The last row while `n` printable bytes are written from column 0.
proof fn lemma_wrap_prefix(s: ConsoleState, bytes: Seq<u8>, n: int)
    requires
        state_wf(s),
        s.column == 0,
        1 <= n <= bytes.len(),
        forall|i: int| 0 <= i < bytes.len() ==> is_printable(#[trigger] bytes[i]),
    ensures
        ({
            let t = run(s, bytes.take(n));
            let k = t.column as int;
            let last = t.grid[BUFFER_HEIGHT - 1];
            &&& state_wf(t)
            &&& t.color == s.color
            &&& k == (if n % 80 == 0 { 80 } else { n % 80 })
            &&& forall|c: int|
                0 <= c < k ==> #[trigger] last[c] == cell_value(bytes[n - k + c], s.color)
            &&& n > BUFFER_WIDTH ==> forall|c: int|
                k <= c < BUFFER_WIDTH ==> #[trigger] last[c] == cell_value(BLANK, s.color)
        }),
    decreases n,
{
    let prefix = bytes.take(n);
    assert(prefix.drop_last() =~= bytes.take(n - 1));
    assert(prefix.last() == bytes[n - 1]);
    let b = bytes[n - 1];
    assert(is_printable(b));
    let m = n - 1;
    if n == 1 {
        assert(bytes.take(0) =~= Seq::<u8>::empty());
        assert(run(s, bytes.take(0)) == s);
        lemma_step_char(s, b);
        lemma_fundamental_div_mod_converse(n, 80, 0, 1);
    } else {
        lemma_wrap_prefix(s, bytes, m);
        let p = run(s, bytes.take(m));
        lemma_step_char(p, b);
        lemma_fundamental_div_mod(m, 80);
        let q = m / 80;
        if p.column == BUFFER_WIDTH {
            assert(m % 80 == 0);
            lemma_fundamental_div_mod_converse(n, 80, q, 1);
        } else if m % 80 + 1 < 80 {
            lemma_fundamental_div_mod_converse(n, 80, q, m % 80 + 1);
        } else {
            lemma_fundamental_div_mod_converse(n, 80, q + 1, 0);
        }
    }
}

/// Wrapping: after more than a row's worth of printable bytes is written from
/// column 0, the column is the input length modulo the width (the full width
/// when it divides evenly), the last row begins with that many final input
/// bytes in order, and the rest of the row is blank.
pub proof fn lemma_wrap(s: ConsoleState, bytes: Seq<u8>)
    requires
        state_wf(s),
        s.column == 0,
        bytes.len() > BUFFER_WIDTH,
        forall|i: int| 0 <= i < bytes.len() ==> is_printable(#[trigger] bytes[i]),
    ensures
        ({
            let n = bytes.len() as int;
            let t = run(s, bytes);
            let k = (if n % 80 == 0 { 80 } else { n % 80 });
            let last = t.grid[BUFFER_HEIGHT - 1];
            &&& state_wf(t)
            &&& t.column == k
            &&& last.len() == BUFFER_WIDTH
            &&& forall|c: int| 0 <= c < k ==> #[trigger] last[c] == cell_value(bytes[n - k + c], s.color)
            &&& forall|c: int| k <= c < BUFFER_WIDTH ==> #[trigger] last[c] == cell_value(BLANK, s.color)
        }),
{
    assert(bytes.take(bytes.len() as int) =~= bytes);
    lemma_wrap_prefix(s, bytes, bytes.len() as int);
}

/// Sanitizing: a byte outside space..tilde that is not a newline is stored as
/// the marker glyph, so never as itself unless it is the marker glyph.
pub proof fn lemma_unprintable_is_marked(s: ConsoleState, b: u8)
    requires
        state_wf(s),
        !is_printable(b),
        b != NEWLINE,
    ensures
        ({
            let t = run(s, sanitized(seq![b]));
            &&& t.column >= 1
            &&& t.grid[BUFFER_HEIGHT - 1][t.column - 1] == cell_value(MARKER_GLYPH, s.color)
            &&& code_point_of(t.grid[BUFFER_HEIGHT - 1][t.column - 1]) == MARKER_GLYPH
            &&& b != MARKER_GLYPH ==> code_point_of(t.grid[BUFFER_HEIGHT - 1][t.column - 1]) != b
        }),
{
    let bs = sanitized(seq![b]);
    assert(bs.drop_last() =~= Seq::<u8>::empty());
    assert(bs.last() == MARKER_GLYPH);
    assert(run(s, bs.drop_last()) == s);
    assert(run(s, bs) == step(s, MARKER_GLYPH));
    lemma_step_char(s, MARKER_GLYPH);
    let t = step(s, MARKER_GLYPH);
    assert(s.grid[BUFFER_HEIGHT - 1].len() == BUFFER_WIDTH);
    assert(t.grid[BUFFER_HEIGHT - 1][t.column - 1] == cell_value(MARKER_GLYPH, s.color));
    lemma_cell_round_trip(MARKER_GLYPH, s.color);
}

/// Scrolling: every row but the last takes the content of the row below it,
/// the last row is blank in the current attribute, and the column is 0.
pub proof fn lemma_scroll(s: ConsoleState)
    requires
        state_wf(s),
    ensures
        ({
            let t = new_line_state(s);
            &&& state_wf(t)
            &&& t.column == 0
            &&& t.color == s.color
            &&& forall|r: int| 0 <= r < BUFFER_HEIGHT - 1 ==> #[trigger] t.grid[r] == s.grid[r + 1]
            &&& t.grid[BUFFER_HEIGHT - 1] == blank_row(s.color)
            &&& forall|c: int|
                0 <= c < BUFFER_WIDTH ==> #[trigger] t.grid[BUFFER_HEIGHT - 1][c] == cell_value(
                    BLANK,
                    s.color,
                )
        }),
{
}

/// Column reset: after a newline the writer is at column 0, whatever the
/// column was before.
pub proof fn lemma_newline_resets_column(s: ConsoleState)
    ensures
        step(s, NEWLINE).column == 0,
{
}

} // verus!
