use vstd::prelude::*;
use vstd::string::StringSliceAdditionalSpecFns;
use crate::buffer::{Buffer, BUFFER_HEIGHT, BUFFER_WIDTH};
use crate::color::{ColorCode, ScreenChar};

verus! {

/// The line-break byte.
pub const NEWLINE: u8 = 0x0a;

/// The glyph shown in place of a byte outside the printable range.
pub const FALLBACK_GLYPH: u8 = 0xfe;

/// The cell that shows `b` in the attribute `attr`.
pub open spec fn cell_of(b: u8, attr: ColorCode) -> ScreenChar {
    ScreenChar { ascii_character: b, color_code: attr }
}

/// A row of `BUFFER_WIDTH` spaces in the attribute `attr`.
pub open spec fn blank_row(attr: ColorCode) -> Seq<ScreenChar> {
    Seq::new(BUFFER_WIDTH as nat, |c: int| cell_of(0x20, attr))
}

/// The grid after scrolling up by one line: every row moves up one, the top
/// row is lost and the last row is blank.
pub open spec fn scroll_up(rows: Seq<Seq<ScreenChar>>, attr: ColorCode) -> Seq<Seq<ScreenChar>> {
    Seq::new(
        BUFFER_HEIGHT as nat,
        |r: int| if r < BUFFER_HEIGHT - 1 { rows[r + 1] } else { blank_row(attr) },
    )
}

/// The grid with `ch` at column `col` of the last row.
pub open spec fn put_last(rows: Seq<Seq<ScreenChar>>, col: int, ch: ScreenChar) -> Seq<Seq<ScreenChar>> {
    let last = BUFFER_HEIGHT - 1;
    rows.update(last, rows[last].update(col, ch))
}

/// Grid and column after writing the byte `b` at column `column` in the
/// attribute `attr`.
pub open spec fn after_byte(rows: Seq<Seq<ScreenChar>>, column: nat, attr: ColorCode, b: u8) -> (
    Seq<Seq<ScreenChar>>,
    nat,
) {
    if b == NEWLINE {
        (scroll_up(rows, attr), 0)
    } else if column >= BUFFER_WIDTH {
        (put_last(scroll_up(rows, attr), 0, cell_of(b, attr)), 1)
    } else {
        (put_last(rows, column as int, cell_of(b, attr)), column + 1)
    }
}

/// Whether `b` is shown as itself: printable ASCII or the line break.
pub open spec fn is_shown(b: u8) -> bool {
    (0x20 <= b && b <= 0x7e) || b == NEWLINE
}

/// The byte handed on for display in place of `b`.
pub open spec fn shown_byte(b: u8) -> u8 {
    if is_shown(b) {
        b
    } else {
        FALLBACK_GLYPH
    }
}

/// Grid and column after writing each byte of `bytes` in turn, each replaced
/// by its shown byte.
pub open spec fn after_bytes(rows: Seq<Seq<ScreenChar>>, column: nat, attr: ColorCode, bytes: Seq<u8>) -> (
    Seq<Seq<ScreenChar>>,
    nat,
)
    decreases bytes.len(),
{
    if bytes.len() == 0 {
        (rows, column)
    } else {
        let prev = after_bytes(rows, column, attr, bytes.drop_last());
        after_byte(prev.0, prev.1, attr, shown_byte(bytes.last()))
    }
}

/// A grid of `BUFFER_HEIGHT` rows of `BUFFER_WIDTH` cells each.
pub open spec fn is_grid(rows: Seq<Seq<ScreenChar>>) -> bool {
    &&& rows.len() == BUFFER_HEIGHT
    &&& forall|r: int| 0 <= r < BUFFER_HEIGHT ==> (#[trigger] rows[r]).len() == BUFFER_WIDTH
}

/// The console: a cursor on the last row of the surface and the attribute
/// that new cells get.
pub struct Writer {
    column_position: usize,
    color_code: ColorCode,
    buffer: &'static mut Buffer,
}

impl Writer {
    #[verifier::type_invariant]
    spec fn column_in_range(self) -> bool {
        self.column_position <= BUFFER_WIDTH
    }

    /// The cells of the surface, row by row.
    pub closed spec fn rows(self) -> Seq<Seq<ScreenChar>> {
        (*self.buffer)@
    }

    /// The column of the last row that the next byte goes to.
    pub closed spec fn column(self) -> nat {
        self.column_position as nat
    }

    /// The attribute that new cells get.
    pub closed spec fn attribute(self) -> ColorCode {
        self.color_code
    }

    /// The surface of a writer is always a full grid.
    pub proof fn lemma_rows_are_grid(&self)
        ensures
            is_grid(self.rows()),
    {
    }

    /// A writer on `buffer` at column 0 with the attribute `color_code`.
    pub fn new(color_code: ColorCode, buffer: &'static mut Buffer) -> (r: Writer)
        ensures
            r.rows() == (*old(buffer))@,
            r.column() == 0,
            r.attribute() == color_code,
    {
        Writer { column_position: 0, color_code, buffer }
    }
    /// The column of the last row that the next byte goes to.
    pub fn column_position(&self) -> (r: usize)
        ensures
            r == self.column(),
    {
        self.column_position
    }

    /// The attribute that new cells get.
    pub fn color_code(&self) -> (r: ColorCode)
        ensures
            r == self.attribute(),
    {
        self.color_code
    }

    /// The surface this writer draws on.
    pub fn buffer(&self) -> (r: &Buffer)
        ensures
            r@ == self.rows(),
    {
        &*self.buffer
    }

    /// Fills row `row` with spaces in the current attribute.
    fn clear_row(&mut self, row: usize)
        requires
            row < BUFFER_HEIGHT,
        ensures
            final(self).rows() == old(self).rows().update(row as int, blank_row(old(self).attribute())),
            final(self).column() == old(self).column(),
            final(self).attribute() == old(self).attribute(),
    {
        proof {
            use_type_invariant(&*self);
        }
        let ghost start = self.rows();
        let blank = ScreenChar { ascii_character: 0x20, color_code: self.color_code };
        for column in 0..BUFFER_WIDTH
            invariant
                row < BUFFER_HEIGHT,
                self.column_position <= BUFFER_WIDTH,
                blank == cell_of(0x20, old(self).attribute()),
                self.column() == old(self).column(),
                self.attribute() == old(self).attribute(),
                self.rows().len() == BUFFER_HEIGHT,
                forall|r: int| 0 <= r < BUFFER_HEIGHT && r != row ==> #[trigger] self.rows()[r] == start[r],
                self.rows()[row as int].len() == BUFFER_WIDTH,
                forall|c: int| 0 <= c < column ==> #[trigger] self.rows()[row as int][c] == blank,
        {
            self.buffer.write(row, column, blank);
        }
        assert(self.rows() =~~= start.update(row as int, blank_row(self.color_code)));
    }

    /// Scrolls the surface up by one line, blanks the last row and moves the
    /// cursor to column 0.
    fn new_line(&mut self)
        ensures
            final(self).rows() == scroll_up(old(self).rows(), old(self).attribute()),
            final(self).column() == 0,
            final(self).attribute() == old(self).attribute(),
    {
        proof {
            use_type_invariant(&*self);
        }
        let ghost start = self.rows();
        for row in 1..BUFFER_HEIGHT
            invariant
                self.column_position <= BUFFER_WIDTH,
                start.len() == BUFFER_HEIGHT,
                forall|r: int| 0 <= r < BUFFER_HEIGHT ==> (#[trigger] start[r]).len() == BUFFER_WIDTH,
                self.attribute() == old(self).attribute(),
                self.rows().len() == BUFFER_HEIGHT,
                forall|r: int| 0 <= r < BUFFER_HEIGHT ==> (#[trigger] self.rows()[r]).len() == BUFFER_WIDTH,
                forall|r: int| 0 <= r < row - 1 ==> #[trigger] self.rows()[r] == start[r + 1],
                forall|r: int| row - 1 <= r < BUFFER_HEIGHT ==> #[trigger] self.rows()[r] == start[r],
        {
            for column in 0..BUFFER_WIDTH
                invariant
                    1 <= row < BUFFER_HEIGHT,
                    self.column_position <= BUFFER_WIDTH,
                    start.len() == BUFFER_HEIGHT,
                    forall|r: int| 0 <= r < BUFFER_HEIGHT ==> (#[trigger] start[r]).len() == BUFFER_WIDTH,
                    self.attribute() == old(self).attribute(),
                    self.rows().len() == BUFFER_HEIGHT,
                    forall|r: int| 0 <= r < BUFFER_HEIGHT ==> (#[trigger] self.rows()[r]).len() == BUFFER_WIDTH,
                    forall|r: int| 0 <= r < row - 1 ==> #[trigger] self.rows()[r] == start[r + 1],
                    forall|r: int| row <= r < BUFFER_HEIGHT ==> #[trigger] self.rows()[r] == start[r],
                    forall|c: int| 0 <= c < column ==> #[trigger] self.rows()[row - 1][c] == start[row as int][c],
                    forall|c: int| column <= c < BUFFER_WIDTH ==> #[trigger] self.rows()[row - 1][c] == start[row - 1][c],
            {
                let character = self.buffer.read(row, column);
                self.buffer.write(row - 1, column, character);
            }
            assert(self.rows()[row - 1] =~= start[row as int]);
        }
        self.clear_row(BUFFER_HEIGHT - 1);
        self.column_position = 0;
        assert(self.rows() =~~= scroll_up(start, self.color_code));
    }
    /// Writes one byte: the line break starts a new line; any other byte is
    /// put at the cursor on the last row, after a new line if that row is full.
    pub fn write_byte(&mut self, byte: u8)
        ensures
            (final(self).rows(), final(self).column()) == after_byte(
                old(self).rows(),
                old(self).column(),
                old(self).attribute(),
                byte,
            ),
            final(self).attribute() == old(self).attribute(),
    {
        if byte == NEWLINE {
            self.new_line();
        } else {
            if self.column_position >= BUFFER_WIDTH {
                self.new_line();
            }
            proof {
                use_type_invariant(&*self);
            }
            let row = BUFFER_HEIGHT - 1;
            let col = self.column_position;
            let color_code = self.color_code;
            self.buffer.write(row, col, ScreenChar { ascii_character: byte, color_code });
            self.column_position = col + 1;
        }
    }

    /// Writes each byte of `s` in turn; a byte that is neither printable
    /// ASCII nor the line break is written as the fallback glyph.
    pub fn write_string(&mut self, s: &str)
        ensures
            (final(self).rows(), final(self).column()) == after_bytes(
                old(self).rows(),
                old(self).column(),
                old(self).attribute(),
                s.spec_bytes(),
            ),
            final(self).attribute() == old(self).attribute(),
    {
        let bytes = s.as_bytes();
        let ghost start = (self.rows(), self.column());
        for i in 0..bytes.len()
            invariant
                bytes@ == s.spec_bytes(),
                self.attribute() == old(self).attribute(),
                (self.rows(), self.column()) == after_bytes(
                    start.0,
                    start.1,
                    old(self).attribute(),
                    bytes@.subrange(0, i as int),
                ),
        {
            let byte = bytes[i];
            if (0x20 <= byte && byte <= 0x7e) || byte == NEWLINE {
                self.write_byte(byte);
            } else {
                self.write_byte(FALLBACK_GLYPH);
            }
            assert(bytes@.subrange(0, i + 1).drop_last() =~= bytes@.subrange(0, i as int));
        }
        assert(bytes@.subrange(0, bytes@.len() as int) =~= bytes@);
    }
}

} // verus!

verus! {

/// A printable byte written at a column inside the last row lands at that
/// column in the current attribute, and the cursor moves one column on.
pub proof fn lemma_printable_byte_at_cursor(rows: Seq<Seq<ScreenChar>>, column: nat, attr: ColorCode, b: u8)
    requires
        is_grid(rows),
        column < BUFFER_WIDTH,
        0x20 <= b <= 0x7e,
    ensures
        after_byte(rows, column, attr, b).0[BUFFER_HEIGHT - 1][column as int] == cell_of(b, attr),
        after_byte(rows, column, attr, b).1 == column + 1,
{
}

/// A byte that is neither printable ASCII nor the line break is written as
/// the fallback glyph: the cell it fills shows `FALLBACK_GLYPH`, not the byte.
pub proof fn lemma_unprintable_byte_shows_fallback(rows: Seq<Seq<ScreenChar>>, column: nat, attr: ColorCode, b: u8)
    requires
        is_grid(rows),
        column <= BUFFER_WIDTH,
        !is_shown(b),
    ensures
        after_bytes(rows, column, attr, seq![b]) == after_byte(rows, column, attr, FALLBACK_GLYPH),
        after_bytes(rows, column, attr, seq![b]).1 >= 1,
        after_bytes(rows, column, attr, seq![b]).0[BUFFER_HEIGHT - 1][after_bytes(rows, column, attr, seq![b]).1 - 1]
            == cell_of(FALLBACK_GLYPH, attr),
        b != FALLBACK_GLYPH ==> after_bytes(rows, column, attr, seq![b]).0[BUFFER_HEIGHT - 1][after_bytes(
            rows,
            column,
            attr,
            seq![b],
        ).1 - 1].ascii_character != b,
{
    assert(seq![b].drop_last() =~= Seq::<u8>::empty());
    reveal_with_fuel(after_bytes, 2);
}

/// A line break scrolls the surface up by one line: the top row is lost,
/// the last row becomes all spaces in the current attribute and the cursor
/// goes back to column 0.
pub proof fn lemma_line_break_blanks_last_row(rows: Seq<Seq<ScreenChar>>, column: nat, attr: ColorCode)
    requires
        is_grid(rows),
    ensures
        after_byte(rows, column, attr, NEWLINE).1 == 0,
        after_byte(rows, column, attr, NEWLINE).0[BUFFER_HEIGHT - 1] == blank_row(attr),
        forall|c: int|
            0 <= c < BUFFER_WIDTH ==> #[trigger] after_byte(rows, column, attr, NEWLINE).0[BUFFER_HEIGHT - 1][c]
                == cell_of(0x20, attr),
        forall|r: int|
            0 <= r < BUFFER_HEIGHT - 1 ==> #[trigger] after_byte(rows, column, attr, NEWLINE).0[r] == rows[r + 1],
{
}

/// The last row after a run of bytes written from column 0 without a wrap:
/// the run's cells first, then what the row held before.
pub open spec fn filled_row(old_row: Seq<ScreenChar>, bytes: Seq<u8>, attr: ColorCode) -> Seq<ScreenChar> {
    Seq::new(
        BUFFER_WIDTH as nat,
        |c: int| if c < bytes.len() { cell_of(bytes[c], attr) } else { old_row[c] },
    )
}

/// Whether every byte of `bytes` is printable ASCII.
pub open spec fn all_printable(bytes: Seq<u8>) -> bool {
    forall|i: int| 0 <= i < bytes.len() ==> 0x20 <= #[trigger] bytes[i] <= 0x7e
}

/// Up to a full row of printable bytes written from column 0 fill the last
/// row from the left and leave the cursor after them.
pub proof fn lemma_run_fills_last_row(rows: Seq<Seq<ScreenChar>>, attr: ColorCode, bytes: Seq<u8>)
    requires
        is_grid(rows),
        bytes.len() <= BUFFER_WIDTH,
        all_printable(bytes),
    ensures
        after_bytes(rows, 0, attr, bytes) == (
            rows.update(BUFFER_HEIGHT - 1, filled_row(rows[BUFFER_HEIGHT - 1], bytes, attr)),
            bytes.len(),
        ),
    decreases bytes.len(),
{
    let last = BUFFER_HEIGHT - 1;
    if bytes.len() == 0 {
        assert(rows.update(last, filled_row(rows[last], bytes, attr)) =~~= rows);
    } else {
        let prefix = bytes.drop_last();
        assert(all_printable(prefix)) by {
            assert forall|i: int| 0 <= i < prefix.len() implies 0x20 <= #[trigger] prefix[i] <= 0x7e by {
                assert(prefix[i] == bytes[i]);
            }
        }
        lemma_run_fills_last_row(rows, attr, prefix);
        assert(bytes.last() == bytes[bytes.len() - 1]);
        let prev = rows.update(last, filled_row(rows[last], prefix, attr));
        assert(put_last(prev, prefix.len() as int, cell_of(bytes.last(), attr)) =~~= rows.update(
            last,
            filled_row(rows[last], bytes, attr),
        ));
    }
}

/// Writing `BUFFER_WIDTH + 1` printable bytes from column 0 scrolls exactly
/// once: the former top row is lost, the other rows move up by one, the row
/// above the last holds the first `BUFFER_WIDTH` bytes, the last row holds
/// the final byte at column 0 followed by spaces, and the cursor is at
/// column 1.
pub proof fn lemma_full_row_and_one_more_scrolls_once(rows: Seq<Seq<ScreenChar>>, attr: ColorCode, bytes: Seq<u8>)
    requires
        is_grid(rows),
        bytes.len() == BUFFER_WIDTH + 1,
        all_printable(bytes),
    ensures
        after_bytes(rows, 0, attr, bytes).1 == 1,
        forall|r: int|
            0 <= r < BUFFER_HEIGHT - 2 ==> #[trigger] after_bytes(rows, 0, attr, bytes).0[r] == rows[r + 1],
        after_bytes(rows, 0, attr, bytes).0[BUFFER_HEIGHT - 2] == Seq::new(
            BUFFER_WIDTH as nat,
            |c: int| cell_of(bytes[c], attr),
        ),
        after_bytes(rows, 0, attr, bytes).0[BUFFER_HEIGHT - 1] == blank_row(attr).update(
            0,
            cell_of(bytes[BUFFER_WIDTH as int], attr),
        ),
{
    let last = BUFFER_HEIGHT - 1;
    let prefix = bytes.drop_last();
    assert(all_printable(prefix)) by {
        assert forall|i: int| 0 <= i < prefix.len() implies 0x20 <= #[trigger] prefix[i] <= 0x7e by {
            assert(prefix[i] == bytes[i]);
        }
    }
    lemma_run_fills_last_row(rows, attr, prefix);
    assert(bytes.last() == bytes[BUFFER_WIDTH as int]);
    let full = rows.update(last, filled_row(rows[last], prefix, attr));
    assert(filled_row(rows[last], prefix, attr) =~= Seq::new(
        BUFFER_WIDTH as nat,
        |c: int| cell_of(bytes[c], attr),
    ));
    assert(put_last(scroll_up(full, attr), 0, cell_of(bytes.last(), attr))[last as int] =~= blank_row(
        attr,
    ).update(0, cell_of(bytes[BUFFER_WIDTH as int], attr)));
}

} // verus!
