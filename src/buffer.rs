use vstd::prelude::*;
use volatile::Volatile;
use crate::color::{ScreenChar, lemma_word_round_trip, word_cell};

verus! {

pub const BUFFER_HEIGHT: usize = 25;

pub const BUFFER_WIDTH: usize = 80;

#[verifier::external_type_specification]
#[verifier::external_body]
#[verifier::reject_recursive_types(T)]
pub struct ExVolatile<T: Copy>(Volatile<T>);

/// The word that a volatile memory cell holds.
pub uninterp spec fn cell_value(v: Volatile<u16>) -> u16;

/// Relies on `Volatile::read`: a volatile load of the word the cell holds.
#[verifier::external_body]
fn read_cell(v: &Volatile<u16>) -> (r: u16)
    ensures
        r == cell_value(*v),
{
    v.read()
}

/// Relies on `Volatile::write`: a volatile store, after which the cell holds
/// the given word.
#[verifier::external_body]
fn write_cell(v: &mut Volatile<u16>, w: u16)
    ensures
        cell_value(*final(v)) == w,
    no_unwind
{
    v.write(w)
}

/// The text surface: `BUFFER_HEIGHT` rows of `BUFFER_WIDTH` cells, each cell
/// a volatile 16-bit word, laid out row-major.
pub struct Buffer {
    pub chars: [[Volatile<u16>; BUFFER_WIDTH]; BUFFER_HEIGHT],
}

impl View for Buffer {
    type V = Seq<Seq<ScreenChar>>;

    /// The grid of cells, row by row.
    open spec fn view(&self) -> Seq<Seq<ScreenChar>> {
        Seq::new(
            BUFFER_HEIGHT as nat,
            |r: int| Seq::new(BUFFER_WIDTH as nat, |c: int| word_cell(cell_value(self.chars[r][c]))),
        )
    }
}

impl Buffer {
    /// Reads the cell at row `row`, column `col`.
    pub fn read(&self, row: usize, col: usize) -> (r: ScreenChar)
        requires
            row < BUFFER_HEIGHT,
            col < BUFFER_WIDTH,
        ensures
            r == self@[row as int][col as int],
    {
        ScreenChar::from_word(read_cell(&self.chars[row][col]))
    }

    /// Writes `ch` into the cell at row `row`, column `col`, leaving every
    /// other cell as it was.
    pub fn write(&mut self, row: usize, col: usize, ch: ScreenChar)
        requires
            row < BUFFER_HEIGHT,
            col < BUFFER_WIDTH,
        ensures
            final(self)@ == old(self)@.update(row as int, old(self)@[row as int].update(col as int, ch)),
        no_unwind
    {
        write_cell(&mut self.chars[row][col], ch.to_word());
        proof {
            lemma_word_round_trip(ch);
        }
        assert(self@ =~~= old(self)@.update(row as int, old(self)@[row as int].update(col as int, ch)));
    }
}

} // verus!
