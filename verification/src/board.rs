//! The sparse game board: an ordered sequence of rows, each an ordered
//! sequence of optional cells, addressed by zero-based `(row, col)`. Rows
//! arrive over the wire independently and possibly out of order, so a row
//! write replaces its index outright, growing the grid with empty rows as
//! needed; rows may differ in length. The protocol carries no end-of-board
//! marker, so no completeness flag is kept here: a snapshot is simply the
//! rows seen so far.

use vstd::prelude::*;
use crate::model::GameCell;

verus! {

/// The client-side board snapshot.
#[derive(Debug, Clone, PartialEq)]
pub struct Board {
    pub rows: Vec<Vec<Option<GameCell>>>,
}

impl View for Board {
    type V = Seq<Seq<Option<GameCell>>>;

    open spec fn view(&self) -> Seq<Seq<Option<GameCell>>> {
        self.rows@.map_values(|r: Vec<Option<GameCell>>| r@)
    }
}

/// The board after a row write: an in-range index replaces its row, an
/// out-of-range index first grows the grid with empty rows.
pub open spec fn spec_apply_map_line(
    b: Seq<Seq<Option<GameCell>>>,
    index: int,
    row: Seq<Option<GameCell>>,
) -> Seq<Seq<Option<GameCell>>> {
    if index < b.len() {
        b.update(index, row)
    } else {
        b + Seq::new((index - b.len()) as nat, |i: int| Seq::<Option<GameCell>>::empty()) + seq![
            row,
        ]
    }
}

impl Board {
    pub fn new() -> (r: Board)
        ensures
            r@ == Seq::<Seq<Option<GameCell>>>::empty(),
    {
        let r = Board { rows: Vec::new() };
        proof {
            assert(r@ =~= Seq::<Seq<Option<GameCell>>>::empty());
        }
        r
    }

    /// Writes one arriving map row at its index, growing the grid as needed;
    /// a second write to the same index replaces the whole row.
    #[verifier::loop_isolation(false)]
    pub fn apply_map_line(&mut self, index: usize, row: Vec<Option<GameCell>>)
        ensures
            final(self)@ == spec_apply_map_line(old(self)@, index as int, row@),
    {
        if index < self.rows.len() {
            self.rows[index] = row;
            proof {
                assert(self@ =~= spec_apply_map_line(old(self)@, index as int, row@));
            }
        } else {
            let ghost b = old(self)@;
            while self.rows.len() < index
                invariant
                    b.len() <= self@.len() <= index,
                    self@ =~= b + Seq::new(
                        (self@.len() - b.len()) as nat,
                        |i: int| Seq::<Option<GameCell>>::empty(),
                    ),
                decreases index - self.rows.len(),
            {
                let ghost before = self@;
                self.rows.push(Vec::new());
                proof {
                    assert(self@ =~= before.push(Seq::<Option<GameCell>>::empty()));
                    assert(self@ =~= b + Seq::new(
                        (self@.len() - b.len()) as nat,
                        |i: int| Seq::<Option<GameCell>>::empty(),
                    ));
                }
            }
            let ghost before = self@;
            self.rows.push(row);
            proof {
                assert(self@ =~= before.push(row@));
                assert(self@ =~= spec_apply_map_line(b, index as int, row@));
            }
        }
    }

    /// Whether `(row, col)` is a position of the board that holds a cell.
    pub fn has_cell(&self, row: usize, col: usize) -> (r: bool)
        ensures
            r == spec_has_cell(self@, row as int, col as int),
    {
        row < self.rows.len() && col < self.rows[row].len() && self.rows[row][col].is_some()
    }
}

pub open spec fn spec_has_cell(b: Seq<Seq<Option<GameCell>>>, row: int, col: int) -> bool {
    0 <= row < b.len() && 0 <= col < b[row].len() && b[row][col] is Some
}

/// A row write reaches at least one past its index, replaces exactly that
/// row, and leaves every other existing row untouched.
pub proof fn lemma_map_line_growth(
    b: Seq<Seq<Option<GameCell>>>,
    index: int,
    row: Seq<Option<GameCell>>,
)
    requires
        0 <= index,
    ensures
        spec_apply_map_line(b, index, row).len() == if index < b.len() {
            b.len() as int
        } else {
            index + 1
        },
        spec_apply_map_line(b, index, row)[index] == row,
        forall|i: int|
            0 <= i < b.len() && i != index ==> spec_apply_map_line(b, index, row)[i] == b[i],
        forall|i: int|
            b.len() <= i < index ==> spec_apply_map_line(b, index, row)[i] =~= Seq::<
                Option<GameCell>,
            >::empty(),
{
}

/// Writing the same index twice keeps only the later row: the first write
/// is fully replaced, never merged.
pub proof fn lemma_map_line_replaces(
    b: Seq<Seq<Option<GameCell>>>,
    index: int,
    first: Seq<Option<GameCell>>,
    second: Seq<Option<GameCell>>,
)
    requires
        0 <= index,
    ensures
        spec_apply_map_line(spec_apply_map_line(b, index, first), index, second)
            == spec_apply_map_line(b, index, second),
{
    let b1 = spec_apply_map_line(b, index, first);
    lemma_map_line_growth(b, index, first);
    assert(spec_apply_map_line(b1, index, second) =~= spec_apply_map_line(b, index, second));
}

} // verus!
