use crate::board::{symbol_of, Board, Player, Position};
use vstd::prelude::*;

verus! {

/// The board as nine optional marks in row-major order.
pub fn flatten_board(board: &Board) -> (r: Vec<Option<String>>)
    ensures
        r@.len() == 9,
        forall|i: int|
            0 <= i < 9 ==> match board@[i] {
                None => (#[trigger] r@[i]) is None,
                Some(p) => r@[i] matches Some(s) && s@ == symbol_of(p),
            },
{
    let mut flat: Vec<Option<String>> = Vec::new();
    let mut i: u8 = 0;
    while i < 9
        invariant
            i <= 9,
            flat@.len() == i,
            forall|j: int|
                0 <= j < i ==> match board@[j] {
                    None => (#[trigger] flat@[j]) is None,
                    Some(p) => flat@[j] matches Some(s) && s@ == symbol_of(p),
                },
        decreases 9 - i,
    {
        let cell = board.get_cell(&Position::new(i % 3, i / 3));
        let text = match cell {
            Some(p) => Some(p.symbol()),
            None => None,
        };
        flat.push(text);
        i = i + 1;
    }
    flat
}

/// A nine-cell mask, row-major, that is true at the given positions.
pub fn flatten_positions(positions: Vec<Position>) -> (r: Vec<bool>)
    requires
        forall|j: int| 0 <= j < positions@.len() ==> (#[trigger] positions@[j]).in_range(),
    ensures
        r@.len() == 9,
        forall|i: int|
            0 <= i < 9 ==> (#[trigger] r@[i] <==> exists|j: int|
                0 <= j < positions@.len() && (#[trigger] positions@[j]).index() == i),
{
    let mut flat: Vec<bool> = Vec::new();
    let mut i: usize = 0;
    while i < 9
        invariant
            i <= 9,
            flat@.len() == i,
            forall|k: int| 0 <= k < i ==> !(#[trigger] flat@[k]),
        decreases 9 - i,
    {
        flat.push(false);
        i = i + 1;
    }
    let mut j: usize = 0;
    while j < positions.len()
        invariant
            j <= positions@.len(),
            flat@.len() == 9,
            forall|k: int| 0 <= k < positions@.len() ==> (#[trigger] positions@[k]).in_range(),
            forall|i: int|
                0 <= i < 9 ==> (#[trigger] flat@[i] <==> exists|k: int|
                    0 <= k < j && (#[trigger] positions@[k]).index() == i),
        decreases positions@.len() - j,
    {
        let pos = positions[j];
        let index = (pos.x + pos.y * 3) as usize;
        flat.set(index, true);
        assert forall|i: int| 0 <= i < 9 implies (#[trigger] flat@[i] <==> exists|k: int|
            0 <= k < j + 1 && (#[trigger] positions@[k]).index() == i) by {
            if i != index {
                if exists|k: int| 0 <= k < j + 1 && (#[trigger] positions@[k]).index() == i {
                    let k = choose|k: int| 0 <= k < j + 1 && (#[trigger] positions@[k]).index() == i;
                    assert(k < j);
                }
            } else {
                assert(positions@[j as int].index() == i);
            }
        }
        j = j + 1;
    }
    flat
}

/// The three characters shown for one cell.
pub open spec fn cell_text(c: Option<Player>) -> Seq<char> {
    match c {
        Some(p) => seq![' '] + symbol_of(p) + seq![' '],
        None => seq![' ', ' ', ' '],
    }
}

/// Row `y` of the text grid: cells split by `|`, then a rule under every row but
/// the last.
pub open spec fn row_text(v: Seq<Option<Player>>, y: int) -> Seq<char> {
    cell_text(v[3 * y]) + seq!['|'] + cell_text(v[3 * y + 1]) + seq!['|'] + cell_text(
        v[3 * y + 2],
    ) + if y < 2 {
        rule_text()
    } else {
        seq!['\n']
    }
}

/// The line break, the rule drawn between two rows, and the next line break.
pub open spec fn rule_text() -> Seq<char> {
    seq!['\n', '-', '-', '-', '-', '-', '-', '-', '-', '-', '-', '\n']
}

pub open spec fn board_text(v: Seq<Option<Player>>) -> Seq<char> {
    row_text(v, 0) + row_text(v, 1) + row_text(v, 2)
}

fn cell_str(c: Option<Player>) -> (r: &'static str)
    ensures
        r@ == cell_text(c),
{
    proof {
        reveal_strlit(" X ");
        reveal_strlit(" O ");
        reveal_strlit("   ");
    }
    match c {
        Some(Player::X) => {
            assert(" X "@ =~= cell_text(c));
            " X "
        },
        Some(Player::O) => {
            assert(" O "@ =~= cell_text(c));
            " O "
        },
        None => {
            assert("   "@ =~= cell_text(c));
            "   "
        },
    }
}

impl Board {
    /// Row `y` of the text grid.
    fn render_row(&self, y: u8) -> (r: String)
        requires
            y < 3,
        ensures
            r@ == row_text(self@, y as int),
    {
        proof {
            reveal_strlit("|");
            reveal_strlit("\n");
            reveal_strlit("\n----------\n");
            assert("\n----------\n"@ =~= rule_text());
        }
        let mut out = String::new();
        out.append(cell_str(self.get_cell(&Position::new(0, y))));
        out.append("|");
        out.append(cell_str(self.get_cell(&Position::new(1, y))));
        out.append("|");
        out.append(cell_str(self.get_cell(&Position::new(2, y))));
        if y < 2 {
            out.append("\n----------\n");
        } else {
            out.append("\n");
        }
        assert(out@ =~= row_text(self@, y as int));
        out
    }

    /// The board as a human-readable 3x3 text grid.
    pub fn render(&self) -> (r: String)
        ensures
            r@ == board_text(self@),
    {
        let mut out = self.render_row(0);
        let second = self.render_row(1);
        out.append(second.as_str());
        let third = self.render_row(2);
        out.append(third.as_str());
        out
    }
}

} // verus!
