//! What gravity implies for a single column: where the tokens lie, where the
//! next one lands, and that a drop keeps the column settled.

use vstd::prelude::*;
use crate::grid::{Cell, column_full, landing_row, settled, token_count};

verus! {

/// A column whose vacant cells are exactly the rows above `t` holds
/// `len - t` tokens.
pub proof fn lemma_count_of_split(column: Seq<Cell>, t: int)
    requires
        0 <= t <= column.len(),
        forall|y: int| 0 <= y < column.len() ==> ((#[trigger] column[y]) is Vacant <==> y < t),
    ensures
        token_count(column) == column.len() - t,
    decreases column.len(),
{
    if column.len() > 0 {
        let rest = column.drop_last();
        assert forall|y: int| 0 <= y < rest.len() implies ((#[trigger] rest[y]) is Vacant <==> y
            < if t < column.len() {
            t
        } else {
            t - 1
        }) by {
            assert(rest[y] == column[y]);
        }
        if t < column.len() {
            lemma_count_of_split(rest, t);
            assert(column.last() == column[column.len() - 1]);
        } else {
            lemma_count_of_split(rest, t - 1);
            assert(column.last() == column[column.len() - 1]);
        }
    }
}

/// In a settled column the tokens fill exactly the bottom rows: a cell is
/// vacant if and only if it lies at or above the landing row.
pub proof fn lemma_settled_split(column: Seq<Cell>)
    requires
        settled(column),
    ensures
        token_count(column) <= column.len(),
        forall|y: int|
            0 <= y < column.len() ==> ((#[trigger] column[y]) is Vacant <==> y <= landing_row(
                column,
            )),
    decreases column.len(),
{
    if column.len() > 0 {
        let rest = column.drop_last();
        let bottom = column.len() - 1;
        assert forall|y: int| 0 <= y < rest.len() implies #[trigger] rest[y] == column[y] by {}
        assert(settled(rest)) by {
            assert forall|upper: int, lower: int|
                0 <= upper < lower < rest.len() && #[trigger] rest[upper] is Owned implies #[trigger] rest[lower] is Owned by {
                assert(column[upper] is Owned);
                assert(column[lower] is Owned);
            }
        }
        lemma_settled_split(rest);
        assert(column.last() == column[bottom]);
        if column[bottom] is Vacant {
            if rest.len() > 0 {
                let above = bottom - 1;
                if column[above] is Owned {
                    assert(column[bottom] is Owned);
                }
                assert(rest[above] is Vacant);
            }
            assert(token_count(rest) == 0);
            assert forall|y: int| 0 <= y < column.len() implies (#[trigger] column[y]) is Vacant by {
                if y < bottom && column[y] is Owned {
                    assert(column[bottom] is Owned);
                }
            }
        } else {
            assert forall|y: int| 0 <= y < column.len() implies ((#[trigger] column[y]) is Vacant
                <==> y <= landing_row(column)) by {
                if y < bottom {
                    assert(rest[y] == column[y]);
                }
            }
        }
    }
}

/// In a settled column that is not full, the landing row is the lowest
/// vacant cell: it is vacant, as is every cell above it, and every cell
/// below it holds a token.
pub proof fn law_landing_row_is_lowest_vacant(column: Seq<Cell>)
    requires
        settled(column),
        !column_full(column),
    ensures
        0 <= landing_row(column) < column.len(),
        column[landing_row(column)] is Vacant,
        forall|y: int| 0 <= y <= landing_row(column) ==> (#[trigger] column[y]) is Vacant,
        forall|y: int| landing_row(column) < y < column.len() ==> (#[trigger] column[y]) is Owned,
{
    lemma_settled_split(column);
    let y = choose|y: int| 0 <= y < column.len() && !((#[trigger] column[y]) is Owned);
    assert(column[y] is Vacant);
}

/// A settled column is full exactly when its topmost cell holds a token
/// (a column without cells counts as full), and exactly when it holds as
/// many tokens as it has cells.
pub proof fn law_full_iff_top_owned(column: Seq<Cell>)
    requires
        settled(column),
    ensures
        column_full(column) <==> (column.len() == 0 || column[0] is Owned),
        column_full(column) <==> token_count(column) == column.len(),
{
    lemma_settled_split(column);
    if column.len() > 0 {
        if column[0] is Owned {
            assert forall|y: int| 0 <= y < column.len() implies (#[trigger] column[y]) is Owned by {
                if y > 0 {
                    assert(column[0] is Owned);
                }
            }
        }
        if token_count(column) == column.len() {
            assert(!(column[0] is Vacant));
        }
        if column_full(column) {
            assert(column[0] is Owned);
        }
    }
}

/// Putting a token into the landing row of a settled column that is not
/// full leaves the column settled with one token more, so the next token
/// lands one row higher.
pub proof fn law_drop_keeps_gravity(column: Seq<Cell>, player: u32)
    requires
        settled(column),
        !column_full(column),
    ensures
        settled(column.update(landing_row(column), Cell::Owned(player))),
        token_count(column.update(landing_row(column), Cell::Owned(player))) == token_count(column)
            + 1,
        landing_row(column.update(landing_row(column), Cell::Owned(player))) == landing_row(column)
            - 1,
{
    law_landing_row_is_lowest_vacant(column);
    let row = landing_row(column);
    let after = column.update(row, Cell::Owned(player));
    assert forall|y: int| 0 <= y < after.len() implies ((#[trigger] after[y]) is Vacant <==> y
        < row) by {
        if y != row {
            assert(after[y] == column[y]);
        }
    }
    lemma_count_of_split(after, row);
    assert forall|upper: int, lower: int|
        0 <= upper < lower < after.len() && #[trigger] after[upper] is Owned implies #[trigger] after[lower] is Owned by {
        assert(!(after[upper] is Vacant));
        assert(!(lower < row));
    }
}

} // verus!
