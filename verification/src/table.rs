//! Rows of cells drawn as a table of text.

use crate::text::{free_of, holds_char};
use vstd::prelude::*;

verus! {

/// The text that the table printer draws for the given rows of cells.
pub uninterp spec fn table_text(rows: Seq<Seq<Seq<char>>>) -> Seq<char>;

/// Whether the rows can be drawn: no cell holds the character that begins
/// an escape sequence of a terminal.
pub open spec fn drawable(rows: Seq<Seq<Seq<char>>>) -> bool {
    forall|i: int, j: int|
        0 <= i < rows.len() && 0 <= j < rows[i].len() ==> free_of(#[trigger] rows[i][j], '\u{1b}')
}

/// Draws rows of cells as a table.
///
/// Trusted: the body builds a `prettytable::Table` with `Table::init` from
/// one `Row::new` for each row and one `Cell::new` for each cell, and
/// prints it through its `Display` impl. The printer uses its default
/// format and no titles, and writes to a string, so the text depends on
/// the cells alone; the contract gives that text a name and says no more
/// of it. The printer measures what stands inside an escape sequence on
/// its own and stops where the two measures disagree, so cells with the
/// character that begins one are left out.
#[verifier::external_body]
pub(crate) fn render(rows: &Vec<Vec<String>>) -> (text: String)
    requires
        drawable(rows.deep_view()),
    ensures
        text@ == table_text(rows.deep_view()),
{
    let drawn: Vec<prettytable::Row> = rows.iter().map(
        |row| prettytable::Row::new(row.iter().map(|cell| prettytable::Cell::new(cell)).collect()),
    ).collect();
    prettytable::Table::init(drawn).to_string()
}

/// Draws rows of cells as a table, where they can be drawn.
pub fn draw(rows: &Vec<Vec<String>>) -> (text: Option<String>)
    ensures
        match text {
            Some(t) => drawable(rows.deep_view()) && t@ == table_text(rows.deep_view()),
            None => !drawable(rows.deep_view()),
        },
{
    let ghost all = rows.deep_view();
    let mut i: usize = 0;
    while i < rows.len()
        invariant
            i <= rows.len(),
            all == rows.deep_view(),
            forall|a: int, b: int|
                0 <= a < i && 0 <= b < all[a].len() ==> free_of(#[trigger] all[a][b], '\u{1b}'),
        decreases rows.len() - i,
    {
        let row = &rows[i];
        assert(all[i as int] == row.deep_view());
        let mut j: usize = 0;
        while j < row.len()
            invariant
                j <= row.len(),
                i < rows.len(),
                all == rows.deep_view(),
                all[i as int] == row.deep_view(),
                forall|b: int| 0 <= b < j ==> free_of(#[trigger] all[i as int][b], '\u{1b}'),
            decreases row.len() - j,
        {
            assert(all[i as int][j as int] == row[j as int]@);
            if holds_char(row[j].as_str(), '\u{1b}') {
                return None;
            }
            j += 1;
        }
        i += 1;
    }
    Some(render(rows))
}

} // verus!
