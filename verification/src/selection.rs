//! Text marked with the mouse.
use crate::geometry::{bottom_of, clamped, in_rect, into_range, less, right_of, Rect};
use crate::text;
use crate::text::{joined, trimmed_end};
use vstd::prelude::*;

verus! {

/// A stretch of cells, line by line, from the cell where it was begun to the cell where it ends.
/// Cells are given as row and column.
#[derive(Clone, Copy, Debug)]
pub struct Selection {
    pub anchor: (u16, u16),
    pub head: (u16, u16),
}

/// Whether a cell comes before another one in reading order, or is it.
pub open spec fn reaches(a: (u16, u16), b: (u16, u16)) -> bool {
    a.0 < b.0 || (a.0 == b.0 && a.1 <= b.1)
}

/// Whether a selection covers a cell.
pub open spec fn covers(selection: Selection, x: int, y: int) -> bool {
    let point = (y as u16, x as u16);
    ||| reaches(selection.anchor, point) && reaches(point, selection.head)
    ||| reaches(selection.head, point) && reaches(point, selection.anchor)
}

/// Whether a rectangle has a cell to move into. One without any may begin at the edge.
pub open spec fn has_cell(area: Rect) -> bool {
    area.y <= less(bottom_of(area), 1) && area.x <= less(right_of(area), 1)
}

/// The text of the covered cells among the first ones of a line.
pub open spec fn covered_text(
    selection: Selection,
    cells: Seq<Seq<char>>,
    x: int,
    y: int,
) -> Seq<char>
    decreases cells.len(),
{
    if cells.len() == 0 {
        Seq::empty()
    } else {
        let before = covered_text(selection, cells.drop_last(), x, y);
        if covers(selection, x + cells.len() - 1, y) {
            before + cells.last()
        } else {
            before
        }
    }
}

/// The texts of the lines, those without any left out, each without white space at its end.
pub open spec fn covered_lines(
    selection: Selection,
    lines: Seq<Seq<Seq<char>>>,
    x: int,
    y: int,
) -> Seq<Seq<char>>
    decreases lines.len(),
{
    if lines.len() == 0 {
        Seq::empty()
    } else {
        let before = covered_lines(selection, lines.drop_last(), x, y);
        let line = covered_text(selection, lines.last(), x, y + lines.len() - 1);
        if line.len() > 0 {
            before.push(trimmed_end(line))
        } else {
            before
        }
    }
}

/// The text that a selection covers. A selection of one cell is a click, and covers none.
pub open spec fn selected_text(
    selection: Selection,
    lines: Seq<Seq<Seq<char>>>,
    area: Rect,
) -> Seq<char> {
    if selection.anchor == selection.head {
        Seq::empty()
    } else {
        trimmed_end(
            joined(covered_lines(selection, lines, area.x as int, area.y as int), "\n"@),
        )
    }
}

/// The covered cells among the first ones of a row, as column and row.
pub open spec fn covered_in_row(selection: Selection, x: int, y: int, count: nat) -> Seq<(u16, u16)>
    decreases count,
{
    if count == 0 {
        Seq::empty()
    } else {
        let last = x + count - 1;
        let before = covered_in_row(selection, x, y, (count - 1) as nat);
        if covers(selection, last, y) {
            before.push((last as u16, y as u16))
        } else {
            before
        }
    }
}

/// The covered cells of the first rows of a rectangle, row by row, as column and row.
pub open spec fn covered_cells(selection: Selection, area: Rect, rows: nat) -> Seq<(u16, u16)>
    decreases rows,
{
    if rows == 0 {
        Seq::empty()
    } else {
        covered_cells(selection, area, (rows - 1) as nat) + covered_in_row(
            selection,
            area.x as int,
            area.y + rows - 1,
            (right_of(area) - area.x) as nat,
        )
    }
}

fn before_or_at(a: (u16, u16), b: (u16, u16)) -> (answer: bool)
    ensures
        answer == reaches(a, b),
{
    a.0 < b.0 || (a.0 == b.0 && a.1 <= b.1)
}

impl Selection {
    /// A selection that begins, and so far ends, at a cell.
    pub fn new(column: u16, row: u16) -> (selection: Self)
        ensures
            selection == (Selection { anchor: (row, column), head: (row, column) }),
    {
        Selection { anchor: (row, column), head: (row, column) }
    }

    /// Moves the end to a cell, or to the nearest one in the area.
    pub fn drag(&mut self, column: u16, row: u16, area: Rect)
        requires
            has_cell(area),
        ensures
            *final(self) == (Selection {
                anchor: old(self).anchor,
                head: (
                    into_range(row as int, area.y as int, less(bottom_of(area), 1)) as u16,
                    into_range(column as int, area.x as int, less(right_of(area), 1)) as u16,
                ),
            }),
    {
        self.head = (
            clamped(row, area.y, area.bottom().saturating_sub(1)),
            clamped(column, area.x, area.right().saturating_sub(1)),
        );
    }

    /// Whether it covers a cell.
    pub fn contains(&self, x: u16, y: u16) -> (answer: bool)
        ensures
            answer == covers(*self, x as int, y as int),
    {
        let point: (u16, u16) = (y, x);
        (before_or_at(self.anchor, point) && before_or_at(point, self.head)) || (before_or_at(
            self.head,
            point,
        ) && before_or_at(point, self.anchor))
    }

    /// The cells to be painted as selected, as column and row.
    pub fn paint(&self, area: Rect) -> (cells: Vec<(u16, u16)>)
        ensures
            cells@ == covered_cells(*self, area, (bottom_of(area) - area.y) as nat),
    {
        let mut cells: Vec<(u16, u16)> = Vec::new();
        let right: u16 = area.right();
        let bottom: u16 = area.bottom();
        let mut y: u16 = area.y;
        while y < bottom
            invariant
                area.y <= y <= bottom,
                bottom == bottom_of(area),
                right == right_of(area),
                cells@ == covered_cells(*self, area, (y - area.y) as nat),
            decreases bottom - y,
        {
            let ghost above = cells@;
            let mut x: u16 = area.x;
            while x < right
                invariant
                    area.x <= x <= right,
                    right == right_of(area),
                    y < u16::MAX,
                    cells@ == above + covered_in_row(
                        *self,
                        area.x as int,
                        y as int,
                        (x - area.x) as nat,
                    ),
                decreases right - x,
            {
                if self.contains(x, y) {
                    cells.push((x, y));
                }
                x += 1;
                proof {
                    assert(cells@ =~= above + covered_in_row(
                        *self,
                        area.x as int,
                        y as int,
                        (x - area.x) as nat,
                    ));
                }
            }
            y += 1;
        }
        cells
    }

    /// The text that it covers, of the lines shown in an area, cell by cell.
    pub fn text(&self, lines: &Vec<Vec<String>>, area: Rect) -> (words: String)
        requires
            area.y + lines.len() <= u16::MAX + 1,
            forall|i: int|
                0 <= i < lines.len() ==> area.x + (#[trigger] lines[i]).len() <= u16::MAX + 1,
        ensures
            words@ == selected_text(*self, lines.deep_view(), area),
    {
        if self.anchor.0 == self.head.0 && self.anchor.1 == self.head.1 {
            return String::new();
        }
        let mut found: Vec<String> = Vec::new();
        let ghost all = lines.deep_view();
        let mut row: usize = 0;
        while row < lines.len()
            invariant
                row <= lines.len(),
                all == lines.deep_view(),
                area.y + lines.len() <= u16::MAX + 1,
                forall|i: int|
                    0 <= i < lines.len() ==> area.x + (#[trigger] lines[i]).len() <= u16::MAX + 1,
                found.deep_view() == covered_lines(
                    *self,
                    all.take(row as int),
                    area.x as int,
                    area.y as int,
                ),
            decreases lines.len() - row,
        {
            let line = self.line_text(&lines[row], area.x, area.y + row as u16);
            proof {
                let next = all.take(row + 1);
                assert(next.drop_last() =~= all.take(row as int));
                assert(next.last() == lines[row as int].deep_view());
            }
            let ghost before = found.deep_view();
            if !line.as_str().is_empty() {
                found.push(line.as_str().trim_end().to_owned());
                proof {
                    assert(found.deep_view() =~= before.push(trimmed_end(line@)));
                }
            }
            row += 1;
        }
        proof {
            assert(all.take(row as int) =~= all);
        }
        let text = text::join_pieces(&found, "\n");
        text.as_str().trim_end().to_owned()
    }

    /// The text of the covered cells of a line.
    fn line_text(&self, cells: &Vec<String>, x: u16, y: u16) -> (words: String)
        requires
            x + cells.len() <= u16::MAX + 1,
        ensures
            words@ == covered_text(*self, cells.deep_view(), x as int, y as int),
    {
        let mut words = String::new();
        let ghost all = cells.deep_view();
        let mut column: usize = 0;
        while column < cells.len()
            invariant
                column <= cells.len(),
                all == cells.deep_view(),
                x + cells.len() <= u16::MAX + 1,
                words@ == covered_text(*self, all.take(column as int), x as int, y as int),
            decreases cells.len() - column,
        {
            proof {
                let next = all.take(column + 1);
                assert(next.drop_last() =~= all.take(column as int));
                assert(next.last() == cells[column as int]@);
            }
            if self.contains(x + column as u16, y) {
                words.append(cells[column].as_str());
            }
            column += 1;
        }
        proof {
            assert(all.take(column as int) =~= all);
        }
        words
    }
}

/// It makes no difference in which direction a selection was drawn.
pub proof fn law_direction_does_not_matter(
    selection: Selection,
    lines: Seq<Seq<Seq<char>>>,
    area: Rect,
)
    ensures
        ({
            let turned = Selection { anchor: selection.head, head: selection.anchor };
            selected_text(turned, lines, area) == selected_text(selection, lines, area)
        }),
{
    let turned = Selection { anchor: selection.head, head: selection.anchor };
    lemma_lines_turned(selection, turned, lines, area.x as int, area.y as int);
}

proof fn lemma_lines_turned(
    selection: Selection,
    turned: Selection,
    lines: Seq<Seq<Seq<char>>>,
    x: int,
    y: int,
)
    requires
        turned.anchor == selection.head,
        turned.head == selection.anchor,
    ensures
        covered_lines(turned, lines, x, y) == covered_lines(selection, lines, x, y),
    decreases lines.len(),
{
    if lines.len() > 0 {
        lemma_lines_turned(selection, turned, lines.drop_last(), x, y);
        lemma_text_turned(selection, turned, lines.last(), x, y + lines.len() - 1);
    }
}

proof fn lemma_text_turned(
    selection: Selection,
    turned: Selection,
    cells: Seq<Seq<char>>,
    x: int,
    y: int,
)
    requires
        turned.anchor == selection.head,
        turned.head == selection.anchor,
    ensures
        covered_text(turned, cells, x, y) == covered_text(selection, cells, x, y),
    decreases cells.len(),
{
    if cells.len() > 0 {
        lemma_text_turned(selection, turned, cells.drop_last(), x, y);
    }
}

/// A selection that is dragged ends inside the area, wherever the mouse went.
pub proof fn law_drag_stays_inside(selection: Selection, column: u16, row: u16, area: Rect)
    requires
        area.width > 0,
        area.height > 0,
        area.x < u16::MAX,
        area.y < u16::MAX,
    ensures
        has_cell(area),
        in_rect(
            area,
            into_range(column as int, area.x as int, less(right_of(area), 1)),
            into_range(row as int, area.y as int, less(bottom_of(area), 1)),
        ),
{
}

} // verus!
