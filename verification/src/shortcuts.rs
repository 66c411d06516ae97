//! The rows that say which keys do what.
use crate::geometry::{rect, Rect};
use crate::input::{add_hit, hits_view, Hit, Hits, KeyCode, KeyEvent};
use crate::text;
use crate::text::occurrence;
use vstd::prelude::*;

verus! {

/// What is said of a key, and the key.
pub open spec fn control(label: Seq<char>, code: KeyCode, control: bool) -> (Seq<char>, KeyEvent) {
    (label, KeyEvent { code, press: true, control, alt: false })
}

/// All that is said of keys.
pub open spec fn controls() -> Seq<(Seq<char>, KeyEvent)> {
    seq![
        control("[Space] record/stop"@, KeyCode::Char(' '), false),
        control("[C] copy"@, KeyCode::Char('c'), false),
        control("[Ctrl+C] latest"@, KeyCode::Char('c'), true),
        control("[E] export"@, KeyCode::Char('e'), false),
        control("[X] clear"@, KeyCode::Char('x'), false),
        control("[S] settings"@, KeyCode::Char('s'), false),
        control("[↑↓] scroll"@, KeyCode::Down, false),
        control("[Tab] next"@, KeyCode::Tab, false),
        control("[Esc] cancel"@, KeyCode::Esc, false),
        control("[Q] close"@, KeyCode::Char('q'), false),
    ]
}

/// Labels in rows: the rows that are full, and the one that is not.
pub open spec fn wrapped(controls: Seq<(Seq<char>, KeyEvent)>, width: int) -> (
    Seq<Seq<char>>,
    Seq<char>,
)
    decreases controls.len(),
{
    if controls.len() == 0 {
        (Seq::empty(), Seq::empty())
    } else {
        let (rows, row) = wrapped(controls.drop_last(), width);
        let label = controls.last().0;
        if row.len() > 0 && row.len() + 2 + label.len() > width {
            (rows.push(row), label)
        } else if row.len() > 0 {
            (rows, row + "  "@ + label)
        } else {
            (rows, label)
        }
    }
}

/// The rows, for a screen that is so wide.
pub open spec fn shortcut_rows(width: int) -> Seq<Seq<char>> {
    let (rows, row) = wrapped(controls(), width);
    if row.len() > 0 {
        rows.push(row)
    } else {
        rows
    }
}

/// Where a label stands in a line, and what a click on it stands for.
pub open spec fn label_hit(
    line: Seq<char>,
    control: (Seq<char>, KeyEvent),
    x: int,
    y: int,
) -> Hits {
    match occurrence(line, control.0, 0) {
        Some(start) => seq![
            (rect(x + start, y, control.0.len() as int, 1), Hit::Key(control.1)),
        ],
        None => Seq::empty(),
    }
}

/// Where labels stand in a line, and what clicks on them stand for.
pub open spec fn line_hits(
    line: Seq<char>,
    controls: Seq<(Seq<char>, KeyEvent)>,
    x: int,
    y: int,
) -> Hits
    decreases controls.len(),
{
    if controls.len() == 0 {
        Seq::empty()
    } else {
        line_hits(line, controls.drop_last(), x, y) + label_hit(line, controls.last(), x, y)
    }
}

/// Where labels stand in rows, and what clicks on them stand for.
pub open spec fn row_hits(rows: Seq<Seq<char>>, area: Rect) -> Hits
    decreases rows.len(),
{
    if rows.len() == 0 {
        Seq::empty()
    } else {
        row_hits(rows.drop_last(), area) + line_hits(
            rows.last(),
            controls(),
            area.x as int,
            area.y + rows.len() - 1,
        )
    }
}

/// What is said of keys, as contracts see it.
pub open spec fn controls_view(controls: Seq<(&'static str, KeyEvent)>) -> Seq<
    (Seq<char>, KeyEvent),
> {
    Seq::new(controls.len(), |i: int| (controls[i].0@, controls[i].1))
}

fn made(code: KeyCode, control: bool) -> (key: KeyEvent)
    ensures
        key == (KeyEvent { code, press: true, control, alt: false }),
{
    KeyEvent { code, press: true, control, alt: false }
}

/// All that is said of keys, and the keys.
pub fn shortcut_controls() -> (all: Vec<(&'static str, KeyEvent)>)
    ensures
        controls_view(all@) == controls(),
{
    let all: Vec<(&'static str, KeyEvent)> = vec![
        ("[Space] record/stop", made(KeyCode::Char(' '), false)),
        ("[C] copy", made(KeyCode::Char('c'), false)),
        ("[Ctrl+C] latest", made(KeyCode::Char('c'), true)),
        ("[E] export", made(KeyCode::Char('e'), false)),
        ("[X] clear", made(KeyCode::Char('x'), false)),
        ("[S] settings", made(KeyCode::Char('s'), false)),
        ("[↑↓] scroll", made(KeyCode::Down, false)),
        ("[Tab] next", made(KeyCode::Tab, false)),
        ("[Esc] cancel", made(KeyCode::Esc, false)),
        ("[Q] close", made(KeyCode::Char('q'), false)),
    ];
    proof {
        assert(controls_view(all@) =~= controls());
    }
    all
}

/// The rows, for a screen that is so wide.
pub fn shortcuts(width: u16) -> (lines: Vec<String>)
    ensures
        lines.deep_view() == shortcut_rows(width as int),
        lines.len() <= 10,
{
    proof {
        reveal_strlit("  ");
        lemma_labels();
    }
    let all = shortcut_controls();
    let ghost model = controls_view(all@);
    let mut lines: Vec<String> = Vec::new();
    let mut row = String::new();
    let mut i: usize = 0;
    proof {
        assert(model.len() == 10);
        assert(lines.deep_view() =~= Seq::empty());
    }
    while i < all.len()
        invariant
            i <= all.len(),
            all.len() == 10,
            model == controls_view(all@),
            forall|j: int| 0 <= j < 10 ==> 0 < (#[trigger] model[j]).0.len() <= 19,
            (lines.deep_view(), row@) == wrapped(model.take(i as int), width as int),
            lines.len() + (if row@.len() > 0 {
                1int
            } else {
                0int
            }) <= i,
            row@.len() <= 19 + 21 * i,
            "  "@.len() == 2,
        decreases all.len() - i,
    {
        let label = all[i].0;
        let ghost before = lines.deep_view();
        proof {
            assert(model.take(i + 1).drop_last() =~= model.take(i as int));
            assert(model[i as int].0 == label@);
        }
        let length: usize = row.as_str().unicode_len();
        if length > 0 && length + 2 + label.unicode_len() > width as usize {
            lines.push(row);
            row = label.to_owned();
            proof {
                assert(lines.deep_view() =~= before.push(lines[lines.len() - 1]@));
            }
        } else if length > 0 {
            row.append("  ");
            row.append(label);
        } else {
            row = label.to_owned();
        }
        i += 1;
    }
    proof {
        assert(model.take(i as int) =~= controls());
    }
    if !row.as_str().is_empty() {
        let ghost before = lines.deep_view();
        lines.push(row);
        proof {
            assert(lines.deep_view() =~= before.push(row@));
        }
    }
    lines
}

/// Every label says something, in nineteen characters at most.
proof fn lemma_labels()
    ensures
        forall|j: int| 0 <= j < 10 ==> 0 < (#[trigger] controls()[j]).0.len() <= 19,
{
    reveal_strlit("[Space] record/stop");
    reveal_strlit("[C] copy");
    reveal_strlit("[Ctrl+C] latest");
    reveal_strlit("[E] export");
    reveal_strlit("[X] clear");
    reveal_strlit("[S] settings");
    reveal_strlit("[↑↓] scroll");
    reveal_strlit("[Tab] next");
    reveal_strlit("[Esc] cancel");
    reveal_strlit("[Q] close");
}

/// Adds a label, where it stands in a line.
pub fn add_label_hit(
    hits: &mut Vec<(Rect, Hit)>,
    line: &str,
    label: &str,
    key: KeyEvent,
    x: u16,
    y: u16,
)
    requires
        occurrence(line@, label@, 0) matches Some(start) ==> x + start <= u16::MAX && label@.len()
            <= u16::MAX,
    ensures
        hits_view(final(hits)@) == hits_view(old(hits)@) + label_hit(
            line@,
            (label@, key),
            x as int,
            y as int,
        ),
{
    let ghost start = hits_view(hits@);
    if let Some(offset) = text::find(line, label) {
        proof {
            lemma_occurrence(line@, label@, 0);
        }
        add_hit(
            hits,
            Rect::new(x + offset as u16, y, label.unicode_len() as u16, 1),
            Hit::Key(key),
        );
        proof {
            assert(hits_view(hits@) =~= start + label_hit(line@, (label@, key), x as int, y as int));
        }
    } else {
        proof {
            assert(start + Seq::<(Rect, Hit<Seq<char>>)>::empty() =~= start);
        }
    }
}

/// What is found in a text lies in it.
pub proof fn lemma_occurrence(s: Seq<char>, part: Seq<char>, from: int)
    requires
        from >= 0,
    ensures
        occurrence(s, part, from) matches Some(start) ==> from <= start && start + part.len()
            <= s.len(),
    decreases s.len() - from + 1,
{
    if from + part.len() <= s.len() && !text::stands_at(s, part, from) {
        lemma_occurrence(s, part, from + 1);
    }
}

/// What stands somewhere in a text is found there at the latest.
pub proof fn lemma_found_by(s: Seq<char>, part: Seq<char>, from: int, k: int)
    requires
        0 <= from <= k,
        text::stands_at(s, part, k),
    ensures
        occurrence(s, part, from) matches Some(start) ==> start <= k,
    decreases k - from,
{
    if from < k && from + part.len() <= s.len() && !text::stands_at(s, part, from) {
        lemma_found_by(s, part, from + 1, k);
    }
}

/// Adds the labels in rows.
pub fn add_shortcut_hits(hits: &mut Vec<(Rect, Hit)>, lines: &Vec<String>, area: Rect)
    requires
        area.y + lines.len() <= u16::MAX,
        forall|i: int| 0 <= i < lines.len() ==> area.x + (#[trigger] lines[i])@.len() <= u16::MAX,
    ensures
        hits_view(final(hits)@) == hits_view(old(hits)@) + row_hits(lines.deep_view(), area),
{
    let all = shortcut_controls();
    let ghost start = hits_view(hits@);
    let ghost texts = lines.deep_view();
    let mut row: usize = 0;
    proof {
        assert(start + row_hits(texts.take(0), area) =~= start);
    }
    while row < lines.len()
        invariant
            row <= lines.len(),
            start == hits_view(old(hits)@),
            texts == lines.deep_view(),
            controls_view(all@) == controls(),
            area.y + lines.len() <= u16::MAX,
            forall|i: int|
                0 <= i < lines.len() ==> area.x + (#[trigger] lines[i])@.len() <= u16::MAX,
            hits_view(hits@) == start + row_hits(texts.take(row as int), area),
        decreases lines.len() - row,
    {
        let ghost above = hits_view(hits@);
        let ghost model = controls();
        let mut i: usize = 0;
        proof {
            assert(all.len() == controls().len());
            assert(above + line_hits(texts[row as int], model.take(0), area.x as int, area.y + row)
                =~= above);
        }
        while i < all.len()
            invariant
                i <= all.len(),
                row < lines.len(),
                texts == lines.deep_view(),
                model == controls(),
                controls_view(all@) == model,
                all.len() == model.len(),
                area.y + lines.len() <= u16::MAX,
                forall|i: int|
                    0 <= i < lines.len() ==> area.x + (#[trigger] lines[i])@.len() <= u16::MAX,
                hits_view(hits@) == above + line_hits(
                    texts[row as int],
                    model.take(i as int),
                    area.x as int,
                    area.y + row,
                ),
            decreases all.len() - i,
        {
            proof {
                assert(model.take(i + 1).drop_last() =~= model.take(i as int));
                assert(controls_view(all@)[i as int] == (all[i as int].0@, all[i as int].1));
            }
            proof {
                lemma_occurrence(lines[row as int]@, all[i as int].0@, 0);
            }
            add_label_hit(
                hits,
                lines[row].as_str(),
                all[i].0,
                all[i].1,
                area.x,
                area.y + row as u16,
            );
            i += 1;
            proof {
                assert(hits_view(hits@) =~= above + line_hits(
                    texts[row as int],
                    model.take(i as int),
                    area.x as int,
                    area.y + row,
                ));
            }
        }
        proof {
            assert(model.take(i as int) =~= model);
            assert(texts.take(row + 1).drop_last() =~= texts.take(row as int));
            assert(hits_view(hits@) =~= start + row_hits(texts.take(row + 1), area));
        }
        row += 1;
    }
    proof {
        assert(texts.take(row as int) =~= texts);
    }
}

proof fn lemma_wrapped_fit(controls: Seq<(Seq<char>, KeyEvent)>, width: int)
    requires
        forall|j: int| 0 <= j < controls.len() ==> (#[trigger] controls[j]).0.len() <= width,
        width >= 0,
    ensures
        wrapped(controls, width).1.len() <= width,
        forall|i: int|
            0 <= i < wrapped(controls, width).0.len() ==> (#[trigger] wrapped(
                controls,
                width,
            ).0[i]).len() <= width,
    decreases controls.len(),
{
    reveal_strlit("  ");
    if controls.len() > 0 {
        let shorter = controls.drop_last();
        assert forall|j: int| 0 <= j < shorter.len() implies (#[trigger] shorter[j]).0.len()
            <= width by {
            assert(shorter[j] == controls[j]);
        }
        lemma_wrapped_fit(shorter, width);
        assert(controls[controls.len() - 1].0.len() <= width);
    }
}

/// No row of labels is wider than the screen, if only the screen is as wide as a label.
pub proof fn law_shortcuts_fit(width: int)
    requires
        width >= 19,
    ensures
        forall|i: int|
            0 <= i < shortcut_rows(width).len() ==> (#[trigger] shortcut_rows(width)[i]).len()
                <= width,
{
    lemma_labels();
    lemma_wrapped_fit(controls(), width);
}

/// Whether a label stands in a line.
pub open spec fn stands_in(line: Seq<char>, label: Seq<char>) -> bool {
    exists|p: int| text::stands_at(line, label, p)
}

/// Whether a label stands in one of some rows.
pub open spec fn in_some_row(rows: Seq<Seq<char>>, label: Seq<char>) -> bool {
    exists|j: int| 0 <= j < rows.len() && stands_in(#[trigger] rows[j], label)
}

/// A label that stands in a line stands in a longer one too.
proof fn lemma_stands_longer(line: Seq<char>, more: Seq<char>, label: Seq<char>)
    requires
        stands_in(line, label),
    ensures
        stands_in(line + more, label),
{
    let p = choose|p: int| text::stands_at(line, label, p);
    assert((line + more).subrange(p, p + label.len()) =~= line.subrange(p, p + label.len()));
    assert(text::stands_at(line + more, label, p));
}

proof fn lemma_labels_wrapped(controls: Seq<(Seq<char>, KeyEvent)>, width: int, k: int)
    requires
        0 <= k < controls.len(),
        forall|j: int| 0 <= j < controls.len() ==> (#[trigger] controls[j]).0.len() > 0,
    ensures
        ({
            let (rows, row) = wrapped(controls, width);
            &&& row.len() > 0
            &&& in_some_row(rows, controls[k].0) || stands_in(row, controls[k].0)
        }),
    decreases controls.len(),
{
    let shorter = controls.drop_last();
    let (rows, row) = wrapped(shorter, width);
    let (after, line) = wrapped(controls, width);
    let label = controls.last().0;
    assert(controls[controls.len() - 1].0.len() > 0);
    let asked = controls[k].0;
    if k < shorter.len() {
        assert forall|j: int| 0 <= j < shorter.len() implies (#[trigger] shorter[j]).0.len() > 0 by {
            assert(shorter[j] == controls[j]);
        }
        assert(shorter[k] == controls[k]);
        lemma_labels_wrapped(shorter, width, k);
        if row.len() + 2 + label.len() > width {
            assert(after == rows.push(row));
            if in_some_row(rows, asked) {
                let j = choose|j: int| 0 <= j < rows.len() && stands_in(#[trigger] rows[j], asked);
                assert(after[j] == rows[j]);
            } else {
                assert(after[rows.len() as int] == row);
            }
        } else if stands_in(row, asked) {
            lemma_stands_longer(row, "  "@ + label, asked);
            assert(row + ("  "@ + label) =~= row + "  "@ + label);
        }
    } else {
        let p = line.len() - label.len();
        assert(line.subrange(p, p + label.len()) =~= label);
        assert(text::stands_at(line, label, p));
    }
}

/// Whatever is said of keys stands in the rows, however wide they are.
pub proof fn law_every_label_is_shown(width: int, k: int)
    requires
        0 <= k < controls().len(),
    ensures
        in_some_row(shortcut_rows(width), controls()[k].0),
{
    lemma_labels();
    lemma_labels_wrapped(controls(), width, k);
    let (rows, row) = wrapped(controls(), width);
    let label = controls()[k].0;
    let all = shortcut_rows(width);
    assert(all == rows.push(row));
    if in_some_row(rows, label) {
        let j = choose|j: int| 0 <= j < rows.len() && stands_in(#[trigger] rows[j], label);
        assert(all[j] == rows[j]);
    } else {
        assert(all[rows.len() as int] == row);
    }
}

/// A click on a label stands for its key, where the label stands first in its line.
pub proof fn law_labels_can_be_clicked(
    line: Seq<char>,
    control: (Seq<char>, KeyEvent),
    x: int,
    y: int,
    start: int,
)
    requires
        text::stands_at(line, control.0, start),
        forall|p: int| 0 <= p < start ==> !text::stands_at(line, control.0, p),
    ensures
        label_hit(line, control, x, y) == seq![
            (
                rect(x + start, y, control.0.len() as int, 1),
                Hit::<Seq<char>>::Key(control.1),
            ),
        ],
{
    lemma_first_occurrence(line, control.0, 0, start);
}

proof fn lemma_first_occurrence(line: Seq<char>, label: Seq<char>, from: int, start: int)
    requires
        0 <= from <= start,
        text::stands_at(line, label, start),
        forall|p: int| 0 <= p < start ==> !text::stands_at(line, label, p),
    ensures
        occurrence(line, label, from) == Some(start),
    decreases start - from,
{
    if from < start {
        assert(!text::stands_at(line, label, from));
        lemma_first_occurrence(line, label, from + 1, start);
    }
}

} // verus!
