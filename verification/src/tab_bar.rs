//! The row of tabs at the top of the screen.
use crate::geometry::{least, less, rect, right_of, smaller, whole, Rect};
use crate::input::{add_hit, hits_view, pressed, Hit, Hits, KeyCode, KeyEvent};
use crate::model::{State, StateModel};
use crate::tab_menu;
use crate::tab_menu::title_of;
use vstd::prelude::*;

verus! {

/// A tab in the row.
#[derive(Debug)]
#[verifier::ext_equal]
pub struct TabLabel<S = String> {
    pub area: Rect,
    pub text: S,
    pub index: usize,
}

impl DeepView for TabLabel {
    type V = TabLabel<Seq<char>>;

    open spec fn deep_view(&self) -> TabLabel<Seq<char>> {
        TabLabel { area: self.area, text: self.text@, index: self.index }
    }
}

/// The row: where a tab is made, where one is opened again, the tabs that are shown, and where
/// there are more before and after them.
#[derive(Debug)]
pub struct TabBar {
    pub plus: Rect,
    pub reopen: Option<Rect>,
    pub before: Option<Rect>,
    pub tabs: Vec<TabLabel>,
    pub after: Option<Rect>,
}

/// The row as contracts see it.
#[verifier::ext_equal]
pub struct TabBarModel {
    pub plus: Rect,
    pub reopen: Option<Rect>,
    pub before: Option<Rect>,
    pub tabs: Seq<TabLabel<Seq<char>>>,
    pub after: Option<Rect>,
}

impl DeepView for TabBar {
    type V = TabBarModel;

    open spec fn deep_view(&self) -> TabBarModel {
        TabBarModel {
            plus: self.plus,
            reopen: self.reopen,
            before: self.before,
            tabs: self.tabs.deep_view(),
            after: self.after,
        }
    }
}

/// The name of a tab, cut where it is long.
pub open spec fn short_name(name: Seq<char>) -> Seq<char> {
    if name.len() > 18 {
        name.take(17) + "…"@
    } else {
        name
    }
}

/// The names of all tabs, cut where they are long.
pub open spec fn labels_of(state: StateModel) -> Seq<Seq<char>> {
    Seq::new(state.tabs.len(), |i: int| short_name(title_of(state, i)))
}

/// How wide the tabs from one to another are, that one not counted.
pub open spec fn span(labels: Seq<Seq<char>>, from: int, to: int) -> int
    decreases to - from,
{
    if from >= to {
        0
    } else {
        span(labels, from, to - 1) + labels[to - 1].len() + 2
    }
}

/// The first tab that is shown: the earliest one from which the selected one is still in sight.
pub open spec fn first_shown(
    labels: Seq<Seq<char>>,
    start: int,
    tab: int,
    available: int,
) -> int
    decreases tab - start,
{
    if start < tab && span(labels, start, tab + 1) > available {
        first_shown(labels, start + 1, tab, available)
    } else {
        start
    }
}

/// A tab with space around its name.
pub open spec fn spaced(label: Seq<char>) -> Seq<char> {
    " "@ + label + " "@
}

/// The tabs from one on, side by side as far as there is room.
pub open spec fn tabs_from(
    labels: Seq<Seq<char>>,
    index: int,
    x: int,
    y: int,
    limit: int,
) -> Seq<TabLabel<Seq<char>>>
    decreases labels.len() - index,
{
    if index >= labels.len() || x + labels[index].len() + 2 > limit {
        Seq::empty()
    } else {
        let width = labels[index].len() + 2;
        seq![
            TabLabel {
                area: rect(x, y, width as int, 1),
                text: spaced(labels[index]),
                index: index as usize,
            },
        ] + tabs_from(labels, index + 1, x + width, y, limit)
    }
}

/// Whether there are more tabs than there is room for.
pub open spec fn cut_off(labels: Seq<Seq<char>>, index: int, x: int, limit: int) -> bool
    decreases labels.len() - index,
{
    if index >= labels.len() {
        false
    } else if x + labels[index].len() + 2 > limit {
        true
    } else {
        cut_off(labels, index + 1, x + labels[index].len() + 2, limit)
    }
}

/// The row of tabs, with one of them selected.
pub open spec fn tab_row(state: StateModel, tab: int, area: Rect) -> TabBarModel {
    let labels = labels_of(state);
    let wide = less(area.width as int, 4);
    let closed = state.closed_tabs.len() > 0;
    let remaining = if closed {
        less(wide, 12)
    } else {
        wide
    };
    let right = area.x + remaining;
    let start = first_shown(labels, 0, tab, less(remaining, 6));
    let x = if start > 0 {
        area.x + 2
    } else {
        area.x as int
    };
    TabBarModel {
        plus: rect(less(right_of(area), 3), area.y as int, 3, 1),
        reopen: if closed {
            Some(rect(area.x + less(wide, 11), area.y as int, least(11, wide), 1))
        } else {
            None
        },
        before: if start > 0 {
            Some(rect(area.x as int, area.y as int, 2, 1))
        } else {
            None
        },
        tabs: tabs_from(labels, start, x, area.y as int, less(right, 2)),
        after: if cut_off(labels, start, x, less(right, 2)) {
            Some(rect(less(right, 2), area.y as int, 2, 1))
        } else {
            None
        },
    }
}

/// A place that may be missing, and the key that a click on it stands for.
pub open spec fn key_hit(area: Option<Rect>, code: KeyCode) -> Hits {
    match area {
        Some(area) => seq![(area, Hit::Key(pressed(code)))],
        None => Seq::empty(),
    }
}

/// What clicks on the row stand for.
pub open spec fn tab_hits(bar: TabBarModel) -> Hits {
    key_hit(Some(bar.plus), KeyCode::Char('+')) + key_hit(bar.reopen, KeyCode::Char('t')) + key_hit(
        bar.before,
        KeyCode::Char('['),
    ) + Seq::new(
        bar.tabs.len(),
        |i: int| (bar.tabs[i].area, Hit::<Seq<char>>::Tab(bar.tabs[i].index)),
    ) + key_hit(bar.after, KeyCode::Char(']'))
}

fn short(name: &str) -> (label: String)
    ensures
        label@ == short_name(name@),
        label@.len() <= 18,
{
    proof {
        reveal_strlit("…");
    }
    if name.unicode_len() > 18 {
        let mut label = name.substring_char(0, 17).to_owned();
        label.append("…");
        proof {
            assert(name@.subrange(0, 17) =~= name@.take(17));
        }
        label
    } else {
        name.to_owned()
    }
}

fn all_labels(state: &State) -> (labels: Vec<String>)
    ensures
        labels.deep_view() == labels_of(state.deep_view()),
        forall|i: int| 0 <= i < labels.len() ==> (#[trigger] labels[i])@.len() <= 18,
{
    let mut labels: Vec<String> = Vec::new();
    let mut i: usize = 0;
    while i < state.tabs.len()
        invariant
            i <= state.tabs.len(),
            labels.len() == i,
            forall|j: int|
                0 <= j < i ==> (#[trigger] labels[j])@ == short_name(title_of(state.deep_view(), j))
                    && labels[j]@.len() <= 18,
        decreases state.tabs.len() - i,
    {
        labels.push(short(tab_menu::title(state, i).as_str()));
        i += 1;
    }
    proof {
        assert(labels.deep_view() =~= labels_of(state.deep_view()));
    }
    labels
}

fn span_of(labels: &Vec<String>, from: usize, to: usize) -> (width: usize)
    requires
        from <= to <= labels.len(),
    ensures
        width == least(
            span(labels.deep_view(), from as int, to as int),
            usize::MAX as int,
        ),
        span(labels.deep_view(), from as int, to as int) >= 0,
{
    let mut width: usize = 0;
    let mut i: usize = from;
    while i < to
        invariant
            from <= i <= to <= labels.len(),
            width == least(span(labels.deep_view(), from as int, i as int), usize::MAX as int),
            span(labels.deep_view(), from as int, i as int) >= 0,
        decreases to - i,
    {
        proof {
            assert(labels.deep_view()[i as int] == labels[i as int]@);
        }
        width = width.saturating_add(labels[i].as_str().unicode_len()).saturating_add(2);
        i += 1;
    }
    width
}

fn first_of(labels: &Vec<String>, tab: usize, available: u16) -> (start: usize)
    requires
        tab < labels.len() || tab == 0,
    ensures
        start == first_shown(labels.deep_view(), 0, tab as int, available as int),
        start <= tab,
{
    let mut start: usize = 0;
    while start < tab && span_of(labels, start, tab + 1) > available as usize
        invariant
            start <= tab,
            tab < labels.len() || tab == 0,
            first_shown(labels.deep_view(), 0, tab as int, available as int) == first_shown(
                labels.deep_view(),
                start as int,
                tab as int,
                available as int,
            ),
        decreases tab - start,
    {
        start += 1;
    }
    start
}

impl TabBar {
    /// The row of tabs in an area, with one of them selected.
    pub fn new(state: &State, tab: usize, area: Rect) -> (bar: Self)
        requires
            whole(area),
            area.x + 2 <= u16::MAX,
            tab < state.tabs.len() || tab == 0,
        ensures
            bar.deep_view() == tab_row(state.deep_view(), tab as int, area),
    {
        let labels = all_labels(state);
        let ghost names = labels.deep_view();
        let plus = Rect::new(area.right().saturating_sub(3), area.y, 3, 1);
        let wide: u16 = area.width.saturating_sub(4);
        let mut remaining: u16 = wide;
        let mut reopen: Option<Rect> = None;
        if state.closed_tabs.len() > 0 {
            reopen = Some(
                Rect::new(area.x + wide.saturating_sub(11), area.y, smaller(11, wide), 1),
            );
            remaining = wide.saturating_sub(12);
        }
        let right: u16 = area.x + remaining;
        let limit: u16 = right.saturating_sub(2);
        let start: usize = first_of(&labels, tab, remaining.saturating_sub(6));
        let mut x: u16 = area.x;
        let mut before: Option<Rect> = None;
        if start > 0 {
            before = Some(Rect::new(x, area.y, 2, 1));
            x = x + 2;
        }
        let ghost begin = x as int;
        let ghost whole_row = tabs_from(names, start as int, begin, area.y as int, limit as int);
        let ghost whole_cut = cut_off(names, start as int, begin, limit as int);
        let mut tabs: Vec<TabLabel> = Vec::new();
        let mut after: Option<Rect> = None;
        let mut index: usize = start;
        let mut more = false;
        proof {
            assert(tabs.deep_view() + whole_row =~= whole_row);
        }
        while index < labels.len() && !more
            invariant
                index <= labels.len() || index == start,
                names == labels.deep_view(),
                forall|i: int| 0 <= i < labels.len() ==> (#[trigger] labels[i])@.len() <= 18,
                !more ==> whole_row == tabs.deep_view() + tabs_from(
                    names,
                    index as int,
                    x as int,
                    area.y as int,
                    limit as int,
                ),
                !more ==> whole_cut == cut_off(names, index as int, x as int, limit as int),
                more ==> whole_cut && whole_row == tabs.deep_view(),
                limit == less(right as int, 2),
            decreases
                labels.len() - index + (if more {
                    0int
                } else {
                    1int
                }),
        {
            let width: u16 = labels[index].as_str().unicode_len() as u16 + 2;
            let ghost shown = tabs.deep_view();
            proof {
                assert(names[index as int] == labels[index as int]@);
            }
            if x as u32 + width as u32 > limit as u32 {
                more = true;
                proof {
                    assert(whole_row =~= shown);
                }
            } else {
                let mut words = " ".to_owned();
                words.append(labels[index].as_str());
                words.append(" ");
                let label = TabLabel { area: Rect::new(x, area.y, width, 1), text: words, index };
                let ghost one = label.deep_view();
                tabs.push(label);
                proof {
                    assert(tabs.deep_view() =~= shown.push(one));
                    assert(whole_row =~= tabs.deep_view() + tabs_from(
                        names,
                        index + 1,
                        x + width,
                        area.y as int,
                        limit as int,
                    ));
                }
                x = x + width;
                index += 1;
            }
        }
        proof {
            assert(whole_row =~= tabs.deep_view());
            assert(more == whole_cut);
        }
        if more {
            after = Some(Rect::new(limit, area.y, 2, 1));
        }
        TabBar { plus, reopen, before, tabs, after }
    }

    /// Adds what clicks on the row stand for.
    pub fn add_hits(&self, hits: &mut Vec<(Rect, Hit)>)
        ensures
            hits_view(final(hits)@) == hits_view(old(hits)@) + tab_hits(self.deep_view()),
    {
        let ghost model = self.deep_view();
        let ghost start = hits_view(hits@);
        add_hit(hits, self.plus, Hit::Key(KeyEvent::plain(KeyCode::Char('+'))));
        if let Some(area) = self.reopen {
            add_hit(hits, area, Hit::Key(KeyEvent::plain(KeyCode::Char('t'))));
        }
        if let Some(area) = self.before {
            add_hit(hits, area, Hit::Key(KeyEvent::plain(KeyCode::Char('['))));
        }
        let ghost front = hits_view(hits@);
        let ghost labels: Hits = Seq::new(
            model.tabs.len(),
            |i: int| (model.tabs[i].area, Hit::<Seq<char>>::Tab(model.tabs[i].index)),
        );
        let mut i: usize = 0;
        while i < self.tabs.len()
            invariant
                i <= self.tabs.len(),
                model == self.deep_view(),
                labels == Seq::new(
                    model.tabs.len(),
                    |i: int| (model.tabs[i].area, Hit::<Seq<char>>::Tab(model.tabs[i].index)),
                ),
                hits_view(hits@) == front + labels.take(i as int),
            decreases self.tabs.len() - i,
        {
            proof {
                assert(model.tabs[i as int] == self.tabs[i as int].deep_view());
            }
            add_hit(hits, self.tabs[i].area, Hit::Tab(self.tabs[i].index));
            i += 1;
            proof {
                assert(hits_view(hits@) =~= front + labels.take(i as int));
            }
        }
        proof {
            assert(labels.take(i as int) =~= labels);
        }
        if let Some(area) = self.after {
            add_hit(hits, area, Hit::Key(KeyEvent::plain(KeyCode::Char(']'))));
        }
        proof {
            assert(hits_view(hits@) =~= start + tab_hits(model));
        }
    }
}

proof fn lemma_first_shown(labels: Seq<Seq<char>>, start: int, tab: int, available: int)
    requires
        0 <= start <= tab < labels.len(),
        labels[tab].len() + 2 <= available,
    ensures
        start <= first_shown(labels, start, tab, available) <= tab,
        span(labels, first_shown(labels, start, tab, available), tab + 1) <= available,
    decreases tab - start,
{
    reveal_with_fuel(span, 2);
    if start < tab && span(labels, start, tab + 1) > available {
        lemma_first_shown(labels, start + 1, tab, available);
    }
}

proof fn lemma_span_front(labels: Seq<Seq<char>>, from: int, to: int)
    requires
        0 <= from < to <= labels.len(),
    ensures
        span(labels, from, to) == labels[from].len() + 2 + span(labels, from + 1, to),
        span(labels, from + 1, to) >= 0,
    decreases to - from,
{
    reveal_with_fuel(span, 2);
    if from + 1 < to {
        lemma_span_front(labels, from, to - 1);
    }
}

proof fn lemma_tab_in_sight(
    labels: Seq<Seq<char>>,
    index: int,
    tab: int,
    x: int,
    y: int,
    limit: int,
)
    requires
        0 <= index <= tab < labels.len(),
        x + span(labels, index, tab + 1) <= limit,
    ensures
        tabs_from(labels, index, x, y, limit).len() > tab - index,
        tabs_from(labels, index, x, y, limit)[tab - index].index == tab as usize,
    decreases tab - index,
{
    lemma_span_front(labels, index, tab + 1);
    if index < tab {
        lemma_tab_in_sight(labels, index + 1, tab, x + labels[index].len() + 2, y, limit);
    }
}

/// The selected tab is always in sight, on every screen that is wide enough for the rest.
pub proof fn law_selected_tab_is_shown(state: StateModel, tab: int, area: Rect)
    requires
        0 <= tab < state.tabs.len(),
        area.width >= 42,
    ensures
        exists|k: int|
            0 <= k < tab_row(state, tab, area).tabs.len() && (#[trigger] tab_row(
                state,
                tab,
                area,
            ).tabs[k]).index == tab as usize,
{
    reveal_strlit("…");
    let labels = labels_of(state);
    let wide = less(area.width as int, 4);
    let remaining = if state.closed_tabs.len() > 0 {
        less(wide, 12)
    } else {
        wide
    };
    let right = area.x + remaining;
    assert(labels[tab].len() <= 18);
    lemma_first_shown(labels, 0, tab, less(remaining, 6));
    let start = first_shown(labels, 0, tab, less(remaining, 6));
    let x = if start > 0 {
        area.x + 2
    } else {
        area.x as int
    };
    lemma_tab_in_sight(labels, start, tab, x, area.y as int, less(right, 2));
    assert(tab_row(state, tab, area).tabs[tab - start].index == tab as usize);
}

} // verus!
