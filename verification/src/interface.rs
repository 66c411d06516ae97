//! What the interface remembers between two looks at the recorder, and what it does with keys and
//! with the mouse.
use crate::export::Places;
use crate::geometry::{in_rect, least, less, whole, Rect};
use crate::input::{
    hits_view, pressed, Event, Hit, Hits, KeyCode, KeyEvent, MouseEvent, MouseKind,
};
use crate::model::{Action, Phase, State, StateModel};
use crate::queue::Times;
use crate::search::{first_match, last_match, lemma_is_first, lemma_is_last};
use crate::selection::{has_cell, selected_text, Selection};
use crate::session::tab_with_id;
use crate::settings_ui;
use crate::settings_ui::SettingsView;
use crate::tab_menu;
use crate::tab_menu::TabMenu;
use crate::text;
use crate::text::byte_len;
use vstd::prelude::*;

verus! {

/// What the interface remembers. Times are counted in nanoseconds from some moment on.
#[derive(Debug)]
pub struct Interface {
    pub settings: Option<SettingsView>,
    pub tab_menu: Option<TabMenu>,
    pub hits: Vec<(Rect, Hit)>,
    pub tab: usize,
    pub transcript_area: Rect,
    pub selection: Option<Selection>,
    pub text_cells: Vec<Vec<String>>,
    pub copies: u64,
    pub copied_until: Option<i64>,
    pub scroll: u16,
    pub confirm: bool,
    pub microphone: Option<usize>,
    pub levels: Vec<u64>,
    pub sampled_at: i64,
    pub welcome_started: Option<i64>,
    pub completed: Times,
}

/// What the interface remembers, as contracts see it.
#[verifier::ext_equal]
pub struct InterfaceModel {
    pub settings: Option<SettingsView<Seq<char>>>,
    pub tab_menu: Option<TabMenu<Seq<char>>>,
    pub hits: Hits,
    pub tab: usize,
    pub transcript_area: Rect,
    pub selection: Option<Selection>,
    pub text_cells: Seq<Seq<Seq<char>>>,
    pub copies: u64,
    pub copied_until: Option<i64>,
    pub scroll: u16,
    pub confirm: bool,
    pub microphone: Option<usize>,
    pub levels: Seq<u64>,
    pub sampled_at: i64,
    pub welcome_started: Option<i64>,
    pub completed: Map<Seq<char>, Option<i64>>,
}

impl DeepView for Interface {
    type V = InterfaceModel;

    open spec fn deep_view(&self) -> InterfaceModel {
        InterfaceModel {
            settings: self.settings.deep_view(),
            tab_menu: self.tab_menu.deep_view(),
            hits: hits_view(self.hits@),
            tab: self.tab,
            transcript_area: self.transcript_area,
            selection: self.selection,
            text_cells: self.text_cells.deep_view(),
            copies: self.copies,
            copied_until: self.copied_until,
            scroll: self.scroll,
            confirm: self.confirm,
            microphone: self.microphone,
            levels: self.levels@,
            sampled_at: self.sampled_at,
            welcome_started: self.welcome_started,
            completed: self.completed@,
        }
    }
}

/// What the interface remembers at first.
pub open spec fn fresh_view(now: i64) -> InterfaceModel {
    InterfaceModel {
        settings: None,
        tab_menu: None,
        hits: Seq::empty(),
        tab: 0,
        transcript_area: Rect { x: 0, y: 0, width: 0, height: 0 },
        selection: None,
        text_cells: Seq::empty(),
        copies: 0,
        copied_until: None,
        scroll: 0,
        confirm: false,
        microphone: None,
        levels: Seq::empty(),
        sampled_at: now,
        welcome_started: None,
        completed: Map::empty(),
    }
}

/// How long it is said that something was copied.
pub const COPIED: i64 = 2_000_000_000;

/// How often the level is sampled.
pub const SAMPLING: i64 = 80_000_000;

/// How many samples are remembered.
pub const SAMPLES: usize = 160;

/// Whether the recorder has nothing to show and nothing to do.
pub open spec fn welcoming(state: StateModel) -> bool {
    state.transcript.len() == 0 && state.phase != Phase::Recording && state.phase
        != Phase::Transcribing
}

/// The place of the selected tab, or the first place.
pub open spec fn selected_place(state: StateModel) -> usize {
    match first_match(state.tabs, tab_with_id(state.selected_tab)) {
        Some(i) => i as usize,
        None => 0,
    }
}

/// The samples with one more, the oldest left out where there are too many.
pub open spec fn sampled(levels: Seq<u64>, level: u64) -> Seq<u64> {
    let more = levels.push(level);
    if more.len() > SAMPLES {
        more.drop_first()
    } else {
        more
    }
}

/// What the interface remembers after a look at the recorder. `level` is the height of the
/// microphone's peak, and counts only while a recording runs.
pub open spec fn observed(
    view: InterfaceModel,
    state: StateModel,
    copies: u64,
    level: u64,
    now: i64,
) -> InterfaceModel {
    let due = now - view.sampled_at >= SAMPLING;
    InterfaceModel {
        welcome_started: if welcoming(state) {
            match view.welcome_started {
                Some(time) => Some(time),
                None => Some(now),
            }
        } else {
            None
        },
        copies,
        copied_until: if copies != view.copies {
            Some((now + COPIED) as i64)
        } else {
            view.copied_until
        },
        levels: if due {
            sampled(
                view.levels,
                if state.phase == Phase::Recording {
                    level
                } else {
                    0
                },
            )
        } else {
            view.levels
        },
        sampled_at: if due {
            now
        } else {
            view.sampled_at
        },
        tab: selected_place(state),
        ..view
    }
}

/// How long to wait for a key, in milliseconds: less while the welcome is being drawn.
pub open spec fn patience(view: InterfaceModel, now: i64) -> u64 {
    match view.welcome_started {
        Some(start) => if now - start < 2_000_000_000 {
            32
        } else {
            80
        },
        None => 80,
    }
}

/// What the interface remembers, what it asks the recorder for, and whether it ends.
pub type Turn = (InterfaceModel, Option<Action<Seq<char>>>, bool);

/// Whether the tab that is shown is there, or there is none at all.
pub open spec fn tab_is_there(view: InterfaceModel, state: StateModel) -> bool {
    view.tab < state.tabs.len() || view.tab == 0
}

/// Whether the text that was drawn lies on the screen.
pub open spec fn cells_are_there(area: Rect, cells: Seq<Seq<Seq<char>>>) -> bool {
    &&& area.y + cells.len() <= u16::MAX + 1
    &&& forall|i: int|
        0 <= i < cells.len() ==> area.x + (#[trigger] cells[i]).len() <= u16::MAX + 1
}

/// Whether a view can take what a user does, whatever tab it shows.
pub open spec fn holds(view: InterfaceModel) -> bool {
    &&& view.settings matches Some(settings) ==> settings_ui::in_order(settings)
    &&& view.selection is Some ==> has_cell(view.transcript_area)
    &&& cells_are_there(view.transcript_area, view.text_cells)
}

/// Whether a view can take what a user does.
pub open spec fn ready(view: InterfaceModel, state: StateModel) -> bool {
    holds(view) && tab_is_there(view, state)
}

/// Whether a microphone has a name, as a question.
pub open spec fn called(device: Seq<char>) -> spec_fn(Seq<char>) -> bool {
    |name: Seq<char>| name == device
}

/// The place of the chosen microphone in the list, which begins with the system's.
pub open spec fn microphone_place(state: StateModel) -> int {
    match state.selected_device {
        Some(device) => match first_match(state.devices, called(device)) {
            Some(i) => i + 1,
            None => 0,
        },
        None => 0,
    }
}

/// The microphone at a place of the list, or the system's.
pub open spec fn microphone_at(state: StateModel, index: int) -> Option<Seq<char>> {
    if 0 < index <= state.devices.len() {
        Some(state.devices[index - 1])
    } else {
        None
    }
}

/// What comes of an answer of the settings dialog.
pub open spec fn settings_answered(
    view: InterfaceModel,
    state: StateModel,
    answer: settings_ui::Answer,
) -> Turn {
    let (settings, close, action) = answer;
    (
        InterfaceModel {
            settings: if close {
                None
            } else {
                Some(settings)
            },
            microphone: if action matches Some(action) && action is Devices {
                Some(microphone_place(state) as usize)
            } else {
                view.microphone
            },
            ..view
        },
        action,
        false,
    )
}

/// What comes of an answer of a tab's menu.
pub open spec fn menu_answered(view: InterfaceModel, answer: tab_menu::Answer) -> Turn {
    let (menu, close, action) = answer;
    (
        InterfaceModel {
            tab_menu: if close {
                None
            } else {
                Some(menu)
            },
            ..view
        },
        action,
        false,
    )
}

/// Whether a cell lies in some place, as a question.
pub open spec fn holding(x: u16, y: u16) -> spec_fn((Rect, Hit<Seq<char>>)) -> bool {
    |hit: (Rect, Hit<Seq<char>>)| in_rect(hit.0, x as int, y as int)
}

/// What a click on a cell stands for: what was drawn last counts.
pub open spec fn hit_at(hits: Hits, x: u16, y: u16) -> Option<Hit<Seq<char>>> {
    match last_match(hits, holding(x, y)) {
        Some(i) => Some(hits[i].1),
        None => None,
    }
}

/// The tab at a place, to be selected.
pub open spec fn selecting(state: StateModel, tab: int) -> Option<Action<Seq<char>>> {
    if 0 <= tab < state.tabs.len() {
        Some(Action::SelectTab(state.tabs[tab].id))
    } else {
        None
    }
}

/// What comes of a key while a microphone is chosen.
pub open spec fn picking(view: InterfaceModel, state: StateModel, index: usize, code: KeyCode) -> Turn {
    let moved = |to: int| InterfaceModel { microphone: Some(to as usize), ..view };
    let closed = InterfaceModel { microphone: None, ..view };
    match code {
        KeyCode::Esc => (closed, None, false),
        KeyCode::Up => (moved(less(index as int, 1)), None, false),
        KeyCode::Down => (moved(least(index + 1, state.devices.len() as int)), None, false),
        KeyCode::Enter => (
            closed,
            Some(Action::SelectDevice(microphone_at(state, index as int))),
            false,
        ),
        KeyCode::Char(c) => if c == 'm' {
            (closed, None, false)
        } else if c == 'k' {
            (moved(less(index as int, 1)), None, false)
        } else if c == 'j' {
            (moved(least(index + 1, state.devices.len() as int)), None, false)
        } else {
            (view, None, false)
        },
        _ => (view, None, false),
    }
}

/// The view with the next tab shown.
pub open spec fn next_tab(view: InterfaceModel, state: StateModel) -> InterfaceModel {
    let count = if state.tabs.len() == 0 {
        1
    } else {
        state.tabs.len() as int
    };
    InterfaceModel { tab: ((view.tab + 1) % count) as usize, scroll: 0, ..view }
}

/// The view with the tab before shown.
pub open spec fn previous_tab(view: InterfaceModel, state: StateModel) -> InterfaceModel {
    InterfaceModel {
        tab: (if view.tab == 0 {
            less(state.tabs.len() as int, 1)
        } else {
            view.tab - 1
        }) as usize,
        scroll: 0,
        ..view
    }
}

/// The view scrolled down by a line.
pub open spec fn scrolled_down(view: InterfaceModel, state: StateModel) -> InterfaceModel {
    InterfaceModel {
        scroll: least(
            least(view.scroll + 1, u16::MAX as int),
            least(byte_len(state.transcript) as int, u16::MAX as int),
        ) as u16,
        ..view
    }
}

/// The view scrolled up by a line.
pub open spec fn scrolled_up(view: InterfaceModel) -> InterfaceModel {
    InterfaceModel { scroll: less(view.scroll as int, 1) as u16, ..view }
}

/// What comes of a character, where no dialog is open.
pub open spec fn lettered(
    view: InterfaceModel,
    state: StateModel,
    c: char,
    control: bool,
    places: Places<Seq<char>>,
) -> (InterfaceModel, Option<Action<Seq<char>>>) {
    if c == 'e' && state.tabs.len() > 0 {
        (
            InterfaceModel {
                tab_menu: Some(
                    tab_menu::for_export(
                        tab_menu::menu_of(state, view.tab as int, (0, 0), false),
                        places,
                    ),
                ),
                ..view
            },
            None,
        )
    } else if c == 't' {
        (view, Some(Action::ReopenTab))
    } else if c == '+' {
        (InterfaceModel { tab_menu: Some(tab_menu::blank_menu()), ..view }, None)
    } else if c == ']' {
        (next_tab(view, state), selecting(state, next_tab(view, state).tab as int))
    } else if c == '[' {
        (previous_tab(view, state), selecting(state, previous_tab(view, state).tab as int))
    } else if c == 's' {
        (
            InterfaceModel {
                settings: Some(
                    SettingsView {
                        settings: state.backend,
                        selected: 0,
                        editing: false,
                        key: Seq::empty(),
                        key_changed: false,
                    },
                ),
                ..view
            },
            None,
        )
    } else if c == ' ' {
        (view, Some(Action::Toggle))
    } else if c == 'c' {
        (
            view,
            Some(
                if control {
                    Action::CopyLatest
                } else {
                    Action::Copy
                },
            ),
        )
    } else if c == 'x' {
        if view.confirm {
            (InterfaceModel { scroll: 0, ..view }, Some(Action::Clear))
        } else {
            (InterfaceModel { confirm: true, ..view }, None)
        }
    } else if c == 'j' {
        (scrolled_down(view, state), None)
    } else if c == 'k' {
        (scrolled_up(view), None)
    } else {
        (view, None)
    }
}

/// What comes of a key, where no dialog is open.
pub open spec fn commanded(
    view: InterfaceModel,
    state: StateModel,
    key: KeyEvent,
    places: Places<Seq<char>>,
) -> (InterfaceModel, Option<Action<Seq<char>>>) {
    match key.code {
        KeyCode::Char(c) => lettered(view, state, c, key.control, places),
        KeyCode::F(n) => if n == 2 && state.tabs.len() > 0 {
            (
                InterfaceModel {
                    tab_menu: Some(tab_menu::menu_of(state, view.tab as int, (0, 0), true)),
                    ..view
                },
                None,
            )
        } else {
            (view, None)
        },
        KeyCode::Tab => (
            next_tab(view, state),
            selecting(state, next_tab(view, state).tab as int),
        ),
        KeyCode::BackTab => (
            previous_tab(view, state),
            selecting(state, previous_tab(view, state).tab as int),
        ),
        KeyCode::Esc => if view.confirm {
            (view, None)
        } else {
            (view, Some(Action::Cancel))
        },
        KeyCode::Down => (scrolled_down(view, state), None),
        KeyCode::Up => (scrolled_up(view), None),
        KeyCode::Home => (InterfaceModel { scroll: 0, ..view }, None),
        _ => (view, None),
    }
}

/// Clearing is asked for twice: any other key takes the question back.
pub open spec fn settled(
    outcome: (InterfaceModel, Option<Action<Seq<char>>>),
    code: KeyCode,
) -> Turn {
    let (view, action) = outcome;
    (
        InterfaceModel {
            confirm: if action is Some || code != KeyCode::Char('x') {
                false
            } else {
                view.confirm
            },
            ..view
        },
        action,
        false,
    )
}

/// What comes of a key.
pub open spec fn keyed(
    view: InterfaceModel,
    state: StateModel,
    key: KeyEvent,
    places: Places<Seq<char>>,
) -> Turn {
    if !key.press {
        (view, None, false)
    } else {
        let view = InterfaceModel { selection: None, ..view };
        if view.microphone is None && view.settings is Some {
            settings_answered(view, state, settings_ui::keyed(view.settings->0, key))
        } else {
            match view.microphone {
                Some(index) => picking(view, state, index, key.code),
                None => if key.code == KeyCode::Char('q') {
                    (view, None, true)
                } else {
                    settled(commanded(view, state, key, places), key.code)
                },
            }
        }
    }
}

/// What comes of a click that marks no text. While the list of microphones is open, a click on a
/// tab, on a chunk or on nothing closes it. A click on what stands for a key is that key, which
/// goes to the list.
pub open spec fn clicked(
    view: InterfaceModel,
    state: StateModel,
    hit: Option<Hit<Seq<char>>>,
    places: Places<Seq<char>>,
) -> Turn {
    let closed = InterfaceModel { microphone: None, ..view };
    match hit {
        Some(Hit::Key(key)) => keyed(view, state, key, places),
        Some(Hit::Microphone(index)) => (
            closed,
            Some(Action::SelectDevice(microphone_at(state, index as int))),
            false,
        ),
        Some(Hit::Tab(tab)) => if view.microphone is Some {
            (closed, None, false)
        } else {
            (
                InterfaceModel { tab, scroll: 0, ..view },
                selecting(state, tab as int),
                false,
            )
        },
        Some(Hit::SelectTab(id)) => if view.microphone is Some {
            (closed, None, false)
        } else {
            (InterfaceModel { scroll: 0, ..view }, Some(Action::SelectTab(id)), false)
        },
        None => (closed, None, false),
    }
}

/// A selection moved to a cell, or to the nearest one in the area.
pub open spec fn dragged(selection: Selection, mouse: MouseEvent, area: Rect) -> Selection {
    Selection {
        anchor: selection.anchor,
        head: (
            crate::geometry::into_range(
                mouse.row as int,
                area.y as int,
                less(crate::geometry::bottom_of(area), 1),
            ) as u16,
            crate::geometry::into_range(
                mouse.column as int,
                area.x as int,
                less(crate::geometry::right_of(area), 1),
            ) as u16,
        ),
    }
}

/// What comes of a mouse, where the settings dialog does not take it.
pub open spec fn moused(
    view: InterfaceModel,
    state: StateModel,
    mouse: MouseEvent,
    places: Places<Seq<char>>,
) -> Turn {
    let free = view.microphone is None;
    let inside = in_rect(view.transcript_area, mouse.column as int, mouse.row as int);
    let unmarked = InterfaceModel { selection: None, ..view };
    match mouse.kind {
        MouseKind::LeftDrag => (
            if free && view.selection is Some {
                InterfaceModel {
                    selection: Some(dragged(view.selection->0, mouse, view.transcript_area)),
                    ..view
                }
            } else {
                view
            },
            None,
            false,
        ),
        MouseKind::LeftUp => (
            view,
            if free && view.selection is Some {
                let text = selected_text(
                    view.selection->0,
                    view.text_cells,
                    view.transcript_area,
                );
                if text.len() > 0 {
                    Some(Action::CopyText(text))
                } else {
                    None
                }
            } else {
                None
            },
            false,
        ),
        MouseKind::RightDown => (
            if free {
                match hit_at(view.hits, mouse.column, mouse.row) {
                    Some(Hit::Tab(tab)) => InterfaceModel {
                        tab_menu: Some(
                            tab_menu::menu_of(
                                state,
                                tab as int,
                                (mouse.column, mouse.row),
                                false,
                            ),
                        ),
                        ..view
                    },
                    _ => view,
                }
            } else {
                view
            },
            None,
            false,
        ),
        MouseKind::ScrollUp => if !free {
            keyed(view, state, pressed(KeyCode::Up), places)
        } else if inside {
            (InterfaceModel { scroll: less(view.scroll as int, 3) as u16, ..unmarked }, None, false)
        } else {
            (view, None, false)
        },
        MouseKind::ScrollDown => if !free {
            keyed(view, state, pressed(KeyCode::Down), places)
        } else if inside {
            (
                InterfaceModel {
                    scroll: least(view.scroll + 3, u16::MAX as int) as u16,
                    ..unmarked
                },
                None,
                false,
            )
        } else {
            (view, None, false)
        },
        MouseKind::LeftDown => if free && state.transcript.len() > 0 && inside {
            (
                InterfaceModel {
                    selection: Some(
                        Selection {
                            anchor: (mouse.row, mouse.column),
                            head: (mouse.row, mouse.column),
                        },
                    ),
                    ..view
                },
                None,
                false,
            )
        } else {
            clicked(unmarked, state, hit_at(view.hits, mouse.column, mouse.row), places)
        },
        MouseKind::Other => (view, None, false),
    }
}

/// What comes of anything a user does: an open menu takes it all, then the list of microphones, if
/// it is open, then open settings.
pub open spec fn turned(
    view: InterfaceModel,
    state: StateModel,
    event: Event<Seq<char>>,
    screen: Rect,
    places: Places<Seq<char>>,
) -> Turn {
    match view.tab_menu {
        Some(menu) => menu_answered(view, tab_menu::answered(menu, event, screen, places)),
        None => match event {
            Event::Paste(text) => (
                if view.microphone is None && view.settings is Some {
                    InterfaceModel {
                        settings: Some(settings_ui::pasted(view.settings->0, text)),
                        ..view
                    }
                } else {
                    view
                },
                None,
                false,
            ),
            Event::Key(key) => keyed(view, state, key, places),
            Event::Mouse(mouse) => if view.microphone is None && view.settings is Some {
                settings_answered(
                    view,
                    state,
                    settings_ui::moused(view.settings->0, mouse, screen),
                )
            } else {
                moused(view, state, mouse, places)
            },
            Event::Other => (view, None, false),
        },
    }
}

/// The place of the chosen microphone in the list, which begins with the system's.
pub fn microphone_index(state: &State) -> (index: usize)
    requires
        state.devices.len() < usize::MAX,
    ensures
        index == microphone_place(state.deep_view()),
        index <= state.devices.len(),
{
    let ghost devices = state.deep_view().devices;
    match &state.selected_device {
        Some(device) => {
            let ghost asked = called(device@);
            let mut i: usize = 0;
            while i < state.devices.len()
                invariant
                    i <= state.devices.len(),
                    devices == state.devices.deep_view(),
                    asked == called(device@),
                    state.devices.len() < usize::MAX,
                    state.deep_view().devices == devices,
                    state.deep_view().selected_device == Some(device@),
                    forall|j: int| 0 <= j < i ==> !asked(#[trigger] devices[j]),
                decreases state.devices.len() - i,
            {
                proof {
                    assert(devices[i as int] == state.devices[i as int]@);
                }
                if text::same(state.devices[i].as_str(), device.as_str()) {
                    proof {
                        lemma_is_first(devices, asked, i as int);
                    }
                    return i + 1;
                }
                i += 1;
            }
            proof {
                crate::search::lemma_no_first(devices, asked);
            }
            0
        },
        None => 0,
    }
}

fn device_at(state: &State, index: usize) -> (device: Option<String>)
    ensures
        device.deep_view() == microphone_at(state.deep_view(), index as int),
{
    if index > 0 && index - 1 < state.devices.len() {
        proof {
            assert(state.deep_view().devices[index - 1] == state.devices[index - 1]@);
        }
        Some(state.devices[index - 1].clone())
    } else {
        None
    }
}

fn select_tab(state: &State, tab: usize) -> (action: Option<Action>)
    ensures
        action.deep_view() == selecting(state.deep_view(), tab as int),
{
    if tab < state.tabs.len() {
        proof {
            assert(state.deep_view().tabs[tab as int] == state.tabs[tab as int].deep_view());
        }
        Some(Action::SelectTab(state.tabs[tab].id.clone()))
    } else {
        None
    }
}

impl Interface {
    /// What the interface remembers at first.
    pub fn new(now: i64) -> (view: Self)
        ensures
            view.deep_view() == fresh_view(now),
    {
        let view = Interface {
            settings: None,
            tab_menu: None,
            hits: Vec::new(),
            tab: 0,
            transcript_area: Rect::new(0, 0, 0, 0),
            selection: None,
            text_cells: Vec::new(),
            copies: 0,
            copied_until: None,
            scroll: 0,
            confirm: false,
            microphone: None,
            levels: Vec::new(),
            sampled_at: now,
            welcome_started: None,
            completed: Times::new(),
        };
        proof {
            assert(hits_view(view.hits@) =~= Seq::empty());
            assert(view.text_cells.deep_view() =~= Seq::empty());
        }
        view
    }

    /// Takes note of what the recorder shows. `level` is the height of the microphone's peak, and
    /// counts only while a recording runs.
    pub fn observe(&mut self, state: &State, copies: u64, level: u64, now: i64)
        requires
            now <= i64::MAX - COPIED,
        ensures
            final(self).deep_view() == observed(
                old(self).deep_view(),
                state.deep_view(),
                copies,
                level,
                now,
            ),
            tab_is_there(final(self).deep_view(), state.deep_view()),
    {
        if state.transcript.as_str().is_empty() && !state.phase.busy() {
            if self.welcome_started.is_none() {
                self.welcome_started = Some(now);
            }
        } else {
            self.welcome_started = None;
        }
        if copies != self.copies {
            self.copies = copies;
            self.copied_until = Some(now + COPIED);
        }
        if now as i128 - self.sampled_at as i128 >= SAMPLING as i128 {
            let level: u64 = if state.phase == Phase::Recording {
                level
            } else {
                0
            };
            self.levels.push(level);
            if self.levels.len() > SAMPLES {
                let ghost more = self.levels@;
                let _ = self.levels.remove(0);
                proof {
                    assert(self.levels@ =~= more.drop_first());
                }
            }
            self.sampled_at = now;
        }
        let ghost tabs = state.deep_view().tabs;
        proof {
            crate::search::lemma_first_match(tabs, tab_with_id(state.selected_tab@));
        }
        self.tab = match crate::session::find_tab(&state.tabs, state.selected_tab.as_str()) {
            Some(i) => i,
            None => 0,
        };
    }

    /// How long to wait for a key, in milliseconds.
    pub fn poll_time(&self, now: i64) -> (millis: u64)
        ensures
            millis == patience(self.deep_view(), now),
    {
        match self.welcome_started {
            Some(start) => if now as i128 - (start as i128) < 2_000_000_000 {
                32
            } else {
                80
            },
            None => 80,
        }
    }

    /// Whether it can take what a user does.
    pub fn is_ready(&self, state: &State) -> (answer: bool)
        ensures
            answer == ready(self.deep_view(), state.deep_view()),
    {
        if let Some(settings) = &self.settings {
            if settings.selected >= settings.fields().len() {
                return false;
            }
        }
        let area = self.transcript_area;
        if self.selection.is_some() {
            if area.y > area.bottom().saturating_sub(1) || area.x > area.right().saturating_sub(1) {
                return false;
            }
        }
        if self.text_cells.len() > 65536 - area.y as usize {
            return false;
        }
        let ghost cells = self.text_cells.deep_view();
        let mut i: usize = 0;
        while i < self.text_cells.len()
            invariant
                i <= self.text_cells.len(),
                area == self.transcript_area,
                cells == self.text_cells.deep_view(),
                forall|j: int| 0 <= j < i ==> area.x + (#[trigger] cells[j]).len() <= 65536,
            decreases self.text_cells.len() - i,
        {
            proof {
                assert(cells[i as int] == self.text_cells[i as int].deep_view());
            }
            if self.text_cells[i].len() > 65536 - area.x as usize {
                return false;
            }
            i += 1;
        }
        self.tab < state.tabs.len() || self.tab == 0
    }

    fn take_settings(&mut self, state: &State, settings: SettingsView, answer: (
        bool,
        Option<Action>,
    )) -> (action: Option<Action>)
        requires
            state.devices.len() < usize::MAX,
        ensures
            (final(self).deep_view(), action.deep_view(), false) == settings_answered(
                old(self).deep_view(),
                state.deep_view(),
                (settings.deep_view(), answer.0, answer.1.deep_view()),
            ),
    {
        let (close, action) = answer;
        if let Some(Action::Devices) = &action {
            self.microphone = Some(microphone_index(state));
        }
        self.settings = if close {
            None
        } else {
            Some(settings)
        };
        action
    }

    fn hit(&self, column: u16, row: u16) -> (hit: Option<Hit>)
        ensures
            hit.deep_view() == hit_at(self.deep_view().hits, column, row),
    {
        let ghost hits = hits_view(self.hits@);
        let ghost asked = holding(column, row);
        let mut i: usize = self.hits.len();
        while i > 0
            invariant
                i <= self.hits.len(),
                hits == hits_view(self.hits@),
                asked == holding(column, row),
                forall|j: int| i <= j < hits.len() ==> !asked(#[trigger] hits[j]),
            decreases i,
        {
            i -= 1;
            proof {
                assert(hits[i as int] == (self.hits[i as int].0, self.hits[i as int].1.deep_view()));
            }
            if self.hits[i].0.contains(column, row) {
                proof {
                    lemma_is_last(hits, asked, i as int);
                }
                return Some(self.hits[i].1.clone());
            }
        }
        proof {
            crate::search::lemma_last_match(hits, asked);
        }
        None
    }

    fn pick(&mut self, state: &State, index: usize, code: KeyCode) -> (action: Option<Action>)
        ensures
            (final(self).deep_view(), action.deep_view(), false) == picking(
                old(self).deep_view(),
                state.deep_view(),
                index,
                code,
            ),
    {
        let down: usize = if index < state.devices.len() {
            index + 1
        } else {
            state.devices.len()
        };
        let up: usize = index.saturating_sub(1);
        match code {
            KeyCode::Esc => {
                self.microphone = None;
                None
            },
            KeyCode::Up => {
                self.microphone = Some(up);
                None
            },
            KeyCode::Down => {
                self.microphone = Some(down);
                None
            },
            KeyCode::Enter => {
                self.microphone = None;
                Some(Action::SelectDevice(device_at(state, index)))
            },
            KeyCode::Char(c) => {
                if c == 'm' {
                    self.microphone = None;
                } else if c == 'k' {
                    self.microphone = Some(up);
                } else if c == 'j' {
                    self.microphone = Some(down);
                }
                None
            },
            _ => None,
        }
    }

    fn show_next(&mut self, state: &State) -> (action: Option<Action>)
        requires
            tab_is_there(old(self).deep_view(), state.deep_view()),
        ensures
            final(self).deep_view() == next_tab(old(self).deep_view(), state.deep_view()),
            action.deep_view() == selecting(state.deep_view(), final(self).tab as int),
            tab_is_there(final(self).deep_view(), state.deep_view()),
    {
        let count: usize = if state.tabs.len() == 0 {
            1
        } else {
            state.tabs.len()
        };
        self.tab = (self.tab + 1) % count;
        self.scroll = 0;
        select_tab(state, self.tab)
    }

    fn show_previous(&mut self, state: &State) -> (action: Option<Action>)
        requires
            tab_is_there(old(self).deep_view(), state.deep_view()),
        ensures
            final(self).deep_view() == previous_tab(old(self).deep_view(), state.deep_view()),
            action.deep_view() == selecting(state.deep_view(), final(self).tab as int),
            tab_is_there(final(self).deep_view(), state.deep_view()),
    {
        self.tab = if self.tab == 0 {
            state.tabs.len().saturating_sub(1)
        } else {
            self.tab - 1
        };
        self.scroll = 0;
        select_tab(state, self.tab)
    }

    fn scroll_down(&mut self, state: &State)
        ensures
            final(self).deep_view() == scrolled_down(old(self).deep_view(), state.deep_view()),
    {
        let length: usize = state.transcript.as_str().len();
        let most: u16 = if length > u16::MAX as usize {
            u16::MAX
        } else {
            length as u16
        };
        let next: u16 = self.scroll.saturating_add(1);
        self.scroll = if next <= most {
            next
        } else {
            most
        };
    }

    fn letter(&mut self, state: &State, c: char, control: bool, places: &Places) -> (action: Option<
        Action,
    >)
        requires
            tab_is_there(old(self).deep_view(), state.deep_view()),
        ensures
            (final(self).deep_view(), action.deep_view()) == lettered(
                old(self).deep_view(),
                state.deep_view(),
                c,
                control,
                places.deep_view(),
            ),
    {
        if c == 'e' && state.tabs.len() > 0 {
            self.tab_menu = Some(TabMenu::export(state, self.tab, places));
            None
        } else if c == 't' {
            Some(Action::ReopenTab)
        } else if c == '+' {
            self.tab_menu = Some(TabMenu::create());
            None
        } else if c == ']' {
            self.show_next(state)
        } else if c == '[' {
            self.show_previous(state)
        } else if c == 's' {
            self.settings = Some(SettingsView::new(state.backend.clone()));
            None
        } else if c == ' ' {
            Some(Action::Toggle)
        } else if c == 'c' {
            if control {
                Some(Action::CopyLatest)
            } else {
                Some(Action::Copy)
            }
        } else if c == 'x' {
            if self.confirm {
                self.scroll = 0;
                Some(Action::Clear)
            } else {
                self.confirm = true;
                None
            }
        } else if c == 'j' {
            self.scroll_down(state);
            None
        } else if c == 'k' {
            self.scroll = self.scroll.saturating_sub(1);
            None
        } else {
            None
        }
    }

    fn command(&mut self, state: &State, key: KeyEvent, places: &Places) -> (action: Option<Action>)
        requires
            tab_is_there(old(self).deep_view(), state.deep_view()),
        ensures
            (final(self).deep_view(), action.deep_view()) == commanded(
                old(self).deep_view(),
                state.deep_view(),
                key,
                places.deep_view(),
            ),
    {
        match key.code {
            KeyCode::Char(c) => self.letter(state, c, key.control, places),
            KeyCode::F(n) => {
                if n == 2 && state.tabs.len() > 0 {
                    self.tab_menu = Some(TabMenu::new(state, self.tab, (0, 0), true));
                }
                None
            },
            KeyCode::Tab => self.show_next(state),
            KeyCode::BackTab => self.show_previous(state),
            KeyCode::Esc => if self.confirm {
                None
            } else {
                Some(Action::Cancel)
            },
            KeyCode::Down => {
                self.scroll_down(state);
                None
            },
            KeyCode::Up => {
                self.scroll = self.scroll.saturating_sub(1);
                None
            },
            KeyCode::Home => {
                self.scroll = 0;
                None
            },
            _ => None,
        }
    }

    fn key(&mut self, state: &State, key: KeyEvent, places: &Places) -> (turn: (
        Option<Action>,
        bool,
    ))
        requires
            ready(old(self).deep_view(), state.deep_view()),
            state.devices.len() < usize::MAX,
        ensures
            (final(self).deep_view(), turn.0.deep_view(), turn.1) == keyed(
                old(self).deep_view(),
                state.deep_view(),
                key,
                places.deep_view(),
            ),
    {
        if !key.press {
            return (None, false);
        }
        self.selection = None;
        if self.microphone.is_none() {
            if let Some(mut settings) = self.settings.take() {
                let answer = settings.key(key);
                return (self.take_settings(state, settings, answer), false);
            }
        }
        if let Some(index) = self.microphone {
            return (self.pick(state, index, key.code), false);
        }
        if key.code == KeyCode::Char('q') {
            return (None, true);
        }
        let action = self.command(state, key, places);
        if action.is_some() || key.code != KeyCode::Char('x') {
            self.confirm = false;
        }
        (action, false)
    }

    fn click(&mut self, state: &State, hit: Option<Hit>, places: &Places) -> (turn: (
        Option<Action>,
        bool,
    ))
        requires
            ready(old(self).deep_view(), state.deep_view()),
            state.devices.len() < usize::MAX,
        ensures
            (final(self).deep_view(), turn.0.deep_view(), turn.1) == clicked(
                old(self).deep_view(),
                state.deep_view(),
                hit.deep_view(),
                places.deep_view(),
            ),
    {
        match hit {
            Some(Hit::Key(key)) => self.key(state, key, places),
            Some(Hit::Microphone(index)) => {
                self.microphone = None;
                (Some(Action::SelectDevice(device_at(state, index))), false)
            },
            Some(Hit::Tab(tab)) => {
                if self.microphone.is_some() {
                    self.microphone = None;
                    return (None, false);
                }
                self.tab = tab;
                self.scroll = 0;
                (select_tab(state, tab), false)
            },
            Some(Hit::SelectTab(id)) => {
                if self.microphone.is_some() {
                    self.microphone = None;
                    return (None, false);
                }
                self.scroll = 0;
                (Some(Action::SelectTab(id)), false)
            },
            None => {
                self.microphone = None;
                (None, false)
            },
        }
    }

    fn mouse(&mut self, state: &State, mouse: MouseEvent, places: &Places) -> (turn: (
        Option<Action>,
        bool,
    ))
        requires
            ready(old(self).deep_view(), state.deep_view()),
            state.devices.len() < usize::MAX,
        ensures
            (final(self).deep_view(), turn.0.deep_view(), turn.1) == moused(
                old(self).deep_view(),
                state.deep_view(),
                mouse,
                places.deep_view(),
            ),
    {
        let free = self.microphone.is_none();
        let inside = self.transcript_area.contains(mouse.column, mouse.row);
        match mouse.kind {
            MouseKind::LeftDrag => {
                if free {
                    if let Some(mut selection) = self.selection {
                        selection.drag(mouse.column, mouse.row, self.transcript_area);
                        self.selection = Some(selection);
                    }
                }
                (None, false)
            },
            MouseKind::LeftUp => {
                if free {
                    if let Some(selection) = self.selection {
                        proof {
                            self.lemma_cells();
                        }
                        let text = selection.text(&self.text_cells, self.transcript_area);
                        if !text.as_str().is_empty() {
                            return (Some(Action::CopyText(text)), false);
                        }
                    }
                }
                (None, false)
            },
            MouseKind::RightDown => {
                if free {
                    if let Some(Hit::Tab(tab)) = self.hit(mouse.column, mouse.row) {
                        self.tab_menu = Some(
                            TabMenu::new(state, tab, (mouse.column, mouse.row), false),
                        );
                    }
                }
                (None, false)
            },
            MouseKind::ScrollUp => {
                if !free {
                    return self.key(state, KeyEvent::plain(KeyCode::Up), places);
                }
                if inside {
                    self.selection = None;
                    self.scroll = self.scroll.saturating_sub(3);
                }
                (None, false)
            },
            MouseKind::ScrollDown => {
                if !free {
                    return self.key(state, KeyEvent::plain(KeyCode::Down), places);
                }
                if inside {
                    self.selection = None;
                    self.scroll = self.scroll.saturating_add(3);
                }
                (None, false)
            },
            MouseKind::LeftDown => {
                if free && !state.transcript.as_str().is_empty() && inside {
                    self.selection = Some(Selection::new(mouse.column, mouse.row));
                    return (None, false);
                }
                self.selection = None;
                let hit = self.hit(mouse.column, mouse.row);
                self.click(state, hit, places)
            },
            MouseKind::Other => (None, false),
        }
    }

    /// What was drawn lies on the screen, line by line.
    proof fn lemma_cells(&self)
        requires
            cells_are_there(self.transcript_area, self.deep_view().text_cells),
        ensures
            self.transcript_area.y + self.text_cells.len() <= u16::MAX + 1,
            forall|i: int|
                0 <= i < self.text_cells.len() ==> self.transcript_area.x + (
                #[trigger] self.text_cells[i]).len() <= u16::MAX + 1,
    {
        let cells = self.deep_view().text_cells;
        assert forall|i: int| 0 <= i < self.text_cells.len() implies self.transcript_area.x + (
        #[trigger] self.text_cells[i]).len() <= u16::MAX + 1 by {
            assert(cells[i] == self.text_cells[i].deep_view());
            assert(cells[i].len() == self.text_cells[i].len());
        }
    }

    /// Takes what a user did: what it asks the recorder for, and whether the interface ends.
    pub fn event(&mut self, state: &State, event: &Event, screen: Rect, places: &Places) -> (turn: (
        Option<Action>,
        bool,
    ))
        requires
            ready(old(self).deep_view(), state.deep_view()),
            state.devices.len() < usize::MAX,
            whole(screen),
        ensures
            (final(self).deep_view(), turn.0.deep_view(), turn.1) == turned(
                old(self).deep_view(),
                state.deep_view(),
                event.deep_view(),
                screen,
                places.deep_view(),
            ),
    {
        if let Some(mut menu) = self.tab_menu.take() {
            let (close, action) = menu.event(event, screen, places);
            self.tab_menu = if close {
                None
            } else {
                Some(menu)
            };
            return (action, false);
        }
        match event {
            Event::Paste(text) => {
                if self.microphone.is_none() {
                    if let Some(mut settings) = self.settings.take() {
                        settings.paste(text.as_str());
                        self.settings = Some(settings);
                    }
                }
                (None, false)
            },
            Event::Key(key) => self.key(state, *key, places),
            Event::Mouse(mouse) => {
                if self.microphone.is_none() {
                    if let Some(mut settings) = self.settings.take() {
                        let answer = settings.mouse(*mouse, screen);
                        return (self.take_settings(state, settings, answer), false);
                    }
                }
                self.mouse(state, *mouse, places)
            },
            Event::Other => (None, false),
        }
    }
}

proof fn lemma_keyed_holds(
    view: InterfaceModel,
    state: StateModel,
    key: KeyEvent,
    places: Places<Seq<char>>,
)
    requires
        holds(view),
    ensures
        holds(keyed(view, state, key, places).0),
{
    if let Some(settings) = view.settings {
        settings_ui::law_choice_stays(
            settings,
            key,
            MouseEvent { kind: MouseKind::Other, column: 0, row: 0 },
            Seq::empty(),
            view.transcript_area,
        );
    }
}

proof fn lemma_moused_holds(
    view: InterfaceModel,
    state: StateModel,
    mouse: MouseEvent,
    places: Places<Seq<char>>,
)
    requires
        holds(view),
    ensures
        holds(moused(view, state, mouse, places).0),
{
    let unmarked = InterfaceModel { selection: None, ..view };
    match mouse.kind {
        MouseKind::ScrollUp => {
            lemma_keyed_holds(view, state, pressed(KeyCode::Up), places);
        },
        MouseKind::ScrollDown => {
            lemma_keyed_holds(view, state, pressed(KeyCode::Down), places);
        },
        MouseKind::LeftDown => {
            if let Some(Hit::Key(key)) = hit_at(view.hits, mouse.column, mouse.row) {
                lemma_keyed_holds(unmarked, state, key, places);
            }
        },
        _ => {},
    }
}

/// A view that can take what a user does can take the next thing too, as soon as it has looked at
/// the recorder again.
pub proof fn law_view_stays_ready(
    view: InterfaceModel,
    state: StateModel,
    event: Event<Seq<char>>,
    screen: Rect,
    places: Places<Seq<char>>,
    later: StateModel,
    copies: u64,
    level: u64,
    now: i64,
)
    requires
        ready(view, state),
        later.tabs.len() <= usize::MAX,
    ensures
        ready(
            observed(turned(view, state, event, screen, places).0, later, copies, level, now),
            later,
        ),
{
    crate::search::lemma_first_match(later.tabs, tab_with_id(later.selected_tab));
    let after = turned(view, state, event, screen, places).0;
    assert(holds(after)) by {
        match event {
            Event::Key(key) => {
                lemma_keyed_holds(view, state, key, places);
            },
            Event::Mouse(mouse) => {
                lemma_moused_holds(view, state, mouse, places);
                if let Some(settings) = view.settings {
                    settings_ui::law_choice_stays(
                        settings,
                        pressed(KeyCode::Other),
                        mouse,
                        Seq::empty(),
                        screen,
                    );
                }
            },
            Event::Paste(text) => {
                if let Some(settings) = view.settings {
                    settings_ui::law_choice_stays(
                        settings,
                        pressed(KeyCode::Other),
                        MouseEvent { kind: MouseKind::Other, column: 0, row: 0 },
                        text,
                        screen,
                    );
                }
            },
            Event::Other => {},
        }
    }
}

/// Nothing is cleared by a single key: clearing comes only where it was asked for just before.
pub proof fn law_clear_is_confirmed(
    view: InterfaceModel,
    state: StateModel,
    event: Event<Seq<char>>,
    screen: Rect,
    places: Places<Seq<char>>,
)
    ensures
        turned(view, state, event, screen, places).1 == Some(Action::<Seq<char>>::Clear)
            ==> view.confirm,
        turned(view, state, event, screen, places).1 is Some && event is Key
            && view.tab_menu is None && view.settings is None && view.microphone is None
            ==> !turned(view, state, event, screen, places).0.confirm,
{
    if let Some(menu) = view.tab_menu {
        tab_menu::law_menu_asks_for_its_tab(menu, event, screen, places);
    }
}

/// While the menu of a tab, the list of microphones or the settings are open, whatever a user does
/// reaches the topmost of them alone. Nothing ends the interface, nothing else of it changes but
/// the marked text, and the recorder is asked for no more than that dialog asks for: a microphone
/// from the list; the microphones, or settings to be saved, from the settings.
pub proof fn law_dialogs_keep_input(
    view: InterfaceModel,
    state: StateModel,
    event: Event<Seq<char>>,
    screen: Rect,
    places: Places<Seq<char>>,
)
    requires
        view.tab_menu is Some || view.settings is Some || view.microphone is Some,
    ensures
        ({
            let (after, action, ends) = turned(view, state, event, screen, places);
            &&& !ends
            &&& if view.tab_menu is Some {
                &&& after == (InterfaceModel { tab_menu: after.tab_menu, ..view })
                &&& action == tab_menu::answered(view.tab_menu->0, event, screen, places).2
            } else if view.microphone is Some {
                &&& after == (InterfaceModel {
                    microphone: after.microphone,
                    selection: after.selection,
                    ..view
                })
                &&& action is None || action->0 is SelectDevice
            } else {
                &&& after == (InterfaceModel {
                    settings: after.settings,
                    microphone: after.microphone,
                    selection: after.selection,
                    ..view
                })
                &&& action is None || action->0 is Devices || action->0 is ConfigureBackend
            }
        }),
{
}

} // verus!
