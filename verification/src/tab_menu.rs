//! The menu of a tab, and the dialogs in which tabs are named and exported.
use crate::config::has_control;
use crate::error::error_text;
use crate::export;
use crate::export::{resolved, suggestion, Places};
use crate::geometry::{bottom_of, in_rect, least, less, right_of, smaller, whole, Rect};
use crate::input::{Event, KeyCode, KeyEvent, MouseEvent, MouseKind};
use crate::model::{Action, State, StateModel};
use crate::search::lemma_filter_kept;
use crate::text;
use crate::text::{control, head_of, printable, trimmed, visible};
use vstd::prelude::*;

verus! {

/// What is shown: the menu, or a dialog for a name, or one for a file.
#[derive(Clone, Copy, Debug, PartialEq, Eq, Structural)]
pub enum Mode {
    Menu,
    Name,
    Export,
}

/// The menu of a tab. Without a tab it is the dialog for the name of a new one. `replace` says
/// whether what is typed next takes the place of the whole name.
#[derive(Debug)]
#[verifier::ext_equal]
pub struct TabMenu<S = String> {
    pub id: Option<S>,
    pub name: S,
    pub position: (u16, u16),
    pub mode: Mode,
    pub error: Option<S>,
    pub replace: bool,
    pub menu_index: usize,
}

impl DeepView for TabMenu {
    type V = TabMenu<Seq<char>>;

    open spec fn deep_view(&self) -> TabMenu<Seq<char>> {
        TabMenu {
            id: self.id.deep_view(),
            name: self.name@,
            position: self.position,
            mode: self.mode,
            error: self.error.deep_view(),
            replace: self.replace,
            menu_index: self.menu_index,
        }
    }
}

/// What the menu becomes, whether it closes, and what it asks the recorder for.
pub type Answer = (TabMenu<Seq<char>>, bool, Option<Action<Seq<char>>>);

/// The name of the tab at a place.
pub open spec fn title_of(state: StateModel, tab: int) -> Seq<char> {
    if 0 <= tab < state.tabs.len() {
        state.tabs[tab].name
    } else {
        "Transcript 1"@
    }
}

/// The menu of the tab at a place, or the dialog for its name.
pub open spec fn menu_of(
    state: StateModel,
    tab: int,
    position: (u16, u16),
    renaming: bool,
) -> TabMenu<Seq<char>> {
    TabMenu {
        id: if 0 <= tab < state.tabs.len() {
            Some(state.tabs[tab].id)
        } else {
            None
        },
        name: title_of(state, tab),
        position,
        mode: if renaming {
            Mode::Name
        } else {
            Mode::Menu
        },
        error: None,
        replace: true,
        menu_index: 0,
    }
}

/// The dialog for the name of a new tab.
pub open spec fn blank_menu() -> TabMenu<Seq<char>> {
    TabMenu {
        id: None,
        name: Seq::empty(),
        position: (0, 0),
        mode: Mode::Name,
        error: None,
        replace: false,
        menu_index: 0,
    }
}

/// The menu turned into the dialog for a file.
pub open spec fn for_export(menu: TabMenu<Seq<char>>, places: Places<Seq<char>>) -> TabMenu<
    Seq<char>,
> {
    TabMenu {
        mode: Mode::Export,
        name: suggestion(menu.name, places),
        replace: true,
        ..menu
    }
}

/// Where the menu stands: where it was asked for, as far as the screen goes. Dialogs stand in the
/// middle.
pub open spec fn menu_area(menu: TabMenu<Seq<char>>, screen: Rect) -> Rect {
    if menu.mode != Mode::Menu {
        let width = least(less(screen.width as int, 2), 60);
        Rect {
            x: (screen.x + (screen.width - width) / 2) as u16,
            y: (screen.y + less(screen.height as int, 7) / 2) as u16,
            width: width as u16,
            height: least(7, screen.height as int) as u16,
        }
    } else {
        let width = least(18, screen.width as int);
        Rect {
            x: least(menu.position.0 as int, less(right_of(screen), width)) as u16,
            y: least(menu.position.1 as int, less(bottom_of(screen), 5)) as u16,
            width: width as u16,
            height: least(5, screen.height as int) as u16,
        }
    }
}

/// What comes of choosing a line of the menu.
pub open spec fn picked(menu: TabMenu<Seq<char>>, places: Places<Seq<char>>) -> Answer {
    if menu.menu_index == 1 {
        (for_export(menu, places), false, None)
    } else if menu.menu_index == 2 {
        (
            menu,
            true,
            match menu.id {
                Some(id) => Some(Action::CloseTab(id)),
                None => None,
            },
        )
    } else {
        (TabMenu { mode: Mode::Name, ..menu }, false, None)
    }
}

/// What comes of ending a dialog: it closes when there is something to ask for.
pub open spec fn saved(menu: TabMenu<Seq<char>>, places: Places<Seq<char>>) -> Answer {
    let name = trimmed(menu.name);
    if name.len() == 0 {
        (menu, false, None)
    } else if menu.mode == Mode::Export {
        match resolved(name, places) {
            Ok(path) => match menu.id {
                Some(id) => (menu, true, Some(Action::ExportTab { id, path })),
                None => (menu, false, None),
            },
            Err(error) => (
                TabMenu { error: Some(error_text(error)), ..menu },
                false,
                None,
            ),
        }
    } else {
        match menu.id {
            Some(id) => (menu, true, Some(Action::RenameTab { id, name })),
            None => (menu, true, Some(Action::CreateTab(name))),
        }
    }
}

/// How many characters a name may have.
pub open spec fn longest(mode: Mode) -> int {
    if mode == Mode::Export {
        2048
    } else {
        48
    }
}

/// The menu with more typed behind its name, or in its place.
pub open spec fn inserted(menu: TabMenu<Seq<char>>, more: Seq<char>) -> TabMenu<Seq<char>> {
    let name = if menu.replace {
        Seq::empty()
    } else {
        menu.name
    };
    TabMenu {
        name: name + head_of(visible(more), less(longest(menu.mode), name.len() as int)),
        replace: false,
        ..menu
    }
}

/// The menu with its name erased.
pub open spec fn erased(menu: TabMenu<Seq<char>>) -> TabMenu<Seq<char>> {
    TabMenu { name: Seq::empty(), replace: false, ..menu }
}

/// What comes of a key that goes down.
pub open spec fn keyed(
    menu: TabMenu<Seq<char>>,
    key: KeyEvent,
    places: Places<Seq<char>>,
) -> Answer {
    match key.code {
        KeyCode::Esc => (menu, true, None),
        KeyCode::Enter => if menu.mode != Mode::Menu {
            saved(menu, places)
        } else {
            picked(menu, places)
        },
        KeyCode::Up => (
            if menu.mode == Mode::Menu {
                TabMenu { menu_index: less(menu.menu_index as int, 1) as usize, ..menu }
            } else {
                menu
            },
            false,
            None,
        ),
        KeyCode::Down => (
            if menu.mode == Mode::Menu {
                TabMenu { menu_index: least(menu.menu_index + 1, 2) as usize, ..menu }
            } else {
                menu
            },
            false,
            None,
        ),
        KeyCode::Backspace => (
            if menu.mode == Mode::Menu {
                menu
            } else if menu.replace {
                erased(menu)
            } else if menu.name.len() > 0 {
                TabMenu { name: menu.name.drop_last(), ..menu }
            } else {
                menu
            },
            false,
            None,
        ),
        KeyCode::Char(c) => (
            if menu.mode == Mode::Menu {
                menu
            } else if (c == 'u' || c == 'c') && key.control {
                erased(menu)
            } else if !key.control && !key.alt {
                inserted(menu, seq![c])
            } else {
                menu
            },
            false,
            None,
        ),
        _ => (menu, false, None),
    }
}

/// What comes of a click.
pub open spec fn clicked(
    menu: TabMenu<Seq<char>>,
    mouse: MouseEvent,
    screen: Rect,
    places: Places<Seq<char>>,
) -> Answer {
    let area = menu_area(menu, screen);
    if !in_rect(area, mouse.column as int, mouse.row as int) {
        (menu, true, None)
    } else if menu.mode == Mode::Menu {
        if mouse.row > area.y && mouse.row < bottom_of(area) - 1 {
            picked(TabMenu { menu_index: (mouse.row - area.y - 1) as usize, ..menu }, places)
        } else {
            (menu, false, None)
        }
    } else if mouse.row != area.y + 5 {
        (menu, false, None)
    } else if mouse.column < area.x + 12 {
        saved(menu, places)
    } else if mouse.column < area.x + 24 {
        (erased(menu), false, None)
    } else {
        (menu, true, None)
    }
}

/// What comes of anything a user does.
pub open spec fn answered(
    menu: TabMenu<Seq<char>>,
    event: Event<Seq<char>>,
    screen: Rect,
    places: Places<Seq<char>>,
) -> Answer {
    match event {
        Event::Key(key) => if key.press {
            keyed(menu, key, places)
        } else {
            (menu, false, None)
        },
        Event::Paste(text) => (
            if menu.mode != Mode::Menu {
                inserted(menu, text)
            } else {
                menu
            },
            false,
            None,
        ),
        Event::Mouse(mouse) => if mouse.kind == MouseKind::LeftDown {
            clicked(menu, mouse, screen, places)
        } else {
            (menu, false, None)
        },
        Event::Other => (menu, false, None),
    }
}

/// The end of a text, of so many characters at most.
pub open spec fn tail_of(s: Seq<char>, most: int) -> Seq<char> {
    if s.len() <= most {
        s
    } else {
        s.subrange(s.len() - most, s.len() as int)
    }
}

/// What a dialog is for.
pub open spec fn heading(menu: TabMenu<Seq<char>>) -> Seq<char> {
    if menu.mode == Mode::Export {
        "export transcript · .txt"@
    } else if menu.id is Some {
        "rename tab"@
    } else {
        "new tab"@
    }
}

/// The menu or dialog as it is drawn. The buttons of a dialog stand on its last line.
#[derive(Debug)]
pub enum TabPage<S = String, L = Vec<String>> {
    Dialog { area: Rect, heading: S, input: S, error: S, button: S, keys: S, cursor: (u16, u16) },
    Menu { area: Rect, labels: L, selected: usize },
}

/// The menu as contracts see it drawn.
pub type TabPageModel = TabPage<Seq<char>, Seq<Seq<char>>>;

impl DeepView for TabPage {
    type V = TabPageModel;

    open spec fn deep_view(&self) -> TabPageModel {
        match *self {
            TabPage::Dialog { area, heading, input, error, button, keys, cursor } => {
                TabPage::Dialog {
                    area,
                    heading: heading@,
                    input: input@,
                    error: error@,
                    button: button@,
                    keys: keys@,
                    cursor,
                }
            },
            TabPage::Menu { area, labels, selected } => TabPage::Menu {
                area,
                labels: labels.deep_view(),
                selected,
            },
        }
    }
}

/// The menu or dialog as it is drawn on a screen.
pub open spec fn shown_menu(menu: TabMenu<Seq<char>>, screen: Rect) -> TabPageModel {
    let area = menu_area(menu, screen);
    if menu.mode != Mode::Menu {
        TabPage::Dialog {
            area,
            heading: heading(menu),
            input: if menu.name.len() == 0 {
                " "@
            } else {
                tail_of(menu.name, less(area.width as int, 3))
            },
            error: match menu.error {
                Some(words) => words,
                None => Seq::empty(),
            },
            button: " ↵ save "@,
            keys: "    ^C clear    esc cancel"@,
            cursor: (
                least(
                    area.x + 1 + (menu.name.len() as u16),
                    less(right_of(area), 2),
                ) as u16,
                (area.y + 3) as u16,
            ),
        }
    } else {
        TabPage::Menu {
            area,
            labels: seq!["Rename…"@, "Export…"@, "Close tab"@],
            selected: menu.menu_index,
        }
    }
}

/// The name of the tab at a place.
pub fn title(state: &State, tab: usize) -> (name: String)
    ensures
        name@ == title_of(state.deep_view(), tab as int),
{
    if tab < state.tabs.len() {
        proof {
            assert(state.deep_view().tabs[tab as int] == state.tabs[tab as int].deep_view());
        }
        state.tabs[tab].name.clone()
    } else {
        "Transcript 1".to_owned()
    }
}

fn tail(s: &str, most: usize) -> (end: String)
    ensures
        end@ == tail_of(s@, most as int),
{
    let length: usize = s.unicode_len();
    if length <= most {
        s.to_owned()
    } else {
        s.substring_char(length - most, length).to_owned()
    }
}

impl TabMenu {
    /// The menu of the tab at a place, or the dialog for its name.
    pub fn new(state: &State, tab: usize, position: (u16, u16), renaming: bool) -> (menu: Self)
        ensures
            menu.deep_view() == menu_of(state.deep_view(), tab as int, position, renaming),
    {
        let id = if tab < state.tabs.len() {
            proof {
                assert(state.deep_view().tabs[tab as int] == state.tabs[tab as int].deep_view());
            }
            Some(state.tabs[tab].id.clone())
        } else {
            None
        };
        TabMenu {
            id,
            name: title(state, tab),
            position,
            mode: if renaming {
                Mode::Name
            } else {
                Mode::Menu
            },
            error: None,
            replace: true,
            menu_index: 0,
        }
    }

    /// The dialog for the name of a new tab.
    pub fn create() -> (menu: Self)
        ensures
            menu.deep_view() == blank_menu(),
    {
        TabMenu {
            id: None,
            name: String::new(),
            position: (0, 0),
            mode: Mode::Name,
            error: None,
            replace: false,
            menu_index: 0,
        }
    }

    /// Where it stands on a screen.
    pub fn area(&self, screen: Rect) -> (area: Rect)
        requires
            whole(screen),
        ensures
            area == menu_area(self.deep_view(), screen),
            whole(area),
    {
        if self.mode != Mode::Menu {
            let width: u16 = smaller(screen.width.saturating_sub(2), 60);
            Rect::new(
                screen.x + (screen.width - width) / 2,
                screen.y + screen.height.saturating_sub(7) / 2,
                width,
                smaller(7, screen.height),
            )
        } else {
            let width: u16 = smaller(18, screen.width);
            Rect::new(
                smaller(self.position.0, screen.right().saturating_sub(width)),
                smaller(self.position.1, screen.bottom().saturating_sub(5)),
                width,
                smaller(5, screen.height),
            )
        }
    }

    /// The dialog for the file to which the tab at a place is exported.
    pub fn export(state: &State, tab: usize, places: &Places) -> (menu: Self)
        ensures
            menu.deep_view() == for_export(
                menu_of(state.deep_view(), tab as int, (0, 0), false),
                places.deep_view(),
            ),
    {
        let mut menu = TabMenu::new(state, tab, (0, 0), false);
        menu.begin_export(places);
        menu
    }

    fn begin_export(&mut self, places: &Places)
        ensures
            final(self).deep_view() == for_export(old(self).deep_view(), places.deep_view()),
    {
        self.mode = Mode::Export;
        self.name = export::suggested_path(self.name.as_str(), places);
        self.replace = true;
    }

    fn choose_line(&mut self, places: &Places) -> (answer: (bool, Option<Action>))
        ensures
            (final(self).deep_view(), answer.0, answer.1.deep_view()) == picked(
                old(self).deep_view(),
                places.deep_view(),
            ),
    {
        if self.menu_index == 1 {
            self.begin_export(places);
            (false, None)
        } else if self.menu_index == 2 {
            let action = match &self.id {
                Some(id) => Some(Action::CloseTab(id.clone())),
                None => None,
            };
            (true, action)
        } else {
            self.mode = Mode::Name;
            (false, None)
        }
    }

    fn save(&mut self, places: &Places) -> (answer: (bool, Option<Action>))
        ensures
            (final(self).deep_view(), answer.0, answer.1.deep_view()) == saved(
                old(self).deep_view(),
                places.deep_view(),
            ),
    {
        let name = self.name.as_str().trim().to_owned();
        if name.as_str().is_empty() {
            return (false, None);
        }
        if self.mode == Mode::Export {
            return match export::resolve_path(name.as_str(), places) {
                Ok(path) => match &self.id {
                    Some(id) => (true, Some(Action::ExportTab { id: id.clone(), path })),
                    None => (false, None),
                },
                Err(error) => {
                    self.error = Some(error.message());
                    (false, None)
                },
            };
        }
        match &self.id {
            Some(id) => (true, Some(Action::RenameTab { id: id.clone(), name })),
            None => (true, Some(Action::CreateTab(name))),
        }
    }

    /// Types or pastes behind the name, or in its place: what can be shown of it, as far as there
    /// is room.
    pub fn insert(&mut self, more: &str)
        ensures
            final(self).deep_view() == inserted(old(self).deep_view(), more@),
    {
        if self.replace {
            self.name.clear();
            self.replace = false;
        }
        let most: usize = if self.mode == Mode::Export {
            2048
        } else {
            48
        };
        let room: usize = most.saturating_sub(self.name.as_str().unicode_len());
        text::append_visible(&mut self.name, more, room);
    }

    fn erase(&mut self)
        ensures
            final(self).deep_view() == erased(old(self).deep_view()),
    {
        self.name.clear();
        self.replace = false;
    }

    fn key(&mut self, key: KeyEvent, places: &Places) -> (answer: (bool, Option<Action>))
        ensures
            (final(self).deep_view(), answer.0, answer.1.deep_view()) == keyed(
                old(self).deep_view(),
                key,
                places.deep_view(),
            ),
    {
        match key.code {
            KeyCode::Esc => (true, None),
            KeyCode::Enter => {
                if self.mode != Mode::Menu {
                    self.save(places)
                } else {
                    self.choose_line(places)
                }
            },
            KeyCode::Up => {
                if self.mode == Mode::Menu {
                    self.menu_index = self.menu_index.saturating_sub(1);
                }
                (false, None)
            },
            KeyCode::Down => {
                if self.mode == Mode::Menu {
                    self.menu_index = if self.menu_index < 2 {
                        self.menu_index + 1
                    } else {
                        2
                    };
                }
                (false, None)
            },
            KeyCode::Backspace => {
                if self.mode != Mode::Menu {
                    if self.replace {
                        self.erase();
                    } else {
                        let _ = self.name.pop();
                    }
                }
                (false, None)
            },
            KeyCode::Char(c) => {
                if self.mode != Mode::Menu {
                    if (c == 'u' || c == 'c') && key.control {
                        self.erase();
                    } else if !key.control && !key.alt {
                        let mut words = String::new();
                        words.push(c);
                        proof {
                            assert(words@ =~= seq![c]);
                        }
                        self.insert(words.as_str());
                    }
                }
                (false, None)
            },
            _ => (false, None),
        }
    }

    fn click(&mut self, mouse: MouseEvent, screen: Rect, places: &Places) -> (answer: (
        bool,
        Option<Action>,
    ))
        requires
            whole(screen),
        ensures
            (final(self).deep_view(), answer.0, answer.1.deep_view()) == clicked(
                old(self).deep_view(),
                mouse,
                screen,
                places.deep_view(),
            ),
    {
        let area = self.area(screen);
        if !area.contains(mouse.column, mouse.row) {
            return (true, None);
        }
        if self.mode == Mode::Menu {
            if mouse.row > area.y && mouse.row < area.bottom() - 1 {
                self.menu_index = (mouse.row - area.y - 1) as usize;
                return self.choose_line(places);
            }
        } else if mouse.row - area.y == 5 {
            let along: u16 = mouse.column - area.x;
            if along < 12 {
                return self.save(places);
            }
            if along < 24 {
                self.erase();
            } else {
                return (true, None);
            }
        }
        (false, None)
    }

    /// Takes what a user did: whether the menu closes, and what it asks the recorder for.
    pub fn event(&mut self, event: &Event, screen: Rect, places: &Places) -> (answer: (
        bool,
        Option<Action>,
    ))
        requires
            whole(screen),
        ensures
            (final(self).deep_view(), answer.0, answer.1.deep_view()) == answered(
                old(self).deep_view(),
                event.deep_view(),
                screen,
                places.deep_view(),
            ),
    {
        match event {
            Event::Key(key) => {
                if key.press {
                    self.key(*key, places)
                } else {
                    (false, None)
                }
            },
            Event::Paste(text) => {
                if self.mode != Mode::Menu {
                    self.insert(text.as_str());
                }
                (false, None)
            },
            Event::Mouse(mouse) => {
                if mouse.kind == MouseKind::LeftDown {
                    self.click(*mouse, screen, places)
                } else {
                    (false, None)
                }
            },
            Event::Other => (false, None),
        }
    }

    /// The menu or dialog as it is drawn on a screen.
    pub fn draw(&self, screen: Rect) -> (page: TabPage)
        requires
            whole(screen),
            screen.y + 3 <= u16::MAX,
        ensures
            page.deep_view() == shown_menu(self.deep_view(), screen),
    {
        let area = self.area(screen);
        if self.mode != Mode::Menu {
            let heading = if self.mode == Mode::Export {
                "export transcript · .txt"
            } else if self.id.is_some() {
                "rename tab"
            } else {
                "new tab"
            };
            let input = if self.name.as_str().is_empty() {
                " ".to_owned()
            } else {
                tail(self.name.as_str(), area.width.saturating_sub(3) as usize)
            };
            let error = match &self.error {
                Some(words) => words.clone(),
                None => String::new(),
            };
            let count: usize = self.name.as_str().unicode_len();
            let across: u32 = area.x as u32 + 1 + (#[verifier::truncate] (count as u16)) as u32;
            let edge: u16 = area.right().saturating_sub(2);
            let column: u16 = if across <= edge as u32 {
                across as u16
            } else {
                edge
            };
            TabPage::Dialog {
                area,
                heading: heading.to_owned(),
                input,
                error,
                button: " ↵ save ".to_owned(),
                keys: "    ^C clear    esc cancel".to_owned(),
                cursor: (column, area.y + 3),
            }
        } else {
            let labels = vec!["Rename…".to_owned(), "Export…".to_owned(), "Close tab".to_owned()];
            proof {
                assert(labels.deep_view() =~= seq!["Rename…"@, "Export…"@, "Close tab"@]);
            }
            TabPage::Menu { area, labels, selected: self.menu_index }
        }
    }
}

/// A name that is typed or pasted never gets longer than names may be, and keeps what can be
/// shown only.
pub proof fn law_names_stay_short(menu: TabMenu<Seq<char>>, more: Seq<char>)
    requires
        menu.name.len() <= longest(menu.mode),
    ensures
        inserted(menu, more).name.len() <= longest(menu.mode),
        !has_control(menu.name) ==> !has_control(inserted(menu, more).name),
{
    lemma_filter_kept(more, printable());
    let name = inserted(menu, more).name;
    let start = if menu.replace {
        0
    } else {
        menu.name.len() as int
    };
    if !has_control(menu.name) {
        assert forall|i: int| 0 <= i < name.len() implies !control(#[trigger] name[i]) by {
            if i < start {
                assert(name[i] == menu.name[i]);
            } else {
                assert(name[i] == visible(more)[i - start]);
                assert(printable()(visible(more)[i - start]));
            }
        }
    }
}

/// Two texts typed one after the other are the same as both in one piece.
pub proof fn law_pieces_add_up(menu: TabMenu<Seq<char>>, first: Seq<char>, second: Seq<char>)
    ensures
        inserted(inserted(menu, first), second) == inserted(menu, first + second),
{
    Seq::filter_distributes_over_add(first, second, printable());
    assert(visible(first + second) == visible(first) + visible(second));
    assert(inserted(inserted(menu, first), second).name =~= inserted(menu, first + second).name);
}

/// A menu or dialog asks for something only as it closes, and what it asks for is about its own
/// tab.
pub proof fn law_menu_asks_for_its_tab(
    menu: TabMenu<Seq<char>>,
    event: Event<Seq<char>>,
    screen: Rect,
    places: Places<Seq<char>>,
)
    ensures
        ({
            let (after, close, action) = answered(menu, event, screen, places);
            &&& after.id == menu.id
            &&& action is Some ==> close
            &&& action matches Some(action) ==> match action {
                Action::CloseTab(id) => menu.id == Some(id),
                Action::RenameTab { id, .. } => menu.id == Some(id),
                Action::ExportTab { id, .. } => menu.id == Some(id),
                Action::CreateTab(_) => menu.id is None,
                _ => false,
            }
        }),
{
}

} // verus!
