//! What keys, clicks and menus are for: which of them ask the recorder for what.
use crate::cli;
use crate::cli::Command;
use crate::config::{Acceleration, ConfigModel, Provider};
use crate::error::{error_text, Error};
use crate::export::{resolved, suggestion, Places};
use crate::geometry::{in_rect, Rect};
use crate::input::{pressed, Event, Hit, Hits, KeyCode, KeyEvent, MouseEvent, MouseKind};
use crate::interface::{hit_at, holding, observed, turned, InterfaceModel};
use crate::ipc::{informed, launched, ClientModel, Course, Errand, Launch, Report};
use crate::model::{Action, BackendSettings, Phase, StateModel};
use crate::search::{lemma_first_match, lemma_is_first, lemma_is_last, lemma_no_first};
use crate::selection::{covers, selected_text, Selection};
use crate::session::tab_with_id;
use crate::settings_ui;
use crate::settings_ui::SettingsView;
use crate::tab_menu;
use crate::tab_menu::{Mode, TabMenu};
use crate::text::{control, trimmed, visible};
use crate::tray;
use vstd::prelude::*;

verus! {

/// Whether no menu, list or dialog is open.
pub open spec fn undisturbed(view: InterfaceModel) -> bool {
    view.tab_menu is None && view.settings is None && view.microphone is None
}

/// A key that goes down, where no menu, list or dialog is open.
pub open spec fn answer_to(
    view: InterfaceModel,
    state: StateModel,
    code: KeyCode,
    held: bool,
    screen: Rect,
    places: Places<Seq<char>>,
) -> (InterfaceModel, Option<Action<Seq<char>>>, bool) {
    turned(
        view,
        state,
        Event::Key(KeyEvent { code, press: true, control: held, alt: false }),
        screen,
        places,
    )
}

/// The space bar starts and ends a recording, `c` copies the transcript and with the control key
/// the latest words, `t` opens the last closed tab, and the escape key calls off what waits, where
/// it does not take back a question. `q` ends the interface, and nothing else does.
pub proof fn law_keys_ask_the_recorder(
    view: InterfaceModel,
    state: StateModel,
    code: KeyCode,
    held: bool,
    screen: Rect,
    places: Places<Seq<char>>,
)
    requires
        undisturbed(view),
    ensures
        ({
            let (after, action, ends) = answer_to(view, state, code, held, screen, places);
            &&& code == KeyCode::Char(' ') ==> action == Some(Action::<Seq<char>>::Toggle)
            &&& code == KeyCode::Char('c') && !held ==> action == Some(Action::<Seq<char>>::Copy)
            &&& code == KeyCode::Char('c') && held ==> action == Some(
                Action::<Seq<char>>::CopyLatest,
            )
            &&& code == KeyCode::Char('t') ==> action == Some(Action::<Seq<char>>::ReopenTab)
            &&& code == KeyCode::Esc ==> action == if view.confirm {
                None
            } else {
                Some(Action::<Seq<char>>::Cancel)
            }
            &&& code == KeyCode::Char('x') ==> action == if view.confirm {
                Some(Action::<Seq<char>>::Clear)
            } else {
                None
            } && after.confirm == !view.confirm
            &&& code != KeyCode::Char('x') && code != KeyCode::Char('q') ==> !after.confirm
            &&& ends <==> code == KeyCode::Char('q')
            &&& action matches Some(asked) ==> {
                &&& asked is Toggle <==> code == KeyCode::Char(' ')
                &&& asked is Copy <==> code == KeyCode::Char('c') && !held
                &&& asked is CopyLatest <==> code == KeyCode::Char('c') && held
                &&& asked is ReopenTab <==> code == KeyCode::Char('t')
                &&& asked is Cancel <==> code == KeyCode::Esc
                &&& asked is Clear <==> code == KeyCode::Char('x')
                &&& !(asked is Start) && !(asked is Stop) && !(asked is Shutdown)
                &&& !(asked is Retry) && !(asked is ConfigureBackend) && !(asked is SelectDevice)
                &&& !(asked is CloseTab) && !(asked is RenameTab) && !(asked is CreateTab)
                &&& !(asked is ExportTab) && !(asked is CopyText) && !(asked is CopyChunk)
            }
        }),
{
}

/// A key that goes up does nothing.
pub proof fn law_keys_work_going_down(
    view: InterfaceModel,
    state: StateModel,
    key: KeyEvent,
    screen: Rect,
    places: Places<Seq<char>>,
)
    requires
        undisturbed(view),
        !key.press,
    ensures
        turned(view, state, Event::Key(key), screen, places) == (
            view,
            None::<Action<Seq<char>>>,
            false,
        ),
{
}

/// The tab keys lead to the next tab and to the one before, round and round, and select what they
/// lead to; one takes back the other. What is shown starts at its top again.
pub proof fn law_tab_keys_go_round(
    view: InterfaceModel,
    state: StateModel,
    held: bool,
    screen: Rect,
    places: Places<Seq<char>>,
)
    requires
        undisturbed(view),
        view.tab < state.tabs.len() <= usize::MAX,
    ensures
        ({
            let count = state.tabs.len();
            let (next, asked, _) = answer_to(view, state, KeyCode::Tab, held, screen, places);
            let (before, wanted, _) = answer_to(
                view,
                state,
                KeyCode::BackTab,
                held,
                screen,
                places,
            );
            &&& next.tab == if view.tab + 1 == count {
                0
            } else {
                view.tab + 1
            }
            &&& asked == Some(Action::SelectTab(state.tabs[next.tab as int].id))
            &&& next.scroll == 0
            &&& before.tab == if view.tab == 0 {
                count - 1
            } else {
                view.tab - 1
            }
            &&& wanted == Some(Action::SelectTab(state.tabs[before.tab as int].id))
            &&& before.scroll == 0
            &&& answer_to(next, state, KeyCode::BackTab, held, screen, places).0.tab == view.tab
            &&& answer_to(before, state, KeyCode::Tab, held, screen, places).0.tab == view.tab
            &&& answer_to(view, state, KeyCode::Char(']'), held, screen, places) == answer_to(
                view,
                state,
                KeyCode::Tab,
                held,
                screen,
                places,
            )
            &&& answer_to(view, state, KeyCode::Char('['), held, screen, places) == answer_to(
                view,
                state,
                KeyCode::BackTab,
                held,
                screen,
                places,
            )
        }),
{
    let count = state.tabs.len() as int;
    assert((view.tab + 1) % count == if view.tab + 1 == count {
        0
    } else {
        view.tab + 1
    }) by (nonlinear_arith)
        requires
            0 <= view.tab < count,
    ;
    let before = if view.tab == 0 {
        count - 1
    } else {
        view.tab - 1
    };
    assert((before + 1) % count == view.tab) by (nonlinear_arith)
        requires
            0 <= view.tab < count,
            before == if view.tab == 0 {
                count - 1
            } else {
                view.tab - 1
            },
    ;
}

/// The keys for dialogs open them for what is shown: the settings as they are in force, the name of
/// a new tab, the name of the tab that is shown, and the file for it. They ask the recorder for
/// nothing.
pub proof fn law_keys_open_dialogs(
    view: InterfaceModel,
    state: StateModel,
    held: bool,
    screen: Rect,
    places: Places<Seq<char>>,
)
    requires
        undisturbed(view),
        view.tab < state.tabs.len(),
    ensures
        ({
            let tab = state.tabs[view.tab as int];
            let (settings, one, _) = answer_to(
                view,
                state,
                KeyCode::Char('s'),
                held,
                screen,
                places,
            );
            let (naming, two, _) = answer_to(view, state, KeyCode::Char('+'), held, screen, places);
            let (renaming, three, _) = answer_to(view, state, KeyCode::F(2), held, screen, places);
            let (saving, four, _) = answer_to(
                view,
                state,
                KeyCode::Char('e'),
                held,
                screen,
                places,
            );
            &&& one is None && two is None && three is None && four is None
            &&& settings.settings matches Some(dialog) && dialog.settings == state.backend
                && dialog.selected == 0 && !dialog.editing && !dialog.key_changed
                && dialog.key.len() == 0
            &&& naming.tab_menu matches Some(menu) && menu.id is None && menu.mode == Mode::Name
                && menu.name.len() == 0
            &&& renaming.tab_menu matches Some(menu) && menu.id == Some(tab.id) && menu.mode
                == Mode::Name && menu.name == tab.name && menu.replace
            &&& saving.tab_menu matches Some(menu) && menu.id == Some(tab.id) && menu.mode
                == Mode::Export && menu.name == suggestion(tab.name, places) && menu.replace
        }),
{
}

/// The scroll keys move what is shown by a line, and back to its top.
pub proof fn law_keys_scroll(
    view: InterfaceModel,
    state: StateModel,
    held: bool,
    screen: Rect,
    places: Places<Seq<char>>,
)
    requires
        undisturbed(view),
    ensures
        ({
            let (down, one, _) = answer_to(view, state, KeyCode::Down, held, screen, places);
            let (up, two, _) = answer_to(view, state, KeyCode::Up, held, screen, places);
            let (home, three, _) = answer_to(view, state, KeyCode::Home, held, screen, places);
            &&& one is None && two is None && three is None
            &&& down.scroll <= view.scroll + 1
            &&& view.scroll < crate::text::byte_len(state.transcript) && view.scroll < u16::MAX
                ==> down.scroll == view.scroll + 1
            &&& view.scroll > 0 ==> up.scroll == view.scroll - 1
            &&& view.scroll == 0 ==> up.scroll == 0
            &&& home.scroll == 0
            &&& down.tab == view.tab && up.tab == view.tab && home.tab == view.tab
            &&& answer_to(view, state, KeyCode::Char('j'), held, screen, places) == answer_to(
                view,
                state,
                KeyCode::Down,
                held,
                screen,
                places,
            )
            &&& answer_to(view, state, KeyCode::Char('k'), held, screen, places) == answer_to(
                view,
                state,
                KeyCode::Up,
                held,
                screen,
                places,
            )
        }),
{
}

/// In the list of microphones, the one that is marked is the one that is asked for: the first line
/// is the system's, and the others are those that there are, in their order. The mark moves by a
/// line and stays in the list.
pub proof fn law_marked_microphone_is_chosen(
    view: InterfaceModel,
    state: StateModel,
    line: usize,
    held: bool,
    screen: Rect,
    places: Places<Seq<char>>,
)
    requires
        view.tab_menu is None,
        view.microphone == Some(line),
        line <= state.devices.len() < usize::MAX,
    ensures
        ({
            let (chosen, asked, ends) = answer_to(
                view,
                state,
                KeyCode::Enter,
                held,
                screen,
                places,
            );
            let (left, nothing, _) = answer_to(view, state, KeyCode::Esc, held, screen, places);
            let (down, one, _) = answer_to(view, state, KeyCode::Down, held, screen, places);
            let (up, two, _) = answer_to(view, state, KeyCode::Up, held, screen, places);
            &&& asked == Some(
                Action::SelectDevice(
                    if line == 0 {
                        None
                    } else {
                        Some(state.devices[line - 1])
                    },
                ),
            )
            &&& chosen.microphone is None
            &&& !ends
            &&& left.microphone is None && nothing is None
            &&& one is None && two is None
            &&& down.microphone == Some(
                (if line < state.devices.len() {
                    line + 1
                } else {
                    line as int
                }) as usize,
            )
            &&& up.microphone == Some(
                (if line > 0 {
                    line - 1
                } else {
                    0
                }) as usize,
            )
        }),
{
}

/// The list of microphones opens from the settings at the one that is chosen, or at the system's
/// where none is or it is gone.
pub proof fn law_list_opens_at_the_choice(
    view: InterfaceModel,
    state: StateModel,
    dialog: SettingsView<Seq<char>>,
    place: int,
    screen: Rect,
    places: Places<Seq<char>>,
)
    requires
        view.tab_menu is None,
        view.microphone is None,
        view.settings == Some(dialog),
        !dialog.editing,
        dialog.selected == (if dialog.settings.provider == Provider::Local {
            4
        } else {
            3int
        }),
        state.devices.len() < usize::MAX,
    ensures
        ({
            let (after, asked, _) = answer_to(view, state, KeyCode::Enter, false, screen, places);
            &&& asked == Some(Action::<Seq<char>>::Devices)
            &&& after.settings is Some
            &&& state.selected_device is None ==> after.microphone == Some(0usize)
            &&& state.selected_device matches Some(name) ==> (0 <= place < state.devices.len()
                && state.devices[place] == name && (forall|j: int|
                0 <= j < place ==> (#[trigger] state.devices[j]) != name) ==> after.microphone
                == Some((place + 1) as usize))
            &&& state.selected_device matches Some(name) ==> (!state.devices.contains(name)
                ==> after.microphone == Some(0usize))
        }),
{
    if let Some(name) = state.selected_device {
        let asked = crate::interface::called(name);
        lemma_first_match(state.devices, asked);
        if 0 <= place < state.devices.len() && state.devices[place] == name && (forall|j: int|
            0 <= j < place ==> (#[trigger] state.devices[j]) != name) {
            lemma_is_first(state.devices, asked, place);
        }
        if !state.devices.contains(name) {
            assert forall|j: int| 0 <= j < state.devices.len() implies !asked(
                #[trigger] state.devices[j],
            ) by {}
            lemma_no_first(state.devices, asked);
        }
    }
}

/// A click stands for what was drawn last where it falls.
pub proof fn law_click_meets_what_is_on_top(hits: Hits, x: u16, y: u16, place: int)
    ensures
        0 <= place < hits.len() && in_rect(hits[place].0, x as int, y as int) && (forall|j: int|
            place < j < hits.len() ==> !in_rect((#[trigger] hits[j]).0, x as int, y as int))
            ==> hit_at(hits, x, y) == Some(hits[place].1),
        (forall|j: int|
            0 <= j < hits.len() ==> !in_rect((#[trigger] hits[j]).0, x as int, y as int))
            ==> hit_at(hits, x, y) is None,
{
    crate::search::lemma_last_match(hits, holding(x, y));
    if 0 <= place < hits.len() && in_rect(hits[place].0, x as int, y as int) && (forall|j: int|
        place < j < hits.len() ==> !in_rect((#[trigger] hits[j]).0, x as int, y as int)) {
        lemma_is_last(hits, holding(x, y), place);
    }
}

/// A click on a tab selects that tab, one on a chunk selects the tab of the chunk, one on what
/// stands for a key is that key, and one on a microphone chooses it. The other button opens the
/// menu of the tab, where the mouse is.
pub proof fn law_clicks_ask_for_what_they_meet(
    view: InterfaceModel,
    state: StateModel,
    column: u16,
    row: u16,
    screen: Rect,
    places: Places<Seq<char>>,
)
    requires
        undisturbed(view),
        state.transcript.len() == 0 || !in_rect(view.transcript_area, column as int, row as int),
    ensures
        ({
            let (after, action, _) = turned(
                view,
                state,
                Event::Mouse(MouseEvent { kind: MouseKind::LeftDown, column, row }),
                screen,
                places,
            );
            let (menu, nothing, _) = turned(
                view,
                state,
                Event::Mouse(MouseEvent { kind: MouseKind::RightDown, column, row }),
                screen,
                places,
            );
            &&& nothing is None
            &&& hit_at(view.hits, column, row) matches Some(hit) ==> match hit {
                Hit::Tab(tab) => {
                    &&& tab < state.tabs.len() ==> action == Some(
                        Action::SelectTab(state.tabs[tab as int].id),
                    ) && after.tab == tab && after.scroll == 0
                    &&& tab < state.tabs.len() ==> (menu.tab_menu matches Some(open) && open.id
                        == Some(state.tabs[tab as int].id) && open.mode == Mode::Menu
                        && open.position == (column, row) && open.name
                        == state.tabs[tab as int].name)
                },
                Hit::SelectTab(id) => action == Some(Action::SelectTab(id)) && menu == view,
                Hit::Microphone(line) => action == Some(
                    Action::SelectDevice(
                        if 0 < line <= state.devices.len() {
                            Some(state.devices[line - 1])
                        } else {
                            None
                        },
                    ),
                ) && menu == view,
                Hit::Key(key) => menu == view && (after, action) == ({
                    let (pressing, asked, _) = turned(
                        InterfaceModel { selection: None, ..view },
                        state,
                        Event::Key(key),
                        screen,
                        places,
                    );
                    (pressing, asked)
                }),
            }
            &&& hit_at(view.hits, column, row) is None ==> action is None && menu == view
        }),
{
}

/// Text is marked from where the button goes down to where the mouse is, and what is marked when
/// the button goes up is copied, if it is anything.
pub proof fn law_marked_text_is_copied(
    view: InterfaceModel,
    state: StateModel,
    column: u16,
    row: u16,
    screen: Rect,
    places: Places<Seq<char>>,
)
    requires
        undisturbed(view),
    ensures
        ({
            let (begun, one, _) = turned(
                view,
                state,
                Event::Mouse(MouseEvent { kind: MouseKind::LeftDown, column, row }),
                screen,
                places,
            );
            state.transcript.len() > 0 && in_rect(view.transcript_area, column as int, row as int)
                ==> one is None && begun == (InterfaceModel {
                selection: Some(Selection { anchor: (row, column), head: (row, column) }),
                ..view
            })
        }),
        ({
            let (drawn, two, _) = turned(
                view,
                state,
                Event::Mouse(MouseEvent { kind: MouseKind::LeftDrag, column, row }),
                screen,
                places,
            );
            &&& two is None
            &&& view.selection is None ==> drawn == view
            &&& view.selection is Some && in_rect(
                view.transcript_area,
                column as int,
                row as int,
            ) && view.transcript_area.x + view.transcript_area.width <= u16::MAX
                && view.transcript_area.y + view.transcript_area.height <= u16::MAX ==> drawn
                == (InterfaceModel {
                selection: Some(
                    Selection { anchor: view.selection->0.anchor, head: (row, column) },
                ),
                ..view
            })
        }),
        ({
            let (done, three, _) = turned(
                view,
                state,
                Event::Mouse(MouseEvent { kind: MouseKind::LeftUp, column, row }),
                screen,
                places,
            );
            &&& done == view
            &&& view.selection is None ==> three is None
            &&& view.selection matches Some(selection) ==> {
                let text = selected_text(selection, view.text_cells, view.transcript_area);
                three == if text.len() > 0 {
                    Some(Action::CopyText(text))
                } else {
                    None
                }
            }
        }),
{
}

/// What is marked runs in reading order: whole lines between the first and the last one, the first
/// from its mark on, and the last up to its mark.
pub proof fn law_marks_run_in_reading_order(
    first: (u16, u16),
    last: (u16, u16),
    column: u16,
    row: u16,
)
    requires
        first.0 < last.0 || (first.0 == last.0 && first.1 <= last.1),
    ensures
        covers(Selection { anchor: first, head: last }, column as int, row as int) <==> {
            &&& first.0 <= row <= last.0
            &&& row == first.0 ==> first.1 <= column
            &&& row == last.0 ==> column <= last.1
        },
{
}

/// A dialog for a name or a file asks for what it was opened for, with what stands in it and
/// without white space around it: a new tab, another name for its tab, or its tab in a file. Where
/// nothing stands in it, or the file cannot be found, it stays open.
pub proof fn law_dialog_asks_for_its_name(
    menu: TabMenu<Seq<char>>,
    held: bool,
    screen: Rect,
    places: Places<Seq<char>>,
)
    requires
        menu.mode != Mode::Menu,
    ensures
        ({
            let (after, closes, action) = tab_menu::answered(
                menu,
                Event::Key(
                    KeyEvent { code: KeyCode::Enter, press: true, control: held, alt: false },
                ),
                screen,
                places,
            );
            let name = trimmed(menu.name);
            &&& name.len() == 0 ==> !closes && action is None && after == menu
            &&& name.len() > 0 && menu.mode == Mode::Name ==> closes && action == Some(
                match menu.id {
                    Some(id) => Action::RenameTab { id, name },
                    None => Action::CreateTab(name),
                },
            )
            &&& name.len() > 0 && menu.mode == Mode::Export && menu.id is Some ==> match resolved(
                name,
                places,
            ) {
                Ok(path) => closes && action == Some(Action::ExportTab { id: menu.id->0, path }),
                Err(error) => !closes && action is None && after.error == Some(error_text(error))
                    && after.name == menu.name,
            }
        }),
{
}

/// The lines of a tab's menu rename it, save it as a file and close it, in this order.
pub proof fn law_menu_lines_do_what_they_say(
    menu: TabMenu<Seq<char>>,
    held: bool,
    screen: Rect,
    places: Places<Seq<char>>,
)
    requires
        menu.mode == Mode::Menu,
        menu.menu_index < 3,
    ensures
        ({
            let (after, closes, action) = tab_menu::answered(
                menu,
                Event::Key(
                    KeyEvent { code: KeyCode::Enter, press: true, control: held, alt: false },
                ),
                screen,
                places,
            );
            let (down, _, _) = tab_menu::answered(
                menu,
                Event::Key(
                    KeyEvent { code: KeyCode::Down, press: true, control: held, alt: false },
                ),
                screen,
                places,
            );
            let (up, _, _) = tab_menu::answered(
                menu,
                Event::Key(KeyEvent { code: KeyCode::Up, press: true, control: held, alt: false }),
                screen,
                places,
            );
            &&& menu.menu_index == 0 ==> !closes && action is None && after == (TabMenu {
                mode: Mode::Name,
                ..menu
            })
            &&& menu.menu_index == 1 ==> !closes && action is None && after.mode == Mode::Export
                && after.id == menu.id && after.name == suggestion(menu.name, places)
            &&& menu.menu_index == 2 ==> closes && action == match menu.id {
                Some(id) => Some(Action::CloseTab(id)),
                None => None,
            }
            &&& down == (TabMenu {
                menu_index: (if menu.menu_index == 2 {
                    2
                } else {
                    menu.menu_index + 1
                }) as usize,
                ..menu
            })
            &&& up == (TabMenu {
                menu_index: (if menu.menu_index == 0 {
                    0
                } else {
                    menu.menu_index - 1
                }) as usize,
                ..menu
            })
            &&& tab_menu::shown_menu(menu, screen) matches tab_menu::TabPage::Menu {
                labels,
                selected,
                ..
            } && labels == seq!["Rename…"@, "Export…"@, "Close tab"@] && selected
                == menu.menu_index
        }),
{
}

/// A character that is typed goes to the end of a name, the backspace key takes the last one away,
/// and the first thing typed takes the place of a name that was there. The escape key leaves
/// without asking for anything.
pub proof fn law_names_are_typed(
    menu: TabMenu<Seq<char>>,
    c: char,
    screen: Rect,
    places: Places<Seq<char>>,
)
    requires
        menu.mode != Mode::Menu,
    ensures
        ({
            let (typed, closes, action) = tab_menu::answered(
                menu,
                Event::Key(pressed(KeyCode::Char(c))),
                screen,
                places,
            );
            let (shorter, _, nothing) = tab_menu::answered(
                menu,
                Event::Key(pressed(KeyCode::Backspace)),
                screen,
                places,
            );
            let (left, gone, none) = tab_menu::answered(
                menu,
                Event::Key(pressed(KeyCode::Esc)),
                screen,
                places,
            );
            &&& !closes && action is None && nothing is None
            &&& gone && none is None
            &&& typed.id == menu.id && typed.mode == menu.mode && !typed.replace
            &&& !control(c) && menu.replace ==> typed.name == seq![c]
            &&& !control(c) && !menu.replace && menu.name.len() < 48 ==> typed.name
                == menu.name.push(c)
            &&& control(c) && !menu.replace ==> typed.name == menu.name
            &&& menu.replace ==> shorter.name.len() == 0
            &&& !menu.replace && menu.name.len() > 0 ==> shorter.name == menu.name.drop_last()
        }),
{
    reveal(Seq::filter);
    let one = seq![c];
    assert(one.drop_last() =~= Seq::<char>::empty());
    assert(one.drop_last().filter(crate::text::printable()) =~= Seq::<char>::empty());
    assert(visible(one) =~= if control(c) {
        Seq::<char>::empty()
    } else {
        one
    });
    assert(menu.name + one =~= menu.name.push(c));
    assert(Seq::<char>::empty() + one =~= one);
    assert(menu.name + Seq::<char>::empty() =~= menu.name);
    assert(one.take(1) =~= one);
}

/// Each line of the settings changes what it names and nothing else: the provider and what it
/// computes on go round, a text is edited, the microphones are asked for, and the settings are
/// saved as they stand, with the key where one was entered.
pub proof fn law_setting_lines_do_what_they_say(view: SettingsView<Seq<char>>, line: int)
    requires
        !view.editing,
        view.selected == line,
        0 <= line < settings_ui::fields_of(view.settings.provider).len(),
    ensures
        ({
            let (after, closes, action) = settings_ui::keyed(view, pressed(KeyCode::Enter));
            let local = view.settings.provider == Provider::Local;
            let save = if local {
                5int
            } else {
                4
            };
            &&& settings_ui::fields_of(view.settings.provider).len() == save + 1
            &&& closes <==> line == save
            &&& line == 0 ==> action is None && after == (SettingsView {
                settings: BackendSettings {
                    provider: if local {
                        Provider::OpenAi
                    } else {
                        Provider::Local
                    },
                    ..view.settings
                },
                ..view
            })
            &&& local && line == 1 ==> action is None && after == (SettingsView {
                settings: BackendSettings {
                    acceleration: match view.settings.acceleration {
                        Acceleration::Auto => Acceleration::Cpu,
                        Acceleration::Cpu => Acceleration::Vulkan,
                        Acceleration::Vulkan => Acceleration::Auto,
                    },
                    ..view.settings
                },
                ..view
            })
            &&& (local && (line == 2 || line == 3)) || (!local && (line == 1 || line == 2))
                ==> action is None && after == (SettingsView { editing: true, ..view })
            &&& line == save - 1 ==> action == Some(Action::<Seq<char>>::Devices) && after == view
            &&& line == save ==> action == Some(
                Action::ConfigureBackend {
                    settings: view.settings,
                    api_key: if view.key_changed {
                        Some(view.key)
                    } else {
                        None
                    },
                },
            )
        }),
{
}

/// What is typed in the settings goes to the text of the chosen line and to no other: the program,
/// its model, the model of the remote transcriber or the key, each on its own line.
pub proof fn law_typed_text_goes_to_its_line(view: SettingsView<Seq<char>>, c: char)
    requires
        view.editing,
        settings_ui::in_order(view),
        !control(c),
    ensures
        ({
            let after = settings_ui::keyed(view, pressed(KeyCode::Char(c))).0;
            let erased = settings_ui::keyed(view, pressed(KeyCode::Backspace)).0;
            let local = view.settings.provider == Provider::Local;
            let room = |words: Seq<char>| crate::text::byte_len(words) < 2048;
            let before = view.settings;
            &&& local && view.selected == 2 ==> {
                &&& room(before.binary) ==> after == (SettingsView {
                    settings: BackendSettings { binary: before.binary.push(c), ..before },
                    ..view
                })
                &&& before.binary.len() > 0 ==> erased == (SettingsView {
                    settings: BackendSettings { binary: before.binary.drop_last(), ..before },
                    ..view
                })
            }
            &&& local && view.selected == 3 ==> {
                &&& room(before.model) ==> after == (SettingsView {
                    settings: BackendSettings { model: before.model.push(c), ..before },
                    ..view
                })
                &&& before.model.len() > 0 ==> erased == (SettingsView {
                    settings: BackendSettings { model: before.model.drop_last(), ..before },
                    ..view
                })
            }
            &&& !local && view.selected == 1 ==> {
                &&& room(before.openai_model) ==> after == (SettingsView {
                    settings: BackendSettings {
                        openai_model: before.openai_model.push(c),
                        ..before
                    },
                    ..view
                })
                &&& before.openai_model.len() > 0 ==> erased == (SettingsView {
                    settings: BackendSettings {
                        openai_model: before.openai_model.drop_last(),
                        ..before
                    },
                    ..view
                })
            }
            &&& !local && view.selected == 2 ==> {
                &&& room(view.key) ==> after == (SettingsView {
                    key: view.key.push(c),
                    key_changed: true,
                    ..view
                })
                &&& view.key.len() > 0 ==> erased == (SettingsView {
                    key: view.key.drop_last(),
                    key_changed: true,
                    ..view
                })
            }
        }),
{
    reveal(Seq::filter);
    let one = seq![c];
    assert(one.drop_last() =~= Seq::<char>::empty());
    assert(one.drop_last().filter(crate::text::printable()) =~= Seq::<char>::empty());
    assert(visible(one) =~= one);
    assert(one.take(1) =~= one);
    assert(view.settings.binary + one =~= view.settings.binary.push(c));
    assert(view.settings.model + one =~= view.settings.model.push(c));
    assert(view.settings.openai_model + one =~= view.settings.openai_model.push(c));
    assert(view.key + one =~= view.key.push(c));
}

/// The settings show what they hold, each on its own line.
pub proof fn law_settings_show_what_they_hold(
    view: SettingsView<Seq<char>>,
    device: Seq<char>,
)
    ensures
        ({
            let lines = settings_ui::shown_lines(view, device);
            let mark = |i: int| settings_ui::shown_mark(view, i);
            &&& view.settings.provider == Provider::Local ==> {
                &&& lines[2] == mark(2) + ("Whisper binary "@ + view.settings.binary)
                &&& lines[3] == mark(3) + ("Whisper model  "@ + view.settings.model)
                &&& lines[4] == mark(4) + ("Microphone     "@ + device)
                &&& lines[5] == mark(5) + "Save settings"@
            }
            &&& view.settings.provider == Provider::OpenAi ==> {
                &&& lines[1] == mark(1) + ("Model          "@ + view.settings.openai_model)
                &&& lines[3] == mark(3) + ("Microphone     "@ + device)
                &&& lines[4] == mark(4) + "Save settings"@
            }
        }),
{
}

/// Settings that are opened and saved at once are asked for as they are in force, without a key.
pub proof fn law_opened_settings_are_saved_as_they_are(
    view: InterfaceModel,
    state: StateModel,
    dialog: SettingsView<Seq<char>>,
    held: bool,
    screen: Rect,
    places: Places<Seq<char>>,
)
    requires
        undisturbed(view),
        answer_to(view, state, KeyCode::Char('s'), held, screen, places).0.settings == Some(dialog),
    ensures
        ({
            let save = SettingsView {
                selected: if state.backend.provider == Provider::Local {
                    5
                } else {
                    4
                },
                ..dialog
            };
            settings_ui::keyed(save, pressed(KeyCode::Enter)).2 == Some(
                Action::ConfigureBackend { settings: state.backend, api_key: None::<Seq<char>> },
            )
        }),
{
}

/// A look at the recorder shows its selected tab, and notes that something was copied for a while
/// after it was. The level is noted while a recording runs, and nothing otherwise.
pub proof fn law_look_follows_the_recorder(
    view: InterfaceModel,
    state: StateModel,
    copies: u64,
    level: u64,
    now: i64,
    place: int,
)
    requires
        now + 2_000_000_000 <= i64::MAX,
        0 <= place < state.tabs.len() <= usize::MAX,
        state.tabs[place].id == state.selected_tab,
        forall|j: int| 0 <= j < place ==> (#[trigger] state.tabs[j]).id != state.selected_tab,
    ensures
        ({
            let after = observed(view, state, copies, level, now);
            &&& after.tab == place
            &&& after.copies == copies
            &&& copies != view.copies ==> after.copied_until == Some((now + 2_000_000_000) as i64)
            &&& copies == view.copies ==> after.copied_until == view.copied_until
            &&& now - view.sampled_at < 80_000_000 ==> after.levels == view.levels
                && after.sampled_at == view.sampled_at
            &&& now - view.sampled_at >= 80_000_000 ==> after.levels.len() > 0
                && after.levels.last() == (if state.phase == Phase::Recording {
                level
            } else {
                0
            }) && after.sampled_at == now && (view.levels.len() <= 160 ==> after.levels.len()
                <= 160)
            &&& after.scroll == view.scroll
            &&& after.selection == view.selection
            &&& after.settings == view.settings
            &&& after.tab_menu == view.tab_menu
            &&& after.microphone == view.microphone
            &&& after.confirm == view.confirm
        }),
{
    lemma_is_first(state.tabs, tab_with_id(state.selected_tab), place);
}

/// Each command asks the recorder for what it is called.
pub proof fn law_commands_ask_for_what_they_say(no_tray: bool)
    ensures
        cli::asked(Command::Start) == Some(Action::<Seq<char>>::Start),
        cli::asked(Command::Stop) == Some(Action::<Seq<char>>::Stop),
        cli::asked(Command::Toggle) == Some(Action::<Seq<char>>::Toggle),
        cli::asked(Command::Copy) == Some(Action::<Seq<char>>::Copy),
        cli::asked(Command::CopyLatest) == Some(Action::<Seq<char>>::CopyLatest),
        cli::asked(Command::Clear) == Some(Action::<Seq<char>>::Clear),
        cli::asked(Command::Cancel) == Some(Action::<Seq<char>>::Cancel),
        cli::asked(Command::Retry) == Some(Action::<Seq<char>>::Retry),
        cli::asked(Command::Status) == Some(Action::<Seq<char>>::Status),
        cli::asked(Command::Shutdown) == Some(Action::<Seq<char>>::Shutdown),
        cli::asked(Command::Tray) is None,
        cli::asked(Command::Daemon) is None,
        cli::asked(Command::Devices) is None,
        cli::asked(Command::Doctor) is None,
        cli::asked(Command::Tui { no_tray }) is None,
{
}

/// What is said of a configuration names each part under its own word.
pub proof fn law_report_names_each_part(config: ConfigModel, devices: Seq<Seq<char>>)
    ensures
        ({
            let whisper = "\nWhisper: "@ + config.binary;
            let model = "\nModel: "@ + config.model;
            let state = "\nState: "@ + config.directory;
            let first = "Provider: "@ + (match config.provider {
                Provider::Local => "Local"@,
                Provider::OpenAi => "OpenAi"@,
            }) + "\nAcceleration: "@ + (match config.acceleration {
                Acceleration::Auto => "Auto"@,
                Acceleration::Cpu => "Cpu"@,
                Acceleration::Vulkan => "Vulkan"@,
            });
            (first + whisper + model + state + "\nMicrophones: "@).is_prefix_of(
                cli::report_of(config, devices),
            )
        }),
{
    let first = "Provider: "@ + cli::provider_name(config.provider) + "\nAcceleration: "@
        + cli::acceleration_name(config.acceleration);
    let start = first + ("\nWhisper: "@ + config.binary) + ("\nModel: "@ + config.model) + (
    "\nState: "@ + config.directory) + "\nMicrophones: "@;
    let rest = crate::text::joined(devices, ", "@);
    let whole = cli::report_of(config, devices);
    assert(whole =~= start + rest);
    assert(whole.take(start.len() as int) =~= start);
}

/// The tray's menu opens the interface, starts and ends a recording, copies and ends the tray. It
/// offers what can be done: to stop while a recording runs, and to copy where there are words. An
/// error is shown in place of the state.
pub proof fn law_tray_does_what_it_says(
    state: StateModel,
    error: Option<Seq<char>>,
    painted: Option<Phase>,
)
    ensures
        tray::choice_of(tray::Event::Show) is OpenTerminal,
        tray::choice_of(tray::Event::Toggle) == tray::Choice::<Seq<char>>::Send(Action::Toggle),
        tray::choice_of(tray::Event::Copy) == tray::Choice::<Seq<char>>::Send(Action::Copy),
        tray::choice_of(tray::Event::Quit) is Quit,
        ({
            let page = tray::tray_page(state, error, painted);
            &&& page.toggle == if state.phase == Phase::Recording {
                "Stop & transcribe"@
            } else {
                "Start recording"@
            }
            &&& page.can_copy <==> state.transcript.len() > 0
            &&& error matches Some(words) ==> page.status == words
            &&& error is None ==> page.status == page.tooltip
            &&& page.repaint <==> painted is None || painted->0 != state.phase
        }),
{
}

/// A terminal that the user named is the only one that is tried, and else those that are common are
/// tried one after another until one opens.
pub proof fn law_terminals_are_tried(
    named: Seq<char>,
    words: Seq<char>,
    last: bool,
)
    ensures
        tray::candidates(Some(named)).len() == 1,
        tray::candidates(Some(named))[0] == (named, "-e"@),
        tray::candidates(None) == seq![
            ("alacritty"@, "-e"@),
            ("kitty"@, "--"@),
            ("gnome-terminal"@, "--"@),
            ("konsole"@, "-e"@),
            ("xfce4-terminal"@, "-x"@),
            ("xterm"@, "-e"@),
        ],
        tray::attempted(tray::Attempt::Opened, true, last) == Some(
            Ok::<(), Error<Seq<char>>>(()),
        ),
        tray::attempted(tray::Attempt::Opened, false, last) == Some(
            Ok::<(), Error<Seq<char>>>(()),
        ),
        tray::attempted(tray::Attempt::Missing(words), false, false) is None,
        tray::attempted(tray::Attempt::Missing(words), false, true) == Some(
            Err::<(), Error<Seq<char>>>(Error::NoTerminal),
        ),
        tray::attempted(tray::Attempt::Missing(words), true, last) == Some(
            Err::<(), Error<Seq<char>>>(Error::Outside(words)),
        ),
        tray::attempted(tray::Attempt::Failed(words), false, last) == Some(
            Err::<(), Error<Seq<char>>>(Error::Outside(words)),
        ),
        tray::attempted(tray::Attempt::Failed(words), true, last) == Some(
            Err::<(), Error<Seq<char>>>(Error::Outside(words)),
        ),
{
}

/// An answer brings the state as the recorder has it. A request that copied something counts, and
/// no other one does; what went wrong is shown. Without an answer the last state stays, with the
/// reason.
pub proof fn law_answers_are_shown(
    client: ClientModel,
    action: Action<Seq<char>>,
    state: StateModel,
    words: Seq<char>,
)
    ensures
        ({
            let good = informed(client, action, Ok((state, None)));
            let bad = informed(client, action, Ok((state, Some(words))));
            let none = informed(client, action, Err(words));
            let copied = action is Copy || action is CopyLatest || action is CopyChunk || action is
                CopyText;
            &&& good.state == state && bad.state == state && none.state == client.state
            &&& !good.offline && !bad.offline && none.offline
            &&& bad.error == Some(words)
            &&& none.error == Some("Recorder offline: "@ + words)
            &&& !(action is Status) ==> good.error is None
            &&& bad.copies == client.copies && none.copies == client.copies
            &&& copied && client.copies < u64::MAX ==> good.copies == client.copies + 1
            &&& copied ==> good.copies != client.copies
            &&& !copied ==> good.copies == client.copies
        }),
{
}

/// A recorder that answers is not started. One that is there but does not answer is left alone;
/// else it is tried again and again, and started by the one who may, where the one before has let
/// go.
pub proof fn law_recorder_is_found_or_started(
    launch: Launch,
    words: Seq<char>,
    directory: Seq<char>,
)
    ensures
        launched(launch, Report::Answered, directory).1 is Running,
        launch.tries == 0 ==> launched(
            launch,
            Report::Unanswered { recoverable: false, words },
            directory,
        ).1 == Course::<Error<Seq<char>>>::Failed(Error::NotResponding(words)),
        launch.tries == 0 ==> launched(
            launch,
            Report::Unanswered { recoverable: true, words },
            directory,
        ) == (
            Launch { tries: 1, ..launch },
            Course::<Error<Seq<char>>>::Perform(Errand::Ask),
        ),
        launched(launch, Report::Free(true), directory).1 == Course::<Error<Seq<char>>>::Perform(
            Errand::Spawn,
        ),
        launched(launch, Report::Free(false), directory).1 == Course::<Error<Seq<char>>>::Perform(
            Errand::Sleep,
        ),
        !launch.spawned ==> launched(launch, Report::Locked(true), directory).1 == Course::<
            Error<Seq<char>>,
        >::Perform(Errand::TryRecorder),
        launched(launch, Report::Locked(false), directory).1 == Course::<Error<Seq<char>>>::Perform(
            Errand::Sleep,
        ),
        launched(launch, Report::Spawned(Ok(())), directory).0.spawned,
        launched(launch, Report::Spawned(Err(words)), directory).1 == Course::<
            Error<Seq<char>>,
        >::Failed(Error::Outside(words)),
        launch.tries < 80 ==> launched(launch, Report::Slept, directory) == (
            Launch { tries: (launch.tries + 1) as u32, ..launch },
            Course::<Error<Seq<char>>>::Perform(Errand::Ask),
        ),
        launch.tries >= 80 ==> launched(launch, Report::Slept, directory).1 == Course::<
            Error<Seq<char>>,
        >::Failed(
            Error::RecorderUnavailable(crate::paths::path_join(directory, "daemon.log"@)),
        ),
{
}

/// In the list of microphones, `m` leaves it and `j` and `k` move the mark like the arrow keys. A
/// click beside the list leaves it too, without asking for anything.
pub proof fn law_list_is_left(
    view: InterfaceModel,
    state: StateModel,
    line: usize,
    column: u16,
    row: u16,
    held: bool,
    screen: Rect,
    places: Places<Seq<char>>,
)
    requires
        view.tab_menu is None,
        view.microphone == Some(line),
    ensures
        answer_to(view, state, KeyCode::Char('m'), held, screen, places) == answer_to(
            view,
            state,
            KeyCode::Esc,
            held,
            screen,
            places,
        ),
        answer_to(view, state, KeyCode::Char('j'), held, screen, places) == answer_to(
            view,
            state,
            KeyCode::Down,
            held,
            screen,
            places,
        ),
        answer_to(view, state, KeyCode::Char('k'), held, screen, places) == answer_to(
            view,
            state,
            KeyCode::Up,
            held,
            screen,
            places,
        ),
        hit_at(view.hits, column, row) is None ==> {
            let (after, action, _) = turned(
                view,
                state,
                Event::Mouse(MouseEvent { kind: MouseKind::LeftDown, column, row }),
                screen,
                places,
            );
            after.microphone is None && action is None
        },
{
}

/// Texts have their limits: nothing more goes into a setting that is as long as one may get, a name
/// of a tab has so many characters at most, and the path of a file may be longer.
pub proof fn law_texts_have_limits(
    view: SettingsView<Seq<char>>,
    menu: TabMenu<Seq<char>>,
    more: Seq<char>,
)
    requires
        settings_ui::in_order(view),
    ensures
        settings_ui::chosen_text(view) is Some && crate::text::byte_len(
            settings_ui::chosen_text(view)->0,
        ) >= 2048 ==> settings_ui::chosen_text(settings_ui::pasted(view, more))
            == settings_ui::chosen_text(view),
        menu.mode == Mode::Name && menu.name.len() <= 48 ==> tab_menu::inserted(
            menu,
            more,
        ).name.len() <= 48,
        menu.mode == Mode::Export && menu.name.len() <= 2048 ==> tab_menu::inserted(
            menu,
            more,
        ).name.len() <= 2048,
        !menu.replace && menu.mode == Mode::Export && menu.name.len() + visible(more).len() <= 2048
            ==> tab_menu::inserted(menu, more).name == menu.name + visible(more),
{
    if let Some(words) = settings_ui::chosen_text(view) {
        assert(visible(more).take(0) =~= Seq::<char>::empty());
        assert(words + Seq::<char>::empty() =~= words);
    }
}

/// While a text of the settings is edited, the control key with `u` empties it, and the enter and
/// escape keys end the editing and keep it.
pub proof fn law_editing_ends(view: SettingsView<Seq<char>>)
    requires
        view.editing,
        settings_ui::in_order(view),
    ensures
        ({
            let clear = KeyEvent {
                code: KeyCode::Char('u'),
                press: true,
                control: true,
                alt: false,
            };
            let (cleared, _, _) = settings_ui::keyed(view, clear);
            &&& settings_ui::chosen_text(view) is Some ==> settings_ui::chosen_text(cleared)
                == Some(Seq::<char>::empty()) && cleared.editing
            &&& settings_ui::keyed(view, pressed(KeyCode::Enter)).0 == (SettingsView {
                editing: false,
                ..view
            })
            &&& settings_ui::keyed(view, pressed(KeyCode::Esc)).0 == (SettingsView {
                editing: false,
                ..view
            })
        }),
{
}

/// The welcome counts from when there was first nothing to show and nothing to do, and is over as
/// soon as there is.
pub proof fn law_welcome_has_its_start(
    view: InterfaceModel,
    state: StateModel,
    copies: u64,
    level: u64,
    now: i64,
)
    ensures
        ({
            let after = observed(view, state, copies, level, now);
            let quiet = state.transcript.len() == 0 && state.phase != Phase::Recording
                && state.phase != Phase::Transcribing;
            &&& !quiet ==> after.welcome_started is None
            &&& quiet && view.welcome_started is None ==> after.welcome_started == Some(now)
            &&& quiet && view.welcome_started is Some ==> after.welcome_started
                == view.welcome_started
        }),
{
}

/// The wheel moves the choice in the settings, where the mouse is over them and no text is edited.
pub proof fn law_wheel_walks_the_settings(
    view: SettingsView<Seq<char>>,
    column: u16,
    row: u16,
    screen: Rect,
)
    ensures
        ({
            let inside = in_rect(
                settings_ui::dialog_area(view.settings.provider, screen),
                column as int,
                row as int,
            );
            let up = settings_ui::moused(
                view,
                MouseEvent { kind: MouseKind::ScrollUp, column, row },
                screen,
            );
            let down = settings_ui::moused(
                view,
                MouseEvent { kind: MouseKind::ScrollDown, column, row },
                screen,
            );
            &&& !inside || view.editing ==> up == (view, false, None::<Action<Seq<char>>>) && down
                == (view, false, None::<Action<Seq<char>>>)
            &&& inside && !view.editing ==> up == settings_ui::keyed(view, pressed(KeyCode::Up))
                && down == settings_ui::keyed(view, pressed(KeyCode::Down))
        }),
{
}

/// The dialogs stand in the middle of the screen, and the menu of a tab where it was asked for, as
/// far as it has room there.
pub proof fn law_dialogs_have_their_place(
    menu: TabMenu<Seq<char>>,
    provider: Provider,
    screen: Rect,
)
    requires
        crate::geometry::whole(screen),
        screen.width >= 20,
        screen.height >= 12,
    ensures
        ({
            let dialog = settings_ui::dialog_area(provider, screen);
            let left = dialog.x - screen.x;
            let right = screen.x + screen.width - dialog.x - dialog.width;
            let above = dialog.y - screen.y;
            let below = screen.y + screen.height - dialog.y - dialog.height;
            &&& 0 <= left <= right <= left + 1
            &&& 0 <= above <= below <= above + 1
            &&& dialog.width <= 90
        }),
        menu.mode != Mode::Menu ==> ({
            let area = tab_menu::menu_area(menu, screen);
            let left = area.x - screen.x;
            let right = screen.x + screen.width - area.x - area.width;
            let above = area.y - screen.y;
            let below = screen.y + screen.height - area.y - area.height;
            &&& 0 <= left <= right <= left + 1
            &&& 0 <= above <= below <= above + 1
            &&& area.height == 7
            &&& area.width <= 60
        }),
        menu.mode == Mode::Menu ==> ({
            let area = tab_menu::menu_area(menu, screen);
            &&& area.width == 18
            &&& area.height == 5
            &&& area.x + area.width <= screen.x + screen.width
            &&& area.y + area.height <= screen.y + screen.height
            &&& menu.position.0 + 18 <= screen.x + screen.width ==> area.x == menu.position.0
            &&& menu.position.1 + 5 <= screen.y + screen.height ==> area.y == menu.position.1
        }),
{
}

/// Keys that ask the recorder for something change nothing that is shown but that marks and
/// questions are taken back; a clearing shows the text from its top.
pub proof fn law_asking_changes_no_view(
    view: InterfaceModel,
    state: StateModel,
    held: bool,
    screen: Rect,
    places: Places<Seq<char>>,
)
    requires
        undisturbed(view),
    ensures
        ({
            let plain = InterfaceModel { selection: None, confirm: false, ..view };
            &&& answer_to(view, state, KeyCode::Char(' '), held, screen, places).0 == plain
            &&& answer_to(view, state, KeyCode::Char('c'), held, screen, places).0 == plain
            &&& answer_to(view, state, KeyCode::Char('t'), held, screen, places).0 == plain
            &&& answer_to(view, state, KeyCode::Esc, held, screen, places).0 == plain
            &&& view.confirm ==> answer_to(
                view,
                state,
                KeyCode::Char('x'),
                held,
                screen,
                places,
            ).0 == (InterfaceModel { scroll: 0, ..plain })
            &&& !view.confirm ==> answer_to(
                view,
                state,
                KeyCode::Char('x'),
                held,
                screen,
                places,
            ).0 == (InterfaceModel { confirm: true, ..plain })
            &&& answer_to(view, state, KeyCode::Char('q'), held, screen, places).0 == (
            InterfaceModel { selection: None, ..view })
        }),
{
}

/// Whether something is done with a key.
pub open spec fn bound(code: KeyCode) -> bool {
    match code {
        KeyCode::Char(c) => c == ' ' || c == 'c' || c == 't' || c == 'x' || c == 'q' || c == 's'
            || c == '+' || c == 'e' || c == '[' || c == ']' || c == 'j' || c == 'k',
        KeyCode::F(n) => n == 2,
        KeyCode::Tab => true,
        KeyCode::BackTab => true,
        KeyCode::Esc => true,
        KeyCode::Up => true,
        KeyCode::Down => true,
        KeyCode::Home => true,
        _ => false,
    }
}

/// Any other key does nothing but take back marks and questions.
pub proof fn law_other_keys_do_nothing(
    view: InterfaceModel,
    state: StateModel,
    code: KeyCode,
    held: bool,
    screen: Rect,
    places: Places<Seq<char>>,
)
    requires
        undisturbed(view),
        !bound(code),
    ensures
        answer_to(view, state, code, held, screen, places) == (
            InterfaceModel { selection: None, confirm: false, ..view },
            None::<Action<Seq<char>>>,
            false,
        ),
{
}

/// Without a tab there is nothing to name or to save as a file.
pub proof fn law_dialogs_need_a_tab(
    view: InterfaceModel,
    state: StateModel,
    held: bool,
    screen: Rect,
    places: Places<Seq<char>>,
)
    requires
        undisturbed(view),
        state.tabs.len() == 0,
    ensures
        answer_to(view, state, KeyCode::Char('e'), held, screen, places).0.tab_menu is None,
        answer_to(view, state, KeyCode::F(2), held, screen, places).0.tab_menu is None,
        answer_to(view, state, KeyCode::Tab, held, screen, places).1 is None,
        answer_to(view, state, KeyCode::BackTab, held, screen, places).1 is None,
{
}

/// A mouse ends the interface only by a click on the key that does.
pub proof fn law_mouse_ends_nothing(
    view: InterfaceModel,
    state: StateModel,
    mouse: MouseEvent,
    screen: Rect,
    places: Places<Seq<char>>,
)
    ensures
        turned(view, state, Event::Mouse(mouse), screen, places).2 ==> {
            &&& undisturbed(view)
            &&& mouse.kind == MouseKind::LeftDown
            &&& hit_at(view.hits, mouse.column, mouse.row) matches Some(Hit::Key(key)) && key.press
                && key.code == KeyCode::Char('q')
        },
        !(turned(view, state, Event::Other, screen, places).2),
        turned(view, state, Event::Other, screen, places).1 is None,
{
}

/// A click on the first line of the settings closes them at its end, and does nothing elsewhere on
/// it.
pub proof fn law_settings_have_a_close_button(
    view: SettingsView<Seq<char>>,
    column: u16,
    screen: Rect,
)
    requires
        crate::geometry::whole(screen),
        screen.width >= 20,
        screen.height >= 12,
    ensures
        ({
            let area = settings_ui::dialog_area(view.settings.provider, screen);
            let answer = settings_ui::moused(
                view,
                MouseEvent { kind: MouseKind::LeftDown, column, row: area.y },
                screen,
            );
            &&& answer.0 == view
            &&& answer.2 is None
            &&& area.x <= column < area.x + area.width - 9 ==> !answer.1
            &&& area.x + area.width - 9 <= column < area.x + area.width ==> answer.1
        }),
{
}

} // verus!
