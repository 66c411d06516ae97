//! The dialog for settings, and the menu of a tab.
use pasteface::config::Provider;
use pasteface::export::Places;
use pasteface::geometry::Rect;
use pasteface::input::{Event, KeyCode, KeyEvent, MouseEvent, MouseKind};
use pasteface::model::{Action, BackendSettings, State};
use pasteface::settings_ui::{Field, SettingsView};
use pasteface::tab_menu::{title, Mode, TabMenu, TabPage};

fn places() -> Places {
    Places { home: Some("/home/me".to_string()), current: Ok("/work".to_string()) }
}

fn key(code: KeyCode) -> Event {
    Event::Key(KeyEvent::plain(code))
}

#[test]
fn mouse_switches_provider_and_opens_microphone_picker() {
    let mut view = SettingsView::new(BackendSettings::default());
    let screen = Rect::new(0, 0, 100, 30);
    let click = |area: Rect, row: u16| MouseEvent {
        kind: MouseKind::LeftDown,
        column: area.x + 3,
        row: area.y + row,
    };
    let local = view.area(screen);
    view.mouse(click(local, 1), screen);
    assert_eq!(view.settings.provider, Provider::OpenAi);
    assert!(!view.fields().iter().any(|f| matches!(f, Field::Acceleration | Field::Binary)));
    let cloud = view.area(screen);
    let (closed, action) = view.mouse(click(cloud, 4), screen);
    assert!(!closed);
    assert!(matches!(action, Some(Action::Devices)));
}

#[test]
fn key_entry_is_masked_and_only_sent_on_save() {
    let mut view = SettingsView::new(BackendSettings {
        provider: Provider::OpenAi,
        ..BackendSettings::default()
    });
    view.selected = 2;
    view.key(KeyEvent::plain(KeyCode::Enter));
    view.paste("sk-test-secret");
    // The keys of the interface stay text while a text is edited.
    view.key(KeyEvent::plain(KeyCode::Char('q')));
    let page = view.draw(Rect::new(0, 0, 100, 24), "System default");
    let text: String = page.lines.join("\n");
    assert!(!text.contains("sk-test-secret"));
    assert!(text.contains("••••"));
    view.key(KeyEvent::plain(KeyCode::Enter));
    view.selected = view.fields().len() - 1;
    let (closed, action) = view.key(KeyEvent::plain(KeyCode::Enter));
    assert!(closed);
    let Some(Action::ConfigureBackend { api_key, settings }) = action else {
        panic!("Expected save")
    };
    assert_eq!(api_key.as_deref(), Some("sk-test-secretq"));
    assert!(!format!("{settings:?}").contains("sk-test"));
    assert!(!format!("{view:?}").contains("sk-test"));
}

#[test]
fn settings_lines_say_what_is_set() {
    let mut view = SettingsView::new(BackendSettings::default());
    view.settings.binary = "/bin/whisper".to_string();
    let screen = Rect::new(0, 0, 100, 24);
    let page = view.draw(screen, "Mic");
    assert_eq!(page.lines[0], "› Provider       ‹ Local Whisper ›");
    assert_eq!(page.lines[1], "  Acceleration   ‹ Auto ›");
    assert_eq!(page.lines[2], "  Whisper binary /bin/whisper");
    assert_eq!(page.lines[4], "  Microphone     Mic");
    assert_eq!(page.lines[5], "  Save settings");
    assert_eq!(page.lines.len(), 9);
    assert_eq!(page.area, Rect::new(5, 6, 90, 11));
    assert_eq!(page.hint, " ↑↓ select · Enter change · Esc close ");
    view.settings.provider = Provider::OpenAi;
    let page = view.draw(screen, "Mic");
    assert_eq!(page.lines[2], "  API key        (not configured)");
    view.settings.api_key_configured = true;
    assert!(view.draw(screen, "Mic").lines[2].ends_with("(configured — enter to replace)"));
    view.key_changed = true;
    assert!(view.draw(screen, "Mic").lines[2].ends_with("(remove saved key)"));
    view.key = "x".repeat(100);
    let page = view.draw(screen, "Mic");
    assert_eq!(page.lines[2].chars().filter(|c| *c == '•').count(), 24);
    let other = SettingsView { key: "y".repeat(24), ..view };
    assert_eq!(other.draw(screen, "Mic").lines, page.lines);
}

#[test]
fn texts_are_edited_within_limits() {
    let mut view = SettingsView::new(BackendSettings::default());
    view.selected = 2;
    view.paste("ignored");
    assert_eq!(view.settings.binary, "");
    view.key(KeyEvent::plain(KeyCode::Enter));
    assert!(view.editing);
    view.paste("/a\nb\u{7}c");
    assert_eq!(view.text().as_deref(), Some("/abc"));
    view.key(KeyEvent::plain(KeyCode::Backspace));
    assert_eq!(view.settings.binary, "/ab");
    view.paste(&"é".repeat(5000));
    // The limit is in bytes before the text, and in characters of it.
    assert_eq!(view.settings.binary.chars().count(), 3 + 2045);
    view.paste("more");
    assert_eq!(view.settings.binary.chars().count(), 2048);
    let erase =
        KeyEvent { code: KeyCode::Char('u'), press: true, control: true, alt: false };
    view.key(erase);
    assert_eq!(view.settings.binary, "");
    let (closed, action) = view.key(KeyEvent::plain(KeyCode::Esc));
    assert!(!closed && action.is_none() && !view.editing);
    for _ in 0..10 {
        view.key(KeyEvent::plain(KeyCode::Down));
    }
    assert_eq!(view.selected, 5);
    for _ in 0..10 {
        view.key(KeyEvent::plain(KeyCode::Up));
    }
    assert_eq!(view.selected, 0);
}

#[test]
fn clicks_outside_the_settings_close_them() {
    let mut view = SettingsView::new(BackendSettings::default());
    let screen = Rect::new(0, 0, 100, 30);
    let area = view.area(screen);
    let at = |column: u16, row: u16| MouseEvent { kind: MouseKind::LeftDown, column, row };
    assert!(view.mouse(at(0, 0), screen).0);
    assert!(view.mouse(at(area.right() - 1, area.y), screen).0);
    assert!(!view.mouse(at(area.x, area.y), screen).0);
    assert!(!view.mouse(at(area.x + 1, area.bottom() - 1), screen).0);
    let scroll =
        MouseEvent { kind: MouseKind::ScrollDown, column: area.x + 1, row: area.y + 1 };
    view.mouse(scroll, screen);
    assert_eq!(view.selected, 1);
}

#[test]
fn a_tab_is_renamed_exported_or_closed() {
    let screen = Rect::new(0, 0, 100, 30);
    let state = State::default();
    assert_eq!(title(&state, 0), "Transcript 1");
    assert_eq!(title(&state, 9), "Transcript 1");
    let mut menu = TabMenu::new(&state, 0, (95, 28), false);
    assert_eq!(menu.area(screen), Rect::new(82, 25, 18, 5));
    menu.event(&key(KeyCode::Down), screen, &places());
    menu.event(&key(KeyCode::Down), screen, &places());
    menu.event(&key(KeyCode::Down), screen, &places());
    let (closed, action) = menu.event(&key(KeyCode::Enter), screen, &places());
    assert!(closed);
    assert!(matches!(action, Some(Action::CloseTab(id)) if id == "default"));
    menu.event(&key(KeyCode::Up), screen, &places());
    menu.event(&key(KeyCode::Enter), screen, &places());
    assert_eq!(menu.mode, Mode::Export);
    assert_eq!(menu.name, "/work/Transcript_1.txt");
    // What is typed takes the place of the suggestion.
    menu.event(&Event::Paste("~/notes".to_string()), screen, &places());
    let (closed, action) = menu.event(&key(KeyCode::Enter), screen, &places());
    assert!(closed);
    assert!(
        matches!(action, Some(Action::ExportTab { path, .. }) if path == "/home/me/notes.txt")
    );
    let nowhere = Places { home: None, current: Err("gone".to_string()) };
    let (closed, action) = menu.event(&key(KeyCode::Enter), screen, &nowhere);
    assert!(!closed && action.is_none());
    assert_eq!(menu.error.as_deref(), Some("Cannot determine home directory"));
    match menu.draw(screen) {
        TabPage::Dialog { heading, error, .. } => {
            assert_eq!(heading, "export transcript · .txt");
            assert_eq!(error, "Cannot determine home directory");
        }
        TabPage::Menu { .. } => panic!("Expected a dialog"),
    }
}

#[test]
fn names_grow_by_what_can_be_shown() {
    let mut menu = TabMenu::create();
    menu.insert("one\n");
    menu.insert(" two");
    let mut other = TabMenu::create();
    other.insert("one\n two");
    assert_eq!(menu.name, "one two");
    assert_eq!(menu.name, other.name);
    menu.insert(&"x".repeat(60));
    assert_eq!(menu.name.len(), 48);
    menu.replace = true;
    menu.insert("three");
    assert_eq!(menu.name, "three");
    assert!(!menu.replace);
}

#[test]
fn names_are_typed_within_limits() {
    let screen = Rect::new(0, 0, 100, 30);
    let mut menu = TabMenu::create();
    let (closed, action) = menu.event(&key(KeyCode::Enter), screen, &places());
    assert!(!closed && action.is_none());
    menu.event(&Event::Paste("x".repeat(60)), screen, &places());
    assert_eq!(menu.name.len(), 48);
    menu.event(&key(KeyCode::Backspace), screen, &places());
    assert_eq!(menu.name.len(), 47);
    let clear = Event::Key(KeyEvent {
        code: KeyCode::Char('c'),
        press: true,
        control: true,
        alt: false,
    });
    menu.event(&clear, screen, &places());
    assert_eq!(menu.name, "");
    menu.event(&key(KeyCode::Char('a')), screen, &places());
    match menu.draw(screen) {
        TabPage::Dialog { area, heading, input, cursor, .. } => {
            assert_eq!(area, Rect::new(20, 11, 60, 7));
            assert_eq!(heading, "new tab");
            assert_eq!(input, "a");
            assert_eq!(cursor, (22, 14));
        }
        TabPage::Menu { .. } => panic!("Expected a dialog"),
    }
    let area = menu.area(screen);
    let click = |column: u16| {
        Event::Mouse(MouseEvent { kind: MouseKind::LeftDown, column, row: area.y + 5 })
    };
    menu.event(&click(area.x + 12), screen, &places());
    assert_eq!(menu.name, "");
    assert!(menu.event(&click(area.x + 24), screen, &places()).0);
    menu.event(&key(KeyCode::Char('b')), screen, &places());
    let (closed, action) = menu.event(&click(area.x + 11), screen, &places());
    assert!(closed);
    assert!(matches!(action, Some(Action::CreateTab(name)) if name == "b"));
    assert!(menu.event(&key(KeyCode::Esc), screen, &places()).0);
}

#[test]
fn pieces_add_up() {
    let screen = Rect::new(0, 0, 100, 30);
    let typed = |pieces: &[&str]| {
        let mut menu = TabMenu::new(&State::default(), 0, (0, 0), true);
        for piece in pieces {
            menu.event(&Event::Paste(piece.to_string()), screen, &places());
        }
        menu.name
    };
    let long = "x".repeat(40);
    for (a, b) in [("ab", "cd"), ("a\nb", "\u{7f}c"), (&long, &long), ("", "")] {
        assert_eq!(typed(&[a, b]), typed(&[&format!("{a}{b}")]));
    }
}

#[test]
fn the_menu_is_chosen_from_with_the_mouse() {
    let screen = Rect::new(0, 0, 100, 30);
    let state = State::default();
    let mut menu = TabMenu::new(&state, 0, (10, 1), false);
    match menu.draw(screen) {
        TabPage::Menu { labels, selected, .. } => {
            assert_eq!(labels, vec!["Rename…", "Export…", "Close tab"]);
            assert_eq!(selected, 0);
        }
        TabPage::Dialog { .. } => panic!("Expected the menu"),
    }
    let click = |row: u16| {
        Event::Mouse(MouseEvent { kind: MouseKind::LeftDown, column: 11, row })
    };
    let (closed, action) = menu.event(&click(4), screen, &places());
    assert!(closed && matches!(action, Some(Action::CloseTab(_))));
    menu.event(&click(2), screen, &places());
    assert_eq!(menu.mode, Mode::Name);
    assert_eq!(menu.name, "Transcript 1");
    menu.event(&key(KeyCode::Char('Z')), screen, &places());
    assert_eq!(menu.name, "Z");
}
