//! The screen: its layout, its text and its click targets.
use pasteface::chips::{arrange, queue, QueueRow};
use pasteface::export::Places;
use pasteface::geometry::Rect;
use pasteface::input::{Event, Hit, KeyCode, KeyEvent, MouseEvent, MouseKind};
use pasteface::interface::{microphone_index, Interface};
use pasteface::model::{Action, Chunk, ChunkStatus, Phase, State, TranscriptTab};
use pasteface::palette::{fade, phase_tint, status_tint, BG, MINT};
use pasteface::queue::{ages, queue_items, Times, SHOWN};
use pasteface::scene::{
    bands, lengths_shown, microphone_picker, place_picker, Band, Body, Picture, Tone,
};
use pasteface::selection::Selection;
use pasteface::settings_ui::SettingsView;
use pasteface::shortcuts::{shortcut_controls, shortcuts};
use pasteface::tab_bar::TabBar;
use ratatui::buffer::Buffer;
use ratatui::widgets::{Paragraph, Widget, Wrap};
use std::time::Duration;

/// The bits of one, as an `f32`.
const FULL: u32 = 0x3F80_0000;

/// The opacity of a chunk that has been done for so long, as bits.
fn opacity(age: Option<u64>) -> u32 {
    let opacity: f32 = match age {
        Some(nanos) => {
            let elapsed = Duration::from_nanos(nanos).as_secs_f32();
            (1. - (elapsed - 3.5) / 0.5).clamp(0., 1.)
        }
        None => 1.,
    };
    opacity.to_bits()
}

fn opacities(state: &State, times: &mut Times, now: i64) -> Vec<u32> {
    ages(&state.chunks, times, now).into_iter().map(opacity).collect()
}

fn items(state: &State, times: &mut Times, now: i64) -> Vec<(usize, f32)> {
    queue_items(&opacities(state, times, now))
        .into_iter()
        .map(|(index, opacity)| (index, f32::from_bits(opacity)))
        .collect()
}

/// The opacities of the chunks as an interface is about to show them.
fn seen(view: &Interface, state: &State, now: i64) -> Vec<u32> {
    view.ages(state, now).into_iter().map(opacity).collect()
}

fn millis(n: i64) -> i64 {
    n * 1_000_000
}

fn chunk(id: &str, text: &str, status: ChunkStatus, seconds: f64) -> Chunk {
    Chunk {
        tab_id: "default".to_string(),
        title: String::new(),
        id: id.to_string(),
        status,
        text: text.to_string(),
        error: None,
        seconds: seconds.to_bits(),
    }
}

/// How long the recordings of the selected tab are together.
fn total(state: &State) -> u64 {
    lengths_shown(state).into_iter().map(f64::from_bits).sum::<f64>().to_bits()
}

/// The screen as an interface lays it out.
fn laid_out(
    view: &mut Interface,
    state: &State,
    error: &Option<String>,
    screen: Rect,
    now: i64,
) -> Option<Picture> {
    let opacities = seen(view, state, now);
    view.draw(state, total(state), &opacities, error, screen, now)
}

fn places() -> Places {
    Places { home: Some("/home/me".to_string()), current: Ok("/work".to_string()) }
}

fn key(code: KeyCode) -> Event {
    Event::Key(KeyEvent::plain(code))
}

fn mouse(kind: MouseKind, column: u16, row: u16) -> Event {
    Event::Mouse(MouseEvent { kind, column, row })
}

fn put(buffer: &mut Buffer, area: Rect, text: &str) {
    let area = ratatui::layout::Rect::new(area.x, area.y, area.width, area.height);
    Paragraph::new(text.to_string()).wrap(Wrap { trim: false }).render(area, buffer);
}

/// The screen as a terminal shows it.
fn render(picture: &Picture, screen: Rect) -> Buffer {
    let area = ratatui::layout::Rect::new(screen.x, screen.y, screen.width, screen.height);
    let mut buffer = Buffer::empty(area);
    put(&mut buffer, picture.bar.plus, " + ");
    for tab in &picture.bar.tabs {
        put(&mut buffer, tab.area, &tab.text);
    }
    let middle = picture.rows[1];
    match &picture.body {
        Body::Welcome { area, lines, .. } => {
            let lines: Vec<String> =
                lines.iter().map(|line| format!("{}{}", line.words, line.strong)).collect();
            put(&mut buffer, *area, &lines.join("\n"))
        },
        Body::Text { text, heading, .. } => {
            put(&mut buffer, Rect::new(middle.x, middle.y, middle.width, 1), heading);
            let below = Rect::new(middle.x, middle.y + 1, middle.width, middle.height - 1);
            put(&mut buffer, below, text);
        }
    }
    let status = picture.rows[2];
    let mut line = picture.label.clone();
    if let Some(duration) = &picture.duration {
        line.push_str(duration);
    }
    put(&mut buffer, Rect::new(status.x + 1, status.y + 1, status.width - 2, 1), &line);
    put(&mut buffer, picture.microphone.0, &picture.microphone.1);
    put(&mut buffer, picture.notice.0, &picture.notice.1);
    for (i, line) in picture.shortcuts.iter().enumerate() {
        let keys = picture.rows[4];
        put(&mut buffer, Rect::new(keys.x, keys.y + i as u16, keys.width, 1), line);
    }
    for chip in &picture.queue.chips {
        put(&mut buffer, chip.area, &chip.text);
    }
    buffer
}

fn text_of(buffer: &Buffer) -> String {
    buffer.content.iter().map(|cell| cell.symbol()).collect()
}

#[test]
fn completed_queue_items_fade_without_removing_transcripts() {
    let mut state = State::default();
    state.chunks.push(chunk("chunk", "Keep this transcript", ChunkStatus::Ready, 10.));
    let mut completed = Times::new();
    let now = 0;
    // What was done before anybody looked stays hidden, even after a look at nothing.
    assert!(items(&State::default(), &mut completed, now).is_empty());
    assert!(items(&state, &mut completed, now).is_empty());
    state.chunks[0].status = ChunkStatus::Transcribing;
    assert_eq!(items(&state, &mut completed, now), vec![(0, 1.)]);
    state.chunks[0].status = ChunkStatus::Ready;
    assert_eq!(items(&state, &mut completed, now), vec![(0, 1.)]);
    assert_eq!(items(&state, &mut completed, now + millis(3500)), vec![(0, 1.)]);
    assert_eq!(items(&state, &mut completed, now + millis(3750)), vec![(0, 0.5)]);
    assert!(items(&state, &mut completed, now + millis(4000)).is_empty());
    assert_eq!(state.chunks[0].text, "Keep this transcript");
    state.chunks[0].status = ChunkStatus::Queued;
    assert_eq!(items(&state, &mut completed, now + millis(5000)), vec![(0, 1.)]);
    state.chunks[0].status = ChunkStatus::Ready;
    assert_eq!(items(&state, &mut completed, now + millis(6000)), vec![(0, 1.)]);
    assert_eq!(fade(MINT, 0_f32.to_bits(), MINT), BG);
}

#[test]
fn what_is_known_of_chunks_that_are_gone_is_forgotten() {
    let mut times = Times::new();
    let first = vec![chunk("a", "", ChunkStatus::Queued, 0.), chunk("b", "", ChunkStatus::Queued, 0.)];
    assert_eq!(ages(&first, &mut times, 0), vec![None, None]);
    assert_eq!(times.get("a"), Some(None));
    let second = vec![chunk("b", "", ChunkStatus::Ready, 0.)];
    assert_eq!(ages(&second, &mut times, 5), vec![Some(0)]);
    assert_eq!(times.get("a"), None);
    assert_eq!(times.get("b"), Some(Some(5)));
    assert_eq!(ages(&second, &mut times, 5), vec![Some(0)]);
    assert_eq!(ages(&second, &mut times, 5 + SHOWN - 1), vec![Some(SHOWN as u64 - 1)]);
    // A clock that was set back makes nothing younger than new.
    assert_eq!(ages(&second, &mut times, 4), vec![Some(0)]);
}

#[test]
fn a_chunk_is_hidden_once_nothing_of_it_is_to_be_seen() {
    let mut state = State::default();
    state.chunks.push(chunk("a", "", ChunkStatus::Queued, 0.));
    let mut times = Times::new();
    opacities(&state, &mut times, 0);
    state.chunks[0].status = ChunkStatus::Ready;
    assert_eq!(items(&state, &mut times, 0), vec![(0, 1.)]);
    // So close to the end an opacity is rounded: forty nanoseconds are lost, a thousand are not.
    assert!(items(&state, &mut times, SHOWN - 40).is_empty());
    assert_eq!(items(&state, &mut times, SHOWN - 1000).len(), 1);
    let bits = |value: f32| value.to_bits();
    let all = vec![bits(0.), bits(0.25), bits(-0.), bits(-1.), bits(f32::NAN), bits(1.)];
    assert_eq!(queue_items(&all), vec![(1, bits(0.25)), (5, bits(1.))]);
    assert_eq!(queue_items(&vec![1, bits(f32::INFINITY)]).len(), 2);
}

#[test]
fn colors_fade_into_the_background() {
    let between = (68, 73, 80);
    assert_eq!(fade(MINT, FULL, between), MINT);
    assert_eq!(fade(MINT, 0, between), BG);
    assert_eq!(fade((118, 123, 130), 0.5_f32.to_bits(), between), between);
    assert_eq!(phase_tint(Phase::Error), (255, 124, 139));
    assert_eq!(status_tint(ChunkStatus::Queued), (132, 179, 230));
}

#[test]
fn queue_chips_fit_one_row_with_duration_and_cancellation() {
    let mut state = State::default();
    for status in [ChunkStatus::Queued, ChunkStatus::Transcribing, ChunkStatus::Canceled] {
        state.chunks.push(chunk("", "", status, 65.));
    }
    let area = Rect::new(0, 0, 80, 1);
    let row = queue(&state.chunks, &vec![(0, FULL), (1, FULL), (2, FULL)], area);
    let mut buffer = Buffer::empty(ratatui::layout::Rect::new(0, 0, 80, 1));
    for chip in &row.chips {
        put(&mut buffer, chip.area, &chip.text);
    }
    let text = text_of(&buffer);
    assert!(text.contains("01 WAIT 01:05"));
    assert!(text.contains("02 ◌ TEXT 01:05"));
    assert!(text.contains("03 CANCEL 01:05"));
    assert!(row.more.is_none());
    assert_eq!(row.chips[1].area, Rect::new(14, 0, 15, 1));
    assert_eq!(row.chips[2].area, Rect::new(30, 0, 15, 1));
}

#[test]
fn chips_are_as_wide_as_a_terminal_shows_them() {
    // The width is counted in cells: the text of this chip has more bytes than cells.
    let chunks = vec![chunk("", "", ChunkStatus::Recording, 0.)];
    let row = queue(&chunks, &vec![(0, FULL)], Rect::new(0, 0, 40, 1));
    assert_eq!(row.chips[0].text, "01 ● REC 00:00");
    assert_eq!(row.chips[0].area.width, 14);
    assert_eq!(row.chips[0].text.len(), 16);
}

fn shown(row: &QueueRow) -> Vec<String> {
    row.chips.iter().map(|chip| chip.text[..2].to_string()).collect()
}

#[test]
fn current_work_comes_before_what_is_done_and_the_rest_is_counted() {
    let mut chunks = Vec::new();
    for status in [
        ChunkStatus::Ready,
        ChunkStatus::Canceled,
        ChunkStatus::Ready,
        ChunkStatus::Failed,
        ChunkStatus::Queued,
        ChunkStatus::Recording,
    ] {
        chunks.push(chunk("", "", status, 0.));
    }
    let all: Vec<(usize, u32)> = (0..6).map(|i| (i, FULL)).collect();
    let widths = vec![10; 6];
    // Room for three chips beside the count of the others.
    let row = arrange(&chunks, &all, &widths, Rect::new(5, 2, 41, 1));
    assert_eq!(shown(&row), vec!["04", "05", "06"]);
    assert_eq!(row.chips[0].area, Rect::new(5, 2, 10, 1));
    assert_eq!(row.chips[1].area, Rect::new(16, 2, 10, 1));
    assert_eq!(row.more, Some((Rect::new(38, 2, 8, 1), " +3 more".to_string())));
    // With more room, the newest finished chunk comes next.
    let row = arrange(&chunks, &all, &widths, Rect::new(5, 2, 52, 1));
    assert_eq!(shown(&row), vec!["03", "04", "05", "06"]);
    // With room for all, nothing is counted.
    let row = arrange(&chunks, &all, &widths, Rect::new(0, 0, 65, 1));
    assert_eq!(row.chips.len(), 6);
    assert!(row.more.is_none());
    // Without any room nothing is shown.
    let row = arrange(&chunks, &all, &widths, Rect::new(0, 0, 65, 0));
    assert!(row.chips.is_empty());
    let row = arrange(&chunks, &all, &widths, Rect::new(0, 0, 8, 1));
    assert!(row.chips.is_empty() && row.more.is_none());
}

#[test]
fn recording_has_one_status_line_and_no_duplicate_meter() {
    let state = State {
        phase: Phase::Recording,
        seconds: 12_f64.to_bits(),
        level: 0.5_f32.to_bits(),
        ..State::default()
    };
    let screen = Rect::new(0, 0, 100, 30);
    let mut view = Interface::new(0);
    let picture = laid_out(&mut view, &state, &None, screen, 0).unwrap();
    let text = text_of(&render(&picture, screen));
    assert_eq!(text.matches("Listening").count(), 1);
    assert_eq!(text.matches("00:12").count(), 1);
    assert!(!text.contains("queued"));
    assert!(!text.contains("░"));
    assert!(text.contains("MIC"));
    assert_eq!(picture.label, " ● Listening");
    assert_eq!(picture.duration.as_deref(), Some("  00:12"));
    assert_eq!(picture.rows[2].height, 7);
    assert!(picture.meter.is_some());
}

#[test]
fn tabs_render_selected_text_and_expose_click_targets() {
    let state = State {
        transcript: "First thought.\nSecond thought.".to_string(),
        phase: Phase::Ready,
        chunks: ["First thought.", "Second thought."]
            .iter()
            .enumerate()
            .map(|(i, text)| {
                chunk(&format!("chunk-{i}"), text, ChunkStatus::Ready, 12.)
            })
            .collect(),
        ..State::default()
    };
    let screen = Rect::new(0, 0, 100, 30);
    let mut view = Interface::new(0);
    let picture = laid_out(&mut view, &state, &None, screen, 0).unwrap();
    let buffer = render(&picture, screen);
    let text = text_of(&buffer);
    assert!(text.contains("Second thought."));
    assert!(text.contains("First thought."));
    assert!(text.contains("00:24 recorded · 4 words"));
    assert!(view.hits.iter().any(|(_, hit)| matches!(hit, Hit::Tab(0))));
    let area = view.transcript_area;
    for y in area.y..area.bottom() {
        assert_ne!(buffer[(area.x, y)].symbol(), "│");
    }
}

#[test]
fn welcome_and_transcript_fit() {
    for (width, height) in [(100, 36), (44, 14), (20, 8)] {
        let screen = Rect::new(0, 0, width, height);
        let mut view = Interface::new(0);
        let first = laid_out(&mut view, &State::default(), &None, screen, 0);
        assert_eq!(first.is_some(), width >= 44);
        let state = State {
            transcript: "A thought worth keeping.".to_string(),
            phase: Phase::Ready,
            ..State::default()
        };
        let second = laid_out(&mut Interface::new(0), &state, &None, screen, 0);
        if width >= 44 {
            let first = first.unwrap();
            match &first.body {
                Body::Welcome { area, lines, face } => {
                    assert_eq!(face.is_some(), height == 36);
                    assert!(area.height as usize <= lines.len());
                    let [.., thought, hint] = &lines[..] else { panic!("Expected more lines") };
                    assert_eq!(thought.words, "A little space to ");
                    assert_eq!((thought.strong.as_str(), thought.quiet), ("think out loud.", false));
                    assert_eq!((hint.words.as_str(), hint.quiet), ("Press Space to record.", true));
                    assert!(area.bottom() <= first.rows[1].bottom());
                }
                Body::Text { .. } => panic!("Expected the welcome"),
            }
            let text = text_of(&render(&second.unwrap(), screen));
            assert!(text.contains("A thought worth keeping."));
        } else {
            assert!(second.is_none());
            assert!(view.hits.is_empty());
        }
    }
}

#[test]
fn the_screen_is_divided_from_margin_to_margin() {
    let screen = Rect::new(0, 0, 60, 20);
    let picture = laid_out(&mut Interface::new(0), &State::default(), &None, screen, 0).unwrap();
    assert_eq!(picture.rows.len(), 5);
    for row in &picture.rows {
        assert_eq!((row.x, row.width), (1, 58));
    }
    assert_eq!(picture.rows[0], Rect::new(1, 0, 58, 1));
    assert_eq!(picture.rows[4].bottom(), 20);
    assert_eq!(
        bands(Phase::Recording, 60),
        vec![
            Band::Length(1),
            Band::Min(4),
            Band::Length(7),
            Band::Length(1),
            Band::Length(picture.shortcuts.len() as u16),
        ]
    );
}

#[test]
fn rows_are_stacked_where_there_is_room() {
    for phase in [Phase::Idle, Phase::Recording] {
        let state = State { phase, ..State::default() };
        for width in [44, 61, 120] {
            for height in (14..=60).step_by(2) {
                let screen = Rect::new(3, 5, width, height);
                let picture = laid_out(&mut Interface::new(0), &state, &None, screen, 0).unwrap();
                let status = if phase == Phase::Recording { 7 } else { 4 };
                let keys = picture.shortcuts.len() as u16;
                for row in &picture.rows {
                    assert_eq!((row.x, row.width), (4, width - 2));
                    assert!(row.y >= 5 && row.bottom() <= 5 + height);
                }
                if height < 6 + status + keys {
                    continue;
                }
                let text = height - 2 - status - keys;
                let mut top = 5;
                for (row, expected) in picture.rows.iter().zip([1, text, status, 1, keys]) {
                    assert_eq!((row.y, row.height), (top, expected));
                    top += expected;
                }
                assert_eq!(top, 5 + height);
            }
        }
    }
}

#[test]
fn shortcuts_wrap_and_can_be_clicked() {
    for width in [42u16, 60, 98, 200] {
        for line in shortcuts(width) {
            assert!(line.chars().count() <= width as usize);
        }
    }
    assert_eq!(shortcuts(200).len(), 1);
    assert_eq!(shortcuts(0).len(), 10);
    let all = shortcut_controls();
    assert_eq!(all.len(), 10);
    assert!(all[2].1.control && !all[1].1.control);
    let screen = Rect::new(0, 0, 100, 30);
    let mut view = Interface::new(0);
    let state = State::default();
    let picture = laid_out(&mut view, &state, &None, screen, 0).unwrap();
    let keys = picture.rows[4];
    let (turn, end) =
        view.event(&state, &mouse(MouseKind::LeftDown, keys.x + 22, keys.y), screen, &places());
    assert!(matches!(turn, Some(Action::Copy)));
    assert!(!end);
}

#[test]
fn notices_say_what_is_going_on() {
    let screen = Rect::new(0, 0, 100, 30);
    let mut state = State { message: "Tab renamed.".to_string(), ..State::default() };
    let mut view = Interface::new(0);
    let picture = laid_out(&mut view, &state, &None, screen, 0).unwrap();
    assert_eq!(picture.notice.1, "Tab renamed.");
    assert_eq!(picture.notice.2, Tone::Quiet);
    let picture = laid_out(&mut view, &state, &Some("Broken".to_string()), screen, 0).unwrap();
    assert_eq!(picture.notice.1, "Broken");
    assert_eq!(picture.notice.2, Tone::Alarming);
    view.copied_until = Some(10);
    let picture = laid_out(&mut view, &state, &None, screen, 9).unwrap();
    assert_eq!(picture.notice.1, "");
    assert_eq!(picture.notice.2, Tone::Glad);
    assert_eq!(picture.toast.unwrap().width, 23);
    assert!(laid_out(&mut view, &state, &None, screen, 10).unwrap().toast.is_none());
    state.phase = Phase::Transcribing;
    assert_eq!(laid_out(&mut view, &state, &None, screen, 10).unwrap().notice.1, "");
    state.message = "Exported to /a.txt".to_string();
    let picture = laid_out(&mut view, &state, &None, screen, 10).unwrap();
    assert_eq!(picture.notice.1, "Exported to /a.txt");
}

#[test]
fn clearing_is_asked_for_twice() {
    let screen = Rect::new(0, 0, 100, 30);
    let state = State::default();
    let mut view = Interface::new(0);
    let (turn, _) = view.event(&state, &key(KeyCode::Char('x')), screen, &places());
    assert!(turn.is_none() && view.confirm);
    let picture = laid_out(&mut view, &state, &None, screen, 0).unwrap();
    assert!(picture.notice.1.starts_with("Clear this tab and its audio?"));
    let area = picture.notice.0;
    let start = picture.notice.1.find("[Esc] dismiss").unwrap();
    let column = area.x + picture.notice.1[..start].chars().count() as u16;
    let (turn, _) =
        view.event(&state, &mouse(MouseKind::LeftDown, column, area.y), screen, &places());
    assert!(turn.is_none() && !view.confirm);
    view.event(&state, &key(KeyCode::Char('x')), screen, &places());
    let (turn, _) = view.event(&state, &key(KeyCode::Char('x')), screen, &places());
    assert!(matches!(turn, Some(Action::Clear)));
    assert!(!view.confirm);
    view.event(&state, &key(KeyCode::Char('x')), screen, &places());
    view.event(&state, &key(KeyCode::Char('j')), screen, &places());
    let (turn, _) = view.event(&state, &key(KeyCode::Char('x')), screen, &places());
    assert!(turn.is_none());
}

#[test]
fn keys_ask_for_what_they_say() {
    let screen = Rect::new(0, 0, 100, 30);
    let mut state = State::default();
    state.tabs.push(TranscriptTab {
        id: "second".to_string(),
        name: "Second".to_string(),
        prior_transcript: String::new(),
    });
    let mut view = Interface::new(0);
    let mut press = |code: KeyCode| view.event(&state, &key(code), screen, &places());
    assert!(matches!(press(KeyCode::Char(' ')).0, Some(Action::Toggle)));
    assert!(matches!(press(KeyCode::Char('c')).0, Some(Action::Copy)));
    assert!(matches!(press(KeyCode::Char('t')).0, Some(Action::ReopenTab)));
    assert!(matches!(press(KeyCode::Esc).0, Some(Action::Cancel)));
    assert!(matches!(press(KeyCode::Tab).0, Some(Action::SelectTab(id)) if id == "second"));
    assert!(matches!(press(KeyCode::Tab).0, Some(Action::SelectTab(id)) if id == "default"));
    assert!(matches!(press(KeyCode::Char('[')).0, Some(Action::SelectTab(id)) if id == "second"));
    assert!(press(KeyCode::Other).0.is_none());
    assert!(press(KeyCode::Char('q')).1);
    let control = Event::Key(KeyEvent {
        code: KeyCode::Char('c'),
        press: true,
        control: true,
        alt: false,
    });
    assert!(matches!(
        view.event(&state, &control, screen, &places()).0,
        Some(Action::CopyLatest)
    ));
    let release = Event::Key(KeyEvent {
        code: KeyCode::Char('q'),
        press: false,
        control: false,
        alt: false,
    });
    assert!(!view.event(&state, &release, screen, &places()).1);
    assert!(view.is_ready(&state));
}

#[test]
fn dialogs_take_the_keys_of_the_interface() {
    let screen = Rect::new(0, 0, 100, 30);
    let state = State::default();
    let mut view = Interface::new(0);
    view.event(&state, &key(KeyCode::Char('s')), screen, &places());
    assert!(view.settings.is_some());
    assert!(!view.event(&state, &key(KeyCode::Char('q')), screen, &places()).1);
    view.event(&state, &key(KeyCode::Esc), screen, &places());
    assert!(view.settings.is_none());
    view.event(&state, &key(KeyCode::Char('+')), screen, &places());
    assert!(!view.event(&state, &key(KeyCode::Char('q')), screen, &places()).1);
    let (turn, _) = view.event(&state, &key(KeyCode::Enter), screen, &places());
    assert!(matches!(turn, Some(Action::CreateTab(name)) if name == "q"));
    assert!(view.tab_menu.is_none());
    view.event(&state, &key(KeyCode::F(2)), screen, &places());
    view.event(&state, &Event::Paste("Notes".to_string()), screen, &places());
    let (turn, _) = view.event(&state, &key(KeyCode::Enter), screen, &places());
    assert!(matches!(turn, Some(Action::RenameTab { name, .. }) if name == "Notes"));
    view.event(&state, &key(KeyCode::Char('e')), screen, &places());
    let (turn, _) = view.event(&state, &key(KeyCode::Enter), screen, &places());
    assert!(
        matches!(turn, Some(Action::ExportTab { path, .. }) if path == "/work/Transcript_1.txt")
    );
}

#[test]
fn the_list_of_microphones_takes_all_input() {
    let screen = Rect::new(0, 0, 100, 30);
    let state = State {
        transcript: "words".to_string(),
        phase: Phase::Ready,
        ..State::default()
    };
    let open = || {
        let mut view = Interface::new(0);
        laid_out(&mut view, &state, &None, screen, 0).unwrap();
        view.microphone = Some(0);
        view
    };
    for c in "qx ctes+[]c".chars() {
        let mut view = open();
        let (turn, end) = view.event(&state, &key(KeyCode::Char(c)), screen, &places());
        assert!(turn.is_none() && !end, "{c}");
        assert_eq!(view.microphone, Some(0));
        assert!(!view.confirm && view.tab_menu.is_none() && view.settings.is_none());
    }
    // Over the settings it is the same, and what is pasted does not reach them either.
    let mut view = open();
    view.settings = Some(SettingsView::new(state.backend.clone()));
    if let Some(settings) = view.settings.as_mut() {
        settings.selected = 2;
        settings.editing = true;
    }
    view.event(&state, &Event::Paste("text".to_string()), screen, &places());
    let (turn, end) = view.event(&state, &key(KeyCode::Char('q')), screen, &places());
    assert!(turn.is_none() && !end);
    assert_eq!(view.settings.as_ref().map(|settings| settings.settings.binary.len()), Some(0));
    // A click beside the list closes it, whatever was drawn there before.
    let mut view = open();
    let tab = view.hits.iter().find(|(_, hit)| matches!(hit, Hit::Tab(_))).unwrap().0;
    let (turn, end) =
        view.event(&state, &mouse(MouseKind::LeftDown, tab.x, tab.y), screen, &places());
    assert!(turn.is_none() && !end);
    assert!(view.microphone.is_none());
    for kind in [MouseKind::LeftDrag, MouseKind::LeftUp, MouseKind::RightDown] {
        let mut view = open();
        let (turn, end) = view.event(&state, &mouse(kind, tab.x, tab.y), screen, &places());
        assert!(turn.is_none() && !end && view.microphone.is_some() && view.tab_menu.is_none());
    }
    let mut view = open();
    view.event(&state, &key(KeyCode::Esc), screen, &places());
    assert!(view.event(&state, &key(KeyCode::Char('q')), screen, &places()).1);
}

#[test]
fn lengths_add_up_as_they_were_recorded() {
    let screen = Rect::new(0, 0, 100, 30);
    let mut state =
        State { transcript: "words".to_string(), phase: Phase::Ready, ..State::default() };
    for i in 0..3 {
        state.chunks.push(chunk(&format!("{i}"), "", ChunkStatus::Ready, 16000. / 48000.));
    }
    state.chunks.push(chunk("other", "", ChunkStatus::Ready, 7.));
    state.chunks[3].tab_id = "elsewhere".to_string();
    assert_eq!(lengths_shown(&state).len(), 3);
    let picture = laid_out(&mut Interface::new(0), &state, &None, screen, 0).unwrap();
    match picture.body {
        Body::Text { heading, .. } => assert_eq!(heading, "00:01 recorded · 1 words"),
        Body::Welcome { .. } => panic!("Expected a text"),
    }
}

#[test]
fn many_microphones_matter_only_in_their_list() {
    let screen = Rect::new(0, 0, 100, 30);
    let state = State { devices: vec![String::new(); 70000], ..State::default() };
    assert!(laid_out(&mut Interface::new(0), &state, &None, screen, 0).is_some());
    let edge = Rect::new(0, 0, u16::MAX - 1, 14);
    assert!(laid_out(&mut Interface::new(0), &State::default(), &None, edge, 0).is_some());
}

#[test]
fn marked_text_is_copied() {
    let screen = Rect::new(0, 0, 100, 30);
    let state = State {
        transcript: "words to keep".to_string(),
        phase: Phase::Ready,
        ..State::default()
    };
    let mut view = Interface::new(0);
    laid_out(&mut view, &state, &None, screen, 0).unwrap();
    let area = view.transcript_area;
    view.text_cells = vec!["words to keep".chars().map(|c| c.to_string()).collect()];
    assert!(view.is_ready(&state));
    view.event(&state, &mouse(MouseKind::LeftDown, area.x, area.y), screen, &places());
    view.event(&state, &mouse(MouseKind::LeftDrag, area.x + 4, area.y), screen, &places());
    let (turn, _) =
        view.event(&state, &mouse(MouseKind::LeftUp, area.x + 4, area.y), screen, &places());
    assert!(matches!(turn, Some(Action::CopyText(text)) if text == "words"));
    assert_eq!(view.selection.unwrap().paint(area).len(), 5);
    view.event(&state, &mouse(MouseKind::ScrollDown, area.x, area.y), screen, &places());
    assert!(view.selection.is_none());
    assert_eq!(view.scroll, 3);
    view.event(&state, &mouse(MouseKind::ScrollUp, area.x, area.y), screen, &places());
    assert_eq!(view.scroll, 0);
    view.event(&state, &key(KeyCode::Down), screen, &places());
    assert_eq!(view.scroll, 1);
}

#[test]
fn reverse_drag_copies_only_text_without_padding() {
    let cells = ["first words  ", "second line  "]
        .iter()
        .map(|line| line.chars().map(|c| c.to_string()).collect::<Vec<_>>())
        .collect::<Vec<_>>();
    let area = Rect::new(2, 3, 13, 2);
    let mut selection = Selection::new(7, 4);
    selection.drag(8, 3, area);
    assert_eq!(selection.text(&cells, area), "words\nsecond");
    let mut forward = Selection::new(8, 3);
    forward.drag(7, 4, area);
    assert_eq!(forward.text(&cells, area), "words\nsecond");
    let mut beyond = Selection::new(8, 3);
    beyond.drag(200, 200, area);
    assert_eq!(beyond.head, (4, 14));
    assert_eq!(Selection::new(8, 3).text(&cells, area), "");
    assert!(!forward.contains(7, 3) && forward.contains(8, 3) && !forward.contains(8, 4));
}

#[test]
fn the_selected_tab_stays_in_sight() {
    let mut state = State::default();
    for i in 0..12 {
        state.tabs.push(TranscriptTab {
            id: format!("tab-{i}"),
            name: format!("A rather long name {i}"),
            prior_transcript: String::new(),
        });
    }
    for tab in 0..state.tabs.len() {
        let bar = TabBar::new(&state, tab, Rect::new(1, 0, 42, 1));
        assert!(bar.tabs.iter().any(|label| label.index == tab));
        assert_eq!(bar.before.is_some(), bar.tabs[0].index > 0);
    }
    let bar = TabBar::new(&state, 0, Rect::new(1, 0, 42, 1));
    assert_eq!(bar.plus, Rect::new(40, 0, 3, 1));
    assert_eq!(bar.tabs[0].text, " Transcript 1 ");
    assert_eq!(bar.tabs[1].text, " A rather long nam… ");
    assert!(bar.after.is_some());
    state.closed_tabs.push(state.tabs[1].clone());
    let bar = TabBar::new(&state, 0, Rect::new(1, 0, 42, 1));
    assert_eq!(bar.reopen, Some(Rect::new(28, 0, 11, 1)));
}

#[test]
fn microphones_are_chosen_from_a_list() {
    let screen = Rect::new(0, 0, 100, 30);
    let mut state = State::default();
    state.devices = (0..40).map(|i| format!("Device {i}")).collect();
    state.selected_device = Some("Device 3".to_string());
    assert_eq!(microphone_index(&state), 4);
    let picker = place_picker(&state, 4, screen, 2);
    assert_eq!(picker.area, Rect::new(15, 2, 70, 26));
    assert_eq!(picker.items[0], "System default microphone");
    assert!(matches!(picker.hits()[0].1, Hit::Microphone(2)));
    // The list is scrolled so far that the last item is in sight.
    let picker = microphone_picker(&state, 40, screen);
    assert_eq!(picker.selected, 40);
    assert_eq!(picker.offset, 17);
    for height in 0..50 {
        for index in 0..50 {
            let picker = microphone_picker(&state, index, Rect::new(0, 0, 100, height));
            assert_eq!(picker.selected, index.min(40));
            let lines = picker.area.height.saturating_sub(2) as usize;
            let expected = if lines == 0 { 0 } else { (picker.selected + 1).saturating_sub(lines) };
            assert_eq!(picker.offset, expected);
        }
    }
    assert_eq!(microphone_picker(&state, 40, Rect::new(0, 0, 8, 30)).offset, 0);
    let mut view = Interface::new(0);
    view.microphone = Some(40);
    let shown = laid_out(&mut view, &state, &None, screen, 0).unwrap().picker.unwrap();
    assert_eq!(shown.offset, 17);
    let line = mouse(MouseKind::LeftDown, shown.area.x + 2, shown.area.y + 1);
    let (turn, _) = view.event(&state, &line, screen, &places());
    assert!(matches!(turn, Some(Action::SelectDevice(Some(name))) if name == "Device 16"));
    assert!(view.microphone.is_none());
    view.microphone = Some(0);
    view.event(&state, &key(KeyCode::Char('j')), screen, &places());
    assert_eq!(view.microphone, Some(1));
    let (turn, _) = view.event(&state, &key(KeyCode::Enter), screen, &places());
    assert!(matches!(turn, Some(Action::SelectDevice(Some(name))) if name == "Device 0"));
    view.microphone = Some(0);
    let (turn, _) = view.event(&state, &key(KeyCode::Enter), screen, &places());
    assert!(matches!(turn, Some(Action::SelectDevice(None))));
}

#[test]
fn the_interface_takes_note_of_the_recorder() {
    let mut state = State { phase: Phase::Recording, ..State::default() };
    let mut view = Interface::new(0);
    view.observe(&state, 0, 50, 79_999_999);
    assert!(view.levels.is_empty());
    view.observe(&state, 1, 50, 80_000_000);
    assert_eq!(view.levels, vec![50]);
    assert_eq!(view.copied_until, Some(2_080_000_000));
    assert!(view.welcome_started.is_none());
    state.phase = Phase::Idle;
    for i in 1..=200 {
        view.observe(&state, 1, 50, 80_000_000 * (i + 1));
    }
    assert_eq!(view.levels.len(), 160);
    assert!(view.levels.iter().all(|level| *level == 0));
    assert_eq!(view.welcome_started, Some(160_000_000));
    assert_eq!(view.poll_time(160_000_000 + 1_999_999_999), 32);
    assert_eq!(view.poll_time(160_000_000 + 2_000_000_000), 80);
}

#[test]
fn what_was_drawn_last_takes_the_click() {
    let screen = Rect::new(0, 0, 100, 30);
    let mut state = State::default();
    state.chunks.push(chunk("a", "", ChunkStatus::Queued, 0.));
    state.chunks[0].tab_id = "elsewhere".to_string();
    let mut view = Interface::new(0);
    let picture = laid_out(&mut view, &state, &None, screen, 0).unwrap();
    let chip = picture.queue.chips[0].area;
    let (turn, _) =
        view.event(&state, &mouse(MouseKind::LeftDown, chip.x, chip.y), screen, &places());
    assert!(matches!(turn, Some(Action::SelectTab(id)) if id == "elsewhere"));
    let tab = picture.bar.tabs[0].area;
    view.event(&state, &mouse(MouseKind::RightDown, tab.x, tab.y), screen, &places());
    assert!(view.tab_menu.is_some());
}
