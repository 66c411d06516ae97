//! The screen: what stands where, and what clicks stand for.
use crate::chips;
use crate::chips::{chip_widths, QueueRow, QueueRowModel};
use crate::geometry::{bottom_of, least, less, rect, right_of, smaller, whole, Rect};
use crate::input::{add_hit, hits_view, pressed, Hit, Hits, KeyCode, KeyEvent};
use crate::interface::{tab_is_there, welcoming, Interface, InterfaceModel};
use crate::logo::ANSI_FACE;
use crate::model::{
    phase_label, timestamp, timestamp_text, Chunk, ChunkStatus, Phase, State, StateModel,
};
use crate::queue;
use crate::queue::{all_ages, noted_all, only, shown_items, SHOWN};
use crate::search::{first_match, lemma_filter_none, lemma_filter_step};
use crate::session;
use crate::session::{in_tab, with_status};
use crate::shortcuts;
use crate::shortcuts::{label_hit, lemma_found_by, lemma_occurrence, row_hits, shortcut_rows};
use crate::tab_bar::{tab_hits, tab_row, TabBar, TabBarModel};
use crate::text;
use crate::text::{decimal_digits, word_count};
use vstd::prelude::*;

verus! {

/// How high a part of the screen is to be.
#[derive(Clone, Copy, Debug, PartialEq, Eq, Structural)]
pub enum Band {
    Length(u16),
    Min(u16),
}

/// Whether bands lie in a rectangle, across all of it but for a margin at each side.
pub open spec fn bands_fit(bands: Seq<Rect>, area: Rect, margin: int) -> bool {
    forall|i: int|
        0 <= i < bands.len() ==> (#[trigger] bands[i]).x == area.x + margin && bands[i].width
            == area.width - 2 * margin && area.y <= bands[i].y && bands[i].y + bands[i].height
            <= area.y + area.height
}

/// How high bands are together, where those that may grow get some height.
pub open spec fn heights(bands: Seq<Band>, rest: int) -> int
    decreases bands.len(),
{
    if bands.len() == 0 {
        0
    } else {
        heights(bands.drop_last(), rest) + match bands.last() {
            Band::Length(n) => n as int,
            Band::Min(_) => rest,
        }
    }
}

/// How high bands have to be together.
pub open spec fn needed(bands: Seq<Band>) -> int
    decreases bands.len(),
{
    if bands.len() == 0 {
        0
    } else {
        needed(bands.drop_last()) + match bands.last() {
            Band::Length(n) => n as int,
            Band::Min(n) => n as int,
        }
    }
}

/// How many bands may grow.
pub open spec fn growing(bands: Seq<Band>) -> int
    decreases bands.len(),
{
    if bands.len() == 0 {
        0
    } else {
        growing(bands.drop_last()) + match bands.last() {
            Band::Length(_) => 0int,
            Band::Min(_) => 1int,
        }
    }
}

/// Bands below each other, from margin to margin, where one of them gets the height that the
/// others leave.
pub open spec fn stacked(bands: Seq<Band>, area: Rect, margin: int) -> Seq<Rect> {
    let rest = area.height - heights(bands, 0);
    Seq::new(
        bands.len(),
        |i: int|
            {
                let top = heights(bands.take(i), rest);
                rect(
                    area.x + margin,
                    area.y + top,
                    area.width - 2 * margin,
                    heights(bands.take(i + 1), rest) - top,
                )
            },
    )
}

/// `ratatui::layout::Layout::split`, for bands below each other with a margin at either side:
/// there is a rectangle for each band, it goes from margin to margin, and it lies in the area.
/// Where one band may grow and there is room for all, each of the others is as high as it is to
/// be, and that one gets the rest. How high they are where there is no room for all is left
/// unsaid: the solver behind it walks hash maps that each process seeds anew.
#[verifier::external_body]
fn split(area: Rect, margin: u16, bands: &Vec<Band>) -> (rows: Vec<Rect>)
    requires
        whole(area),
        2 * margin <= area.width,
    ensures
        rows.len() == bands.len(),
        bands_fit(rows@, area, margin as int),
        growing(bands@) == 1 && needed(bands@) <= area.height ==> rows@ == stacked(
            bands@,
            area,
            margin as int,
        ),
{
    let constraints = bands.iter().map(|band| match band {
        Band::Length(n) => ratatui::layout::Constraint::Length(*n),
        Band::Min(n) => ratatui::layout::Constraint::Min(*n),
    });
    let layout = ratatui::layout::Layout::vertical(constraints).horizontal_margin(margin);
    let outside = ratatui::layout::Rect::new(area.x, area.y, area.width, area.height);
    let rows = layout.split(outside);
    rows.iter().map(|r| Rect { x: r.x, y: r.y, width: r.width, height: r.height }).collect()
}

/// Which item of a list is on its first line, as ratatui draws it in a frame of some size, where
/// the items have lines of their own.
pub uninterp spec fn list_start(
    items: Seq<Seq<char>>,
    selected: usize,
    width: u16,
    height: u16,
) -> usize;

/// Whether the items of a list take one line each, and one that is there is selected.
pub open spec fn plain_list(items: Seq<Seq<char>>, selected: usize) -> bool {
    &&& selected < items.len()
    &&& forall|i: int, j: int|
        0 <= i < items.len() && 0 <= j < items[i].len() ==> #[trigger] items[i][j] != '\n'
}

/// How far a list with a line for each item is scrolled, from its start, to show the selected one
/// within a frame: not at all, or so far that it is on the last line.
pub open spec fn scrolled(selected: usize, width: u16, height: u16) -> int {
    if width <= 2 || height <= 2 {
        0
    } else {
        less(selected + 1, height - 2)
    }
}

/// Which item of a list is on its first line.
pub open spec fn list_top(
    items: Seq<Seq<char>>,
    selected: usize,
    width: u16,
    height: u16,
) -> usize {
    if plain_list(items, selected) {
        scrolled(selected, width, height) as usize
    } else {
        list_start(items, selected, width, height)
    }
}

/// `ratatui::widgets::List`, drawn with a selected item in a frame: the first item in sight.
/// Where each item takes a line, the list is scrolled no further than it takes to show the
/// selected one. Where some take more, the answer rests on the items, the selected one and the
/// size alone; what it is there is left unsaid.
#[verifier::external_body]
fn list_offset(items: &Vec<String>, selected: usize, width: u16, height: u16) -> (offset: usize)
    ensures
        plain_list(items.deep_view(), selected) ==> offset == scrolled(selected, width, height),
        !plain_list(items.deep_view(), selected) ==> offset == list_start(
            items.deep_view(),
            selected,
            width,
            height,
        ),
{
    let area = ratatui::layout::Rect::new(0, 0, width, height);
    let list = ratatui::widgets::List::new(items.iter().map(|item| item.as_str()));
    let list = list.block(ratatui::widgets::Block::bordered());
    let mut state = ratatui::widgets::ListState::default().with_selected(Some(selected));
    let mut buffer = ratatui::buffer::Buffer::empty(area);
    ratatui::widgets::StatefulWidget::render(list, area, &mut buffer, &mut state);
    state.offset()
}

/// The list of microphones.
#[derive(Debug)]
pub struct Picker {
    pub area: Rect,
    pub items: Vec<String>,
    pub selected: usize,
    pub offset: usize,
}

/// The list of microphones as contracts see it.
#[verifier::ext_equal]
pub struct PickerModel {
    pub area: Rect,
    pub items: Seq<Seq<char>>,
    pub selected: usize,
    pub offset: usize,
}

impl DeepView for Picker {
    type V = PickerModel;

    open spec fn deep_view(&self) -> PickerModel {
        PickerModel {
            area: self.area,
            items: self.items.deep_view(),
            selected: self.selected,
            offset: self.offset,
        }
    }
}

/// The names in the list: the system's microphone first.
pub open spec fn picker_items(state: StateModel) -> Seq<Seq<char>> {
    seq!["System default microphone"@] + state.devices
}

/// Where the list stands: in the middle of the screen.
pub open spec fn picker_area(state: StateModel, screen: Rect) -> Rect {
    let width = least(less(screen.width as int, 6), 70);
    let height = least(state.devices.len() as int + 5, less(screen.height as int, 4));
    rect((screen.width - width) / 2, (screen.height - height) / 2, width, height)
}

/// The list, where one item is on its first line.
pub open spec fn picker_of(state: StateModel, index: int, screen: Rect, offset: usize) -> PickerModel {
    PickerModel {
        area: picker_area(state, screen),
        items: picker_items(state),
        selected: least(index, state.devices.len() as int) as usize,
        offset,
    }
}

/// What clicks on the lines of the list stand for.
pub open spec fn line_choices(area: Rect, offset: int, count: int, lines: int) -> Hits
    decreases lines,
{
    if lines <= 0 {
        Seq::empty()
    } else {
        let before = line_choices(area, offset, count, lines - 1);
        if offset + lines - 1 <= count {
            before.push(
                (
                    rect(area.x + 1, area.y + lines, less(area.width as int, 2), 1),
                    Hit::Microphone((offset + lines - 1) as usize),
                ),
            )
        } else {
            before
        }
    }
}

/// What clicks on the list stand for.
pub open spec fn picker_hits(picker: PickerModel) -> Hits {
    line_choices(
        picker.area,
        picker.offset as int,
        picker.items.len() - 1,
        less(picker.area.height as int, 2),
    ).push(
        (
            rect(
                picker.area.x as int,
                bottom_of(picker.area) - 1,
                picker.area.width as int,
                1,
            ),
            Hit::Key(pressed(KeyCode::Esc)),
        ),
    )
}

/// A line of the welcome: words, and words after them that stand out. A quiet line is of less
/// weight.
#[derive(Debug)]
#[verifier::ext_equal]
pub struct WelcomeLine<S = String> {
    pub words: S,
    pub strong: S,
    pub quiet: bool,
}

impl DeepView for WelcomeLine {
    type V = WelcomeLine<Seq<char>>;

    open spec fn deep_view(&self) -> WelcomeLine<Seq<char>> {
        WelcomeLine { words: self.words@, strong: self.strong@, quiet: self.quiet }
    }
}

/// A line of the welcome.
pub open spec fn welcome_line(
    words: Seq<char>,
    strong: Seq<char>,
    quiet: bool,
) -> WelcomeLine<Seq<char>> {
    WelcomeLine { words, strong, quiet }
}

fn line(words: &str, strong: &str, quiet: bool) -> (line: WelcomeLine)
    ensures
        line.deep_view() == welcome_line(words@, strong@, quiet),
{
    WelcomeLine { words: words.to_owned(), strong: strong.to_owned(), quiet }
}

/// What stands in the middle of the screen: the welcome, or a text below a heading.
#[derive(Debug)]
pub enum Body<S = String, L = Vec<WelcomeLine>> {
    Welcome { area: Rect, lines: L, face: Option<Rect> },
    Text { text: S, heading: S, hint: bool },
}

/// What stands in the middle of the screen, as contracts see it.
pub type BodyModel = Body<Seq<char>, Seq<WelcomeLine<Seq<char>>>>;

impl DeepView for Body {
    type V = BodyModel;

    open spec fn deep_view(&self) -> BodyModel {
        match *self {
            Body::Welcome { area, lines, face } => Body::Welcome {
                area,
                lines: lines.deep_view(),
                face,
            },
            Body::Text { text, heading, hint } => Body::Text {
                text: text@,
                heading: heading@,
                hint,
            },
        }
    }
}

/// How a notice is meant.
#[derive(Clone, Copy, Debug, PartialEq, Eq, Structural)]
pub enum Tone {
    Alarming,
    Glad,
    Quiet,
}

/// The screen as it is drawn. Dialogs are drawn over it.
#[derive(Debug)]
pub struct Picture {
    pub rows: Vec<Rect>,
    pub bar: TabBar,
    pub body: Body,
    pub label: String,
    pub duration: Option<String>,
    pub meter: Option<(Rect, Vec<u64>)>,
    pub microphone: (Rect, String),
    pub toast: Option<Rect>,
    pub notice: (Rect, String, Tone),
    pub shortcuts: Vec<String>,
    pub queue: QueueRow,
    pub picker: Option<Picker>,
}

/// The screen as contracts see it.
#[verifier::ext_equal]
pub struct PictureModel {
    pub rows: Seq<Rect>,
    pub bar: TabBarModel,
    pub body: BodyModel,
    pub label: Seq<char>,
    pub duration: Option<Seq<char>>,
    pub meter: Option<(Rect, Seq<u64>)>,
    pub microphone: (Rect, Seq<char>),
    pub toast: Option<Rect>,
    pub notice: (Rect, Seq<char>, Tone),
    pub shortcuts: Seq<Seq<char>>,
    pub queue: QueueRowModel,
    pub picker: Option<PickerModel>,
}

impl DeepView for Picture {
    type V = PictureModel;

    open spec fn deep_view(&self) -> PictureModel {
        PictureModel {
            rows: self.rows@,
            bar: self.bar.deep_view(),
            body: self.body.deep_view(),
            label: self.label@,
            duration: self.duration.deep_view(),
            meter: match self.meter {
                Some((area, bars)) => Some((area, bars@)),
                None => None,
            },
            microphone: (self.microphone.0, self.microphone.1@),
            toast: self.toast,
            notice: (self.notice.0, self.notice.1@, self.notice.2),
            shortcuts: self.shortcuts.deep_view(),
            queue: self.queue.deep_view(),
            picker: self.picker.deep_view(),
        }
    }
}

/// Whether a screen leaves the positions beyond its edges that are counted to: one column and one
/// row, and a row for each line of keys, which may find no room in it.
pub open spec fn roomy(screen: Rect) -> bool {
    &&& screen.x + screen.width < u16::MAX
    &&& screen.y + screen.height < u16::MAX
    &&& screen.y + screen.height + shortcut_rows(screen.width - 2).len() <= u16::MAX
}

/// Whether a screen is large enough for anything to be drawn.
pub open spec fn large_enough(screen: Rect) -> bool {
    screen.width >= 44 && screen.height >= 14
}

/// The parts of the screen, from the top down: tabs, text, status, chunks and keys.
pub open spec fn bands_of(phase: Phase, keys: nat) -> Seq<Band> {
    seq![
        Band::Length(1),
        Band::Min(4),
        Band::Length(
            if phase == Phase::Recording {
                7
            } else {
                4
            },
        ),
        Band::Length(1),
        Band::Length(keys as u16),
    ]
}

/// The text is the one part that may grow.
proof fn lemma_one_grows(phase: Phase, keys: nat)
    ensures
        growing(bands_of(phase, keys)) == 1,
{
    reveal_with_fuel(growing, 6);
}

/// Where the transcript stands, below its heading.
pub open spec fn text_area(row: Rect) -> Rect {
    rect(row.x as int, row.y + 1, row.width as int, less(row.height as int, 1))
}

/// The welcome.
pub open spec fn welcome_page(row: Rect) -> BodyModel {
    let face = row.height >= 12;
    let lines: Seq<WelcomeLine<Seq<char>>> = (if face {
        Seq::new(9, |i: int| welcome_line(""@, ""@, false))
    } else {
        seq![welcome_line(""@, "◉  pasteface"@, false)]
    }) + seq![
        welcome_line(""@, ""@, false),
        welcome_line("A little space to "@, "think out loud."@, false),
        welcome_line("Press Space to record."@, ""@, true),
    ];
    let height = lines.len() as int;
    let top = row.y + less(row.height as int, height) / 2;
    Body::Welcome {
        area: rect(row.x as int, top, row.width as int, least(height, row.height as int)),
        lines,
        face: if face {
            Some(rect(row.x as int, top, row.width as int, 9))
        } else {
            None
        },
    }
}

/// The length of a chunk, as a mapping.
pub open spec fn length_of() -> spec_fn(Chunk<Seq<char>>) -> u64 {
    |chunk: Chunk<Seq<char>>| chunk.seconds
}

/// How long the recordings of the selected tab are, in their order.
pub open spec fn shown_lengths(state: StateModel) -> Seq<u64> {
    state.chunks.filter(in_tab(state.selected_tab)).map_values(length_of())
}

/// How long the recordings of the selected tab are, in their order. They are floating-point
/// numbers, given as bits, which are added up outside.
pub fn lengths_shown(state: &State) -> (lengths: Vec<u64>)
    ensures
        lengths@ == shown_lengths(state.deep_view()),
{
    let ghost all = state.deep_view().chunks;
    let ghost tab = state.deep_view().selected_tab;
    let mut lengths: Vec<u64> = Vec::new();
    let mut i: usize = 0;
    proof {
        lemma_filter_none(all.take(0), in_tab(tab));
        assert(lengths@ =~= all.take(0).filter(in_tab(tab)).map_values(length_of()));
    }
    while i < state.chunks.len()
        invariant
            i <= state.chunks.len(),
            all == state.chunks.deep_view(),
            tab == state.selected_tab@,
            lengths@ == all.take(i as int).filter(in_tab(tab)).map_values(length_of()),
        decreases state.chunks.len() - i,
    {
        proof {
            lemma_filter_step(all, i as int, in_tab(tab));
            assert(all[i as int] == state.chunks[i as int].deep_view());
        }
        if text::same(state.chunks[i].tab_id.as_str(), state.selected_tab.as_str()) {
            lengths.push(state.chunks[i].seconds);
            proof {
                assert(lengths@ =~= all.take(i + 1).filter(in_tab(tab)).map_values(length_of()));
            }
        }
        i += 1;
    }
    proof {
        assert(all.take(i as int) =~= all);
    }
    lengths
}

/// The heading of the transcript, of which so much was recorded.
pub open spec fn heading_of(state: StateModel, recorded: u64) -> Seq<char> {
    timestamp_text(recorded) + " recorded · "@
        + decimal_digits(word_count(state.transcript)) + " words"@
}

/// What stands in the middle of the screen.
pub open spec fn body_of(state: StateModel, recorded: u64, row: Rect) -> BodyModel {
    if welcoming(state) {
        welcome_page(row)
    } else {
        Body::Text {
            text: if state.transcript.len() == 0 {
                "Your words will appear here after you stop recording."@
            } else {
                state.transcript
            },
            heading: heading_of(state, recorded),
            hint: state.transcript.len() == 0,
        }
    }
}

/// What the recorder is doing.
pub open spec fn status_label(phase: Phase) -> Seq<char> {
    " "@ + (if phase == Phase::Recording {
        "●"@
    } else {
        "○"@
    }) + " "@ + phase_label(phase)
}

/// How long what is going on is.
pub open spec fn status_duration(state: StateModel) -> Option<Seq<char>> {
    match state.phase {
        Phase::Recording => Some("  "@ + timestamp_text(state.seconds)),
        Phase::Transcribing => match first_match(
            state.chunks,
            with_status(ChunkStatus::Transcribing),
        ) {
            Some(i) => Some("  "@ + timestamp_text(state.chunks[i].seconds) + " audio"@),
            None => None,
        },
        _ => None,
    }
}

/// The level of the microphone over time, as far as there is room.
pub open spec fn meter_of(levels: Seq<u64>, row: Rect) -> Option<(Rect, Seq<u64>)> {
    if row.height >= 5 {
        let area = rect(row.x + 2, row.y + 2, less(row.width as int, 4), row.height - 4);
        let count = (area.width / 3) as int;
        Some(
            (
                area,
                if levels.len() <= count {
                    levels
                } else {
                    levels.subrange(levels.len() - count, levels.len() as int)
                },
            ),
        )
    } else {
        None
    }
}

/// Where the microphone is named.
pub open spec fn device_area(row: Rect) -> Rect {
    rect(row.x + 2, less(bottom_of(row), 2), less(row.width as int, 4), 1)
}

/// Whether it is still to be said that something was copied.
pub open spec fn just_copied(view: InterfaceModel, now: i64) -> bool {
    view.copied_until matches Some(until) && now < until
}

/// Where it is said that something was copied.
pub open spec fn toast_area(row: Rect) -> Rect {
    let width = least(" ✓ Copied to clipboard "@.len() as int, row.width as int);
    rect(less(right_of(row), width), less(bottom_of(row), 1), width, 1)
}

/// Where notices stand.
pub open spec fn notice_area(row: Rect) -> Rect {
    rect(row.x as int, less(bottom_of(row), 1), row.width as int, 1)
}

/// The question before something is cleared.
pub open spec fn question() -> Seq<char> {
    "Clear this tab and its audio? [X] confirm · [Esc] dismiss"@
}

/// What is said at the moment.
pub open spec fn notice_words(
    view: InterfaceModel,
    state: StateModel,
    error: Option<Seq<char>>,
    now: i64,
) -> Seq<char> {
    if view.confirm {
        question()
    } else {
        match error {
            Some(words) => words,
            None => if just_copied(view, now) || ((state.phase == Phase::Recording || state.phase
                == Phase::Transcribing) && !"Exported to "@.is_prefix_of(state.message))
                || state.message == "Copied to clipboard."@ {
                Seq::empty()
            } else {
                state.message
            },
        }
    }
}

/// How it is meant.
pub open spec fn notice_tone(view: InterfaceModel, error: Option<Seq<char>>, now: i64) -> Tone {
    if error is Some {
        Tone::Alarming
    } else if just_copied(view, now) {
        Tone::Glad
    } else {
        Tone::Quiet
    }
}

/// What clicks on the answers to the question stand for.
pub open spec fn question_hits(area: Rect) -> Hits {
    label_hit(
        question(),
        ("[X] confirm"@, pressed(KeyCode::Char('x'))),
        area.x as int,
        area.y as int,
    ) + label_hit(
        question(),
        ("[Esc] dismiss"@, pressed(KeyCode::Esc)),
        area.x as int,
        area.y as int,
    )
}

/// What clicks on the chips stand for.
pub open spec fn chip_hits(row: QueueRowModel) -> Hits {
    Seq::new(
        row.chips.len(),
        |i: int| (row.chips[i].area, Hit::<Seq<char>>::SelectTab(row.chips[i].tab)),
    )
}

/// What clicks on the screen stand for, where no list of microphones is open.
pub open spec fn screen_hits(picture: PictureModel, confirm: bool) -> Hits {
    let status = picture.rows[2];
    tab_hits(picture.bar) + seq![
        (
            rect(status.x + 1, status.y + 1, less(status.width as int, 2), 1),
            Hit::Key(pressed(KeyCode::Char(' '))),
        ),
        (picture.microphone.0, Hit::Key(pressed(KeyCode::Char('s')))),
    ] + row_hits(picture.shortcuts, picture.rows[4]) + (if confirm {
        question_hits(picture.notice.0)
    } else {
        Seq::empty()
    }) + chip_hits(picture.queue)
}

/// The screen, laid out in some rows. `recorded` is how long the recordings of the selected tab
/// are together, and `opacities` are those of the chunks.
pub open spec fn pictured(
    view: InterfaceModel,
    state: StateModel,
    recorded: u64,
    opacities: Seq<u32>,
    error: Option<Seq<char>>,
    screen: Rect,
    now: i64,
    rows: Seq<Rect>,
) -> PictureModel {
    let items = shown_items(opacities);
    PictureModel {
        rows,
        bar: tab_row(state, view.tab as int, rows[0]),
        body: body_of(state, recorded, rows[1]),
        label: status_label(state.phase),
        duration: status_duration(state),
        meter: meter_of(view.levels, rows[2]),
        microphone: (
            device_area(rows[2]),
            "MIC  "@ + state.device + "  ·  [S] settings"@,
        ),
        toast: if just_copied(view, now) && error is None && rows[1].height > 0 {
            Some(toast_area(rows[1]))
        } else {
            None
        },
        notice: (
            notice_area(rows[1]),
            notice_words(view, state, error, now),
            notice_tone(view, error, now),
        ),
        shortcuts: shortcut_rows(screen.width - 2),
        queue: chips::arranged(state.chunks, items, chip_widths(state.chunks, items), rows[3]),
        picker: match view.microphone {
            Some(index) => Some(
                picker_of(
                    state,
                    index as int,
                    screen,
                    list_top(
                        picker_items(state),
                        least(index as int, state.devices.len() as int) as usize,
                        picker_area(state, screen).width,
                        picker_area(state, screen).height,
                    ),
                ),
            ),
            None => None,
        },
    }
}

/// What the interface remembers after the screen was drawn.
pub open spec fn after_drawing(
    view: InterfaceModel,
    state: StateModel,
    now: i64,
    picture: PictureModel,
) -> InterfaceModel {
    InterfaceModel {
        hits: match picture.picker {
            Some(picker) => picker_hits(picker),
            None => screen_hits(picture, view.confirm),
        },
        transcript_area: text_area(picture.rows[1]),
        completed: noted_all(only(view.completed, state.chunks), state.chunks, now),
        ..view
    }
}

/// Whether rows are the five parts of a screen.
pub open spec fn rows_fit(rows: Seq<Rect>, screen: Rect) -> bool {
    rows.len() == 5 && bands_fit(rows, screen, 1)
}

fn join3(first: &str, second: &str, third: &str) -> (words: String)
    ensures
        words@ == first@ + second@ + third@,
{
    let mut words = first.to_owned();
    words.append(second);
    words.append(third);
    words
}

/// The list of microphones, where one item is on its first line.
pub fn place_picker(state: &State, index: usize, screen: Rect, offset: usize) -> (picker: Picker)
    requires
        state.devices.len() <= 65530,
    ensures
        picker.deep_view() == picker_of(state.deep_view(), index as int, screen, offset),
        picker.items.len() == state.devices.len() + 1,
{
    let width: u16 = smaller(screen.width.saturating_sub(6), 70);
    let height: u16 = smaller(state.devices.len() as u16 + 5, screen.height.saturating_sub(4));
    let mut items: Vec<String> = vec!["System default microphone".to_owned()];
    let ghost devices = state.deep_view().devices;
    let ghost first = items.deep_view();
    let mut i: usize = 0;
    proof {
        assert(first =~= seq!["System default microphone"@]);
        assert(first + devices.take(0) =~= first);
    }
    while i < state.devices.len()
        invariant
            i <= state.devices.len(),
            devices == state.devices.deep_view(),
            items.deep_view() == first + devices.take(i as int),
        decreases state.devices.len() - i,
    {
        let ghost before = items.deep_view();
        items.push(state.devices[i].clone());
        proof {
            assert(items.deep_view() =~= before.push(devices[i as int]));
            assert(items.deep_view() =~= first + devices.take(i + 1));
        }
        i += 1;
    }
    proof {
        assert(devices.take(i as int) =~= devices);
    }
    proof {
        assert(items.deep_view().len() == items.len());
    }
    let selected: usize = if index <= state.devices.len() {
        index
    } else {
        state.devices.len()
    };
    Picker {
        area: Rect::new((screen.width - width) / 2, (screen.height - height) / 2, width, height),
        items,
        selected,
        offset,
    }
}

/// The list of microphones, with one of them to be chosen.
pub fn microphone_picker(state: &State, index: usize, screen: Rect) -> (picker: Picker)
    requires
        state.devices.len() <= 65530,
    ensures
        picker.deep_view() == picker_of(
            state.deep_view(),
            index as int,
            screen,
            list_top(
                picker_items(state.deep_view()),
                least(index as int, state.devices.len() as int) as usize,
                picker_area(state.deep_view(), screen).width,
                picker_area(state.deep_view(), screen).height,
            ),
        ),
        picker.items.len() == state.devices.len() + 1,
{
    let mut picker = place_picker(state, index, screen, 0);
    picker.offset = list_offset(
        &picker.items,
        picker.selected,
        picker.area.width,
        picker.area.height,
    );
    picker
}

impl Picker {
    /// What clicks on the list stand for.
    pub fn hits(&self) -> (hits: Vec<(Rect, Hit)>)
        requires
            self.items.len() > 0,
            self.area.x < u16::MAX,
            whole(self.area),
            self.area.y + self.area.height > 0,
        ensures
            hits_view(hits@) == picker_hits(self.deep_view()),
    {
        let mut hits: Vec<(Rect, Hit)> = Vec::new();
        let area = self.area;
        let lines: u16 = area.height.saturating_sub(2);
        let last: usize = self.items.len() - 1;
        let mut line: u16 = 0;
        proof {
            assert(hits_view(hits@) =~= Seq::empty());
        }
        while line < lines
            invariant
                line <= lines,
                lines == less(area.height as int, 2),
                area == self.area,
                area.x < u16::MAX,
                whole(area),
                last == self.items.len() - 1,
                hits_view(hits@) == line_choices(
                    area,
                    self.offset as int,
                    last as int,
                    line as int,
                ),
            decreases lines - line,
        {
            if self.offset <= last && line as usize <= last - self.offset {
                add_hit(
                    &mut hits,
                    Rect::new(area.x + 1, area.y + 1 + line, area.width.saturating_sub(2), 1),
                    Hit::Microphone(self.offset + line as usize),
                );
            }
            line += 1;
        }
        add_hit(
            &mut hits,
            Rect::new(area.x, area.bottom() - 1, area.width, 1),
            Hit::Key(KeyEvent::plain(KeyCode::Esc)),
        );
        hits
    }
}

fn welcome(row: Rect) -> (body: Body)
    requires
        whole(row),
    ensures
        body.deep_view() == welcome_page(row),
{
    let face = row.height as usize >= ANSI_FACE.len() + 3;
    let mut lines: Vec<WelcomeLine> = Vec::new();
    if face {
        let mut i: usize = 0;
        while i < 9
            invariant
                i <= 9,
                lines.len() == i,
                forall|j: int|
                    0 <= j < i ==> (#[trigger] lines[j]).deep_view() == welcome_line(
                        ""@,
                        ""@,
                        false,
                    ),
            decreases 9 - i,
        {
            lines.push(line("", "", false));
            i += 1;
        }
    } else {
        lines.push(line("", "◉  pasteface", false));
    }
    lines.push(line("", "", false));
    lines.push(line("A little space to ", "think out loud.", false));
    lines.push(line("Press Space to record.", "", true));
    let height: u16 = lines.len() as u16;
    let top: u16 = row.y + row.height.saturating_sub(height) / 2;
    let area = Rect::new(row.x, top, row.width, smaller(height, row.height));
    let face = if face {
        Some(Rect::new(row.x, top, row.width, 9))
    } else {
        None
    };
    let body = Body::Welcome { area, lines, face };
    proof {
        let shown = welcome_page(row)->lines;
        assert(lines.deep_view().len() == shown.len());
        assert forall|j: int| 0 <= j < shown.len() implies lines.deep_view()[j] == shown[j] by {
            assert(lines.deep_view()[j] == lines[j].deep_view());
        }
        assert(lines.deep_view() =~= shown);
    }
    body
}

fn body(state: &State, recorded: u64, row: Rect) -> (body: Body)
    requires
        whole(row),
    ensures
        body.deep_view() == body_of(state.deep_view(), recorded, row),
{
    let empty = state.transcript.as_str().is_empty();
    if empty && !state.phase.busy() {
        return welcome(row);
    }
    let mut heading = timestamp(recorded);
    heading.append(" recorded · ");
    heading.append(text::decimal(text::words_in(state.transcript.as_str()) as u128).as_str());
    heading.append(" words");
    let text = if empty {
        "Your words will appear here after you stop recording.".to_owned()
    } else {
        state.transcript.clone()
    };
    Body::Text { text, heading, hint: empty }
}

fn label(phase: Phase) -> (words: String)
    ensures
        words@ == status_label(phase),
{
    let dot = if phase == Phase::Recording {
        "●"
    } else {
        "○"
    };
    let mut words = join3(" ", dot, " ");
    words.append(phase.label());
    words
}

fn duration(state: &State) -> (words: Option<String>)
    ensures
        words.deep_view() == status_duration(state.deep_view()),
{
    match state.phase {
        Phase::Recording => {
            let mut words = "  ".to_owned();
            words.append(timestamp(state.seconds).as_str());
            Some(words)
        },
        Phase::Transcribing => match session::find_status(
            &state.chunks,
            ChunkStatus::Transcribing,
        ) {
            Some(i) => {
                proof {
                    crate::search::lemma_first_match(
                        state.deep_view().chunks,
                        with_status(ChunkStatus::Transcribing),
                    );
                    assert(state.deep_view().chunks[i as int] == state.chunks[i as int].deep_view());
                }
                Some(join3("  ", timestamp(state.chunks[i].seconds).as_str(), " audio"))
            },
            None => None,
        },
        _ => None,
    }
}

fn meter(levels: &Vec<u64>, row: Rect) -> (shown: Option<(Rect, Vec<u64>)>)
    requires
        whole(row),
        row.x + 2 <= u16::MAX,
    ensures
        match shown {
            Some((area, bars)) => meter_of(levels@, row) == Some((area, bars@)),
            None => meter_of(levels@, row) is None,
        },
{
    if row.height < 5 {
        return None;
    }
    let area = Rect::new(row.x + 2, row.y + 2, row.width.saturating_sub(4), row.height - 4);
    let count: usize = (area.width / 3) as usize;
    let first: usize = levels.len().saturating_sub(count);
    let mut bars: Vec<u64> = Vec::new();
    let mut i: usize = first;
    while i < levels.len()
        invariant
            first <= i <= levels.len(),
            bars@ == levels@.subrange(first as int, i as int),
        decreases levels.len() - i,
    {
        bars.push(levels[i]);
        i += 1;
        proof {
            assert(bars@ =~= levels@.subrange(first as int, i as int));
        }
    }
    proof {
        assert(levels@.subrange(0, levels@.len() as int) =~= levels@);
    }
    Some((area, bars))
}

impl Interface {
    fn copied_now(&self, now: i64) -> (answer: bool)
        ensures
            answer == just_copied(self.deep_view(), now),
    {
        match self.copied_until {
            Some(until) => now < until,
            None => false,
        }
    }

    fn notice(&self, state: &State, error: &Option<String>, now: i64) -> (words: String)
        ensures
            words@ == notice_words(self.deep_view(), state.deep_view(), error.deep_view(), now),
    {
        if self.confirm {
            return "Clear this tab and its audio? [X] confirm · [Esc] dismiss".to_owned();
        }
        match error {
            Some(words) => words.clone(),
            None => {
                let message = state.message.as_str();
                if self.copied_now(now) || (state.phase.busy() && !text::starts_with(
                    message,
                    "Exported to ",
                )) || text::same(message, "Copied to clipboard.") {
                    String::new()
                } else {
                    state.message.clone()
                }
            },
        }
    }

    fn add_screen_hits(&self, picture: &Picture) -> (hits: Vec<(Rect, Hit)>)
        requires
            picture.rows.len() == 5,
            picture.rows[2].x < u16::MAX,
            picture.rows[2].y < u16::MAX,
            picture.rows[4].y + picture.shortcuts.len() <= u16::MAX,
            forall|i: int|
                0 <= i < picture.shortcuts.len() ==> picture.rows[4].x + (
                #[trigger] picture.shortcuts[i])@.len() <= u16::MAX,
            picture.notice.0.x + 44 <= u16::MAX,
        ensures
            hits_view(hits@) == screen_hits(picture.deep_view(), self.confirm),
    {
        let ghost model = picture.deep_view();
        let mut hits: Vec<(Rect, Hit)> = Vec::new();
        proof {
            assert(hits_view(hits@) =~= Seq::empty());
        }
        picture.bar.add_hits(&mut hits);
        let status = picture.rows[2];
        add_hit(
            &mut hits,
            Rect::new(status.x + 1, status.y + 1, status.width.saturating_sub(2), 1),
            Hit::Key(KeyEvent::plain(KeyCode::Char(' '))),
        );
        add_hit(
            &mut hits,
            picture.microphone.0,
            Hit::Key(KeyEvent::plain(KeyCode::Char('s'))),
        );
        let ghost first = hits_view(hits@);
        shortcuts::add_shortcut_hits(&mut hits, &picture.shortcuts, picture.rows[4]);
        let ghost second = hits_view(hits@);
        if self.confirm {
            let words = "Clear this tab and its audio? [X] confirm · [Esc] dismiss";
            proof {
                reveal_strlit("Clear this tab and its audio? [X] confirm · [Esc] dismiss");
                reveal_strlit("[X] confirm");
                reveal_strlit("[Esc] dismiss");
                assert(words@.subrange(30, 41) =~= "[X] confirm"@);
                lemma_found_by(words@, "[X] confirm"@, 0, 30);
                lemma_occurrence(words@, "[Esc] dismiss"@, 0);
            }
            let area = picture.notice.0;
            shortcuts::add_label_hit(
                &mut hits,
                words,
                "[X] confirm",
                KeyEvent::plain(KeyCode::Char('x')),
                area.x,
                area.y,
            );
            shortcuts::add_label_hit(
                &mut hits,
                words,
                "[Esc] dismiss",
                KeyEvent::plain(KeyCode::Esc),
                area.x,
                area.y,
            );
        }
        let ghost third = hits_view(hits@);
        let ghost chosen = chip_hits(model.queue);
        let mut i: usize = 0;
        proof {
            assert(third + chosen.take(0) =~= third);
        }
        while i < picture.queue.chips.len()
            invariant
                i <= picture.queue.chips.len(),
                model == picture.deep_view(),
                chosen == chip_hits(model.queue),
                hits_view(hits@) == third + chosen.take(i as int),
            decreases picture.queue.chips.len() - i,
        {
            let chip = &picture.queue.chips[i];
            proof {
                assert(model.queue.chips[i as int] == chip.deep_view());
            }
            add_hit(&mut hits, chip.area, Hit::SelectTab(chip.tab.clone()));
            i += 1;
            proof {
                assert(hits_view(hits@) =~= third + chosen.take(i as int));
            }
        }
        proof {
            assert(chosen.take(i as int) =~= chosen);
            let confirmed: Hits = if self.confirm {
                question_hits(model.notice.0)
            } else {
                Seq::empty()
            };
            assert(third =~= second + confirmed);
            assert(hits_view(hits@) =~= screen_hits(model, self.confirm));
        }
        hits
    }

    /// How long each chunk has been done, in nanoseconds. From this come the opacities: a chunk
    /// fades in the last half of a second before it is too old to be shown.
    pub fn ages(&self, state: &State, now: i64) -> (ages: Vec<Option<u64>>)
        requires
            i64::MIN + SHOWN <= now,
        ensures
            ages@ == all_ages(
                only(self.deep_view().completed, state.deep_view().chunks),
                state.deep_view().chunks,
                now,
            ),
            ages.len() == state.chunks.len(),
    {
        let mut times = self.completed.copy();
        queue::ages(&state.chunks, &mut times, now)
    }

    /// Lays out the screen in rows, and remembers what clicks on it stand for.
    pub fn compose(
        &mut self,
        state: &State,
        recorded: u64,
        opacities: &Vec<u32>,
        error: &Option<String>,
        screen: Rect,
        now: i64,
        rows: Vec<Rect>,
    ) -> (picture: Picture)
        requires
            roomy(screen),
            large_enough(screen),
            rows_fit(rows@, screen),
            tab_is_there(old(self).deep_view(), state.deep_view()),
            old(self).microphone is Some ==> state.devices.len() <= 65530,
            opacities.len() == state.chunks.len(),
            i64::MIN + SHOWN <= now,
        ensures
            picture.deep_view() == pictured(
                old(self).deep_view(),
                state.deep_view(),
                recorded,
                opacities@,
                error.deep_view(),
                screen,
                now,
                rows@,
            ),
            final(self).deep_view() == after_drawing(
                old(self).deep_view(),
                state.deep_view(),
                now,
                picture.deep_view(),
            ),
    {
        let ghost before = self.deep_view();
        let (tabs, middle, status, below, keys) = (rows[0], rows[1], rows[2], rows[3], rows[4]);
        proof {
            assert(rows@[0].x == screen.x + 1);
            assert(rows@[1].x == screen.x + 1);
            assert(rows@[2].x == screen.x + 1);
            assert(rows@[3].x == screen.x + 1);
            assert(rows@[4].x == screen.x + 1);
        }
        let lines = shortcuts::shortcuts(screen.width - 2);
        proof {
            shortcuts::law_shortcuts_fit(screen.width - 2);
            assert forall|i: int| 0 <= i < lines.len() implies rows@[4].x + (
            #[trigger] lines[i])@.len() <= u16::MAX by {
                assert(lines.deep_view()[i] == lines[i]@);
            }
        }
        queue::ages(&state.chunks, &mut self.completed, now);
        let items = queue::queue_items(opacities);
        let copied = self.copied_now(now);
        let toast = if copied && error.is_none() && middle.height > 0 {
            proof {
                reveal_strlit(" ✓ Copied to clipboard ");
            }
            let width: u16 = smaller(" ✓ Copied to clipboard ".unicode_len() as u16, middle.width);
            Some(
                Rect::new(
                    middle.right().saturating_sub(width),
                    middle.bottom().saturating_sub(1),
                    width,
                    1,
                ),
            )
        } else {
            None
        };
        let tone = if error.is_some() {
            Tone::Alarming
        } else if copied {
            Tone::Glad
        } else {
            Tone::Quiet
        };
        let picker = match self.microphone {
            Some(index) => Some(microphone_picker(state, index, screen)),
            None => None,
        };
        let picture = Picture {
            bar: TabBar::new(state, self.tab, tabs),
            body: body(state, recorded, middle),
            label: label(state.phase),
            duration: duration(state),
            meter: meter(&self.levels, status),
            microphone: (
                Rect::new(
                    status.x + 2,
                    status.bottom().saturating_sub(2),
                    status.width.saturating_sub(4),
                    1,
                ),
                join3("MIC  ", state.device.as_str(), "  ·  [S] settings"),
            ),
            toast,
            notice: (
                Rect::new(middle.x, middle.bottom().saturating_sub(1), middle.width, 1),
                self.notice(state, error, now),
                tone,
            ),
            shortcuts: lines,
            queue: chips::queue(&state.chunks, &items, below),
            picker,
            rows,
        };
        let hits = match &picture.picker {
            Some(picker) => picker.hits(),
            None => self.add_screen_hits(&picture),
        };
        self.hits = hits;
        self.transcript_area = Rect::new(
            middle.x,
            middle.y + 1,
            middle.width,
            middle.height.saturating_sub(1),
        );
        picture
    }

    /// Lays out the screen, where it is large enough, and remembers what clicks on it stand for.
    /// `recorded` is how long the recordings of the selected tab are together, and `opacities` are
    /// those of the chunks, which come of their ages. Both are floating-point numbers, given as
    /// bits.
    pub fn draw(
        &mut self,
        state: &State,
        recorded: u64,
        opacities: &Vec<u32>,
        error: &Option<String>,
        screen: Rect,
        now: i64,
    ) -> (shown: Option<Picture>)
        requires
            large_enough(screen) ==> roomy(screen),
            tab_is_there(old(self).deep_view(), state.deep_view()),
            old(self).microphone is Some ==> state.devices.len() <= 65530,
            opacities.len() == state.chunks.len(),
            i64::MIN + SHOWN <= now,
        ensures
            match shown {
                Some(picture) => {
                    let bands = bands_of(state.phase, shortcut_rows(screen.width - 2).len());
                    &&& large_enough(screen)
                    &&& rows_fit(picture.rows@, screen)
                    &&& needed(bands) <= screen.height ==> picture.rows@ == stacked(
                        bands,
                        screen,
                        1,
                    )
                    &&& picture.deep_view() == pictured(
                        old(self).deep_view(),
                        state.deep_view(),
                        recorded,
                        opacities@,
                        error.deep_view(),
                        screen,
                        now,
                        picture.rows@,
                    )
                    &&& final(self).deep_view() == after_drawing(
                        old(self).deep_view(),
                        state.deep_view(),
                        now,
                        picture.deep_view(),
                    )
                },
                None => {
                    &&& !large_enough(screen)
                    &&& final(self).deep_view() == (InterfaceModel {
                        hits: Seq::empty(),
                        ..old(self).deep_view()
                    })
                },
            },
    {
        if screen.width < 44 || screen.height < 14 {
            self.hits = Vec::new();
            proof {
                assert(hits_view(self.hits@) =~= Seq::empty());
            }
            return None;
        }
        let bands = bands(state.phase, screen.width);
        proof {
            lemma_one_grows(state.phase, shortcut_rows(screen.width - 2).len());
        }
        let rows = split(screen, 1, &bands);
        Some(self.compose(state, recorded, opacities, error, screen, now, rows))
    }
}

/// The parts of the screen, from the top down.
pub fn bands(phase: Phase, width: u16) -> (bands: Vec<Band>)
    requires
        width >= 2,
    ensures
        bands@ == bands_of(phase, shortcut_rows(width - 2).len()),
{
    let keys = shortcuts::shortcuts(width - 2);
    proof {
        assert(keys.deep_view().len() == keys.len());
    }
    let status: u16 = if phase == Phase::Recording {
        7
    } else {
        4
    };
    let bands = vec![
        Band::Length(1),
        Band::Min(4),
        Band::Length(status),
        Band::Length(1),
        Band::Length(keys.len() as u16),
    ];
    proof {
        assert(bands@ =~= bands_of(phase, shortcut_rows(width - 2).len()));
    }
    bands
}

/// Whether a part of the screen lies in it, or is empty.
pub open spec fn on_screen(area: Rect, screen: Rect) -> bool {
    area.width == 0 || area.height == 0 || (screen.x <= area.x && area.x + area.width <= screen.x
        + screen.width && screen.y <= area.y && area.y + area.height <= screen.y + screen.height)
}

/// The text and the level of the microphone, of which single cells are read and colored, stay on
/// the screen, however the rows come out.
pub proof fn law_cells_stay_on_screen(
    view: InterfaceModel,
    state: StateModel,
    recorded: u64,
    opacities: Seq<u32>,
    error: Option<Seq<char>>,
    screen: Rect,
    now: i64,
    rows: Seq<Rect>,
)
    requires
        roomy(screen),
        large_enough(screen),
        rows_fit(rows, screen),
    ensures
        ({
            let picture = pictured(view, state, recorded, opacities, error, screen, now, rows);
            &&& on_screen(after_drawing(view, state, now, picture).transcript_area, screen)
            &&& picture.meter matches Some((area, _)) ==> on_screen(area, screen)
        }),
{
    assert(rows[1].y >= screen.y && rows[2].y >= screen.y);
}

/// The microphone that is about to be chosen is in sight.
pub proof fn law_choice_is_in_sight(
    items: Seq<Seq<char>>,
    selected: usize,
    width: u16,
    height: u16,
)
    requires
        plain_list(items, selected),
        width > 2,
        height > 2,
    ensures
        list_top(items, selected, width, height) <= selected,
        selected < list_top(items, selected, width, height) + height - 2,
{
}

} // verus!
