//! What the screen is for: that it shows what there is, and that what it shows does what it says.
use crate::chips;
use crate::chips::{arranged, by_weight, chip_room, fitting, laid_out, ranked, shown_places};
use crate::config::{Acceleration, Provider};
use crate::error::{error_text, Error};
use crate::export::Places;
use crate::geometry::{bottom_of, in_rect, least, less, rect, right_of, whole, Rect};
use crate::input::{pressed, Event, Hit, Hits, KeyCode, KeyEvent, MouseEvent, MouseKind};
use crate::input_laws::undisturbed;
use crate::interface::{turned, InterfaceModel};
use crate::logo;
use crate::model::{
    phase_label, timestamp_text, whole_seconds, Action, Chunk, ChunkStatus, Phase, StateModel,
};
use crate::paths::path_join;
use crate::scene::{
    line_choices, pictured, screen_hits, shown_lengths, Band, Body, PictureModel, Tone,
};
use crate::search::{lemma_filter_kept, lemma_filter_of_push};
use crate::selection::{
    covered_cells, covered_in_row, covered_text, covers, selected_text, Selection,
};
use crate::settings_ui;
use crate::settings_ui::SettingsView;
use crate::shortcuts;
use crate::tab_bar::{labels_of, short_name, spaced, tab_hits, tab_row, tabs_from};
use crate::tab_menu;
use crate::tab_menu::{Mode, TabMenu};
use crate::text::{decimal_digits, digit, joined, trimmed_end, two_digits, whitespace, word_count};
use crate::tray;
use vstd::prelude::*;

verus! {

/// The transcript is shown whole as soon as there is one, and how long its recordings are and how
/// many words it has stand above it. Before, a hint is shown while something runs, and else the
/// welcome.
pub proof fn law_transcript_is_shown(
    view: InterfaceModel,
    state: StateModel,
    recorded: u64,
    opacities: Seq<u32>,
    error: Option<Seq<char>>,
    screen: Rect,
    now: i64,
    rows: Seq<Rect>,
)
    ensures
        ({
            let picture = pictured(view, state, recorded, opacities, error, screen, now, rows);
            let busy = state.phase == Phase::Recording || state.phase == Phase::Transcribing;
            &&& state.transcript.len() > 0 ==> (picture.body matches Body::Text {
                text,
                heading,
                hint,
            } && text == state.transcript && !hint && heading == timestamp_text(recorded)
                + " recorded · "@ + decimal_digits(word_count(state.transcript)) + " words"@)
            &&& state.transcript.len() == 0 && busy ==> (picture.body matches Body::Text {
                text,
                hint,
                ..
            } && hint && text == "Your words will appear here after you stop recording."@)
            &&& state.transcript.len() == 0 && !busy ==> picture.body is Welcome
            &&& picture.rows == rows
        }),
{
}

/// The phase, the microphone and how long it takes are shown as they are.
pub proof fn law_status_is_shown(
    view: InterfaceModel,
    state: StateModel,
    recorded: u64,
    opacities: Seq<u32>,
    error: Option<Seq<char>>,
    screen: Rect,
    now: i64,
    rows: Seq<Rect>,
    place: int,
)
    ensures
        ({
            let picture = pictured(view, state, recorded, opacities, error, screen, now, rows);
            &&& picture.label == " "@ + (if state.phase == Phase::Recording {
                "●"@
            } else {
                "○"@
            }) + " "@ + (match state.phase {
                Phase::Idle => "Ready when you are"@,
                Phase::Recording => "Listening"@,
                Phase::Transcribing => "Transcribing"@,
                Phase::Ready => "Ready to copy"@,
                Phase::Error => "Needs attention"@,
            })
            &&& picture.microphone.1 == "MIC  "@ + state.device + "  ·  [S] settings"@
            &&& state.phase == Phase::Recording ==> picture.duration == Some(
                "  "@ + timestamp_text(state.seconds),
            )
            &&& state.phase == Phase::Transcribing && 0 <= place < state.chunks.len()
                && state.chunks[place].status == ChunkStatus::Transcribing && (forall|j: int|
                0 <= j < place ==> (#[trigger] state.chunks[j]).status != ChunkStatus::Transcribing)
                ==> picture.duration == Some(
                "  "@ + timestamp_text(state.chunks[place].seconds) + " audio"@,
            )
            &&& state.phase != Phase::Recording && state.phase != Phase::Transcribing
                ==> picture.duration is None
        }),
{
    if 0 <= place < state.chunks.len() && state.chunks[place].status == ChunkStatus::Transcribing
        && (forall|j: int|
        0 <= j < place ==> (#[trigger] state.chunks[j]).status != ChunkStatus::Transcribing) {
        crate::search::lemma_is_first(
            state.chunks,
            crate::session::with_status(ChunkStatus::Transcribing),
            place,
        );
    }
}

/// What is said comes in its order: the question before a clearing, then an error, then the message
/// of the recorder, which gives way while something runs and where it would say again that
/// something was copied. That is shown for a while, where nothing is wrong.
pub proof fn law_notices_come_in_order(
    view: InterfaceModel,
    state: StateModel,
    recorded: u64,
    opacities: Seq<u32>,
    error: Option<Seq<char>>,
    screen: Rect,
    now: i64,
    rows: Seq<Rect>,
)
    ensures
        ({
            let picture = pictured(view, state, recorded, opacities, error, screen, now, rows);
            let busy = state.phase == Phase::Recording || state.phase == Phase::Transcribing;
            let copied = view.copied_until is Some && now < view.copied_until->0;
            let words = picture.notice.1;
            &&& view.confirm ==> words
                == "Clear this tab and its audio? [X] confirm · [Esc] dismiss"@
            &&& !view.confirm && error is Some ==> words == error->0
            &&& !view.confirm && error is None && copied ==> words.len() == 0
            &&& !view.confirm && error is None && !copied && !busy && state.message
                != "Copied to clipboard."@ ==> words == state.message
            &&& !view.confirm && error is None && !copied && busy && !"Exported to "@.is_prefix_of(
                state.message,
            ) ==> words.len() == 0
            &&& !view.confirm && error is None && state.message == "Copied to clipboard."@
                ==> words.len() == 0
            &&& picture.notice.2 == if error is Some {
                Tone::Alarming
            } else if copied {
                Tone::Glad
            } else {
                Tone::Quiet
            }
            &&& picture.toast is Some <==> copied && error is None && rows[1].height > 0
        }),
{
}

/// The list of microphones shows the system's first and then all others in their order, with the
/// marked one marked; a click on a line chooses the microphone on that line.
pub proof fn law_list_shows_the_microphones(
    view: InterfaceModel,
    state: StateModel,
    recorded: u64,
    opacities: Seq<u32>,
    error: Option<Seq<char>>,
    screen: Rect,
    now: i64,
    rows: Seq<Rect>,
    place: int,
)
    requires
        state.devices.len() < usize::MAX,
    ensures
        ({
            let picture = pictured(view, state, recorded, opacities, error, screen, now, rows);
            &&& picture.picker is Some <==> view.microphone is Some
            &&& picture.picker matches Some(picker) ==> {
                &&& picker.items.len() == state.devices.len() + 1
                &&& picker.items[0] == "System default microphone"@
                &&& 0 <= place < state.devices.len() ==> picker.items[place + 1]
                    == state.devices[place]
                &&& view.microphone->0 <= state.devices.len() ==> picker.selected
                    == view.microphone->0
            }
        }),
{
}

/// The lines of the list stand for the microphones from the first one in sight on, line by line.
pub proof fn law_lines_stand_for_microphones(
    area: Rect,
    offset: int,
    count: int,
    lines: int,
    line: int,
)
    requires
        0 <= offset,
        0 <= line < lines,
        offset + line <= count,
    ensures
        ({
            let hits = line_choices(area, offset, count, lines);
            &&& line < hits.len()
            &&& hits[line] == (
                rect(area.x + 1, area.y + 1 + line, less(area.width as int, 2), 1),
                Hit::<Seq<char>>::Microphone((offset + line) as usize),
            )
        }),
    decreases lines,
{
    if line < lines - 1 {
        law_lines_stand_for_microphones(area, offset, count, lines - 1, line);
    } else {
        lemma_lines_so_far(area, offset, count, lines - 1);
    }
}

proof fn lemma_lines_so_far(area: Rect, offset: int, count: int, lines: int)
    requires
        0 <= offset,
        0 <= lines,
        offset + lines - 1 <= count,
    ensures
        line_choices(area, offset, count, lines).len() == lines,
    decreases lines,
{
    if lines > 0 {
        lemma_lines_so_far(area, offset, count, lines - 1);
    }
}

/// What is said of a key is what the key does: it records, copies, exports, clears after a
/// question, opens the settings, scrolls, goes to the next tab, calls off or closes.
pub proof fn law_shortcuts_do_what_they_say(
    view: InterfaceModel,
    state: StateModel,
    screen: Rect,
    places: Places<Seq<char>>,
    number: int,
)
    requires
        undisturbed(view),
        0 <= number < shortcuts::controls().len(),
        view.tab < state.tabs.len() <= usize::MAX,
    ensures
        ({
            let (label, key) = shortcuts::controls()[number];
            let (after, action, ends) = turned(view, state, Event::Key(key), screen, places);
            &&& shortcuts::controls().len() == 10
            &&& key.press && !key.alt
            &&& key.control <==> number == 2
            &&& number == 0 ==> label == "[Space] record/stop"@ && action == Some(
                Action::<Seq<char>>::Toggle,
            )
            &&& number == 1 ==> label == "[C] copy"@ && action == Some(Action::<Seq<char>>::Copy)
            &&& number == 2 ==> label == "[Ctrl+C] latest"@ && action == Some(
                Action::<Seq<char>>::CopyLatest,
            )
            &&& number == 3 ==> label == "[E] export"@ && (after.tab_menu matches Some(menu)
                && menu.mode == Mode::Export && menu.id == Some(state.tabs[view.tab as int].id))
            &&& number == 4 ==> label == "[X] clear"@ && (if view.confirm {
                action == Some(Action::<Seq<char>>::Clear)
            } else {
                action is None && after.confirm
            })
            &&& number == 5 ==> label == "[S] settings"@ && after.settings is Some
            &&& number == 6 ==> label == "[↑↓] scroll"@ && action is None && after.tab == view.tab
            &&& number == 7 ==> label == "[Tab] next"@ && action == Some(
                Action::SelectTab(state.tabs[after.tab as int].id),
            )
            &&& number == 8 ==> label == "[Esc] cancel"@ && (!view.confirm ==> action == Some(
                Action::<Seq<char>>::Cancel,
            ))
            &&& number == 9 ==> label == "[Q] close"@ && ends
            &&& number != 9 ==> !ends
        }),
{
    let count = state.tabs.len() as int;
    assert(0 <= (view.tab + 1) % count < count) by (nonlinear_arith)
        requires
            0 <= view.tab < count,
    ;
}

/// The tabs in the row are tabs that follow each other, each under its own name, cut where it is
/// long; a click on one stands for that tab.
pub proof fn law_tabs_are_named(state: StateModel, tab: int, area: Rect, k: int)
    requires
        0 <= k < tab_row(state, tab, area).tabs.len(),
        0 <= tab < state.tabs.len() <= usize::MAX,
    ensures
        ({
            let bar = tab_row(state, tab, area);
            let label = bar.tabs[k];
            let hits = tab_hits(bar);
            &&& label.index < state.tabs.len()
            &&& label.text == " "@ + short_name(state.tabs[label.index as int].name) + " "@
            &&& k > 0 ==> label.index == bar.tabs[k - 1].index + 1
            &&& hits.contains((label.area, Hit::<Seq<char>>::Tab(label.index)))
            &&& hits.contains((bar.plus, Hit::<Seq<char>>::Key(pressed(KeyCode::Char('+')))))
            &&& bar.reopen is Some <==> state.closed_tabs.len() > 0
            &&& bar.reopen matches Some(place) ==> hits.contains(
                (place, Hit::<Seq<char>>::Key(pressed(KeyCode::Char('t')))),
            )
            &&& bar.before matches Some(place) ==> hits.contains(
                (place, Hit::<Seq<char>>::Key(pressed(KeyCode::Char('[')))),
            )
            &&& bar.after matches Some(place) ==> hits.contains(
                (place, Hit::<Seq<char>>::Key(pressed(KeyCode::Char(']')))),
            )
        }),
{
    let labels = labels_of(state);
    let bar = tab_row(state, tab, area);
    let wide = less(area.width as int, 4);
    let remaining = if state.closed_tabs.len() > 0 {
        less(wide, 12)
    } else {
        wide
    };
    let right = area.x + remaining;
    let start = crate::tab_bar::first_shown(labels, 0, tab, less(remaining, 6));
    let x = if start > 0 {
        area.x + 2
    } else {
        area.x as int
    };
    lemma_first_shown_in_range(labels, 0, tab, less(remaining, 6));
    lemma_tabs_follow(labels, start, x, area.y as int, less(right, 2), k);
    if k > 0 {
        lemma_tabs_follow(labels, start, x, area.y as int, less(right, 2), k - 1);
    }
    let one = crate::tab_bar::key_hit(Some(bar.plus), KeyCode::Char('+'));
    let two = crate::tab_bar::key_hit(bar.reopen, KeyCode::Char('t'));
    let three = crate::tab_bar::key_hit(bar.before, KeyCode::Char('['));
    let four: Hits = Seq::new(
        bar.tabs.len(),
        |i: int| (bar.tabs[i].area, Hit::<Seq<char>>::Tab(bar.tabs[i].index)),
    );
    let five = crate::tab_bar::key_hit(bar.after, KeyCode::Char(']'));
    let hits = tab_hits(bar);
    assert(hits =~= one + two + three + four + five);
    assert(hits[0] == one[0]);
    let n = one.len() + two.len() + three.len();
    assert(hits[n + k] == four[k]);
    if bar.reopen is Some {
        assert(hits[one.len() as int] == two[0]);
    }
    if bar.before is Some {
        assert(hits[(one.len() + two.len()) as int] == three[0]);
    }
    if bar.after is Some {
        assert(hits[(n + four.len()) as int] == five[0]);
    }
}

proof fn lemma_first_shown_in_range(
    labels: Seq<Seq<char>>,
    start: int,
    tab: int,
    available: int,
)
    requires
        0 <= start <= tab < labels.len(),
    ensures
        start <= crate::tab_bar::first_shown(labels, start, tab, available) <= tab,
    decreases tab - start,
{
    if start < tab {
        lemma_first_shown_in_range(labels, start + 1, tab, available);
    }
}

proof fn lemma_tabs_follow(
    labels: Seq<Seq<char>>,
    index: int,
    x: int,
    y: int,
    limit: int,
    k: int,
)
    requires
        0 <= index,
        labels.len() <= usize::MAX,
        0 <= k < tabs_from(labels, index, x, y, limit).len(),
    ensures
        index + k < labels.len(),
        tabs_from(labels, index, x, y, limit)[k].index == index + k,
        tabs_from(labels, index, x, y, limit)[k].text == spaced(labels[index + k]),
    decreases labels.len() - index,
{
    if k > 0 {
        lemma_tabs_follow(
            labels,
            index + 1,
            x + labels[index].len() + 2,
            y,
            limit,
            k - 1,
        );
    }
}

/// A chip tells of one of the chunks: its number, how far it has come and how long it is. A click
/// on it leads to the tab of that chunk.
pub proof fn law_chips_tell_of_their_chunks(
    chunks: Seq<Chunk<Seq<char>>>,
    items: Seq<(usize, u32)>,
    places: Seq<int>,
    widths: Seq<int>,
    area: Rect,
    k: int,
)
    requires
        0 <= k < places.len(),
    ensures
        ({
            let chips = laid_out(chunks, items, places, widths, area);
            let index = items[places[k]].0 as int;
            let chunk = chunks[index];
            &&& chips.len() == places.len()
            &&& chips[k].status == chunk.status
            &&& chips[k].tab == chunk.tab_id
            &&& chips[k].opacity == items[places[k]].1
            &&& chips[k].text == two_digits((index + 1) as nat) + " "@ + (match chunk.status {
                ChunkStatus::Recording => "● REC"@,
                ChunkStatus::Transcribing => "◌ TEXT"@,
                ChunkStatus::Queued => "WAIT"@,
                ChunkStatus::Ready => "DONE"@,
                ChunkStatus::Failed => "ERROR"@,
                ChunkStatus::Canceled => "CANCEL"@,
            }) + " "@ + timestamp_text(chunk.seconds)
        }),
    decreases places.len(),
{
    let shorter = places.drop_last();
    lemma_as_many_chips(chunks, items, places, widths, area);
    lemma_as_many_chips(chunks, items, shorter, widths, area);
    if k < shorter.len() {
        assert(shorter[k] == places[k]);
        law_chips_tell_of_their_chunks(chunks, items, shorter, widths, area, k);
    }
}

proof fn lemma_as_many_chips(
    chunks: Seq<Chunk<Seq<char>>>,
    items: Seq<(usize, u32)>,
    places: Seq<int>,
    widths: Seq<int>,
    area: Rect,
)
    ensures
        laid_out(chunks, items, places, widths, area).len() == places.len(),
    decreases places.len(),
{
    if places.len() > 0 {
        lemma_as_many_chips(chunks, items, places.drop_last(), widths, area);
    }
}

/// How much a chunk matters in the row: what runs comes before what waits, then what failed, what
/// is done and what was called off.
pub open spec fn weight(status: ChunkStatus) -> int {
    match status {
        ChunkStatus::Recording => 0,
        ChunkStatus::Transcribing => 1,
        ChunkStatus::Queued => 2,
        ChunkStatus::Failed => 3,
        ChunkStatus::Ready => 4,
        ChunkStatus::Canceled => 5,
    }
}

/// Chips are tried in the order of how much they matter.
pub proof fn law_what_matters_comes_first(
    chunks: Seq<Chunk<Seq<char>>>,
    items: Seq<(usize, u32)>,
    i: int,
    j: int,
)
    requires
        0 <= i < j < by_weight(chunks, items).len(),
    ensures
        ({
            let order = by_weight(chunks, items);
            let one = chunks[items[order[i]].0 as int].status;
            let other = chunks[items[order[j]].0 as int].status;
            weight(one) <= weight(other)
        }),
{
    lemma_segment(chunks, items, i);
    lemma_segment(chunks, items, j);
}

/// Which segment of the order a place is in says how much it matters.
proof fn lemma_segment(chunks: Seq<Chunk<Seq<char>>>, items: Seq<(usize, u32)>, i: int)
    requires
        0 <= i < by_weight(chunks, items).len(),
    ensures
        ({
            let a = ranked(chunks, items, ChunkStatus::Recording).len();
            let b = a + ranked(chunks, items, ChunkStatus::Transcribing).len();
            let c = b + ranked(chunks, items, ChunkStatus::Queued).len();
            let d = c + ranked(chunks, items, ChunkStatus::Failed).len();
            let e = d + ranked(chunks, items, ChunkStatus::Ready).len();
            weight(chunks[items[by_weight(chunks, items)[i]].0 as int].status) == if i < a {
                0int
            } else if i < b {
                1
            } else if i < c {
                2
            } else if i < d {
                3
            } else if i < e {
                4
            } else {
                5
            }
        }),
{
    let all = chips::all_places(items.len());
    lemma_filter_kept(all, chips::at_status(chunks, items, ChunkStatus::Recording));
    lemma_filter_kept(all, chips::at_status(chunks, items, ChunkStatus::Transcribing));
    lemma_filter_kept(all, chips::at_status(chunks, items, ChunkStatus::Queued));
    lemma_filter_kept(all, chips::at_status(chunks, items, ChunkStatus::Failed));
    lemma_filter_kept(all, chips::at_status(chunks, items, ChunkStatus::Ready));
    lemma_filter_kept(all, chips::at_status(chunks, items, ChunkStatus::Canceled));
    let a = ranked(chunks, items, ChunkStatus::Recording);
    let b = ranked(chunks, items, ChunkStatus::Transcribing);
    let c = ranked(chunks, items, ChunkStatus::Queued);
    let d = ranked(chunks, items, ChunkStatus::Failed);
    let e = ranked(chunks, items, ChunkStatus::Ready);
    let f = ranked(chunks, items, ChunkStatus::Canceled);
    let order = by_weight(chunks, items);
    let na = a.len();
    let nb = na + b.len();
    let nc = nb + c.len();
    let nd = nc + d.len();
    let ne = nd + e.len();
    if i < na {
        assert(order[i] == a[i]);
    } else if i < nb {
        assert(order[i] == b[i - na]);
    } else if i < nc {
        assert(order[i] == c[i - nb]);
    } else if i < nd {
        assert(order[i] == d[i - nc]);
    } else if i < ne {
        assert(order[i] == e[e.len() - 1 - (i - nd)]);
    } else {
        assert(order[i] == f[f.len() - 1 - (i - ne)]);
    }
}

/// What matters most stays in sight where there is room for it at all.
pub proof fn law_first_in_order_is_shown(order: Seq<int>, widths: Seq<int>, room: int)
    requires
        order.len() > 0,
        widths[order[0]] <= room,
    ensures
        fitting(order, widths, room).contains(order[0]),
    decreases order.len(),
{
    if order.len() > 1 {
        let shorter = order.drop_last();
        assert(shorter[0] == order[0]);
        law_first_in_order_is_shown(shorter, widths, room);
    } else {
        assert(order.drop_last() =~= Seq::<int>::empty());
        assert(chips::room_left(order.drop_last(), widths, room) == room);
    }
}

/// A time is shown in minutes and seconds, both with two digits at least.
pub proof fn law_time_is_shown_in_minutes(bits: u64)
    ensures
        timestamp_text(bits) == two_digits(whole_seconds(bits) / 60) + ":"@ + two_digits(
            whole_seconds(bits) % 60,
        ),
        whole_seconds(bits) % 60 < 60,
        two_digits(whole_seconds(bits) % 60).len() == 2,
{
    let rest = whole_seconds(bits) % 60;
    if rest >= 10 {
        assert(decimal_digits(rest / 10).len() == 1);
    }
}

/// The number that digits stand for.
pub open spec fn number(digits: Seq<char>) -> int
    decreases digits.len(),
{
    if digits.len() == 0 {
        0
    } else {
        10 * number(digits.drop_last()) + (digits.last() as int - '0' as int)
    }
}

/// A number is written with the digits that stand for it.
pub proof fn law_digits_stand_for_their_number(n: nat)
    ensures
        number(decimal_digits(n)) == n,
        number(two_digits(n)) == n,
    decreases n,
{
    reveal_with_fuel(number, 3);
    assert(digit(n % 10) as int - '0' as int == n % 10);
    if n >= 10 {
        law_digits_stand_for_their_number(n / 10);
        assert(decimal_digits(n).drop_last() =~= decimal_digits(n / 10));
        assert(decimal_digits(n).last() == digit(n % 10));
    } else {
        let one = seq![digit(n)];
        assert(one.drop_last() =~= Seq::<char>::empty());
        let two = seq!['0', digit(n)];
        assert(two.drop_last() =~= seq!['0']);
        assert(seq!['0'].drop_last() =~= Seq::<char>::empty());
        assert(two.last() == digit(n));
    }
}

/// Words are counted one by one: a word more where a character begins one, after white space or at
/// the start.
pub proof fn law_words_are_counted(s: Seq<char>, c: char)
    ensures
        word_count(Seq::empty()) == 0,
        whitespace(c) ==> word_count(s.push(c)) == word_count(s),
        !whitespace(c) && (s.len() == 0 || whitespace(s.last())) ==> word_count(s.push(c))
            == word_count(s) + 1,
        !whitespace(c) && s.len() > 0 && !whitespace(s.last()) ==> word_count(s.push(c))
            == word_count(s),
{
    assert(s.push(c).drop_last() =~= s);
    if s.len() > 0 {
        assert(s.push(c)[s.len() - 1] == s.last());
    }
}

/// Pieces are joined in their order, with the separator between neighbours and nowhere else.
pub proof fn law_pieces_are_joined(
    pieces: Seq<Seq<char>>,
    piece: Seq<char>,
    separator: Seq<char>,
)
    ensures
        joined(Seq::empty(), separator).len() == 0,
        joined(seq![piece], separator) == piece,
        pieces.len() > 0 ==> joined(pieces.push(piece), separator) == joined(pieces, separator)
            + separator + piece,
{
    assert(pieces.push(piece).drop_last() =~= pieces);
}

/// A path is continued behind one slash, and an absolute one takes its place.
pub proof fn law_paths_are_continued(base: Seq<char>, part: Seq<char>)
    ensures
        part.len() > 0 && part[0] == '/' ==> path_join(base, part) == part,
        (part.len() == 0 || part[0] != '/') && base.len() > 0 && base.last() != '/' ==> path_join(
            base,
            part,
        ) == base + seq!['/'] + part,
        (part.len() == 0 || part[0] != '/') && base.len() > 0 && base.last() == '/' ==> path_join(
            base,
            part,
        ) == base + part,
        (part.len() == 0 || part[0] != '/') && base.len() == 0 ==> path_join(base, part) == part,
{
    assert(base + seq!['/'] =~= base.push('/'));
    if base.len() == 0 {
        assert(base + part =~= part);
    }
}

/// A path stands between the quotes of a shell as it is, but that each of its own quotes is
/// escaped.
pub proof fn law_paths_are_quoted(path: Seq<char>, c: char)
    ensures
        tray::quoted(Seq::empty()).len() == 0,
        c != '\'' ==> tray::quoted(path.push(c)) == tray::quoted(path).push(c),
        c == '\'' ==> tray::quoted(path.push(c)) == tray::quoted(path) + "'\\''"@,
{
    assert(path.push(c).drop_last() =~= path);
    assert(tray::quoted(path) + seq![c] =~= tray::quoted(path).push(c));
}

/// The icon in the tray has the color of the phase, and each pixel is as much of it as it is
/// covered.
pub proof fn law_icon_has_the_color_of_the_phase(phase: Phase, coverage: Seq<u8>, i: int)
    requires
        0 <= i < coverage.len(),
    ensures
        ({
            let pixels = logo::painted(logo::phase_color(phase), coverage);
            let color = logo::phase_color(phase);
            &&& pixels.len() == 4 * coverage.len()
            &&& pixels[4 * i] == color[0]
            &&& pixels[4 * i + 1] == color[1]
            &&& pixels[4 * i + 2] == color[2]
            &&& pixels[4 * i + 3] == coverage[i]
            &&& phase == Phase::Recording || phase == Phase::Error ==> color == seq![
                255u8,
                100,
                115,
            ]
            &&& phase == Phase::Transcribing ==> color == seq![243u8, 199, 125]
            &&& phase == Phase::Ready ==> color == seq![158u8, 228, 182]
            &&& phase == Phase::Idle ==> color == seq![146u8, 158, 174]
        }),
    decreases coverage.len(),
{
    let color = logo::phase_color(phase);
    let shorter = coverage.drop_last();
    lemma_painted_len(color, coverage);
    lemma_painted_len(color, shorter);
    if i < shorter.len() {
        assert(shorter[i] == coverage[i]);
        law_icon_has_the_color_of_the_phase(phase, shorter, i);
    }
}

proof fn lemma_painted_len(color: Seq<u8>, coverage: Seq<u8>)
    requires
        color.len() == 3,
    ensures
        logo::painted(color, coverage).len() == 4 * coverage.len(),
    decreases coverage.len(),
{
    if coverage.len() > 0 {
        lemma_painted_len(color, coverage.drop_last());
    }
}

/// The text of marked cells in a line is the text of those cells, one after another.
pub proof fn law_marked_cells_are_read(
    selection: Selection,
    cells: Seq<Seq<char>>,
    cell: Seq<char>,
    x: int,
    y: int,
)
    ensures
        covered_text(selection, Seq::empty(), x, y).len() == 0,
        covered_text(selection, cells.push(cell), x, y) == if covers(
            selection,
            x + cells.len(),
            y,
        ) {
            covered_text(selection, cells, x, y) + cell
        } else {
            covered_text(selection, cells, x, y)
        },
{
    assert(cells.push(cell).drop_last() =~= cells);
}

/// What is marked in a single line is the text of its marked cells, without white space at its
/// end. A click marks nothing.
pub proof fn law_marked_line_is_read(
    selection: Selection,
    line: Seq<Seq<char>>,
    area: Rect,
)
    ensures
        selection.anchor == selection.head ==> selected_text(selection, seq![line], area).len()
            == 0,
        selection.anchor != selection.head ==> ({
            let words = covered_text(selection, line, area.x as int, area.y as int);
            selected_text(selection, seq![line], area) == trimmed_end(trimmed_end(words))
        }),
{
    let lines = seq![line];
    let words = covered_text(selection, line, area.x as int, area.y as int);
    assert(lines.drop_last() =~= Seq::<Seq<Seq<char>>>::empty());
    assert(lines.last() == line);
    reveal_with_fuel(crate::selection::covered_lines, 2);
    let read = crate::selection::covered_lines(selection, lines, area.x as int, area.y as int);
    if words.len() > 0 {
        assert(read =~= seq![trimmed_end(words)]);
    } else {
        assert(read =~= Seq::<Seq<char>>::empty());
    }
}

/// A click on a line of a tab's menu is a choice of that line, and one beside the menu or a dialog
/// closes it without asking for anything.
pub proof fn law_clicks_in_a_menu(
    menu: TabMenu<Seq<char>>,
    column: u16,
    row: u16,
    screen: Rect,
    places: Places<Seq<char>>,
)
    ensures
        ({
            let area = tab_menu::menu_area(menu, screen);
            let click = Event::Mouse(MouseEvent { kind: MouseKind::LeftDown, column, row });
            let answer = tab_menu::answered(menu, click, screen, places);
            &&& !in_rect(area, column as int, row as int) ==> answer == (
                menu,
                true,
                None::<Action<Seq<char>>>,
            )
            &&& in_rect(area, column as int, row as int) && menu.mode == Mode::Menu && area.y < row
                < bottom_of(area) - 1 ==> answer == tab_menu::answered(
                TabMenu { menu_index: (row - area.y - 1) as usize, ..menu },
                Event::Key(pressed(KeyCode::Enter)),
                screen,
                places,
            )
            &&& in_rect(area, column as int, row as int) && menu.mode != Mode::Menu && row == area.y
                + 5 && column < area.x + 12 ==> answer == tab_menu::answered(
                menu,
                Event::Key(pressed(KeyCode::Enter)),
                screen,
                places,
            )
            &&& in_rect(area, column as int, row as int) && menu.mode != Mode::Menu && row == area.y
                + 5 && column >= area.x + 24 ==> answer == (
                menu,
                true,
                None::<Action<Seq<char>>>,
            )
        }),
{
}

/// A click on a line of the settings is a choice of that line, and one beside them closes them
/// without saving.
pub proof fn law_clicks_in_the_settings(
    view: SettingsView<Seq<char>>,
    column: u16,
    row: u16,
    screen: Rect,
)
    ensures
        ({
            let area = settings_ui::dialog_area(view.settings.provider, screen);
            let inside = in_rect(area, column as int, row as int);
            let lines = settings_ui::fields_of(view.settings.provider).len();
            let answer = settings_ui::moused(
                view,
                MouseEvent { kind: MouseKind::LeftDown, column, row },
                screen,
            );
            &&& !inside ==> answer == (view, true, None::<Action<Seq<char>>>)
            &&& inside && area.y < row < bottom_of(area) - 1 && row - area.y - 1 < lines ==> answer
                == settings_ui::keyed(
                SettingsView {
                    editing: false,
                    selected: (row - area.y - 1) as usize,
                    ..view
                },
                pressed(KeyCode::Enter),
            )
            &&& inside && area.y < row < bottom_of(area) - 1 && row - area.y - 1 >= lines ==> answer
                == (view, false, None::<Action<Seq<char>>>)
        }),
{
}

/// What is pasted goes to the dialog that is open, and nowhere without one.
pub proof fn law_pasted_text_goes_to_the_dialog(
    view: InterfaceModel,
    state: StateModel,
    text: Seq<char>,
    screen: Rect,
    places: Places<Seq<char>>,
)
    ensures
        ({
            let (after, action, ends) = turned(view, state, Event::Paste(text), screen, places);
            &&& action is None
            &&& !ends
            &&& undisturbed(view) ==> after == view
            &&& view.tab_menu matches Some(menu) ==> (menu.mode != Mode::Menu ==> after == (
            InterfaceModel { tab_menu: Some(tab_menu::inserted(menu, text)), ..view }))
            &&& view.tab_menu is None && view.microphone is None && view.settings is Some
                ==> after == (InterfaceModel {
                settings: Some(settings_ui::pasted(view.settings->0, text)),
                ..view
            })
        }),
{
}

/// The wheel moves the text by three lines, where the mouse is over it.
pub proof fn law_wheel_scrolls(
    view: InterfaceModel,
    state: StateModel,
    column: u16,
    row: u16,
    screen: Rect,
    places: Places<Seq<char>>,
)
    requires
        undisturbed(view),
    ensures
        ({
            let inside = in_rect(view.transcript_area, column as int, row as int);
            let (up, one, _) = turned(
                view,
                state,
                Event::Mouse(MouseEvent { kind: MouseKind::ScrollUp, column, row }),
                screen,
                places,
            );
            let (down, two, _) = turned(
                view,
                state,
                Event::Mouse(MouseEvent { kind: MouseKind::ScrollDown, column, row }),
                screen,
                places,
            );
            &&& one is None && two is None
            &&& !inside ==> up == view && down == view
            &&& inside && view.scroll >= 3 ==> up.scroll == view.scroll - 3
            &&& inside && view.scroll < 3 ==> up.scroll == 0
            &&& inside && view.scroll <= u16::MAX - 3 ==> down.scroll == view.scroll + 3
            &&& inside ==> up.selection is None && down.selection is None
        }),
{
}

/// What went wrong outside is told in its own words, after what it was that went wrong.
pub proof fn law_errors_tell_their_cause(words: Seq<char>, name: Seq<char>)
    ensures
        error_text(Error::Outside(words)) == words,
        error_text(Error::ConversionFailed(words)) == "Audio conversion failed: "@ + words,
        error_text(Error::WhisperFailed(words)) == "Whisper failed: "@ + words,
        error_text(Error::CannotStart(name, words)) == "Could not start "@ + name + ": "@ + words,
        error_text(Error::UnreadableAudio(words)) == "Cannot read recorded audio: "@ + words,
        error_text(Error::MalformedApiKey(words)) == "Could not read saved API key: "@ + words,
        error_text(Error::MalformedSettings(words)) == "Invalid transcription settings: "@ + words,
        error_text(Error::UnreadableSettings(words)) == "Could not read transcription settings: "@
            + words,
        error_text(Error::MalformedState(words)) == "Could not read saved state: "@ + words,
        error_text(Error::BinaryMissing(words)) == "Whisper executable missing: "@ + words
            + ". Set WHISPER_BINARY or change settings."@,
        error_text(Error::ModelMissing(words)) == "Whisper model missing: "@ + words
            + ". Set WHISPER_MODEL or change settings."@,
        error_text(Error::NoConnection(words)) == "Cannot initialize transcription connection: "@
            + words,
        error_text(Error::ServiceUnavailable(words)) == "OpenAI is temporarily unavailable (HTTP "@
            + words + "). Recording is retained."@,
        error_text(Error::ServiceRefused(words)) == "OpenAI transcription failed (HTTP "@ + words
            + "). Check model and audio settings."@,
        error_text(Error::NotResponding(words)) == "Recorder is not responding: "@ + words,
        error_text(Error::RecorderUnavailable(words)) == "Could not start recorder. See "@ + words,
{
}

/// Only the recordings of the selected tab count as recorded there, each with its own length.
pub proof fn law_lengths_are_of_the_selected_tab(state: StateModel, chunk: Chunk<Seq<char>>)
    ensures
        ({
            let more = StateModel { chunks: state.chunks.push(chunk), ..state };
            let before = shown_lengths(state);
            shown_lengths(more) == if chunk.tab_id == state.selected_tab {
                before.push(chunk.seconds)
            } else {
                before
            }
        }),
        state.chunks.len() == 0 ==> shown_lengths(state).len() == 0,
{
    lemma_filter_of_push(state.chunks, chunk, crate::session::in_tab(state.selected_tab));
    let kept = state.chunks.filter(crate::session::in_tab(state.selected_tab));
    let more = StateModel { chunks: state.chunks.push(chunk), ..state };
    if chunk.tab_id == state.selected_tab {
        assert(shown_lengths(more) =~= shown_lengths(state).push(chunk.seconds));
    }
    if state.chunks.len() == 0 {
        crate::search::lemma_filter_none(
            state.chunks,
            crate::session::in_tab(state.selected_tab),
        );
    }
}

/// A long name of a tab is cut, and any other one is shown as it is.
pub proof fn law_long_names_are_cut(name: Seq<char>)
    ensures
        name.len() <= 18 ==> short_name(name) == name,
        name.len() > 18 ==> short_name(name) == name.take(17) + "…"@,
{
}

/// What is not shown in the row is counted, where there is room to say so.
pub proof fn law_hidden_chips_are_counted(
    chunks: Seq<Chunk<Seq<char>>>,
    items: Seq<(usize, u32)>,
    widths: Seq<int>,
    area: Rect,
)
    requires
        area.height > 0,
        items.len() > 0,
    ensures
        ({
            let row = arranged(chunks, items, widths, area);
            let hidden = items.len() - row.chips.len();
            &&& row.more matches Some((_, words)) ==> hidden > 0 && words == " +"@
                + decimal_digits(hidden as nat) + " more"@
            &&& hidden <= 0 ==> row.more is None
            &&& hidden > 0 && area.width > chips::more_words(hidden as nat).len() ==> row.more
                is Some
        }),
{
    let places = shown_places(chunks, items, widths, area.width as int);
    lemma_as_many_chips(chunks, items, places, widths, area);
}

/// A click on the state starts or ends a recording, one on the microphone opens the settings, and
/// one on a chunk leads to its tab; while a clearing is in question, its two answers can be
/// clicked.
pub proof fn law_screen_can_be_clicked(
    picture: PictureModel,
    confirm: bool,
    k: int,
)
    ensures
        ({
            let hits = screen_hits(picture, confirm);
            let status = picture.rows[2];
            &&& hits.contains(
                (
                    rect(status.x + 1, status.y + 1, less(status.width as int, 2), 1),
                    Hit::<Seq<char>>::Key(pressed(KeyCode::Char(' '))),
                ),
            )
            &&& hits.contains(
                (
                    picture.microphone.0,
                    Hit::<Seq<char>>::Key(pressed(KeyCode::Char('s'))),
                ),
            )
            &&& 0 <= k < picture.queue.chips.len() ==> hits.contains(
                (
                    picture.queue.chips[k].area,
                    Hit::<Seq<char>>::SelectTab(picture.queue.chips[k].tab),
                ),
            )
        }),
{
    let status = picture.rows[2];
    let one = tab_hits(picture.bar);
    let two: Hits = seq![
        (
            rect(status.x + 1, status.y + 1, less(status.width as int, 2), 1),
            Hit::<Seq<char>>::Key(pressed(KeyCode::Char(' '))),
        ),
        (picture.microphone.0, Hit::<Seq<char>>::Key(pressed(KeyCode::Char('s')))),
    ];
    let three = shortcuts::row_hits(picture.shortcuts, picture.rows[4]);
    let four: Hits = if confirm {
        crate::scene::question_hits(picture.notice.0)
    } else {
        Seq::empty()
    };
    let five = crate::scene::chip_hits(picture.queue);
    let hits = screen_hits(picture, confirm);
    assert(hits =~= one + two + three + four + five);
    assert(hits[one.len() as int] == two[0]);
    assert(hits[(one.len() + 1) as int] == two[1]);
    if 0 <= k < picture.queue.chips.len() {
        let n = one.len() + two.len() + three.len() + four.len();
        assert(hits[n + k] == five[k]);
    }
}

/// While the list of microphones is open, clicks are for the list, and else for the screen. Where
/// the text was drawn is where it can be marked.
pub proof fn law_clicks_are_for_what_was_drawn(
    view: InterfaceModel,
    state: StateModel,
    now: i64,
    picture: PictureModel,
)
    ensures
        ({
            let after = crate::scene::after_drawing(view, state, now, picture);
            &&& picture.picker is None ==> after.hits == screen_hits(picture, view.confirm)
            &&& picture.picker matches Some(picker) ==> after.hits == crate::scene::picker_hits(
                picker,
            )
            &&& after.transcript_area == rect(
                picture.rows[1].x as int,
                picture.rows[1].y + 1,
                picture.rows[1].width as int,
                less(picture.rows[1].height as int, 1),
            )
            &&& after.tab == view.tab
            &&& after.scroll == view.scroll
            &&& after.settings == view.settings
            &&& after.selection == view.selection
        }),
{
}

/// The meter shows the latest levels, as many as there is room for.
pub proof fn law_latest_levels_are_shown(levels: Seq<u64>, row: Rect)
    ensures
        row.height < 5 ==> crate::scene::meter_of(levels, row) is None,
        row.height >= 5 ==> (crate::scene::meter_of(levels, row) matches Some((area, shown)) && {
            &&& shown.is_suffix_of(levels)
            &&& shown.len() <= area.width / 3 || shown.len() <= levels.len()
            &&& levels.len() <= area.width / 3 ==> shown == levels
            &&& levels.len() > area.width / 3 ==> shown.len() == area.width / 3
        }),
{
    if row.height >= 5 {
        let (area, shown) = crate::scene::meter_of(levels, row)->0;
        assert(levels.subrange(levels.len() - shown.len(), levels.len() as int) =~= shown);
    }
}

/// A cell is painted as marked where it lies in the area and is marked, and only there.
pub proof fn law_marked_cells_are_painted(
    selection: Selection,
    area: Rect,
    column: u16,
    row: u16,
)
    requires
        whole(area),
    ensures
        covered_cells(selection, area, (bottom_of(area) - area.y) as nat).contains((column, row))
            <==> in_rect(area, column as int, row as int) && covers(
            selection,
            column as int,
            row as int,
        ),
{
    lemma_painted_rows(selection, area, area.height as nat, column, row);
}

proof fn lemma_painted_row(
    selection: Selection,
    x: int,
    y: int,
    count: nat,
    column: u16,
    row: u16,
)
    requires
        0 <= x,
        x + count <= u16::MAX,
        0 <= y <= u16::MAX,
    ensures
        covered_in_row(selection, x, y, count).contains((column, row)) <==> row == y && x <= column
            < x + count && covers(selection, column as int, row as int),
    decreases count,
{
    if count > 0 {
        let before = covered_in_row(selection, x, y, (count - 1) as nat);
        let cells = covered_in_row(selection, x, y, count);
        let last = ((x + count - 1) as u16, y as u16);
        lemma_painted_row(selection, x, y, (count - 1) as nat, column, row);
        if covers(selection, x + count - 1, y) {
            assert(cells == before.push(last));
            assert(cells[before.len() as int] == last);
            if before.contains((column, row)) {
                let i = choose|i: int| 0 <= i < before.len() && before[i] == (column, row);
                assert(cells[i] == (column, row));
            }
        }
    }
}

proof fn lemma_painted_rows(
    selection: Selection,
    area: Rect,
    rows: nat,
    column: u16,
    row: u16,
)
    requires
        whole(area),
        rows <= area.height,
    ensures
        covered_cells(selection, area, rows).contains((column, row)) <==> area.y <= row < area.y
            + rows && area.x <= column < area.x + area.width && covers(
            selection,
            column as int,
            row as int,
        ),
    decreases rows,
{
    if rows > 0 {
        let before = covered_cells(selection, area, (rows - 1) as nat);
        let line = covered_in_row(
            selection,
            area.x as int,
            area.y + rows - 1,
            (right_of(area) - area.x) as nat,
        );
        let cells = covered_cells(selection, area, rows);
        lemma_painted_rows(selection, area, (rows - 1) as nat, column, row);
        lemma_painted_row(
            selection,
            area.x as int,
            area.y + rows - 1,
            (right_of(area) - area.x) as nat,
            column,
            row,
        );
        assert(cells == before + line);
        if before.contains((column, row)) {
            let i = choose|i: int| 0 <= i < before.len() && before[i] == (column, row);
            assert(cells[i] == (column, row));
        }
        if line.contains((column, row)) {
            let i = choose|i: int| 0 <= i < line.len() && line[i] == (column, row);
            assert(cells[before.len() + i] == (column, row));
        }
    }
}

/// The interface looks for keys more often while the welcome is new, and else at its usual pace.
pub proof fn law_welcome_is_drawn_smoothly(view: InterfaceModel, now: i64)
    ensures
        view.welcome_started is None ==> crate::interface::patience(view, now) == 80,
        view.welcome_started is Some && now - view.welcome_started->0 < 2_000_000_000
            ==> crate::interface::patience(view, now) == 32,
        view.welcome_started is Some && now - view.welcome_started->0 >= 2_000_000_000
            ==> crate::interface::patience(view, now) == 80,
{
}

/// An interface that has just been opened has nothing open, marked or in question.
pub proof fn law_interface_starts_quiet(now: i64)
    ensures
        ({
            let view = crate::interface::fresh_view(now);
            &&& undisturbed(view)
            &&& !view.confirm
            &&& view.selection is None
            &&& view.hits.len() == 0
            &&& view.tab == 0
            &&& view.scroll == 0
            &&& view.copies == 0
            &&& view.copied_until is None
            &&& view.levels.len() == 0
            &&& view.sampled_at == now
        }),
{
}

/// What stands for a key says whether one is entered, saved or missing.
pub proof fn law_key_is_told(view: SettingsView<Seq<char>>)
    ensures
        !view.key_changed && view.settings.api_key_configured ==> settings_ui::shown_key(view)
            == "(configured — enter to replace)"@,
        !view.key_changed && !view.settings.api_key_configured ==> settings_ui::shown_key(view)
            == "(not configured)"@,
        view.key_changed && view.key.len() == 0 ==> settings_ui::shown_key(view)
            == "(remove saved key)"@,
        view.key_changed && view.key.len() > 0 ==> forall|i: int|
            0 <= i < settings_ui::shown_key(view).len() ==> (
            #[trigger] settings_ui::shown_key(view)[i]) == '•',
{
}

/// The arrow keys move the choice in the settings by a line and keep it in them, and the escape key
/// leaves without saving.
pub proof fn law_settings_are_walked(view: SettingsView<Seq<char>>)
    requires
        !view.editing,
        settings_ui::in_order(view),
    ensures
        ({
            let lines = settings_ui::fields_of(view.settings.provider).len();
            let (down, one, nothing) = settings_ui::keyed(view, pressed(KeyCode::Down));
            let (up, two, none) = settings_ui::keyed(view, pressed(KeyCode::Up));
            &&& !one && !two && nothing is None && none is None
            &&& down == (SettingsView {
                selected: (if view.selected + 1 < lines {
                    view.selected + 1
                } else {
                    view.selected as int
                }) as usize,
                ..view
            })
            &&& up == (SettingsView {
                selected: (if view.selected > 0 {
                    view.selected - 1
                } else {
                    0
                }) as usize,
                ..view
            })
            &&& settings_ui::keyed(view, pressed(KeyCode::Esc)) == (
                view,
                true,
                None::<Action<Seq<char>>>,
            )
        }),
{
}

/// The screen has a line for the tabs, the room that is left for the text, a box for the state that
/// is higher while a recording runs, a line for the chunks and the lines for the keys. It takes so
/// much room at least.
pub proof fn law_screen_has_its_parts(phase: Phase, keys: u16, screen: Rect)
    ensures
        ({
            let bands = crate::scene::bands_of(phase, keys as nat);
            &&& bands.len() == 5
            &&& bands[0] == Band::Length(1)
            &&& bands[1] == Band::Min(4)
            &&& bands[2] == Band::Length(
                if phase == Phase::Recording {
                    7
                } else {
                    4
                },
            )
            &&& bands[3] == Band::Length(1)
            &&& bands[4] == Band::Length(keys)
        }),
        crate::scene::large_enough(screen) <==> screen.width >= 44 && screen.height >= 14,
{
}

/// Parts that lie below each other touch, and together they fill the height; only the text takes
/// what the others leave.
pub proof fn law_parts_lie_below_each_other(bands: Seq<Band>, area: Rect, margin: int, i: int)
    requires
        0 <= i < bands.len(),
        0 <= margin,
        2 * margin <= area.width,
        whole(area),
        crate::scene::growing(bands) == 1,
        crate::scene::needed(bands) <= area.height,
    ensures
        ({
            let rest = area.height - crate::scene::heights(bands, 0);
            let rows = crate::scene::stacked(bands, area, margin);
            let top = crate::scene::heights(bands.take(i), rest);
            &&& rows.len() == bands.len()
            &&& rows[i] == rect(
                area.x + margin,
                area.y + top,
                area.width - 2 * margin,
                match bands[i] {
                    Band::Length(n) => n as int,
                    Band::Min(_) => rest,
                },
            )
        }),
{
    assert(bands.take(i + 1).drop_last() =~= bands.take(i));
    assert(bands.take(i + 1).last() == bands[i]);
}

/// Notices stand on the last line of the text, and the name of the microphone on the last line
/// within the box for the state.
pub proof fn law_notices_have_their_place(row: Rect)
    requires
        whole(row),
        row.height >= 4,
        row.width >= 42,
        row.x + row.width < u16::MAX,
        row.y + row.height < u16::MAX,
    ensures
        ({
            let notice = crate::scene::notice_area(row);
            let toast = crate::scene::toast_area(row);
            let device = crate::scene::device_area(row);
            &&& notice == (Rect {
                x: row.x,
                y: (row.y + row.height - 1) as u16,
                width: row.width,
                height: 1,
            })
            &&& toast.y == notice.y
            &&& toast.height == 1
            &&& toast.x + toast.width == row.x + row.width
            &&& device == (Rect {
                x: (row.x + 2) as u16,
                y: (row.y + row.height - 2) as u16,
                width: (row.width - 4) as u16,
                height: 1,
            })
        }),
{
    reveal_strlit(" ✓ Copied to clipboard ");
}

/// The list of microphones stands in the middle of the screen.
pub proof fn law_list_has_its_place(state: StateModel, screen: Rect)
    requires
        whole(screen),
        screen.width >= 44,
        screen.height >= 14,
        state.devices.len() <= 65530,
    ensures
        ({
            let area = crate::scene::picker_area(state, screen);
            let right = screen.width - area.x - area.width;
            let below = screen.height - area.y - area.height;
            &&& area.x <= right <= area.x + 1
            &&& area.y <= below <= area.y + 1
            &&& area.width <= 70
            &&& area.height <= state.devices.len() + 5
            &&& state.devices.len() + 5 <= screen.height - 4 ==> area.height
                == state.devices.len() + 5
        }),
{
}

/// The welcome says what the program is for and how to begin, in the middle of its part, below the
/// face where there is room for it and else below the name.
pub proof fn law_welcome_says_how_to_begin(row: Rect)
    requires
        whole(row),
        row.height >= 4,
    ensures
        crate::scene::welcome_page(row) matches Body::Welcome { area, lines, face } && {
            let n = lines.len() as int;
            &&& n == if row.height >= 12 {
                12
            } else {
                4int
            }
            &&& lines[n - 1].words == "Press Space to record."@
            &&& lines[n - 1].quiet
            &&& lines[n - 2].words == "A little space to "@
            &&& lines[n - 2].strong == "think out loud."@
            &&& !lines[n - 2].quiet
            &&& face is Some <==> row.height >= 12
            &&& face is None ==> lines[0].strong == "◉  pasteface"@
            &&& area.height == n
            &&& area.x == row.x && area.width == row.width
            &&& area.y - row.y <= row.y + row.height - area.y - area.height <= area.y - row.y + 1
            &&& face matches Some(place) ==> place == (Rect { height: 9, ..area })
        },
{
}

/// A dialog says what it is for and shows the end of what was typed, and what was wrong with it.
pub proof fn law_dialog_shows_its_name(menu: TabMenu<Seq<char>>, screen: Rect)
    requires
        menu.mode != Mode::Menu,
    ensures
        tab_menu::shown_menu(menu, screen) matches tab_menu::TabPage::Dialog {
            area,
            heading,
            input,
            error,
            button,
            keys,
            ..
        } && {
            &&& area == tab_menu::menu_area(menu, screen)
            &&& menu.mode == Mode::Export ==> heading == "export transcript · .txt"@
            &&& menu.mode == Mode::Name && menu.id is Some ==> heading == "rename tab"@
            &&& menu.mode == Mode::Name && menu.id is None ==> heading == "new tab"@
            &&& menu.name.len() > 0 ==> input.is_suffix_of(menu.name)
            &&& menu.name.len() > 0 && menu.name.len() <= less(area.width as int, 3) ==> input
                == menu.name
            &&& menu.error matches Some(words) ==> error == words
            &&& menu.error is None ==> error.len() == 0
            &&& button == " ↵ save "@
            &&& keys == "    ^C clear    esc cancel"@
        },
{
    let most = less(tab_menu::menu_area(menu, screen).width as int, 3);
    let tail = tab_menu::tail_of(menu.name, most);
    assert(menu.name.subrange(menu.name.len() - tail.len(), menu.name.len() as int) =~= tail);
}

/// The tray tells the phase, the time and how many chunks wait.
pub proof fn law_tray_tells_the_state(state: StateModel)
    ensures
        tray::status_words(state) == "Pasteface · "@ + phase_label(state.phase) + " · "@
            + timestamp_text(state.seconds) + " · "@ + decimal_digits(state.queue_depth)
            + " queued"@,
{
}

/// The chosen line of the settings is marked, in one way while it is edited and in another while
/// it is not, and no other line is.
pub proof fn law_chosen_line_is_marked(view: SettingsView<Seq<char>>, i: int)
    ensures
        i != view.selected ==> settings_ui::shown_mark(view, i) == "  "@,
        i == view.selected && view.editing ==> settings_ui::shown_mark(view, i) == "✎ "@,
        i == view.selected && !view.editing ==> settings_ui::shown_mark(view, i) == "› "@,
        settings_ui::shown_hint(true) == " Enter done · Ctrl-U erase · paste supported "@,
        settings_ui::shown_hint(false) == " ↑↓ select · Enter change · Esc close "@,
{
}

/// The settings say who transcribes and on what.
pub proof fn law_settings_name_the_provider(view: SettingsView<Seq<char>>, device: Seq<char>)
    ensures
        ({
            let lines = settings_ui::shown_lines(view, device);
            let mark = |i: int| settings_ui::shown_mark(view, i);
            &&& view.settings.provider == Provider::Local ==> lines[0] == mark(0)
                + ("Provider       ‹ "@ + "Local Whisper"@ + " ›"@)
            &&& view.settings.provider == Provider::OpenAi ==> lines[0] == mark(0)
                + ("Provider       ‹ "@ + "OpenAI"@ + " ›"@)
            &&& view.settings.provider == Provider::Local ==> lines[1] == mark(1) + (
            "Acceleration   ‹ "@ + (match view.settings.acceleration {
                Acceleration::Auto => "Auto"@,
                Acceleration::Cpu => "Cpu"@,
                Acceleration::Vulkan => "Vulkan"@,
            }) + " ›"@)
            &&& view.settings.provider == Provider::OpenAi ==> lines[2] == mark(2) + (
            "API key        "@ + settings_ui::shown_key(view))
        }),
{
}

/// A tab that is there has its own name, and the place of one that is not has the first name.
pub proof fn law_tabs_have_their_titles(state: StateModel, tab: int)
    ensures
        0 <= tab < state.tabs.len() ==> tab_menu::title_of(state, tab) == state.tabs[tab].name,
        tab >= state.tabs.len() ==> tab_menu::title_of(state, tab) == "Transcript 1"@,
{
}

/// It is said that there are tabs before and after those in the row exactly where there are.
pub proof fn law_hidden_tabs_are_hinted(state: StateModel, tab: int, area: Rect)
    requires
        0 <= tab < state.tabs.len() <= usize::MAX,
    ensures
        ({
            let bar = tab_row(state, tab, area);
            let shown = bar.tabs.len() as int;
            &&& shown > 0 ==> (bar.before is Some <==> bar.tabs[0].index > 0)
            &&& shown > 0 ==> (bar.after is Some <==> bar.tabs[shown - 1].index + 1
                < state.tabs.len())
        }),
{
    let labels = labels_of(state);
    let bar = tab_row(state, tab, area);
    let wide = less(area.width as int, 4);
    let remaining = if state.closed_tabs.len() > 0 {
        less(wide, 12)
    } else {
        wide
    };
    let right = area.x + remaining;
    let start = crate::tab_bar::first_shown(labels, 0, tab, less(remaining, 6));
    let x = if start > 0 {
        area.x + 2
    } else {
        area.x as int
    };
    lemma_first_shown_in_range(labels, 0, tab, less(remaining, 6));
    lemma_cut_off(labels, start, x, area.y as int, less(right, 2));
    let shown = bar.tabs.len() as int;
    if shown > 0 {
        lemma_tabs_follow(labels, start, x, area.y as int, less(right, 2), 0);
        lemma_tabs_follow(labels, start, x, area.y as int, less(right, 2), shown - 1);
    }
}

proof fn lemma_cut_off(labels: Seq<Seq<char>>, index: int, x: int, y: int, limit: int)
    requires
        0 <= index <= labels.len(),
    ensures
        crate::tab_bar::cut_off(labels, index, x, limit) <==> index + tabs_from(
            labels,
            index,
            x,
            y,
            limit,
        ).len() < labels.len(),
    decreases labels.len() - index,
{
    if index < labels.len() && x + labels[index].len() + 2 <= limit {
        lemma_cut_off(labels, index + 1, x + labels[index].len() + 2, y, limit);
    }
}

/// The two answers to the question before a clearing stand for the keys that they name.
pub proof fn law_question_can_be_answered(area: Rect)
    ensures
        crate::scene::question_hits(area) == shortcuts::label_hit(
            "Clear this tab and its audio? [X] confirm · [Esc] dismiss"@,
            ("[X] confirm"@, pressed(KeyCode::Char('x'))),
            area.x as int,
            area.y as int,
        ) + shortcuts::label_hit(
            "Clear this tab and its audio? [X] confirm · [Esc] dismiss"@,
            ("[Esc] dismiss"@, pressed(KeyCode::Esc)),
            area.x as int,
            area.y as int,
        ),
{
}

/// The last line of the list of microphones leaves it.
pub proof fn law_list_can_be_left(picker: crate::scene::PickerModel)
    ensures
        ({
            let hits = crate::scene::picker_hits(picker);
            &&& hits.len() > 0
            &&& hits.last() == (
                rect(
                    picker.area.x as int,
                    bottom_of(picker.area) - 1,
                    picker.area.width as int,
                    1,
                ),
                Hit::<Seq<char>>::Key(pressed(KeyCode::Esc)),
            )
            &&& hits.drop_last() == line_choices(
                picker.area,
                picker.offset as int,
                picker.items.len() - 1,
                less(picker.area.height as int, 2),
            )
        }),
{
    let hits = crate::scene::picker_hits(picker);
    assert(hits.drop_last() =~= line_choices(
        picker.area,
        picker.offset as int,
        picker.items.len() - 1,
        less(picker.area.height as int, 2),
    ));
}

/// The cursor stands behind what was typed, or at the end of its line.
pub proof fn law_cursor_follows_the_text(menu: TabMenu<Seq<char>>, screen: Rect)
    requires
        menu.mode != Mode::Menu,
        whole(screen),
        screen.width >= 20,
        screen.height >= 12,
        menu.name.len() <= 2048,
    ensures
        tab_menu::shown_menu(menu, screen) matches tab_menu::TabPage::Dialog {
            area,
            cursor,
            ..
        } && {
            &&& cursor.1 == area.y + 3
            &&& area.x + 1 + menu.name.len() <= area.x + area.width - 2 ==> cursor.0 == area.x + 1
                + menu.name.len()
            &&& area.x + 1 + menu.name.len() > area.x + area.width - 2 ==> cursor.0 == area.x
                + area.width - 2
        },
{
}

/// The labels of a line are looked for one after another, and the lines below each other.
pub proof fn law_rows_can_be_clicked(
    line: Seq<char>,
    controls: Seq<(Seq<char>, KeyEvent)>,
    control: (Seq<char>, KeyEvent),
    rows: Seq<Seq<char>>,
    area: Rect,
    x: int,
    y: int,
)
    ensures
        shortcuts::line_hits(line, Seq::empty(), x, y).len() == 0,
        shortcuts::line_hits(line, controls.push(control), x, y) == shortcuts::line_hits(
            line,
            controls,
            x,
            y,
        ) + shortcuts::label_hit(line, control, x, y),
        shortcuts::row_hits(Seq::empty(), area).len() == 0,
        shortcuts::row_hits(rows.push(line), area) == shortcuts::row_hits(rows, area)
            + shortcuts::line_hits(
            line,
            shortcuts::controls(),
            area.x as int,
            area.y + rows.len(),
        ),
{
    assert(controls.push(control).drop_last() =~= controls);
    assert(rows.push(line).drop_last() =~= rows);
}

/// Chips are tried one after another: one that fits what is left takes its room and a space, and
/// one that does not is left out. Where all of them fit they have the whole row, and else room is
/// kept for the count.
pub proof fn law_chips_take_their_room(
    order: Seq<int>,
    place: int,
    widths: Seq<int>,
    width: int,
    room: int,
)
    ensures
        ({
            let left = chips::room_left(order, widths, room);
            let more = order.push(place);
            &&& chips::room_left(Seq::empty(), widths, room) == room
            &&& widths[place] <= left ==> fitting(more, widths, room) == fitting(
                order,
                widths,
                room,
            ).insert(place) && chips::room_left(more, widths, room) == less(
                left,
                widths[place] + 1,
            )
            &&& widths[place] > left ==> fitting(more, widths, room) == fitting(order, widths, room)
                && chips::room_left(more, widths, room) == left
        }),
        chips::total_width(Seq::empty()) == 0,
        chips::total_width(widths.push(width)) == chips::total_width(widths) + width + 1,
        chips::total_width(widths) - 1 <= room && room >= 0 ==> chip_room(widths, room) == room,
        chips::total_width(widths) - 1 > room && room >= 0 ==> chip_room(widths, room) == less(
            room,
            (" +"@ + decimal_digits(widths.len()) + " more"@).len() as int,
        ),
{
    assert(order.push(place).drop_last() =~= order);
    assert(widths.push(width).drop_last() =~= widths);
}

/// Each thing on the screen stands in its own part: the tabs in the first, the text and what is said
/// in the second, the state, the microphone and its level in the third, the chunks in the fourth.
pub proof fn law_things_stand_in_their_parts(
    view: InterfaceModel,
    state: StateModel,
    recorded: u64,
    opacities: Seq<u32>,
    error: Option<Seq<char>>,
    screen: Rect,
    now: i64,
    rows: Seq<Rect>,
)
    ensures
        ({
            let picture = pictured(view, state, recorded, opacities, error, screen, now, rows);
            let items = crate::queue::shown_items(opacities);
            &&& picture.bar == tab_row(state, view.tab as int, rows[0])
            &&& picture.notice.0 == crate::scene::notice_area(rows[1])
            &&& picture.toast matches Some(place) ==> place == crate::scene::toast_area(rows[1])
            &&& picture.body is Welcome ==> picture.body == crate::scene::welcome_page(rows[1])
            &&& picture.microphone.0 == crate::scene::device_area(rows[2])
            &&& picture.meter == crate::scene::meter_of(view.levels, rows[2])
            &&& picture.queue == arranged(
                state.chunks,
                items,
                chips::chip_widths(state.chunks, items),
                rows[3],
            )
            &&& picture.shortcuts == shortcuts::shortcut_rows(screen.width - 2)
        }),
{
}

/// Tabs stand side by side, each as wide as its name with a space at either side, as far as there is
/// room.
pub proof fn law_tabs_stand_side_by_side(
    labels: Seq<Seq<char>>,
    index: int,
    x: int,
    y: int,
    limit: int,
)
    requires
        0 <= index < labels.len() <= usize::MAX,
    ensures
        ({
            let width = labels[index].len() + 2;
            let tabs = tabs_from(labels, index, x, y, limit);
            &&& x + width > limit ==> tabs.len() == 0
            &&& x + width <= limit ==> {
                &&& tabs.len() > 0
                &&& tabs[0].area == rect(x, y, width as int, 1)
                &&& tabs[0].text == " "@ + labels[index] + " "@
                &&& tabs[0].index == index
                &&& tabs.drop_first() == tabs_from(labels, index + 1, x + width, y, limit)
            }
        }),
{
    let width = labels[index].len() + 2;
    if x + width <= limit {
        let tabs = tabs_from(labels, index, x, y, limit);
        assert(tabs.drop_first() =~= tabs_from(labels, index + 1, x + width, y, limit));
    }
}

/// The button for a new tab stands at the end of the row, and before it the one for a closed tab,
/// where there is any.
pub proof fn law_tab_row_has_its_buttons(state: StateModel, tab: int, area: Rect)
    requires
        whole(area),
        area.width >= 42,
    ensures
        ({
            let bar = tab_row(state, tab, area);
            &&& bar.plus == (Rect {
                x: (area.x + area.width - 3) as u16,
                y: area.y,
                width: 3,
                height: least(1, u16::MAX - area.y) as u16,
            })
            &&& bar.reopen matches Some(place) ==> place.x == area.x + area.width - 15
                && place.width == 11 && place.y == area.y
            &&& bar.before matches Some(place) ==> place.x == area.x && place.width == 2 && place.y
                == area.y
            &&& bar.after matches Some(place) ==> place.width == 2 && place.y == area.y && place.x
                == area.x + area.width - 6 - (if state.closed_tabs.len() > 0 {
                12int
            } else {
                0
            })
        }),
{
}

} // verus!
