//! What holds of the recorder through every request, tick and restart.
use crate::config::{
    has_control, ConfigModel, Prerequisites, Stored, Surroundings, TranscriptionSettingsModel,
};
use crate::export::file_contents;
use crate::model::{Action, BackendSettings, Chunk, ChunkStatus, Phase, StateModel, TranscriptTab};
use crate::protocol::{
    fits, Effect, NewChunk, Outcome, OutcomeModel, Step, StepModel, Wait, WaitModel,
};
use crate::restore::{restored, words_carried};
use crate::search::{
    first_match, lemma_filter_has, lemma_filter_kept, lemma_filter_none, lemma_filter_of_push, lemma_first_match,
    lemma_is_first, lemma_last_match, lemma_no_first,
};
use crate::service::{
    begun, capture_started, capture_stopped, cleared, continued, device_selected, exporting,
    finishing, in_place, interrupted, legacy_measured, measured, next_started, observed, polled,
    polling, reloaded, resumed, retrying, saying, settings_loaded, shown, ticked, tree_made,
    with_state, Reading, RecorderModel,
};
use crate::session::{
    any_status, awaited, awaited_count, canceled_chunks, chunk_added, chunk_failed, chunk_filled,
    chunk_put, chunk_requeued, count_status, current_transcript, exported_text, in_tab, new_chunk,
    outside_tab, prior_of, rebuilt, retry_place, tab_closed, tab_emptied, tab_renamed,
    tab_reopened, tab_selected, tab_text, tab_with_id, texts_of, waits, with_status,
};
use crate::text::{non_empty, trimmed};
use vstd::prelude::*;

verus! {

/// Whether the transcript is that of the selected tab.
pub open spec fn transcript_is_current(state: StateModel) -> bool {
    state.transcript == current_transcript(state)
}

/// Whether the selected tab is an open one, or there are no open tabs and none is selected.
pub open spec fn selection_is_open(state: StateModel) -> bool {
    if state.tabs.len() == 0 {
        state.selected_tab.len() == 0
    } else {
        first_match(state.tabs, tab_with_id(state.selected_tab)) is Some
    }
}

/// Whether the chunk that is being transcribed is there.
pub open spec fn pending_is_there(recorder: RecorderModel) -> bool {
    recorder.pending is Some ==> recorder.pending->0 < recorder.state.chunks.len()
}

/// Whether the last chunk is a new one: it has no words yet, and is not being transcribed.
pub open spec fn last_is_new(recorder: RecorderModel) -> bool {
    let chunks = recorder.state.chunks;
    &&& chunks.len() > 0
    &&& chunks.last().text.len() == 0
    &&& recorder.pending is Some ==> recorder.pending->0 < chunks.len() - 1
}

/// Whether a recorder is in order between two requests.
pub open spec fn sound(recorder: RecorderModel) -> bool {
    &&& transcript_is_current(recorder.state)
    &&& selection_is_open(recorder.state)
    &&& pending_is_there(recorder)
}

/// Whether a recorder is in order in the middle of a request, with what it waits for.
pub open spec fn sound_waiting(recorder: RecorderModel, wait: WaitModel) -> bool {
    &&& in_place(recorder, wait)
    &&& selection_is_open(recorder.state)
    &&& pending_is_there(recorder)
    &&& if wait is TreeRemoved {
        current_transcript(recorder.state).len() == 0
    } else {
        transcript_is_current(recorder.state)
    }
    &&& match wait {
        Wait::CaptureStarted { index } => last_is_new(recorder) && index
            == recorder.state.chunks.len() - 1,
        Wait::CaptureUndone { .. } => last_is_new(recorder),
        Wait::SavedRemoved => recorder.pending is None,
        Wait::TreeRemoved => recorder.pending is None,
        _ => true,
    }
}

/// Whether a recorder is in order after a step.
pub open spec fn sound_after(recorder: RecorderModel, step: StepModel) -> bool {
    match step {
        Step::Perform(_, wait) => sound_waiting(recorder, wait),
        _ => sound(recorder),
    }
}

/// Whether chunks agree in what transcripts are made of.
pub open spec fn same_words(a: Seq<Chunk<Seq<char>>>, b: Seq<Chunk<Seq<char>>>) -> bool {
    &&& a.len() == b.len()
    &&& forall|i: int|
        0 <= i < a.len() ==> (#[trigger] a[i]).tab_id == b[i].tab_id && a[i].text == b[i].text
}

/// Chunks that agree in their tabs and words give the same transcripts.
pub proof fn lemma_same_words(a: Seq<Chunk<Seq<char>>>, b: Seq<Chunk<Seq<char>>>, tab: Seq<char>)
    requires
        same_words(a, b),
    ensures
        texts_of(a, tab) == texts_of(b, tab),
    decreases a.len(),
{
    reveal(Seq::filter);
    if a.len() > 0 {
        let c = a.drop_last();
        let d = b.drop_last();
        assert forall|i: int| 0 <= i < c.len() implies (#[trigger] c[i]).tab_id == d[i].tab_id
            && c[i].text == d[i].text by {
            assert(c[i] == a[i]);
            assert(d[i] == b[i]);
        }
        lemma_same_words(c, d, tab);
        assert(a[a.len() - 1].tab_id == b[b.len() - 1].tab_id);
        assert(a.filter(in_tab(tab)) == if in_tab(tab)(a.last()) {
            c.filter(in_tab(tab)).push(a.last())
        } else {
            c.filter(in_tab(tab))
        });
        assert(b.filter(in_tab(tab)) == if in_tab(tab)(b.last()) {
            d.filter(in_tab(tab)).push(b.last())
        } else {
            d.filter(in_tab(tab))
        });
        if in_tab(tab)(a.last()) {
            assert(texts_of(a, tab) =~= texts_of(c, tab).push(a.last().text));
            assert(texts_of(b, tab) =~= texts_of(d, tab).push(b.last().text));
        }
    } else {
        assert(texts_of(a, tab) =~= texts_of(b, tab));
    }
}

/// A chunk without words does not show in a transcript.
pub proof fn lemma_silent_chunk(
    prior: Seq<char>,
    chunks: Seq<Chunk<Seq<char>>>,
    chunk: Chunk<Seq<char>>,
    tab: Seq<char>,
)
    requires
        chunk.text.len() == 0,
    ensures
        tab_text(prior, chunks.push(chunk), tab) == tab_text(prior, chunks, tab),
{
    lemma_filter_of_push(chunks, chunk, in_tab(tab));
    if chunk.tab_id == tab {
        assert(texts_of(chunks.push(chunk), tab) =~= texts_of(chunks, tab).push(chunk.text));
        assert(seq![prior] + texts_of(chunks.push(chunk), tab) =~= (seq![prior] + texts_of(
            chunks,
            tab,
        )).push(chunk.text));
        lemma_filter_of_push(
            seq![prior] + texts_of(chunks, tab),
            chunk.text,
            |piece: Seq<char>| piece.len() > 0,
        );
    }
}

/// A tab's transcript stays while its chunks agree in their words.
proof fn lemma_current_stays(before: StateModel, after: StateModel)
    requires
        transcript_is_current(before),
        after.transcript == before.transcript,
        after.tabs == before.tabs,
        after.selected_tab == before.selected_tab,
        same_words(after.chunks, before.chunks),
    ensures
        transcript_is_current(after),
{
    lemma_same_words(after.chunks, before.chunks, before.selected_tab);
}

/// Tabs that agree in ids agree in which of them is found.
proof fn lemma_same_ids(
    a: Seq<TranscriptTab<Seq<char>>>,
    b: Seq<TranscriptTab<Seq<char>>>,
    id: Seq<char>,
)
    requires
        a.len() == b.len(),
        forall|i: int| 0 <= i < a.len() ==> (#[trigger] a[i]).id == b[i].id,
    ensures
        first_match(a, tab_with_id(id)) == first_match(b, tab_with_id(id)),
{
    lemma_first_match(b, tab_with_id(id));
    match first_match(b, tab_with_id(id)) {
        Some(i) => {
            assert(a[i].id == b[i].id);
            assert forall|j: int| 0 <= j < i implies !tab_with_id(id)(#[trigger] a[j]) by {
                assert(!tab_with_id(id)(b[j]));
            }
            lemma_is_first(a, tab_with_id(id), i);
        },
        None => {
            assert forall|j: int| 0 <= j < a.len() implies !tab_with_id(id)(#[trigger] a[j]) by {
                assert(!tab_with_id(id)(b[j]));
            }
            lemma_no_first(a, tab_with_id(id));
        },
    }
}

/// A tab that is there is found.
pub proof fn lemma_found(tabs: Seq<TranscriptTab<Seq<char>>>, i: int)
    requires
        0 <= i < tabs.len(),
    ensures
        first_match(tabs, tab_with_id(tabs[i].id)) is Some,
{
    lemma_first_match(tabs, tab_with_id(tabs[i].id));
}

/// Nothing of a tab's chunks is left in what is outside it, and nothing of the others is lost.
pub proof fn lemma_outside(
    chunks: Seq<Chunk<Seq<char>>>,
    tab: Seq<char>,
    other: Seq<char>,
)
    ensures
        texts_of(chunks.filter(outside_tab(tab)), tab).len() == 0,
        other != tab ==> texts_of(chunks.filter(outside_tab(tab)), other) == texts_of(
            chunks,
            other,
        ),
    decreases chunks.len(),
{
    let kept = chunks.filter(outside_tab(tab));
    lemma_filter_kept(chunks, outside_tab(tab));
    assert forall|i: int| 0 <= i < kept.len() implies !in_tab(tab)(#[trigger] kept[i]) by {
        assert(outside_tab(tab)(kept[i]));
    }
    lemma_filter_none(kept, in_tab(tab));
    if other != tab {
        if chunks.len() > 0 {
            let shorter = chunks.drop_last();
            let last = chunks.last();
            lemma_outside(shorter, tab, other);
            assert(chunks =~= shorter.push(last));
            lemma_filter_of_push(shorter, last, outside_tab(tab));
            lemma_filter_of_push(shorter, last, in_tab(other));
            lemma_filter_of_push(shorter.filter(outside_tab(tab)), last, in_tab(other));
            if in_tab(other)(last) {
                assert(texts_of(chunks, other) =~= texts_of(shorter, other).push(last.text));
                assert(texts_of(kept, other) =~= texts_of(
                    shorter.filter(outside_tab(tab)),
                    other,
                ).push(last.text));
            }
        } else {
            reveal(Seq::filter);
            assert(kept =~= chunks);
        }
    }
}

/// Clearing empties the selected tab and leaves the words of every other tab.
pub proof fn law_clear_empties_one_tab(state: StateModel, other: Seq<char>)
    requires
        other != state.selected_tab,
    ensures
        current_transcript(tab_emptied(state)) == Seq::<char>::empty(),
        prior_of(tab_emptied(state).tabs, other) == prior_of(state.tabs, other),
        texts_of(tab_emptied(state).chunks, other) == texts_of(state.chunks, other),
{
    lemma_emptied(state);
    lemma_outside(state.chunks, state.selected_tab, other);
    lemma_first_match(state.tabs, tab_with_id(state.selected_tab));
    let emptied = tab_emptied(state);
    assert forall|i: int| 0 <= i < emptied.tabs.len() implies (#[trigger] emptied.tabs[i]).id
        == state.tabs[i].id by {}
    lemma_same_ids(emptied.tabs, state.tabs, other);
    lemma_first_match(state.tabs, tab_with_id(other));
}

/// What is left of the selected tab after clearing gives no words.
pub proof fn lemma_emptied(state: StateModel)
    ensures
        current_transcript(tab_emptied(state)) == Seq::<char>::empty(),
        selection_is_open(state) ==> selection_is_open(tab_emptied(state)),
{
    let emptied = tab_emptied(state);
    lemma_outside(state.chunks, state.selected_tab, state.selected_tab);
    lemma_first_match(state.tabs, tab_with_id(state.selected_tab));
    assert forall|i: int| 0 <= i < emptied.tabs.len() implies (#[trigger] emptied.tabs[i]).id
        == state.tabs[i].id by {}
    lemma_same_ids(emptied.tabs, state.tabs, state.selected_tab);
    let prior = prior_of(emptied.tabs, state.selected_tab);
    assert(prior =~= Seq::<char>::empty());
    let pieces = seq![prior] + texts_of(emptied.chunks, state.selected_tab);
    assert forall|i: int| 0 <= i < pieces.len() implies (#[trigger] pieces[i]).len() == 0 by {}
    let keep = |piece: Seq<char>| piece.len() > 0;
    lemma_filter_none(pieces, keep);
    assert(non_empty(pieces).len() == 0);
}

/// A recorder that comes up is in order.
pub proof fn law_restart_is_sound(
    config: ConfigModel,
    saved: StateModel,
    lengths: Seq<Option<u64>>,
    api_key_configured: bool,
    auto_copy: bool,
    legacy: bool,
)
    ensures
        sound(restored(config, saved, lengths, api_key_configured, auto_copy, legacy)),
{
    let mended = crate::restore::selection_mended(
        crate::restore::tab_supplied(crate::restore::words_carried(saved)),
    );
    if mended.tabs.len() > 0 {
        lemma_found(mended.tabs, 0);
    }
    let placed = crate::restore::words_placed(mended);
    assert forall|i: int| 0 <= i < placed.tabs.len() implies (#[trigger] placed.tabs[i]).id
        == mended.tabs[i].id by {}
    lemma_same_ids(placed.tabs, mended.tabs, mended.selected_tab);
}

/// Refreshing keeps a state in order.
proof fn lemma_shown_sound(recorder: RecorderModel, legacy: bool)
    ensures
        transcript_is_current(recorder.state) ==> transcript_is_current(
            shown(recorder, legacy).state,
        ),
        selection_is_open(recorder.state) ==> selection_is_open(shown(recorder, legacy).state),
        pending_is_there(recorder) ==> pending_is_there(shown(recorder, legacy)),
{
}

/// A chunk that keeps its tab and words may be put in the place of another.
proof fn lemma_put_sound(state: StateModel, i: int, chunk: Chunk<Seq<char>>)
    requires
        0 <= i < state.chunks.len(),
        chunk.tab_id == state.chunks[i].tab_id,
        chunk.text == state.chunks[i].text,
    ensures
        transcript_is_current(state) ==> transcript_is_current(chunk_put(state, i, chunk)),
        selection_is_open(state) ==> selection_is_open(chunk_put(state, i, chunk)),
        chunk_put(state, i, chunk).chunks.len() == state.chunks.len(),
{
    let after = chunk_put(state, i, chunk);
    assert forall|j: int| 0 <= j < after.chunks.len() implies (#[trigger] after.chunks[j]).tab_id
        == state.chunks[j].tab_id && after.chunks[j].text == state.chunks[j].text by {}
    if transcript_is_current(state) {
        lemma_current_stays(state, after);
    }
}

/// Starting the next transcription keeps a recorder in order.
proof fn lemma_next_sound(recorder: RecorderModel, legacy: bool)
    requires
        sound(recorder),
        recorder.state.chunks.len() <= usize::MAX,
    ensures
        sound_after(next_started(recorder, legacy).0, next_started(recorder, legacy).1),
{
    lemma_first_match(recorder.state.chunks, with_status(ChunkStatus::Queued));
    lemma_shown_sound(recorder, legacy);
    match first_match(recorder.state.chunks, with_status(ChunkStatus::Queued)) {
        None => {},
        Some(i) => {
            lemma_put_sound(
                recorder.state,
                i,
                Chunk { status: ChunkStatus::Transcribing, ..recorder.state.chunks[i] },
            );
        },
    }
}

/// Closing a tab leaves an open one selected, or none.
pub proof fn lemma_closed_sound(state: StateModel, i: int)
    requires
        selection_is_open(state),
        0 <= i < state.tabs.len(),
    ensures
        transcript_is_current(tab_closed(state, i)),
        selection_is_open(tab_closed(state, i)),
{
    let tabs = state.tabs.remove(i);
    let closed = tab_closed(state, i);
    if state.selected_tab == state.tabs[i].id {
        if tabs.len() > 0 {
            if i < tabs.len() {
                lemma_found(tabs, i);
            } else {
                lemma_found(tabs, tabs.len() - 1);
            }
        }
    } else {
        let id = state.selected_tab;
        lemma_first_match(state.tabs, tab_with_id(id));
        let k = first_match(state.tabs, tab_with_id(id))->0;
        let m = if k < i {
            k
        } else {
            k - 1
        };
        assert(tabs[m] == state.tabs[k]);
        lemma_found(tabs, m);
    }
    assert(closed.tabs == tabs);
}

/// Opening tabs again leaves an open one selected.
pub proof fn lemma_opened_sound(state: StateModel, id: Seq<char>)
    ensures
        state.closed_tabs.len() > 0 ==> transcript_is_current(tab_reopened(state))
            && selection_is_open(tab_reopened(state)),
        tab_selected(state, id) is Some ==> transcript_is_current(tab_selected(state, id)->0)
            && selection_is_open(tab_selected(state, id)->0),
{
    if state.closed_tabs.len() > 0 {
        let tabs = state.tabs.push(state.closed_tabs.last());
        lemma_found(tabs, tabs.len() - 1);
    }
}

/// Renaming changes no transcript.
pub proof fn lemma_renamed_sound(state: StateModel, i: int, name: Seq<char>)
    requires
        0 <= i < state.tabs.len(),
    ensures
        transcript_is_current(state) ==> transcript_is_current(tab_renamed(state, i, name)),
        selection_is_open(state) ==> selection_is_open(tab_renamed(state, i, name)),
{
    let after = tab_renamed(state, i, name);
    assert forall|j: int| 0 <= j < after.tabs.len() implies (#[trigger] after.tabs[j]).id
        == state.tabs[j].id by {}
    lemma_same_ids(after.tabs, state.tabs, state.selected_tab);
    lemma_first_match(state.tabs, tab_with_id(state.selected_tab));
}

/// A request that succeeds so far leaves the recorder in order.
proof fn lemma_finishing_sound(recorder: RecorderModel, legacy: bool)
    requires
        sound(recorder),
    ensures
        sound_after(finishing(recorder, legacy).0, finishing(recorder, legacy).1),
{
    lemma_shown_sound(recorder, legacy);
}

/// Asking for a chunk once more leaves the recorder in order.
proof fn lemma_retry_sound(recorder: RecorderModel, legacy: bool)
    requires
        sound(recorder),
    ensures
        sound_after(retrying(recorder, legacy).0, retrying(recorder, legacy).1),
{
    let state = recorder.state;
    lemma_first_match(state.chunks, with_status(ChunkStatus::Failed));
    lemma_last_match(state.chunks, with_status(ChunkStatus::Ready));
    match retry_place(state.chunks) {
        Some(i) => {
            lemma_put_sound(state, i, chunk_requeued(state.chunks[i]));
            lemma_finishing_sound(
                saying(
                    with_state(
                        recorder,
                        chunk_put(state, i, chunk_requeued(state.chunks[i])),
                    ),
                    "Saved audio queued for transcription."@,
                ),
                legacy,
            );
        },
        None => {},
    }
}

/// Calling off what waits leaves the recorder in order.
proof fn lemma_cancel_sound(recorder: RecorderModel, legacy: bool)
    requires
        sound(recorder),
    ensures
        sound_after(
            begun(recorder, Action::Cancel, legacy).0,
            begun(recorder, Action::Cancel, legacy).1,
        ),
{
    let state = recorder.state;
    let after = StateModel { chunks: canceled_chunks(state.chunks), ..state };
    assert forall|j: int| 0 <= j < after.chunks.len() implies (#[trigger] after.chunks[j]).tab_id
        == state.chunks[j].tab_id && after.chunks[j].text == state.chunks[j].text by {}
    lemma_current_stays(state, after);
    lemma_shown_sound(with_state(recorder, after), legacy);
}

/// Requests about tabs leave the recorder in order.
proof fn lemma_tabs_sound(recorder: RecorderModel, action: Action<Seq<char>>, legacy: bool)
    requires
        sound(recorder),
        action is CloseTab || action is ReopenTab || action is SelectTab || action is RenameTab,
    ensures
        sound_after(begun(recorder, action, legacy).0, begun(recorder, action, legacy).1),
{
    let state = recorder.state;
    match action {
        Action::CloseTab(id) => {
            lemma_first_match(state.tabs, tab_with_id(id));
            match first_match(state.tabs, tab_with_id(id)) {
                Some(i) => {
                    lemma_closed_sound(state, i);
                    lemma_finishing_sound(with_state(recorder, tab_closed(state, i)), legacy);
                },
                None => {},
            }
        },
        Action::ReopenTab => {
            lemma_opened_sound(state, state.selected_tab);
            if state.closed_tabs.len() > 0 {
                lemma_finishing_sound(with_state(recorder, tab_reopened(state)), legacy);
            }
        },
        Action::SelectTab(id) => {
            lemma_opened_sound(state, id);
            match tab_selected(state, id) {
                Some(after) => {
                    lemma_finishing_sound(with_state(recorder, after), legacy);
                },
                None => {},
            }
        },
        Action::RenameTab { id, name } => {
            lemma_first_match(state.tabs, tab_with_id(id));
            match first_match(state.tabs, tab_with_id(id)) {
                Some(i) => {
                    lemma_renamed_sound(state, i, name);
                    lemma_finishing_sound(
                        with_state(recorder, tab_renamed(state, i, name)),
                        legacy,
                    );
                },
                None => {},
            }
        },
        _ => {},
    }
}

/// A request that begins leaves the recorder in order: its transcript is that of the selected
/// tab, the selected tab is an open one, and what is being transcribed is there.
pub proof fn law_begin_is_sound(recorder: RecorderModel, action: Action<Seq<char>>, legacy: bool)
    requires
        sound(recorder),
        recorder.state.chunks.len() <= usize::MAX,
    ensures
        sound_after(begun(recorder, action, legacy).0, begun(recorder, action, legacy).1),
{
    match action {
        Action::Retry => {
            lemma_retry_sound(recorder, legacy);
        },
        Action::Cancel => {
            lemma_cancel_sound(recorder, legacy);
        },
        Action::CloseTab(_) | Action::ReopenTab | Action::SelectTab(_) | Action::RenameTab {
            ..
        } => {
            lemma_tabs_sound(recorder, action, legacy);
        },
        Action::Start | Action::Stop | Action::Toggle => {
            lemma_first_match(recorder.state.chunks, with_status(ChunkStatus::Recording));
        },
        Action::SelectDevice(_) => {
            lemma_finishing_sound(device_selected(recorder, None), legacy);
        },
        Action::Shutdown => {
            lemma_finishing_sound(recorder, legacy);
        },
        _ => {},
    }
}

/// A new chunk leaves the recorder in order.
proof fn lemma_added_sound(recorder: RecorderModel, cause: NewChunk, id: Seq<char>)
    requires
        sound(recorder),
        recorder.state.chunks.len() <= usize::MAX,
    ensures
        sound_after(tree_made(recorder, cause, id).0, tree_made(recorder, cause, id).1),
{
    let state = recorder.state;
    let status = match cause {
        NewChunk::Recording => ChunkStatus::Recording,
        NewChunk::Legacy => ChunkStatus::Queued,
    };
    let after = chunk_added(state, id, status);
    lemma_silent_chunk(
        prior_of(state.tabs, state.selected_tab),
        state.chunks,
        new_chunk(state.selected_tab, id, status),
        state.selected_tab,
    );
    assert(transcript_is_current(after));
}

/// Taking a new chunk out again leaves the recorder in order.
proof fn lemma_undone_sound(recorder: RecorderModel)
    requires
        sound(recorder),
        last_is_new(recorder),
    ensures
        sound(
            with_state(
                recorder,
                StateModel { chunks: recorder.state.chunks.drop_last(), ..recorder.state },
            ),
        ),
{
    let state = recorder.state;
    let shorter = state.chunks.drop_last();
    assert(state.chunks =~= shorter.push(state.chunks.last()));
    lemma_silent_chunk(
        prior_of(state.tabs, state.selected_tab),
        shorter,
        state.chunks.last(),
        state.selected_tab,
    );
}

/// A recording that starts, or does not, leaves the recorder in order.
proof fn lemma_capture_sound(
    recorder: RecorderModel,
    index: usize,
    outcome: OutcomeModel,
    legacy: bool,
)
    requires
        sound_waiting(recorder, Wait::CaptureStarted { index }),
        outcome is Device || outcome is Failed,
    ensures
        sound_after(
            capture_started(recorder, index, outcome, legacy).0,
            capture_started(recorder, index, outcome, legacy).1,
        ),
{
    match outcome {
        Outcome::Device(device) => {
            let next = RecorderModel {
                capturing: true,
                state: StateModel {
                    device,
                    seconds: 0,
                    message: "Recording chunk "@ + crate::service::ordinal(index as int)
                        + ". Transcription continues in the background."@,
                    ..recorder.state
                },
                ..recorder
            };
            assert(sound(next));
            lemma_finishing_sound(next, legacy);
        },
        _ => {},
    }
}

/// A recording that ends leaves the recorder in order.
proof fn lemma_stopped_sound(
    recorder: RecorderModel,
    index: usize,
    outcome: OutcomeModel,
    legacy: bool,
)
    requires
        sound(recorder),
        index < recorder.state.chunks.len(),
    ensures
        sound_after(
            capture_stopped(recorder, index, outcome, legacy).0,
            capture_stopped(recorder, index, outcome, legacy).1,
        ),
{
    let state = recorder.state;
    match outcome {
        Outcome::Failed { plain, .. } => {
            let chunk = chunk_failed(state.chunks[index as int], plain);
            lemma_put_sound(state, index as int, chunk);
            lemma_shown_sound(
                with_state(recorder, chunk_put(state, index as int, chunk)),
                legacy,
            );
        },
        _ => {},
    }
}

/// A recording that is queued leaves the recorder in order.
proof fn lemma_measured_sound(
    recorder: RecorderModel,
    index: usize,
    length: Option<u64>,
    legacy: bool,
)
    requires
        sound(recorder),
        index < recorder.state.chunks.len(),
    ensures
        sound_after(
            measured(recorder, index, length, legacy).0,
            measured(recorder, index, length, legacy).1,
        ),
        sound_after(
            legacy_measured(recorder, index, length, legacy).0,
            legacy_measured(recorder, index, length, legacy).1,
        ),
{
    let state = recorder.state;
    let i = index as int;
    let seconds = match length {
        Some(seconds) => seconds,
        None => state.seconds,
    };
    let chunk = Chunk { seconds, status: ChunkStatus::Queued, ..state.chunks[i] };
    lemma_put_sound(state, i, chunk);
    lemma_finishing_sound(
        saying(
            with_state(recorder, chunk_put(state, i, chunk)),
            "Chunk "@ + crate::service::ordinal(i)
                + " queued. Press Space to record the next one."@,
        ),
        legacy,
    );
    let seconds = match length {
        Some(seconds) => seconds,
        None => 0,
    };
    let chunk = Chunk { seconds, ..state.chunks[i] };
    lemma_put_sound(state, i, chunk);
    lemma_finishing_sound(
        saying(
            with_state(recorder, chunk_put(state, i, chunk)),
            "Saved audio queued for transcription."@,
        ),
        legacy,
    );
}

/// A recording that breaks off leaves the recorder in order.
proof fn lemma_interrupted_sound(recorder: RecorderModel, message: Seq<char>, legacy: bool)
    requires
        sound(recorder),
    ensures
        sound(interrupted(recorder, message)),
        sound(shown(interrupted(recorder, message), legacy)),
{
    let state = recorder.state;
    lemma_first_match(state.chunks, with_status(ChunkStatus::Recording));
    match first_match(state.chunks, with_status(ChunkStatus::Recording)) {
        Some(i) => {
            lemma_put_sound(state, i, chunk_failed(state.chunks[i], message));
        },
        None => {},
    }
    lemma_shown_sound(interrupted(recorder, message), legacy);
}

/// The look at a transcription leaves the recorder in order.
proof fn lemma_polling_sound(recorder: RecorderModel, legacy: bool)
    requires
        sound(recorder),
        recorder.state.chunks.len() <= usize::MAX,
    ensures
        sound_after(polling(recorder, legacy).0, polling(recorder, legacy).1),
{
    if recorder.pending is None {
        lemma_next_sound(recorder, legacy);
    }
}

/// The answer of a transcription leaves the recorder in order.
proof fn lemma_polled_sound(
    recorder: RecorderModel,
    answer: Option<Result<Seq<char>, Seq<char>>>,
    legacy: bool,
)
    requires
        sound(recorder),
        recorder.pending is Some,
        recorder.state.chunks.len() <= usize::MAX,
    ensures
        sound_after(polled(recorder, answer, legacy).0, polled(recorder, answer, legacy).1),
{
    let free = RecorderModel { pending: None, ..recorder };
    let state = recorder.state;
    let i = recorder.pending->0 as int;
    lemma_finishing_sound(free, legacy);
    match answer {
        None => {
            lemma_next_sound(recorder, legacy);
        },
        Some(Ok(words)) => {
            let filled = saying(
                with_state(
                    free,
                    rebuilt(chunk_put(state, i, chunk_filled(state.chunks[i], words))),
                ),
                "Chunk "@ + crate::service::ordinal(i)
                    + " transcribed. Keep going whenever you're ready."@,
            );
            assert(sound(filled));
            lemma_finishing_sound(filled, legacy);
        },
        Some(Err(words)) => {
            let chunk = chunk_failed(state.chunks[i], words);
            lemma_put_sound(state, i, chunk);
            let failed = saying(
                with_state(free, chunk_put(state, i, chunk)),
                "Chunk "@ + crate::service::ordinal(i) + " failed: "@ + words
                    + ". Audio retained."@,
            );
            assert(sound(failed));
            lemma_finishing_sound(failed, legacy);
        },
    }
}

/// Clearing ends with the recorder in order.
proof fn lemma_cleared_sound(recorder: RecorderModel, legacy: bool)
    requires
        sound_waiting(recorder, Wait::TreeRemoved),
    ensures
        sound_after(cleared(recorder, legacy).0, cleared(recorder, legacy).1),
{
    let next = with_state(
        recorder,
        StateModel {
            transcript: Seq::empty(),
            prior_transcript: Seq::empty(),
            seconds: 0,
            message: "Cleared. A fresh start."@,
            ..recorder.state
        },
    );
    assert(next.state.transcript =~= current_transcript(next.state));
    lemma_finishing_sound(next, legacy);
}

/// Going on with settings leaves the recorder in order.
proof fn lemma_reloaded_sound(
    recorder: RecorderModel,
    around: crate::config::Surroundings<Seq<char>>,
    settings: Stored<TranscriptionSettingsModel, Seq<char>>,
    known: crate::config::Prerequisites<Seq<char>>,
    legacy: bool,
)
    requires
        sound(recorder),
    ensures
        sound_after(
            reloaded(recorder, around, settings, known, legacy).0,
            reloaded(recorder, around, settings, known, legacy).1,
        ),
{
    match crate::config::reconfiguration(recorder.config, around, settings) {
        Err(_) => {},
        Ok(config) => {
            let next = RecorderModel {
                config,
                state: StateModel {
                    backend: crate::model::shown_backend(
                        config,
                        crate::config::key_in_force(
                            known.stored_key,
                            known.environment_key,
                        ) is Ok,
                    ),
                    message: "Settings saved. Applies to the next transcription."@,
                    ..recorder.state
                },
                ..recorder
            };
            assert(sound(next));
            lemma_finishing_sound(next, legacy);
        },
    }
}

/// Going on where a failure would have ended a request leaves the recorder in order.
proof fn lemma_continued_sound(
    recorder: RecorderModel,
    wait: WaitModel,
    outcome: OutcomeModel,
    legacy: bool,
)
    requires
        sound_waiting(recorder, wait),
        fits(wait, outcome),
        outcome !is Failed,
        recorder.state.chunks.len() <= usize::MAX,
    ensures
        sound_after(
            continued(recorder, wait, outcome, legacy).0,
            continued(recorder, wait, outcome, legacy).1,
        ),
{
    match wait {
        Wait::DeviceChosen { device } => {
            lemma_finishing_sound(device_selected(recorder, Some(device)), legacy);
        },
        Wait::TreeMade { cause, id } => {
            lemma_added_sound(recorder, cause, id);
        },
        Wait::CaptureUndone { error } => {
            lemma_undone_sound(recorder);
        },
        Wait::CancelSaved { count } => {
            lemma_finishing_sound(
                saying(recorder, crate::service::cancel_message(count as nat)),
                legacy,
            );
        },
        Wait::CancelSent { count } => {
            lemma_finishing_sound(
                saying(recorder, crate::service::cancel_message(count as nat)),
                legacy,
            );
        },
        Wait::Copied => {
            lemma_finishing_sound(saying(recorder, "Copied to clipboard."@), legacy);
        },
        Wait::Exported { path } => {
            lemma_finishing_sound(saying(recorder, "Exported to "@ + path), legacy);
        },
        Wait::TabStamped { name } => {
            let id = crate::service::tab_id(outcome->Stamp_nanos);
            let after = crate::session::tab_created(recorder.state, id, name);
            lemma_found(after.tabs, after.tabs.len() - 1);
            assert(sound(with_state(recorder, after)));
            lemma_finishing_sound(with_state(recorder, after), legacy);
        },
        Wait::SavedRemoved => {
            lemma_emptied(recorder.state);
        },
        Wait::TreeRemoved => {
            lemma_cleared_sound(recorder, legacy);
        },
        Wait::Saved => {
            lemma_next_sound(recorder, legacy);
        },
        Wait::InterruptSaved { .. } => {
            lemma_polling_sound(recorder, legacy);
        },
        _ => {},
    }
}

/// A request that goes on leaves the recorder in order, whatever came of what it waited for. The
/// one exception is a clearing whose last removal fails: the chunks are gone by then, while the
/// transcript still shows their words.
pub proof fn law_resume_is_sound(
    recorder: RecorderModel,
    wait: WaitModel,
    outcome: OutcomeModel,
    legacy: bool,
)
    requires
        sound_waiting(recorder, wait),
        fits(wait, outcome),
        !(wait is TreeRemoved && outcome is Failed),
        recorder.state.chunks.len() <= usize::MAX,
    ensures
        sound_after(
            resumed(recorder, wait, outcome, legacy).0,
            resumed(recorder, wait, outcome, legacy).1,
        ),
{
    match wait {
        Wait::SettingsLoaded { .. } => {},
        Wait::Inspected => {},
        Wait::Reloaded => {
            lemma_reloaded_sound(
                recorder,
                outcome->Reloaded_around,
                outcome->Reloaded_settings,
                outcome->Reloaded_known,
                legacy,
            );
        },
        Wait::CaptureStarted { index } => {
            lemma_capture_sound(recorder, index, outcome, legacy);
        },
        Wait::CaptureStopped { index } => {
            lemma_stopped_sound(recorder, index, outcome, legacy);
        },
        Wait::Measured { index } => {
            lemma_measured_sound(recorder, index, outcome->Length_0, legacy);
        },
        Wait::LegacyMeasured { index } => {
            lemma_measured_sound(recorder, index, outcome->Length_0, legacy);
        },
        Wait::Polled => {
            lemma_polled_sound(recorder, outcome->Worker_0, legacy);
        },
        Wait::Interrupted { message, .. } => {
            lemma_interrupted_sound(recorder, message, legacy);
        },
        Wait::AutoCopied => {
            match outcome {
                Outcome::Failed { plain, .. } => {
                    lemma_finishing_sound(
                        saying(recorder, "Transcript ready. Clipboard unavailable: "@ + plain),
                        legacy,
                    );
                },
                _ => {
                    lemma_finishing_sound(saying(recorder, "Copied to clipboard."@), legacy);
                },
            }
        },
        _ => {
            if outcome !is Failed {
                lemma_continued_sound(recorder, wait, outcome, legacy);
            }
        },
    }
}

/// A tick that begins leaves the recorder in order.
pub proof fn law_tick_is_sound(recorder: RecorderModel, reading: Reading<Seq<char>>, legacy: bool)
    requires
        sound(recorder),
        recorder.state.chunks.len() <= usize::MAX,
    ensures
        sound_after(ticked(recorder, reading, legacy).0, ticked(recorder, reading, legacy).1),
{
    if recorder.capturing {
        let seen = observed(recorder, reading);
        let state = StateModel { seconds: reading.seconds, level: reading.level, ..recorder.state };
        lemma_first_match(state.chunks, with_status(ChunkStatus::Recording));
        match first_match(state.chunks, with_status(ChunkStatus::Recording)) {
            Some(i) => {
                lemma_put_sound(state, i, Chunk { seconds: reading.seconds, ..state.chunks[i] });
            },
            None => {},
        }
        assert(sound(seen));
        lemma_polling_sound(seen, legacy);
    } else {
        lemma_polling_sound(recorder, legacy);
    }
}

/// Sequences whose members pass their filters at the same places keep equally many.
proof fn lemma_same_count<A, B>(
    a: Seq<A>,
    b: Seq<B>,
    p: spec_fn(A) -> bool,
    q: spec_fn(B) -> bool,
)
    requires
        a.len() == b.len(),
        forall|i: int| 0 <= i < a.len() ==> p(#[trigger] a[i]) == q(b[i]),
    ensures
        a.filter(p).len() == b.filter(q).len(),
    decreases a.len(),
{
    if a.len() > 0 {
        let c = a.drop_last();
        let d = b.drop_last();
        assert forall|i: int| 0 <= i < c.len() implies p(#[trigger] c[i]) == q(d[i]) by {
            assert(c[i] == a[i]);
        }
        lemma_same_count(c, d, p, q);
        assert(a =~= c.push(a.last()));
        assert(b =~= d.push(b.last()));
        lemma_filter_of_push(c, a.last(), p);
        lemma_filter_of_push(d, b.last(), q);
        assert(p(a[a.len() - 1]) == q(b[a.len() - 1]));
    } else {
        lemma_filter_none(a, p);
        lemma_filter_none(b, q);
    }
}

/// Chunks are transcribed in the order in which they were queued, and none while another one is.
pub proof fn law_first_queued_is_next(recorder: RecorderModel, legacy: bool)
    requires
        recorder.state.chunks.len() <= usize::MAX,
    ensures
        ({
            let (after, step) = next_started(recorder, legacy);
            match step {
                Step::Perform(effect, wait) => {
                    &&& recorder.pending is None
                    &&& effect is Save
                    &&& wait is LaunchSaved
                    &&& after.pending == Some(wait->LaunchSaved_index)
                    &&& wait->LaunchSaved_index < recorder.state.chunks.len()
                    &&& recorder.state.chunks[wait->LaunchSaved_index as int].status
                        == ChunkStatus::Queued
                    &&& forall|j: int|
                        0 <= j < wait->LaunchSaved_index ==> (
                        #[trigger] recorder.state.chunks[j]).status != ChunkStatus::Queued
                },
                _ => {
                    &&& after.pending == recorder.pending
                    &&& after.state.chunks == recorder.state.chunks
                    &&& recorder.pending is Some || !any_status(
                        recorder.state.chunks,
                        ChunkStatus::Queued,
                    )
                },
            }
        }),
{
    let queued = with_status(ChunkStatus::Queued);
    lemma_first_match(recorder.state.chunks, queued);
    match first_match(recorder.state.chunks, queued) {
        Some(i) => {
            assert forall|j: int| 0 <= j < i implies (#[trigger] recorder.state.chunks[j]).status
                != ChunkStatus::Queued by {
                assert(!queued(recorder.state.chunks[j]));
            }
        },
        None => {
            assert forall|j: int| 0 <= j < recorder.state.chunks.len() implies (
            #[trigger] recorder.state.chunks[j]).status != ChunkStatus::Queued by {
                assert(!queued(recorder.state.chunks[j]));
            }
        },
    }
}

/// Calling off leaves nothing that waits, and every word, recording and tab in its place. A
/// recording that runs goes on.
pub proof fn law_cancel_keeps_words(recorder: RecorderModel, legacy: bool)
    ensures
        ({
            let after = begun(recorder, Action::Cancel, legacy).0;
            let before = recorder.state.chunks;
            &&& after.state.queue_depth == 0
            &&& after.state.chunks.len() == before.len()
            &&& forall|i: int|
                0 <= i < before.len() ==> {
                    &&& !awaited((#[trigger] after.state.chunks[i]).status)
                    &&& after.state.chunks[i].id == before[i].id
                    &&& after.state.chunks[i].tab_id == before[i].tab_id
                    &&& after.state.chunks[i].text == before[i].text
                    &&& after.state.chunks[i].seconds == before[i].seconds
                    &&& !awaited(before[i].status) ==> after.state.chunks[i] == before[i]
                }
            &&& after.state.transcript == recorder.state.transcript
            &&& after.state.tabs == recorder.state.tabs
            &&& after.state.closed_tabs == recorder.state.closed_tabs
            &&& after.capturing == recorder.capturing
            &&& after.pending == recorder.pending
        }),
{
    let after = begun(recorder, Action::Cancel, legacy).0;
    assert forall|i: int| 0 <= i < after.state.chunks.len() implies !with_status(
        ChunkStatus::Queued,
    )(#[trigger] after.state.chunks[i]) by {}
    lemma_filter_none(after.state.chunks, with_status(ChunkStatus::Queued));
}

/// What was called off stays called off when an answer for it still comes: no chunk, word or
/// message changes, and the next chunk may be transcribed.
pub proof fn law_late_answer_is_dropped(
    recorder: RecorderModel,
    answer: Result<Seq<char>, Seq<char>>,
    legacy: bool,
)
    requires
        recorder.pending is Some,
        recorder.pending->0 < recorder.state.chunks.len(),
        recorder.state.chunks[recorder.pending->0 as int].status == ChunkStatus::Canceled,
    ensures
        ({
            let after = polled(recorder, Some(answer), legacy).0;
            &&& after.state.chunks == recorder.state.chunks
            &&& after.state.transcript == recorder.state.transcript
            &&& after.state.message == recorder.state.message
            &&& after.pending is None
        }),
{
}

/// A recorder that comes up again has every chunk in its place with its words. What was called
/// off stays so, what was being transcribed waits again, and a recording that broke off counts as
/// failed. All that waits is counted.
pub proof fn law_restart_requeues(
    config: ConfigModel,
    saved: StateModel,
    lengths: Seq<Option<u64>>,
    api_key_configured: bool,
    auto_copy: bool,
    legacy: bool,
)
    ensures
        ({
            let after = restored(config, saved, lengths, api_key_configured, auto_copy, legacy);
            &&& !after.capturing
            &&& after.pending is None
            &&& after.state.chunks.len() == saved.chunks.len()
            &&& forall|i: int|
                0 <= i < saved.chunks.len() ==> {
                    &&& (#[trigger] after.state.chunks[i]).id == saved.chunks[i].id
                    &&& after.state.chunks[i].text == saved.chunks[i].text
                    &&& after.state.chunks[i].status == match saved.chunks[i].status {
                        ChunkStatus::Transcribing => ChunkStatus::Queued,
                        ChunkStatus::Recording => ChunkStatus::Failed,
                        status => status,
                    }
                }
            &&& after.state.queue_depth == awaited_count(saved.chunks)
        }),
{
    let after = restored(config, saved, lengths, api_key_configured, auto_copy, legacy);
    lemma_same_count(
        after.state.chunks,
        saved.chunks,
        with_status(ChunkStatus::Queued),
        waits(),
    );
}

/// Whether a saved state has its tabs, and everything in them: a tab is selected where one is
/// open, every chunk names its tab, and no words from before are left to be given to a tab.
pub open spec fn settled(saved: StateModel) -> bool {
    &&& saved.tabs.len() > 0 || saved.closed_tabs.len() > 0
    &&& if saved.tabs.len() > 0 {
        first_match(saved.tabs, tab_with_id(saved.selected_tab)) is Some
    } else {
        saved.selected_tab.len() == 0
    }
    &&& forall|i: int|
        0 <= i < saved.chunks.len() ==> (#[trigger] saved.chunks[i]).tab_id.len() > 0
    &&& saved.tabs.len() > 0 && saved.tabs[0].prior_transcript.len() == 0 ==> words_carried(
        saved,
    ).prior_transcript.len() == 0
}

/// Tabs, open and closed, come up again as they were, with the same one selected, its chunks
/// together and its transcript whole.
pub proof fn law_restart_keeps_tabs(
    config: ConfigModel,
    saved: StateModel,
    lengths: Seq<Option<u64>>,
    api_key_configured: bool,
    auto_copy: bool,
    legacy: bool,
)
    requires
        settled(saved),
    ensures
        ({
            let after = restored(
                config,
                saved,
                lengths,
                api_key_configured,
                auto_copy,
                legacy,
            ).state;
            &&& after.tabs == saved.tabs
            &&& after.closed_tabs == saved.closed_tabs
            &&& after.selected_tab == saved.selected_tab
            &&& after.transcript == current_transcript(saved)
            &&& forall|i: int|
                0 <= i < saved.chunks.len() ==> (#[trigger] after.chunks[i]).tab_id
                    == saved.chunks[i].tab_id
        }),
{
    let after = restored(config, saved, lengths, api_key_configured, auto_copy, legacy).state;
    assert(after.tabs =~= saved.tabs) by {
        if saved.tabs.len() > 0 {
            assert(words_carried(saved).prior_transcript =~= Seq::<char>::empty()
                || saved.tabs[0].prior_transcript.len() > 0);
            assert(saved.tabs[0].prior_transcript =~= Seq::<char>::empty()
                || saved.tabs[0].prior_transcript.len() > 0);
        }
    }
    assert(after.selected_tab =~= saved.selected_tab);
    lemma_same_words(after.chunks, saved.chunks, saved.selected_tab);
}

/// Words that come in for a chunk are a piece more of its tab, where the tab's later chunks have
/// none yet.
proof fn lemma_piece_added(
    prior: Seq<char>,
    chunks: Seq<Chunk<Seq<char>>>,
    tab: Seq<char>,
    index: int,
    words: Seq<char>,
)
    requires
        0 <= index < chunks.len(),
        chunks[index].tab_id == tab,
        chunks[index].text.len() == 0,
        forall|j: int|
            index < j < chunks.len() && (#[trigger] chunks[j]).tab_id == tab
                ==> chunks[j].text.len() == 0,
    ensures
        non_empty(
            seq![prior] + texts_of(
                chunks.update(index, chunk_filled(chunks[index], words)),
                tab,
            ),
        ) == if words.len() > 0 {
            non_empty(seq![prior] + texts_of(chunks, tab)).push(words)
        } else {
            non_empty(seq![prior] + texts_of(chunks, tab))
        },
    decreases chunks.len(),
{
    let filled = chunk_filled(chunks[index], words);
    let after = chunks.update(index, filled);
    let shorter = chunks.drop_last();
    let last = chunks.last();
    let keep = |piece: Seq<char>| piece.len() > 0;
    assert(chunks =~= shorter.push(last));
    lemma_filter_of_push(shorter, last, in_tab(tab));
    if index == chunks.len() - 1 {
        assert(after =~= shorter.push(filled));
        lemma_filter_of_push(shorter, filled, in_tab(tab));
        let pieces = seq![prior] + texts_of(shorter, tab);
        assert(seq![prior] + texts_of(chunks, tab) =~= pieces.push(last.text));
        assert(seq![prior] + texts_of(after, tab) =~= pieces.push(words));
        lemma_filter_of_push(pieces, last.text, keep);
        lemma_filter_of_push(pieces, words, keep);
    } else {
        assert(shorter[index] == chunks[index]);
        assert forall|j: int|
            index < j < shorter.len() && (#[trigger] shorter[j]).tab_id == tab implies shorter[j].text.len()
            == 0 by {
            assert(shorter[j] == chunks[j]);
        }
        lemma_piece_added(prior, shorter, tab, index, words);
        let shorter_after = shorter.update(index, filled);
        assert(after =~= shorter_after.push(last));
        lemma_filter_of_push(shorter_after, last, in_tab(tab));
        if in_tab(tab)(last) {
            assert(chunks[chunks.len() - 1].text.len() == 0);
            let pieces = seq![prior] + texts_of(shorter, tab);
            let pieces_after = seq![prior] + texts_of(shorter_after, tab);
            assert(seq![prior] + texts_of(chunks, tab) =~= pieces.push(last.text));
            assert(seq![prior] + texts_of(after, tab) =~= pieces_after.push(last.text));
            lemma_filter_of_push(pieces, last.text, keep);
            lemma_filter_of_push(pieces_after, last.text, keep);
        }
    }
}

/// Words that come in are a new line at the end of the transcript, where the chunks are
/// transcribed in their order: the chunk had none before, and the later ones of the tab have none
/// yet.
pub proof fn law_words_are_appended(
    recorder: RecorderModel,
    words: Seq<char>,
    legacy: bool,
)
    requires
        recorder.pending is Some,
        recorder.pending->0 < recorder.state.chunks.len(),
        ({
            let state = recorder.state;
            let index = recorder.pending->0 as int;
            &&& state.chunks[index].status != ChunkStatus::Canceled
            &&& state.chunks[index].tab_id == state.selected_tab
            &&& state.chunks[index].text.len() == 0
            &&& forall|j: int|
                index < j < state.chunks.len() && (#[trigger] state.chunks[j]).tab_id
                    == state.selected_tab ==> state.chunks[j].text.len() == 0
        }),
    ensures
        ({
            let before = current_transcript(recorder.state);
            polled(recorder, Some(Ok(words)), legacy).0.state.transcript == if words.len() == 0 {
                before
            } else if before.len() == 0 {
                words
            } else {
                before + "\n"@ + words
            }
        }),
{
    let state = recorder.state;
    let index = recorder.pending->0 as int;
    let prior = prior_of(state.tabs, state.selected_tab);
    let pieces = non_empty(seq![prior] + texts_of(state.chunks, state.selected_tab));
    lemma_piece_added(prior, state.chunks, state.selected_tab, index, words);
    if words.len() > 0 {
        assert(pieces.push(words).drop_last() =~= pieces);
        if pieces.len() > 0 {
            lemma_filter_kept(
                seq![prior] + texts_of(state.chunks, state.selected_tab),
                |piece: Seq<char>| piece.len() > 0,
            );
            assert(pieces[pieces.len() - 1].len() > 0);
        }
    }
}

/// A tab that was selected and closed comes back with its transcript when it is opened again.
pub proof fn law_reopen_undoes_close(state: StateModel, index: int)
    requires
        0 <= index < state.tabs.len(),
        state.selected_tab == state.tabs[index].id,
        forall|i: int, j: int|
            0 <= i < j < state.tabs.len() ==> (#[trigger] state.tabs[i]).id != (
            #[trigger] state.tabs[j]).id,
    ensures
        ({
            let after = tab_reopened(tab_closed(state, index));
            &&& after.selected_tab == state.selected_tab
            &&& after.transcript == current_transcript(state)
            &&& after.chunks == state.chunks
            &&& after.closed_tabs == state.closed_tabs
            &&& after.tabs == state.tabs.remove(index).push(state.tabs[index])
        }),
{
    let tab = state.tabs[index];
    let closed = tab_closed(state, index);
    let after = tab_reopened(closed);
    assert(closed.closed_tabs.drop_last() =~= state.closed_tabs);
    assert(closed.closed_tabs.last() == tab);
    let named = tab_with_id(tab.id);
    assert forall|j: int| 0 <= j < after.tabs.len() - 1 implies !named(#[trigger] after.tabs[j]) by {
        if j < index {
            assert(after.tabs[j] == state.tabs[j]);
        } else {
            assert(after.tabs[j] == state.tabs[j + 1]);
        }
    }
    lemma_is_first(after.tabs, named, after.tabs.len() - 1);
    assert forall|j: int| 0 <= j < index implies !named(#[trigger] state.tabs[j]) by {}
    lemma_is_first(state.tabs, named, index);
}

/// A key leaves no trace in the recorder: whatever it is, what the recorder holds and what it
/// waits for are the same.
pub proof fn law_key_stays_out(
    recorder: RecorderModel,
    settings: BackendSettings<Seq<char>>,
    key: Seq<char>,
    other: Seq<char>,
    stored: Stored<TranscriptionSettingsModel, Seq<char>>,
)
    requires
        has_control(trimmed(key)) == has_control(trimmed(other)),
    ensures
        ({
            let one = settings_loaded(recorder, settings, Some(key), stored);
            let two = settings_loaded(recorder, settings, Some(other), stored);
            &&& one.0 == recorder
            &&& two.0 == recorder
            &&& match one.1 {
                Step::Perform(effect, wait) => {
                    &&& effect is SaveApiKey
                    &&& two.1 is Perform
                    &&& two.1->Perform_1 == wait
                },
                step => two.1 == step,
            }
        }),
{
}

/// Saving settings touches no chunk, no tab and no word, and leaves what runs running.
pub proof fn law_settings_keep_work(
    recorder: RecorderModel,
    around: Surroundings<Seq<char>>,
    settings: Stored<TranscriptionSettingsModel, Seq<char>>,
    known: Prerequisites<Seq<char>>,
    legacy: bool,
)
    ensures
        ({
            let after = reloaded(recorder, around, settings, known, legacy).0;
            &&& after.state.chunks == recorder.state.chunks
            &&& after.state.tabs == recorder.state.tabs
            &&& after.state.closed_tabs == recorder.state.closed_tabs
            &&& after.state.selected_tab == recorder.state.selected_tab
            &&& after.state.transcript == recorder.state.transcript
            &&& after.capturing == recorder.capturing
            &&& after.pending == recorder.pending
        }),
{
}

/// A request that is refused at once leaves the recorder as it was. The one exception is an end
/// to a recording whose chunk is not there: the recording is over all the same.
pub proof fn law_refusal_changes_nothing(
    recorder: RecorderModel,
    action: Action<Seq<char>>,
    legacy: bool,
)
    ensures
        ({
            let (after, step) = begun(recorder, action, legacy);
            step is Failed ==> after == recorder || (after == RecorderModel {
                capturing: false,
                ..recorder
            } && step->Failed_0 is RecordingMetadataMissing)
        }),
{
}

/// An export of a tab changes nothing but the message: its words, open or closed, go to the file
/// whole, with a line end after them.
pub proof fn law_export_changes_nothing(
    recorder: RecorderModel,
    id: Seq<char>,
    path: Seq<char>,
    legacy: bool,
)
    ensures
        ({
            let (after, step) = exporting(recorder, id, path);
            &&& after == recorder
            &&& step is Perform ==> {
                &&& exported_text(recorder.state, id) is Some
                &&& step->Perform_0 == (Effect::<
                    Seq<char>,
                    Seq<Seq<char>>,
                    TranscriptionSettingsModel,
                >::Export {
                    path,
                    contents: file_contents(exported_text(recorder.state, id)->0),
                })
                &&& ({
                    let end = resumed(recorder, step->Perform_1, Outcome::Done, legacy).0;
                    &&& end.state.chunks == recorder.state.chunks
                    &&& end.state.tabs == recorder.state.tabs
                    &&& end.state.closed_tabs == recorder.state.closed_tabs
                    &&& end.state.selected_tab == recorder.state.selected_tab
                    &&& end.state.transcript == recorder.state.transcript
                    &&& end.state.message == "Exported to "@ + path
                })
            }
        }),
{
}

/// What is shown agrees with what runs and waits: all that waits is counted, and the phase says
/// first that a recording runs, then that something is transcribed or waits.
pub proof fn law_shown_agrees(recorder: RecorderModel, legacy: bool)
    ensures
        ({
            let state = shown(recorder, legacy).state;
            &&& state.queue_depth == count_status(state.chunks, ChunkStatus::Queued)
            &&& state.transcribing == (recorder.pending is Some)
            &&& state.phase == Phase::Recording <==> recorder.capturing
            &&& state.phase == Phase::Transcribing <==> !recorder.capturing && (
            recorder.pending is Some || state.queue_depth > 0)
            &&& !recorder.capturing ==> state.level == 0
        }),
{
    let chunks = recorder.state.chunks;
    let queued = with_status(ChunkStatus::Queued);
    lemma_filter_kept(chunks, queued);
    if any_status(chunks, ChunkStatus::Queued) {
        let i = choose|i: int|
            0 <= i < chunks.len() && (#[trigger] chunks[i]).status == ChunkStatus::Queued;
        lemma_filter_has(chunks, queued, i);
    } else {
        assert forall|i: int| 0 <= i < chunks.len() implies !queued(#[trigger] chunks[i]) by {}
        lemma_filter_none(chunks, queued);
    }
}

/// Whether no chunk is being transcribed but the one that the recorder waits for.
pub open spec fn one_at_a_time(recorder: RecorderModel) -> bool {
    forall|i: int|
        0 <= i < recorder.state.chunks.len() && (#[trigger] recorder.state.chunks[i]).status
            == ChunkStatus::Transcribing ==> recorder.pending is Some && recorder.pending->0 == i
}

/// The next transcription starts where none runs.
proof fn lemma_next_is_one(recorder: RecorderModel, legacy: bool)
    requires
        one_at_a_time(recorder),
        recorder.state.chunks.len() <= usize::MAX,
    ensures
        one_at_a_time(next_started(recorder, legacy).0),
{
    lemma_first_match(recorder.state.chunks, with_status(ChunkStatus::Queued));
}

/// No request starts a second transcription.
pub proof fn law_begin_keeps_one(recorder: RecorderModel, action: Action<Seq<char>>, legacy: bool)
    requires
        one_at_a_time(recorder),
    ensures
        one_at_a_time(begun(recorder, action, legacy).0),
{
    lemma_first_match(recorder.state.chunks, with_status(ChunkStatus::Failed));
    lemma_last_match(recorder.state.chunks, with_status(ChunkStatus::Ready));
}

/// After an answer no chunk is being transcribed, or the same one as before.
proof fn lemma_polled_is_one(
    recorder: RecorderModel,
    answer: Option<Result<Seq<char>, Seq<char>>>,
    legacy: bool,
)
    requires
        one_at_a_time(recorder),
        recorder.pending is Some,
        recorder.pending->0 < recorder.state.chunks.len() <= usize::MAX,
    ensures
        one_at_a_time(polled(recorder, answer, legacy).0),
{
    lemma_next_is_one(recorder, legacy);
    let after = polled(recorder, answer, legacy).0;
    let chunks = recorder.state.chunks;
    if answer is Some {
        assert forall|i: int| 0 <= i < after.state.chunks.len() implies (
        #[trigger] after.state.chunks[i]).status != ChunkStatus::Transcribing by {
            if i != recorder.pending->0 {
                assert(after.state.chunks[i] == chunks[i]);
            }
        }
    }
}

/// A chunk that changes, but is not being transcribed afterwards, adds no second transcription.
proof fn lemma_put_is_one(recorder: RecorderModel, index: int, chunk: Chunk<Seq<char>>)
    requires
        one_at_a_time(recorder),
        0 <= index < recorder.state.chunks.len(),
        chunk.status == ChunkStatus::Transcribing ==> recorder.state.chunks[index].status
            == ChunkStatus::Transcribing,
    ensures
        one_at_a_time(with_state(recorder, chunk_put(recorder.state, index, chunk))),
{
    let after = with_state(recorder, chunk_put(recorder.state, index, chunk));
    assert forall|i: int|
        0 <= i < after.state.chunks.len() && (#[trigger] after.state.chunks[i]).status
            == ChunkStatus::Transcribing implies recorder.pending is Some && recorder.pending->0
        == i by {
        if i != index {
            assert(after.state.chunks[i] == recorder.state.chunks[i]);
        } else {
            assert(recorder.state.chunks[i].status == ChunkStatus::Transcribing);
        }
    }
}

/// Nothing that comes of a request or a tick starts a second transcription.
pub proof fn law_resume_keeps_one(
    recorder: RecorderModel,
    wait: WaitModel,
    outcome: OutcomeModel,
    legacy: bool,
)
    requires
        one_at_a_time(recorder),
        sound_waiting(recorder, wait),
        fits(wait, outcome),
        recorder.state.chunks.len() <= usize::MAX,
    ensures
        one_at_a_time(resumed(recorder, wait, outcome, legacy).0),
{
    let chunks = recorder.state.chunks;
    let after = resumed(recorder, wait, outcome, legacy).0;
    lemma_next_is_one(recorder, legacy);
    match wait {
        Wait::SavedRemoved => {
            let kept = outside_tab(recorder.state.selected_tab);
            lemma_filter_kept(chunks, kept);
            assert forall|i: int| 0 <= i < after.state.chunks.len() implies (
            #[trigger] after.state.chunks[i]).status != ChunkStatus::Transcribing by {
                if outcome !is Failed {
                    assert(chunks.contains(chunks.filter(kept)[i]));
                }
            }
        },
        Wait::CaptureUndone { .. } => {
            assert forall|i: int| 0 <= i < after.state.chunks.len() implies (
            #[trigger] after.state.chunks[i]) == chunks[i] by {}
        },
        Wait::Interrupted { .. } => {
            lemma_first_match(chunks, with_status(ChunkStatus::Recording));
        },
        Wait::TreeMade { .. } => {
            assert forall|i: int|
                0 <= i < after.state.chunks.len() && (#[trigger] after.state.chunks[i]).status
                    == ChunkStatus::Transcribing implies recorder.pending is Some && recorder.pending->0
                == i by {
                if i < chunks.len() {
                    assert(after.state.chunks[i] == chunks[i]);
                }
            }
        },
        Wait::Polled => {
            lemma_polled_is_one(recorder, outcome->Worker_0, legacy);
        },
        Wait::CaptureStopped { index } => {
            let i = index as int;
            if outcome is Failed {
                lemma_put_is_one(recorder, i, chunk_failed(chunks[i], outcome->Failed_plain));
            }
        },
        Wait::Measured { index } => {
            let i = index as int;
            let seconds = match outcome->Length_0 {
                Some(seconds) => seconds,
                None => recorder.state.seconds,
            };
            lemma_put_is_one(
                recorder,
                i,
                Chunk { seconds, status: ChunkStatus::Queued, ..chunks[i] },
            );
        },
        Wait::LegacyMeasured { index } => {
            let i = index as int;
            let seconds = match outcome->Length_0 {
                Some(seconds) => seconds,
                None => 0,
            };
            lemma_put_is_one(recorder, i, Chunk { seconds, ..chunks[i] });
        },
        _ => {},
    }
}

/// No tick starts a second transcription.
pub proof fn law_tick_keeps_one(recorder: RecorderModel, reading: Reading<Seq<char>>, legacy: bool)
    requires
        one_at_a_time(recorder),
        recorder.state.chunks.len() <= usize::MAX,
    ensures
        one_at_a_time(ticked(recorder, reading, legacy).0),
{
    lemma_first_match(recorder.state.chunks, with_status(ChunkStatus::Recording));
    let seen = observed(recorder, reading);
    assert(one_at_a_time(seen));
    lemma_next_is_one(seen, legacy);
    lemma_next_is_one(recorder, legacy);
}

} // verus!
