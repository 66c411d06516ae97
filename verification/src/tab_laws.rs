//! What tabs are for: which words belong to which tab, what is shown of them, and what a clearing,
//! an export or a look at the clock does.
use crate::config::has_control;
use crate::error::Error;
use crate::model::{Action, Chunk, ChunkStatus, Phase, StateModel, TranscriptTab};
use crate::paths::path_join;
use crate::protocol::{Effect, Outcome, OutcomeModel, Step, StepModel, Wait};
use crate::search::{
    first_match, lemma_filter_of_push, lemma_first_match, lemma_is_first, lemma_no_first,
};
use crate::service::{
    begun, breaking_off, interrupting, resumed, shown, ticked, Reading, RecorderModel,
};
use crate::session::{
    awaited_count, count_status, current_transcript, in_tab, outside_tab, tab_text, tab_with_id,
    texts_of, waits, with_status,
};
use crate::text::{control, decimal_digits, non_empty, trimmed};
use crate::work_laws::{alike, alike_but_chunks, files_of, others_kept, same_but_state};
use vstd::prelude::*;

verus! {

/// The text of a tab begins with the words from before. Each further chunk adds its words in a line
/// of their own, where it is one of the tab and has any; a chunk of another tab adds nothing.
pub proof fn law_text_is_built_line_by_line(
    prior: Seq<char>,
    chunks: Seq<Chunk<Seq<char>>>,
    chunk: Chunk<Seq<char>>,
    tab: Seq<char>,
)
    ensures
        tab_text(prior, Seq::empty(), tab) == prior,
        ({
            let before = tab_text(prior, chunks, tab);
            tab_text(prior, chunks.push(chunk), tab) == if chunk.tab_id != tab
                || chunk.text.len() == 0 {
                before
            } else if before.len() == 0 {
                chunk.text
            } else {
                before + "\n"@ + chunk.text
            }
        }),
{
    let kept = |piece: Seq<char>| piece.len() > 0;
    let none = Seq::<Chunk<Seq<char>>>::empty();
    reveal(Seq::filter);
    assert(none.filter(in_tab(tab)) =~= none);
    assert(texts_of(none, tab) =~= Seq::empty());
    assert(seq![prior] + texts_of(none, tab) =~= Seq::<Seq<char>>::empty().push(prior));
    lemma_filter_of_push(Seq::<Seq<char>>::empty(), prior, kept);
    assert(non_empty(seq![prior] + texts_of(none, tab)) =~= if prior.len() > 0 {
        seq![prior]
    } else {
        Seq::empty()
    });
    assert(tab_text(prior, none, tab) =~= prior);
    lemma_filter_of_push(chunks, chunk, in_tab(tab));
    let pieces = seq![prior] + texts_of(chunks, tab);
    if chunk.tab_id == tab {
        assert(texts_of(chunks.push(chunk), tab) =~= texts_of(chunks, tab).push(chunk.text));
        assert(seq![prior] + texts_of(chunks.push(chunk), tab) =~= pieces.push(chunk.text));
        lemma_filter_of_push(pieces, chunk.text, kept);
        if chunk.text.len() > 0 {
            let lines = non_empty(pieces);
            assert(lines.push(chunk.text).drop_last() =~= lines);
            lemma_lines(lines, pieces);
        }
    }
}

/// Lines that hold something are together empty only where there are none.
proof fn lemma_lines(lines: Seq<Seq<char>>, pieces: Seq<Seq<char>>)
    requires
        lines == non_empty(pieces),
    ensures
        crate::text::joined(lines, "\n"@).len() == 0 <==> lines.len() == 0,
{
    crate::search::lemma_filter_kept(pieces, |piece: Seq<char>| piece.len() > 0);
    if lines.len() > 0 {
        assert(lines[lines.len() - 1].len() > 0);
    }
}

/// The transcript is the text of the selected tab: its own words from before, and its own chunks.
pub proof fn law_transcript_is_of_the_selected_tab(state: StateModel, place: int)
    requires
        0 <= place < state.tabs.len(),
        state.tabs[place].id == state.selected_tab,
        forall|j: int| 0 <= j < place ==> (#[trigger] state.tabs[j]).id != state.selected_tab,
    ensures
        current_transcript(state) == tab_text(
            state.tabs[place].prior_transcript,
            state.chunks,
            state.selected_tab,
        ),
{
    lemma_is_first(state.tabs, tab_with_id(state.selected_tab), place);
}

/// A name for a tab: something to be seen, not too long, and no control characters.
pub open spec fn good_name(name: Seq<char>) -> bool {
    &&& trimmed(name).len() > 0
    &&& name.len() <= 48
    &&& forall|i: int| 0 <= i < name.len() ==> !control(#[trigger] name[i])
}

proof fn lemma_good_name(name: Seq<char>)
    ensures
        good_name(name) == crate::session::valid_tab_name(name),
{
    if good_name(name) && has_control(name) {
        let i = choose|i: int| 0 <= i < name.len() && control(#[trigger] name[i]);
        assert(!control(name[i]));
    }
    if !has_control(name) {
        assert forall|i: int| 0 <= i < name.len() implies !control(#[trigger] name[i]) by {}
    }
}

/// A tab that is made stands behind the others, with its name and nothing in it, and is selected.
/// Nothing else changes. A name that is none is refused.
pub proof fn law_tab_is_made(
    recorder: RecorderModel,
    name: Seq<char>,
    nanos: u128,
    process: u32,
    legacy: bool,
)
    ensures
        !good_name(name) ==> begun(recorder, Action::CreateTab(name), legacy) == (
            recorder,
            StepModel::Failed(Error::InvalidTabName),
        ),
        good_name(name) ==> begun(recorder, Action::CreateTab(name), legacy).0 == recorder,
        good_name(name) ==> (begun(recorder, Action::CreateTab(name), legacy).1 matches
            Step::Perform(effect, wait) && effect is Stamp && {
            let (after, step) = resumed(
                recorder,
                wait,
                Outcome::Stamp { nanos, process },
                legacy,
            );
            let tab = after.state.tabs.last();
            &&& after.state.tabs == recorder.state.tabs.push(tab)
            &&& tab.name == trimmed(name)
            &&& tab.id == "tab-"@ + decimal_digits(nanos as nat)
            &&& tab.prior_transcript.len() == 0
            &&& after.state.selected_tab == tab.id
            &&& after.state.transcript == current_transcript(after.state)
            &&& same_but_state(recorder, after)
            &&& alike(
                StateModel {
                    tabs: after.state.tabs,
                    selected_tab: tab.id,
                    transcript: after.state.transcript,
                    ..recorder.state
                },
                after.state,
            )
            &&& step matches Step::Perform(effect, wait) && effect is Save && wait is Saved
        }),
{
    lemma_good_name(name);
    let after = resumed(
        recorder,
        Wait::TabStamped { name },
        Outcome::Stamp { nanos, process },
        legacy,
    ).0;
    assert(after.state.tabs =~= recorder.state.tabs.push(after.state.tabs.last()));
}

/// Whether the tab at a place is the first one with its id.
pub open spec fn first_with_id(
    tabs: Seq<TranscriptTab<Seq<char>>>,
    id: Seq<char>,
    place: int,
) -> bool {
    &&& 0 <= place < tabs.len()
    &&& tabs[place].id == id
    &&& forall|j: int| 0 <= j < place ==> (#[trigger] tabs[j]).id != id
}

/// Whether no tab has an id.
pub open spec fn none_with_id(tabs: Seq<TranscriptTab<Seq<char>>>, id: Seq<char>) -> bool {
    forall|j: int| 0 <= j < tabs.len() ==> (#[trigger] tabs[j]).id != id
}

/// A tab that is closed goes from the open ones to the end of the closed ones as it is. Another one
/// that was selected stays so; else the one that takes its place is selected, or the last one, or
/// none where none is left. No chunk changes, and the transcript is that of the selected tab.
pub proof fn law_tab_is_closed(recorder: RecorderModel, id: Seq<char>, place: int, legacy: bool)
    ensures
        none_with_id(recorder.state.tabs, id) ==> begun(recorder, Action::CloseTab(id), legacy)
            == (recorder, StepModel::Failed(Error::TabGone)),
        first_with_id(recorder.state.tabs, id, place) ==> {
            let (after, step) = begun(recorder, Action::CloseTab(id), legacy);
            let tabs = recorder.state.tabs;
            let left = after.state.tabs;
            &&& left == tabs.remove(place)
            &&& after.state.closed_tabs == recorder.state.closed_tabs.push(tabs[place])
            &&& after.state.selected_tab == if recorder.state.selected_tab != id {
                recorder.state.selected_tab
            } else if tabs.len() == 1 {
                Seq::empty()
            } else if place + 1 < tabs.len() {
                tabs[place + 1].id
            } else {
                tabs[place - 1].id
            }
            &&& after.state.transcript == current_transcript(after.state)
            &&& same_but_state(recorder, after)
            &&& alike(
                StateModel {
                    tabs: left,
                    closed_tabs: after.state.closed_tabs,
                    selected_tab: after.state.selected_tab,
                    transcript: after.state.transcript,
                    ..recorder.state
                },
                after.state,
            )
            &&& step matches Step::Perform(effect, wait) && effect is Save && wait is Saved
        },
{
    lemma_first_match(recorder.state.tabs, tab_with_id(id));
    if first_with_id(recorder.state.tabs, id, place) {
        lemma_is_first(recorder.state.tabs, tab_with_id(id), place);
    }
    if none_with_id(recorder.state.tabs, id) {
        lemma_no_first(recorder.state.tabs, tab_with_id(id));
    }
}

/// The tab that was closed last is opened again as it was, behind the others, and is selected.
pub proof fn law_last_closed_tab_is_reopened(recorder: RecorderModel, legacy: bool)
    ensures
        recorder.state.closed_tabs.len() == 0 ==> begun(recorder, Action::ReopenTab, legacy) == (
            recorder,
            StepModel::Failed(Error::NoClosedTab),
        ),
        recorder.state.closed_tabs.len() > 0 ==> {
            let (after, step) = begun(recorder, Action::ReopenTab, legacy);
            let tab = recorder.state.closed_tabs.last();
            &&& after.state.tabs == recorder.state.tabs.push(tab)
            &&& after.state.closed_tabs.push(tab) == recorder.state.closed_tabs
            &&& after.state.selected_tab == tab.id
            &&& after.state.transcript == current_transcript(after.state)
            &&& same_but_state(recorder, after)
            &&& alike(
                StateModel {
                    tabs: after.state.tabs,
                    closed_tabs: after.state.closed_tabs,
                    selected_tab: tab.id,
                    transcript: after.state.transcript,
                    ..recorder.state
                },
                after.state,
            )
            &&& step matches Step::Perform(effect, wait) && effect is Save && wait is Saved
        },
{
    if recorder.state.closed_tabs.len() > 0 {
        let tab = recorder.state.closed_tabs.last();
        assert(recorder.state.closed_tabs.drop_last().push(tab) =~= recorder.state.closed_tabs);
    }
}

/// A tab that is selected is the one whose words are shown. A closed one is opened for it. One that
/// is not there is refused. No chunk changes.
pub proof fn law_selected_tab_is_shown(
    recorder: RecorderModel,
    id: Seq<char>,
    place: int,
    legacy: bool,
)
    ensures
        none_with_id(recorder.state.tabs, id) && none_with_id(recorder.state.closed_tabs, id)
            ==> begun(recorder, Action::SelectTab(id), legacy) == (
            recorder,
            StepModel::Failed(Error::TabGone),
        ),
        none_with_id(recorder.state.closed_tabs, id) && first_with_id(
            recorder.state.tabs,
            id,
            place,
        ) ==> {
            let (after, step) = begun(recorder, Action::SelectTab(id), legacy);
            &&& after.state.transcript == tab_text(
                recorder.state.tabs[place].prior_transcript,
                recorder.state.chunks,
                id,
            )
            &&& same_but_state(recorder, after)
            &&& alike(
                StateModel {
                    selected_tab: id,
                    transcript: after.state.transcript,
                    ..recorder.state
                },
                after.state,
            )
            &&& step matches Step::Perform(effect, wait) && effect is Save && wait is Saved
        },
        none_with_id(recorder.state.tabs, id) && first_with_id(
            recorder.state.closed_tabs,
            id,
            place,
        ) ==> {
            let (after, step) = begun(recorder, Action::SelectTab(id), legacy);
            let tab = recorder.state.closed_tabs[place];
            &&& after.state.tabs == recorder.state.tabs.push(tab)
            &&& after.state.closed_tabs == recorder.state.closed_tabs.remove(place)
            &&& after.state.transcript == tab_text(
                tab.prior_transcript,
                recorder.state.chunks,
                id,
            )
            &&& same_but_state(recorder, after)
            &&& alike(
                StateModel {
                    tabs: after.state.tabs,
                    closed_tabs: after.state.closed_tabs,
                    selected_tab: id,
                    transcript: after.state.transcript,
                    ..recorder.state
                },
                after.state,
            )
            &&& step matches Step::Perform(effect, wait) && effect is Save && wait is Saved
        },
{
    let asked = tab_with_id(id);
    let open = recorder.state.tabs;
    let closed = recorder.state.closed_tabs;
    if none_with_id(open, id) {
        lemma_no_first(open, asked);
    }
    if none_with_id(closed, id) {
        lemma_no_first(closed, asked);
    }
    if first_with_id(open, id, place) {
        lemma_is_first(open, asked, place);
    }
    if none_with_id(open, id) && first_with_id(closed, id, place) {
        lemma_is_first(closed, asked, place);
        let tabs = open.push(closed[place]);
        assert forall|j: int| 0 <= j < open.len() implies !asked(#[trigger] tabs[j]) by {
            assert(tabs[j] == open[j]);
        }
        lemma_is_first(tabs, asked, open.len() as int);
    }
}

/// A tab that is renamed gets its name and keeps everything else, as does everything else.
pub proof fn law_tab_is_renamed(
    recorder: RecorderModel,
    id: Seq<char>,
    name: Seq<char>,
    place: int,
    legacy: bool,
)
    ensures
        !good_name(name) ==> begun(recorder, Action::RenameTab { id, name }, legacy) == (
            recorder,
            StepModel::Failed(Error::InvalidTabName),
        ),
        good_name(name) && none_with_id(recorder.state.tabs, id) ==> begun(
            recorder,
            Action::RenameTab { id, name },
            legacy,
        ) == (recorder, StepModel::Failed(Error::TabGone)),
        good_name(name) && first_with_id(recorder.state.tabs, id, place) ==> {
            let (after, step) = begun(recorder, Action::RenameTab { id, name }, legacy);
            let tab = recorder.state.tabs[place];
            &&& after.state.tabs.len() == recorder.state.tabs.len()
            &&& forall|j: int|
                0 <= j < recorder.state.tabs.len() && j != place ==> (
                #[trigger] after.state.tabs[j]) == recorder.state.tabs[j]
            &&& after.state.tabs[place] == TranscriptTab { name: trimmed(name), ..tab }
            &&& same_but_state(recorder, after)
            &&& alike(StateModel { tabs: after.state.tabs, ..recorder.state }, after.state)
            &&& step matches Step::Perform(effect, wait) && effect is Save && wait is Saved
        },
{
    lemma_good_name(name);
    if none_with_id(recorder.state.tabs, id) {
        lemma_no_first(recorder.state.tabs, tab_with_id(id));
    }
    if first_with_id(recorder.state.tabs, id, place) {
        lemma_is_first(recorder.state.tabs, tab_with_id(id), place);
    }
}

/// What is saved of a tab, open or closed, is what is shown of it when it is selected, at the path
/// that was asked for, with its last line ended. Nothing is saved of a tab that is not there or has
/// no words, nor at a path that does not start at the root.
pub proof fn law_export_is_what_is_shown(
    recorder: RecorderModel,
    id: Seq<char>,
    path: Seq<char>,
    place: int,
    legacy: bool,
)
    ensures
        none_with_id(recorder.state.tabs + recorder.state.closed_tabs, id) ==> begun(
            recorder,
            Action::ExportTab { id, path },
            legacy,
        ) == (recorder, StepModel::Failed(Error::TabGone)),
        first_with_id(recorder.state.tabs + recorder.state.closed_tabs, id, place) ==> {
            let tab = (recorder.state.tabs + recorder.state.closed_tabs)[place];
            let text = tab_text(tab.prior_transcript, recorder.state.chunks, id);
            let (after, step) = begun(recorder, Action::ExportTab { id, path }, legacy);
            &&& after == recorder
            &&& if text.len() == 0 {
                step == StepModel::Failed(Error::NothingToExport)
            } else if !(path.len() > 0 && path[0] == '/') {
                step == StepModel::Failed(Error::RelativeExportPath)
            } else {
                step matches Step::Perform(Effect::Export { path: file, contents }, wait) && {
                    let (done, next) = resumed(recorder, wait, Outcome::Done, legacy);
                    &&& file == path
                    &&& contents == if text.last() == '\n' {
                        text
                    } else {
                        text + "\n"@
                    }
                    &&& same_but_state(recorder, done)
                    &&& alike(recorder.state, done.state)
                    &&& done.state.message == "Exported to "@ + path
                    &&& next matches Step::Perform(effect, _) && effect is Save
                }
            }
        },
{
    let tabs = recorder.state.tabs + recorder.state.closed_tabs;
    if none_with_id(tabs, id) {
        lemma_no_first(tabs, tab_with_id(id));
    }
    if first_with_id(tabs, id, place) {
        lemma_is_first(tabs, tab_with_id(id), place);
    }
}

/// The number of chunks that wait or are being transcribed counts each of them once, and no other.
pub proof fn law_waiting_chunks_are_counted(
    chunks: Seq<Chunk<Seq<char>>>,
    chunk: Chunk<Seq<char>>,
    status: ChunkStatus,
)
    ensures
        awaited_count(Seq::empty()) == 0,
        awaited_count(chunks.push(chunk)) == awaited_count(chunks) + (if chunk.status
            == ChunkStatus::Queued || chunk.status == ChunkStatus::Transcribing {
            1nat
        } else {
            0
        }),
        count_status(Seq::empty(), status) == 0,
        count_status(chunks.push(chunk), status) == count_status(chunks, status) + (if chunk.status
            == status {
            1nat
        } else {
            0
        }),
{
    reveal(Seq::filter);
    lemma_filter_of_push(chunks, chunk, waits());
    lemma_filter_of_push(chunks, chunk, with_status(status));
}

/// Calling off marks every chunk that waits or is being transcribed as called off, and no other;
/// it is saved before the transcription that runs is told, and said with how many they were.
pub proof fn law_waiting_chunks_are_called_off(recorder: RecorderModel, legacy: bool)
    requires
        awaited_count(recorder.state.chunks) <= usize::MAX,
    ensures
        ({
            let (one, first) = begun(recorder, Action::Cancel, legacy);
            let count = awaited_count(recorder.state.chunks);
            let words = if count == 0 {
                "No queued transcription to cancel."@
            } else {
                "Canceled "@ + decimal_digits(count) + " chunks. Transcript and audio retained."@
            };
            &&& same_but_state(recorder, one)
            &&& alike_but_chunks(recorder.state, one.state)
            &&& one.state.chunks.len() == recorder.state.chunks.len()
            &&& forall|i: int|
                0 <= i < recorder.state.chunks.len() ==> {
                    let before = recorder.state.chunks[i];
                    (#[trigger] one.state.chunks[i]) == if before.status == ChunkStatus::Queued
                        || before.status == ChunkStatus::Transcribing {
                        Chunk { status: ChunkStatus::Canceled, error: None, ..before }
                    } else {
                        before
                    }
                }
            &&& first matches Step::Perform(effect, saved) && effect is Save && {
                let (two, second) = resumed(one, saved, Outcome::Done, legacy);
                if recorder.pending is Some {
                    &&& two == one
                    &&& second matches Step::Perform(effect, sent) && effect is CancelWorker && {
                        let (three, third) = resumed(two, sent, Outcome::Done, legacy);
                        &&& three.state.message == words
                        &&& same_but_state(one, three)
                        &&& alike(one.state, three.state)
                        &&& third matches Step::Perform(effect, _) && effect is Save
                    }
                } else {
                    &&& two.state.message == words
                    &&& same_but_state(one, two)
                    &&& alike(one.state, two.state)
                    &&& second matches Step::Perform(effect, _) && effect is Save
                }
            }
        }),
{
}

/// Clearing and ending are refused while anything runs or waits, and clearing without a tab.
pub proof fn law_nothing_is_cut_short(recorder: RecorderModel, legacy: bool)
    ensures
        recorder.state.selected_tab.len() == 0 ==> begun(recorder, Action::Clear, legacy) == (
            recorder,
            StepModel::Failed(Error::NoTabToClear),
        ),
        ({
            let busy = recorder.capturing || recorder.pending is Some || recorder.state.queue_depth
                > 0;
            &&& busy && recorder.state.selected_tab.len() > 0 ==> begun(
                recorder,
                Action::Clear,
                legacy,
            ) == (recorder, StepModel::Failed(Error::BusyClearing))
            &&& busy ==> begun(recorder, Action::Shutdown, legacy) == (
                recorder,
                StepModel::Failed(Error::BusyShuttingDown),
            )
            &&& !busy ==> {
                let (after, step) = begun(recorder, Action::Shutdown, legacy);
                &&& same_but_state(recorder, after)
                &&& alike(recorder.state, after.state)
                &&& after.state.message == recorder.state.message
                &&& step matches Step::Perform(effect, wait) && effect is Save && wait is Saved
            }
        }),
{
}

/// Whether a directory is that of a chunk of the selected tab.
pub open spec fn belongs(recorder: RecorderModel, tree: Seq<char>) -> bool {
    exists|i: int|
        0 <= i < recorder.state.chunks.len() && (#[trigger] recorder.state.chunks[i]).tab_id
            == recorder.state.selected_tab && tree == files_of(
            recorder.config.directory,
            recorder.state.chunks[i].id,
        )
}

/// A clearing removes the directories of the chunks of the selected tab, each of them and no
/// others, and what lies beside them. Then the chunks of that tab are gone and its words from
/// before with them, while the other chunks and tabs stay as they are; and at last nothing is shown.
pub proof fn law_clearing_is_for_one_tab(recorder: RecorderModel, legacy: bool)
    requires
        recorder.state.selected_tab.len() > 0,
        !recorder.capturing,
        recorder.pending is None,
        recorder.state.queue_depth == 0,
    ensures
        begun(recorder, Action::Clear, legacy).0 == recorder,
        begun(recorder, Action::Clear, legacy).1 matches Step::Perform(
            Effect::RemoveSaved { trees, files },
            removed,
        ) && {
            let directory = recorder.config.directory;
            let tab = recorder.state.selected_tab;
            let chunks = recorder.state.chunks;
            let (two, second) = resumed(recorder, removed, Outcome::Done, legacy);
            &&& forall|i: int|
                0 <= i < chunks.len() && (#[trigger] chunks[i]).tab_id == tab ==> trees.contains(
                    files_of(directory, chunks[i].id),
                )
            &&& forall|k: int|
                0 <= k < trees.len() ==> belongs(recorder, #[trigger] trees[k])
            &&& files == seq![
                path_join(directory, "capture.wav"@),
                path_join(directory, "recording.wav"@),
                path_join(directory, "whisper.wav"@),
                path_join(directory, "whisper-output.txt"@),
            ]
            &&& same_but_state(recorder, two)
            &&& forall|i: int|
                0 <= i < chunks.len() && (#[trigger] chunks[i]).tab_id != tab
                    ==> two.state.chunks.contains(chunks[i])
            &&& forall|i: int|
                0 <= i < two.state.chunks.len() ==> (#[trigger] two.state.chunks[i]).tab_id != tab
                    && chunks.contains(two.state.chunks[i])
            &&& two.state.tabs.len() == recorder.state.tabs.len()
            &&& forall|j: int|
                0 <= j < recorder.state.tabs.len() ==> {
                    let before = recorder.state.tabs[j];
                    (#[trigger] two.state.tabs[j]) == if first_with_id(
                        recorder.state.tabs,
                        tab,
                        j,
                    ) {
                        TranscriptTab { prior_transcript: Seq::empty(), ..before }
                    } else {
                        before
                    }
                }
            &&& alike_but_chunks(
                StateModel { tabs: two.state.tabs, ..recorder.state },
                two.state,
            )
            &&& second matches Step::Perform(Effect::RemoveIfEmpty { path }, gone) && {
                let (three, third) = resumed(two, gone, Outcome::Done, legacy);
                &&& path == path_join(directory, "chunks"@)
                &&& three.state.transcript.len() == 0
                &&& three.state.seconds == 0
                &&& three.state.chunks == two.state.chunks
                &&& three.state.tabs == two.state.tabs
                &&& three.state.closed_tabs == recorder.state.closed_tabs
                &&& three.state.selected_tab == tab
                &&& three.state.message == "Cleared. A fresh start."@
                &&& three.config == recorder.config
                &&& third matches Step::Perform(effect, _) && effect is Save
            }
        },
{
    let directory = recorder.config.directory;
    let tab = recorder.state.selected_tab;
    let chunks = recorder.state.chunks;
    let kept = chunks.filter(in_tab(tab));
    let trees = kept.map_values(crate::service::tree_in(directory));
    broadcast use vstd::seq_lib::group_filter_ensures;

    crate::search::lemma_filter_kept(chunks, in_tab(tab));
    crate::search::lemma_filter_kept(chunks, outside_tab(tab));
    assert forall|i: int| 0 <= i < chunks.len() && (#[trigger] chunks[i]).tab_id
        == tab implies trees.contains(files_of(directory, chunks[i].id)) by {
        assert(in_tab(tab)(chunks[i]));
        assert(kept.contains(chunks[i]));
        let k = choose|k: int| 0 <= k < kept.len() && kept[k] == chunks[i];
        assert(trees[k] == files_of(directory, chunks[i].id));
    }
    assert forall|k: int| 0 <= k < trees.len() implies belongs(recorder, #[trigger] trees[k]) by {
        assert(chunks.contains(kept[k]));
        assert(in_tab(tab)(kept[k]));
        let i = choose|i: int| 0 <= i < chunks.len() && chunks[i] == kept[k];
        assert(trees[k] == files_of(directory, chunks[i].id));
    }
    lemma_first_match(recorder.state.tabs, tab_with_id(tab));
    assert forall|i: int| 0 <= i < chunks.len() && (#[trigger] chunks[i]).tab_id
        != tab implies chunks.filter(outside_tab(tab)).contains(chunks[i]) by {
        assert(outside_tab(tab)(chunks[i]));
    }
    let found = first_match(recorder.state.tabs, tab_with_id(tab));
    assert forall|j: int| 0 <= j < recorder.state.tabs.len() implies #[trigger] first_with_id(
        recorder.state.tabs,
        tab,
        j,
    ) == (found == Some(j)) by {
        if first_with_id(recorder.state.tabs, tab, j) {
            lemma_is_first(recorder.state.tabs, tab_with_id(tab), j);
        }
    }
}

/// What is shown follows from what there is: how many chunks wait, whether one is being
/// transcribed, whether something can be tried again, and the phase. The level is that of a
/// recording that runs.
pub proof fn law_shown_follows(recorder: RecorderModel, legacy: bool)
    ensures
        ({
            let before = recorder.state;
            let state = shown(recorder, legacy).state;
            let failed = exists|i: int|
                0 <= i < before.chunks.len() && (#[trigger] before.chunks[i]).status
                    == ChunkStatus::Failed;
            let ready = exists|i: int|
                0 <= i < before.chunks.len() && (#[trigger] before.chunks[i]).status
                    == ChunkStatus::Ready;
            let queued = exists|i: int|
                0 <= i < before.chunks.len() && (#[trigger] before.chunks[i]).status
                    == ChunkStatus::Queued;
            &&& state.can_retry == (failed || ready || legacy)
            &&& state.phase == (if recorder.capturing {
                Phase::Recording
            } else if recorder.pending is Some || queued {
                Phase::Transcribing
            } else if failed {
                Phase::Error
            } else if before.transcript.len() > 0 {
                Phase::Ready
            } else {
                Phase::Idle
            })
            &&& state.transcribing == (recorder.pending is Some)
            &&& state.queue_depth == count_status(before.chunks, ChunkStatus::Queued)
            &&& state.level == (if recorder.capturing {
                before.level
            } else {
                0
            })
            &&& state.message == before.message
            &&& alike(before, state)
        }),
{
}

/// While a recording runs, its length and its level are shown, and its chunk has that length. What
/// is said of a recording while none runs does not matter.
pub proof fn law_running_recording_is_shown(
    recorder: RecorderModel,
    reading: Reading<Seq<char>>,
    other: Reading<Seq<char>>,
    place: int,
    legacy: bool,
)
    requires
        recorder.state.chunks.len() <= usize::MAX,
    ensures
        !recorder.capturing ==> ticked(recorder, reading, legacy) == ticked(
            recorder,
            other,
            legacy,
        ),
        recorder.pending is Some && !recorder.capturing ==> ticked(recorder, reading, legacy) == (
            recorder,
            StepModel::Perform(Effect::PollWorker, Wait::Polled),
        ),
        recorder.pending is None && !recorder.capturing ==> ticked(recorder, reading, legacy)
            == resumed(recorder, Wait::Saved, Outcome::Done, legacy),
        recorder.capturing ==> {
            let (after, step) = ticked(recorder, reading, legacy);
            &&& after.state.seconds == reading.seconds
            &&& after.state.level == reading.level
            &&& after.state.transcript == recorder.state.transcript
            &&& after.state.tabs == recorder.state.tabs
            &&& after.state.closed_tabs == recorder.state.closed_tabs
            &&& after.state.selected_tab == recorder.state.selected_tab
            &&& after.state.device == recorder.state.device
            &&& after.state.chunks.len() == recorder.state.chunks.len()
            &&& reading.error is None ==> after.capturing
            &&& reading.error is None && recorder.pending is Some ==> after.pending
                == recorder.pending && step == StepModel::Perform(
                Effect::PollWorker,
                Wait::Polled,
            )
        },
        recorder.capturing && 0 <= place < recorder.state.chunks.len()
            && recorder.state.chunks[place].status == ChunkStatus::Recording && (forall|j: int|
            0 <= j < place ==> (#[trigger] recorder.state.chunks[j]).status
                != ChunkStatus::Recording) ==> {
            let after = ticked(recorder, reading, legacy).0;
            &&& after.state.chunks[place] == Chunk {
                seconds: reading.seconds,
                ..recorder.state.chunks[place]
            }
            &&& recorder.pending is Some ==> others_kept(
                recorder.state.chunks,
                after.state.chunks,
                place,
            )
        },
{
    let chunks = recorder.state.chunks;
    lemma_first_match(chunks, with_status(ChunkStatus::Recording));
    let timed = match first_match(chunks, with_status(ChunkStatus::Recording)) {
        Some(i) => chunks.update(i, Chunk { seconds: reading.seconds, ..chunks[i] }),
        None => chunks,
    };
    lemma_first_match(timed, with_status(ChunkStatus::Queued));
    if 0 <= place < chunks.len() && chunks[place].status == ChunkStatus::Recording && (forall|
        j: int,
    |
        0 <= j < place ==> (#[trigger] chunks[j]).status != ChunkStatus::Recording) {
        lemma_is_first(chunks, with_status(ChunkStatus::Recording), place);
    }
}

/// A recording that breaks off is ended, and counts as failed with what broke it, which is also
/// said. No other chunk changes.
pub proof fn law_broken_recording_is_kept(
    recorder: RecorderModel,
    reading: Reading<Seq<char>>,
    ended: OutcomeModel,
    message: Seq<char>,
    ticking: bool,
    place: int,
    legacy: bool,
)
    requires
        0 <= place < recorder.state.chunks.len(),
        recorder.state.chunks[place].status == ChunkStatus::Recording,
        forall|j: int|
            0 <= j < place ==> (#[trigger] recorder.state.chunks[j]).status
                != ChunkStatus::Recording,
    ensures
        recorder.capturing && reading.error == Some(message) ==> {
            let (one, first) = ticked(recorder, reading, legacy);
            &&& !one.capturing
            &&& one.pending == recorder.pending
            &&& first == StepModel::Perform(
                Effect::StopCapture,
                Wait::Interrupted { message, ticking: true },
            )
        },
        breaking_off(recorder, message, ticking) == (
            RecorderModel { capturing: false, ..recorder },
            StepModel::Perform(Effect::StopCapture, Wait::Interrupted { message, ticking }),
        ),
        ({
            let (after, step) = resumed(
                recorder,
                Wait::Interrupted { message, ticking },
                ended,
                legacy,
            );
            &&& same_but_state(recorder, after)
            &&& others_kept(recorder.state.chunks, after.state.chunks, place)
            &&& after.state.chunks[place] == Chunk {
                status: ChunkStatus::Failed,
                error: Some(message),
                ..recorder.state.chunks[place]
            }
            &&& after.state.message == message
            &&& alike_but_chunks(recorder.state, after.state)
            &&& step == StepModel::Perform(Effect::Save, Wait::InterruptSaved { ticking })
        }),
        resumed(recorder, Wait::InterruptSaved { ticking: false }, Outcome::Done, legacy) == (
            recorder,
            StepModel::Done,
        ),
        !recorder.capturing ==> resumed(
            recorder,
            Wait::InterruptSaved { ticking: true },
            Outcome::Done,
            legacy,
        ) == ticked(recorder, reading, legacy),
{
    lemma_is_first(recorder.state.chunks, with_status(ChunkStatus::Recording), place);
}

/// A recorder that is told to stop ends the recording that runs, so that it can be tried again, and
/// does nothing where none runs.
pub proof fn law_told_to_stop(recorder: RecorderModel)
    ensures
        !recorder.capturing ==> interrupting(recorder) == (recorder, StepModel::Done),
        recorder.capturing ==> interrupting(recorder) == (
            RecorderModel { capturing: false, ..recorder },
            StepModel::Perform(
                Effect::StopCapture,
                Wait::Interrupted {
                    message: "Recording interrupted. Retry retained audio."@,
                    ticking: false,
                },
            ),
        ),
{
}

} // verus!
