//! What no request but a clearing takes away: chunks with their words and their audio, tabs with
//! theirs, and the selection of an open tab.
use crate::config::{distinct_names, law_names_stay_distinct, ConfigModel, Stored};
use crate::model::{Action, Chunk, ChunkStatus, StateModel, TranscriptTab};
use crate::protocol::{
    fits, Effect, EffectModel, Outcome, OutcomeModel, Step, StepModel, Wait, WaitModel,
};
use crate::recorder_laws::{
    law_restart_is_sound, lemma_closed_sound, lemma_emptied, lemma_found, lemma_opened_sound,
    lemma_renamed_sound, selection_is_open,
};
use crate::restore::restored;
use crate::search::{first_match, lemma_first_match, lemma_last_match};
use crate::service::{begun, chunk_tree, in_place, resumed, ticked, Reading, RecorderModel};
use crate::session::{
    canceled_chunks, chunk_requeued, retry_place, tab_closed, tab_created, tab_recalled, tab_renamed, tab_reopened, tab_selected, tab_with_id,
    with_status,
};
use vstd::prelude::*;

verus! {

/// Whether chunks are all still there, each in its place, in its tab and with its words.
#[verifier::opaque]
pub open spec fn keeps_chunks(before: Seq<Chunk<Seq<char>>>, after: Seq<Chunk<Seq<char>>>) -> bool {
    &&& before.len() <= after.len()
    &&& forall|i: int|
        0 <= i < before.len() ==> {
            &&& (#[trigger] after[i]).id == before[i].id
            &&& after[i].tab_id == before[i].tab_id
            &&& after[i].text == before[i].text
        }
}

/// The tabs, the open ones first.
pub open spec fn all_tabs(state: StateModel) -> Seq<TranscriptTab<Seq<char>>> {
    state.tabs + state.closed_tabs
}

/// Whether there is such a tab, with the words that it had before, open or closed.
pub open spec fn holds_tab(state: StateModel, tab: TranscriptTab<Seq<char>>) -> bool {
    exists|j: int|
        0 <= j < all_tabs(state).len() && (#[trigger] all_tabs(state)[j]).id == tab.id && all_tabs(
            state,
        )[j].prior_transcript == tab.prior_transcript
}

/// Whether tabs are all still there, open or closed.
#[verifier::opaque]
pub open spec fn keeps_tabs(before: StateModel, after: StateModel) -> bool {
    forall|i: int|
        0 <= i < all_tabs(before).len() ==> holds_tab(after, #[trigger] all_tabs(before)[i])
}

/// Whether something is waited for in the middle of a request that is no clearing.
pub open spec fn in_request(wait: WaitModel) -> bool {
    &&& !(wait is SavedRemoved)
    &&& !(wait is TreeRemoved)
    &&& !(wait is Polled)
    &&& !(wait is AutoCopied)
    &&& !(wait is Interrupted)
    &&& !(wait is InterruptSaved)
}

/// Whether a request that began with a recorder has taken nothing away so far. Where a chunk was
/// made whose recording is about to start, it is one more than there were.
pub open spec fn kept_so_far(
    before: RecorderModel,
    recorder: RecorderModel,
    step: StepModel,
) -> bool {
    keeps_tabs(before.state, recorder.state) && chunks_kept_so_far(before, recorder, step)
}

/// Whether it has taken no chunk away so far.
pub open spec fn chunks_kept_so_far(
    before: RecorderModel,
    recorder: RecorderModel,
    step: StepModel,
) -> bool {
    let count = before.state.chunks.len();
    &&& keeps_chunks(before.state.chunks, recorder.state.chunks)
    &&& recorder.state.chunks.len() <= count + 1
    &&& step_takes_nothing(count, recorder, step)
}

/// Whether the step that a recorder takes in the middle of a request, before which there were so
/// many chunks, takes nothing away.
pub open spec fn step_takes_nothing(
    count: nat,
    recorder: RecorderModel,
    step: StepModel,
) -> bool {
    match step {
        Step::Perform(effect, wait) => {
            &&& in_request(wait)
            &&& in_place(recorder, wait)
            &&& match wait {
                Wait::Inspected => recorder.state.chunks.len() == count,
                Wait::Stamped { .. } => recorder.state.chunks.len() == count,
                Wait::TreeMade { .. } => recorder.state.chunks.len() == count,
                Wait::CaptureStarted { index } => index == count && recorder.state.chunks.len()
                    == count + 1,
                Wait::CaptureUndone { .. } => recorder.state.chunks.len() == count + 1,
                _ => true,
            }
            &&& match effect {
                Effect::RemoveSaved { .. } => false,
                Effect::RemoveIfEmpty { .. } => false,
                Effect::RemoveTree { path } => recorder.state.chunks.len() == count + 1 && path
                    == chunk_tree(
                    recorder.config.directory,
                    recorder.state.chunks[count as int].id,
                ),
                _ => true,
            }
        },
        _ => true,
    }
}

/// Chunks that agree in their ids, tabs and words are kept.
proof fn lemma_chunks_agree(before: Seq<Chunk<Seq<char>>>, after: Seq<Chunk<Seq<char>>>)
    requires
        before.len() <= after.len(),
        forall|i: int|
            0 <= i < before.len() ==> (#[trigger] after[i]).id == before[i].id && after[i].tab_id
                == before[i].tab_id && after[i].text == before[i].text,
    ensures
        keeps_chunks(before, after),
{
    reveal(keeps_chunks);
}

/// Chunks that are kept twice are kept. Of those that came after, the last may go.
proof fn lemma_chunks_twice(
    first: Seq<Chunk<Seq<char>>>,
    second: Seq<Chunk<Seq<char>>>,
    third: Seq<Chunk<Seq<char>>>,
)
    requires
        keeps_chunks(first, second),
    ensures
        keeps_chunks(second, third) ==> keeps_chunks(first, third),
        second.len() > first.len() ==> keeps_chunks(first, second.drop_last()),
        first.len() <= second.len(),
{
    reveal(keeps_chunks);
    if keeps_chunks(second, third) {
        assert forall|i: int| 0 <= i < first.len() implies (#[trigger] third[i]).id == first[i].id
            && third[i].tab_id == first[i].tab_id && third[i].text == first[i].text by {
            assert(second[i].id == first[i].id);
        }
    }
}

/// A recorder takes nothing away from itself.
proof fn lemma_same(before: StateModel, after: StateModel)
    requires
        after.tabs == before.tabs,
        after.closed_tabs == before.closed_tabs,
    ensures
        keeps_tabs(before, after),
{
    reveal(keeps_tabs);
    let all = all_tabs(after);
    assert forall|i: int| 0 <= i < all_tabs(before).len() implies holds_tab(
        after,
        #[trigger] all_tabs(before)[i],
    ) by {
        assert(all[i].id == all[i].id);
    }
}

/// What is kept twice is kept.
proof fn lemma_kept_twice(first: StateModel, second: StateModel, third: StateModel)
    requires
        keeps_tabs(first, second),
        keeps_tabs(second, third),
    ensures
        keeps_tabs(first, third),
{
    reveal(keeps_tabs);
    let all = all_tabs(first);
    let next = all_tabs(second);
    assert forall|i: int| 0 <= i < all.len() implies holds_tab(third, #[trigger] all[i]) by {
        assert(holds_tab(second, all[i]));
        let j = choose|j: int|
            0 <= j < next.len() && (#[trigger] next[j]).id == all[i].id && next[j].prior_transcript
                == all[i].prior_transcript;
        assert(holds_tab(third, next[j]));
    }
}

/// A tab that is closed is among the closed ones.
proof fn lemma_closing_keeps(state: StateModel, index: int)
    requires
        0 <= index < state.tabs.len(),
    ensures
        keeps_tabs(state, tab_closed(state, index)),
{
    reveal(keeps_tabs);
    let after = tab_closed(state, index);
    let all = all_tabs(state);
    let next = all_tabs(after);
    assert forall|i: int| 0 <= i < all.len() implies holds_tab(after, #[trigger] all[i]) by {
        let j = if i < index {
            i
        } else if i == index {
            next.len() - 1
        } else {
            i - 1
        };
        assert(next[j] == all[i]);
    }
}

/// A tab that is opened again is among the open ones.
proof fn lemma_opening_keeps(state: StateModel, id: Seq<char>)
    ensures
        state.closed_tabs.len() > 0 ==> keeps_tabs(state, tab_reopened(state)),
        tab_selected(state, id) is Some ==> keeps_tabs(state, tab_selected(state, id)->0),
{
    reveal(keeps_tabs);
    let open = state.tabs.len() as int;
    let all = all_tabs(state);
    if state.closed_tabs.len() > 0 {
        let after = tab_reopened(state);
        let next = all_tabs(after);
        assert forall|i: int| 0 <= i < all.len() implies holds_tab(after, #[trigger] all[i]) by {
            let j = if i < open {
                i
            } else if i == all.len() - 1 {
                open
            } else {
                i + 1
            };
            assert(next[j] == all[i]);
        }
    }
    lemma_first_match(state.closed_tabs, tab_with_id(id));
    match first_match(state.closed_tabs, tab_with_id(id)) {
        Some(k) => {
            let after = tab_recalled(state, id);
            let next = all_tabs(after);
            assert forall|i: int| 0 <= i < all.len() implies holds_tab(
                after,
                #[trigger] all[i],
            ) by {
                let j = if i < open {
                    i
                } else if i == open + k {
                    open
                } else if i < open + k {
                    i + 1
                } else {
                    i
                };
                assert(next[j] == all[i]);
            }
        },
        None => {
            lemma_same(state, tab_recalled(state, id));
        },
    }
    if tab_selected(state, id) is Some {
        lemma_same(tab_recalled(state, id), tab_selected(state, id)->0);
        lemma_kept_twice(state, tab_recalled(state, id), tab_selected(state, id)->0);
    }
}

/// A tab that is renamed keeps its words, and a new one takes none away.
proof fn lemma_naming_keeps(state: StateModel, index: int, id: Seq<char>, name: Seq<char>)
    ensures
        0 <= index < state.tabs.len() ==> keeps_tabs(state, tab_renamed(state, index, name)),
        keeps_tabs(state, tab_created(state, id, name)),
{
    reveal(keeps_tabs);
    let open = state.tabs.len() as int;
    let all = all_tabs(state);
    if 0 <= index < state.tabs.len() {
        let after = tab_renamed(state, index, name);
        let next = all_tabs(after);
        assert forall|i: int| 0 <= i < all.len() implies holds_tab(after, #[trigger] all[i]) by {
            assert(next[i].id == all[i].id);
        }
    }
    let after = tab_created(state, id, name);
    let next = all_tabs(after);
    assert forall|i: int| 0 <= i < all.len() implies holds_tab(after, #[trigger] all[i]) by {
        let j = if i < open {
            i
        } else {
            i + 1
        };
        assert(next[j] == all[i]);
    }
}

/// A request other than a clearing takes no chunk away as it begins.
proof fn lemma_begin_keeps_chunks(
    recorder: RecorderModel,
    action: Action<Seq<char>>,
    legacy: bool,
)
    requires
        !(action is Clear),
        recorder.state.chunks.len() <= usize::MAX,
    ensures
        chunks_kept_so_far(
            recorder,
            begun(recorder, action, legacy).0,
            begun(recorder, action, legacy).1,
        ),
{
    let state = recorder.state;
    let after = begun(recorder, action, legacy).0.state;
    lemma_first_match(state.chunks, with_status(ChunkStatus::Failed));
    lemma_last_match(state.chunks, with_status(ChunkStatus::Ready));
    lemma_first_match(state.chunks, with_status(ChunkStatus::Recording));
    match action {
        Action::Retry => {
            if let Some(i) = retry_place(state.chunks) {
                assert(after.chunks == state.chunks.update(i, chunk_requeued(state.chunks[i])));
            }
        },
        Action::Cancel => {
            assert(after.chunks == canceled_chunks(state.chunks));
        },
        _ => {
            assert(after.chunks == state.chunks);
        },
    }
    lemma_chunks_agree(state.chunks, after.chunks);
}

/// A request other than a clearing takes no tab away as it begins.
proof fn lemma_begin_keeps_tabs(
    recorder: RecorderModel,
    action: Action<Seq<char>>,
    legacy: bool,
)
    ensures
        keeps_tabs(recorder.state, begun(recorder, action, legacy).0.state),
{
    let state = recorder.state;
    let after = begun(recorder, action, legacy).0.state;
    match action {
        Action::CloseTab(id) => {
            lemma_first_match(state.tabs, tab_with_id(id));
            match first_match(state.tabs, tab_with_id(id)) {
                Some(i) => {
                    lemma_closing_keeps(state, i);
                    lemma_same(tab_closed(state, i), after);
                    lemma_kept_twice(state, tab_closed(state, i), after);
                },
                None => {
                    lemma_same(state, after);
                },
            }
        },
        Action::ReopenTab => {
            lemma_opening_keeps(state, Seq::empty());
            if state.closed_tabs.len() > 0 {
                lemma_same(tab_reopened(state), after);
                lemma_kept_twice(state, tab_reopened(state), after);
            } else {
                lemma_same(state, after);
            }
        },
        Action::SelectTab(id) => {
            lemma_opening_keeps(state, id);
            match tab_selected(state, id) {
                Some(selected) => {
                    lemma_same(selected, after);
                    lemma_kept_twice(state, selected, after);
                },
                None => {
                    lemma_same(state, after);
                },
            }
        },
        Action::RenameTab { id, name } => {
            lemma_first_match(state.tabs, tab_with_id(id));
            match first_match(state.tabs, tab_with_id(id)) {
                Some(i) => {
                    lemma_naming_keeps(state, i, id, name);
                    lemma_same(state, state);
                    if after.tabs != state.tabs {
                        lemma_same(tab_renamed(state, i, name), after);
                        lemma_kept_twice(state, tab_renamed(state, i, name), after);
                    } else {
                        lemma_same(state, after);
                    }
                },
                None => {
                    lemma_same(state, after);
                },
            }
        },
        _ => {
            lemma_same(state, after);
        },
    }
}

/// A request other than a clearing takes nothing away as it begins.
pub proof fn law_begin_keeps_everything(
    recorder: RecorderModel,
    action: Action<Seq<char>>,
    legacy: bool,
)
    requires
        !(action is Clear),
        recorder.state.chunks.len() <= usize::MAX,
    ensures
        kept_so_far(recorder, begun(recorder, action, legacy).0, begun(recorder, action, legacy).1),
{
    lemma_begin_keeps_chunks(recorder, action, legacy);
    lemma_begin_keeps_tabs(recorder, action, legacy);
}

/// What comes of the chunks as a request goes on.
proof fn lemma_resumed_chunks(
    before: Seq<Chunk<Seq<char>>>,
    recorder: RecorderModel,
    wait: WaitModel,
    outcome: OutcomeModel,
    legacy: bool,
)
    requires
        keeps_chunks(before, recorder.state.chunks),
        in_request(wait),
        in_place(recorder, wait),
        wait is CaptureUndone ==> recorder.state.chunks.len() > before.len(),
    ensures
        keeps_chunks(before, resumed(recorder, wait, outcome, legacy).0.state.chunks),
        resumed(recorder, wait, outcome, legacy).0.state.chunks.len() <= if wait is TreeMade {
            recorder.state.chunks.len() + 1
        } else {
            recorder.state.chunks.len()
        },
{
    let chunks = recorder.state.chunks;
    let after = resumed(recorder, wait, outcome, legacy).0.state.chunks;
    lemma_first_match(chunks, with_status(ChunkStatus::Queued));
    lemma_chunks_twice(before, chunks, after);
    match wait {
        Wait::CaptureUndone { .. } => {
            if outcome is Failed {
                lemma_chunks_agree(chunks, after);
            }
        },
        Wait::TreeMade { .. } => {
            lemma_chunks_agree(chunks, after);
        },
        Wait::CaptureStopped { .. } => {
            lemma_chunks_agree(chunks, after);
        },
        Wait::Measured { .. } => {
            lemma_chunks_agree(chunks, after);
        },
        Wait::LegacyMeasured { .. } => {
            lemma_chunks_agree(chunks, after);
        },
        Wait::Saved => {
            lemma_chunks_agree(chunks, after);
        },
        _ => {
            assert(after == chunks);
            lemma_chunks_agree(chunks, after);
        },
    }
}

/// What a request does next as it goes on.
proof fn lemma_resumed_step(
    count: nat,
    recorder: RecorderModel,
    effect: EffectModel,
    wait: WaitModel,
    outcome: OutcomeModel,
    legacy: bool,
)
    requires
        step_takes_nothing(count, recorder, Step::Perform(effect, wait)),
        count <= recorder.state.chunks.len() <= count + 1,
        count <= usize::MAX,
    ensures
        step_takes_nothing(
            count,
            resumed(recorder, wait, outcome, legacy).0,
            resumed(recorder, wait, outcome, legacy).1,
        ),
{
    let next = resumed(recorder, wait, outcome, legacy).1;
    match wait {
        Wait::SettingsLoaded { .. } => {},
        Wait::KeySaved { .. } => {},
        Wait::Inspected => {},
        Wait::Stamped { .. } => {},
        Wait::TreeMade { .. } => {},
        Wait::CaptureStarted { .. } => {},
        Wait::CaptureStopped { .. } => {},
        Wait::FileMoved { .. } => {},
        Wait::Saved => {
            lemma_first_match(recorder.state.chunks, with_status(ChunkStatus::Queued));
        },
        Wait::LaunchSaved { .. } => {},
        _ => {
            assert(next matches Step::Perform(effect, after) ==> (effect is Save && after is Saved)
                || (effect is Reload && after is Reloaded) || (effect is CancelWorker
                && after is CancelSent));
        },
    }
}

/// A request other than a clearing takes no chunk away as it goes on.
proof fn lemma_resume_keeps_chunks(
    before: RecorderModel,
    recorder: RecorderModel,
    effect: EffectModel,
    wait: WaitModel,
    outcome: OutcomeModel,
    legacy: bool,
)
    requires
        chunks_kept_so_far(before, recorder, Step::Perform(effect, wait)),
        before.state.chunks.len() <= usize::MAX,
    ensures
        chunks_kept_so_far(
            before,
            resumed(recorder, wait, outcome, legacy).0,
            resumed(recorder, wait, outcome, legacy).1,
        ),
{
    let chunks = before.state.chunks;
    lemma_chunks_twice(chunks, recorder.state.chunks, recorder.state.chunks);
    lemma_resumed_chunks(chunks, recorder, wait, outcome, legacy);
    lemma_resumed_step(chunks.len(), recorder, effect, wait, outcome, legacy);
}

/// A request other than a clearing takes no tab away as it goes on.
proof fn lemma_resume_keeps_tabs(
    recorder: RecorderModel,
    wait: WaitModel,
    outcome: OutcomeModel,
    legacy: bool,
)
    requires
        in_request(wait),
    ensures
        keeps_tabs(recorder.state, resumed(recorder, wait, outcome, legacy).0.state),
{
    let state = recorder.state;
    let after = resumed(recorder, wait, outcome, legacy).0.state;
    match wait {
        Wait::TabStamped { name } => {
            if outcome is Failed {
                lemma_same(state, after);
            } else {
                let id = crate::service::tab_id(outcome->Stamp_nanos);
                lemma_naming_keeps(state, 0, id, name);
                lemma_same(tab_created(state, id, name), after);
                lemma_kept_twice(state, tab_created(state, id, name), after);
            }
        },
        _ => {
            lemma_same(state, after);
        },
    }
}

/// A request other than a clearing takes nothing away as it goes on, whatever came of what it
/// waited for. A chunk whose recording does not start goes as it came, and with it its own
/// directory alone.
pub proof fn law_resume_keeps_everything(
    before: RecorderModel,
    recorder: RecorderModel,
    effect: EffectModel,
    wait: WaitModel,
    outcome: OutcomeModel,
    legacy: bool,
)
    requires
        kept_so_far(before, recorder, Step::Perform(effect, wait)),
        before.state.chunks.len() <= usize::MAX,
    ensures
        kept_so_far(
            before,
            resumed(recorder, wait, outcome, legacy).0,
            resumed(recorder, wait, outcome, legacy).1,
        ),
{
    lemma_resume_keeps_chunks(before, recorder, effect, wait, outcome, legacy);
    lemma_resume_keeps_tabs(recorder, wait, outcome, legacy);
    lemma_kept_twice(
        before.state,
        recorder.state,
        resumed(recorder, wait, outcome, legacy).0.state,
    );
}

/// A recorder and its step after some outcomes, one after another, as far as any is waited for.
pub open spec fn carried_on(
    recorder: RecorderModel,
    step: StepModel,
    outcomes: Seq<(OutcomeModel, bool)>,
) -> (RecorderModel, StepModel)
    decreases outcomes.len(),
{
    if outcomes.len() == 0 {
        (recorder, step)
    } else {
        match step {
            Step::Perform(_, wait) => {
                let (outcome, legacy) = outcomes[0];
                let (next, following) = resumed(recorder, wait, outcome, legacy);
                carried_on(next, following, outcomes.drop_first())
            },
            _ => (recorder, step),
        }
    }
}

proof fn lemma_carried_keeps(
    before: RecorderModel,
    recorder: RecorderModel,
    step: StepModel,
    outcomes: Seq<(OutcomeModel, bool)>,
)
    requires
        kept_so_far(before, recorder, step),
        before.state.chunks.len() <= usize::MAX,
    ensures
        kept_so_far(
            before,
            carried_on(recorder, step, outcomes).0,
            carried_on(recorder, step, outcomes).1,
        ),
    decreases outcomes.len(),
{
    if outcomes.len() > 0 {
        if let Step::Perform(effect, wait) = step {
            let (outcome, legacy) = outcomes[0];
            law_resume_keeps_everything(before, recorder, effect, wait, outcome, legacy);
            let (next, following) = resumed(recorder, wait, outcome, legacy);
            lemma_carried_keeps(before, next, following, outcomes.drop_first());
        }
    }
}

/// No request but a clearing loses anything, at any point on its way, whether it succeeds or
/// fails, and whatever happens outside: every chunk stays in its place, in its tab and with its
/// words, every tab stays, open or closed, with the words it had, and no recording is removed but
/// that of a chunk that the request itself has made.
pub proof fn law_only_clearing_removes(
    recorder: RecorderModel,
    action: Action<Seq<char>>,
    legacy: bool,
    outcomes: Seq<(OutcomeModel, bool)>,
)
    requires
        !(action is Clear),
        recorder.state.chunks.len() <= usize::MAX,
    ensures
        ({
            let (begin, first) = begun(recorder, action, legacy);
            let (after, step) = carried_on(begin, first, outcomes);
            let count = recorder.state.chunks.len();
            &&& keeps_chunks(recorder.state.chunks, after.state.chunks)
            &&& keeps_tabs(recorder.state, after.state)
            &&& step matches Step::Perform(effect, _) ==> {
                &&& !(effect is RemoveSaved)
                &&& !(effect is RemoveIfEmpty)
                &&& effect matches Effect::RemoveTree { path } ==> after.state.chunks.len() == count
                    + 1 && path == chunk_tree(
                    after.config.directory,
                    after.state.chunks[count as int].id,
                )
            }
        }),
{
    law_begin_keeps_everything(recorder, action, legacy);
    let (begin, first) = begun(recorder, action, legacy);
    lemma_carried_keeps(recorder, begin, first, outcomes);
}

/// A recorder that comes up has an open tab selected, or has none open and none selected. Then
/// there is a closed one.
pub proof fn law_restart_selects_a_tab(
    config: ConfigModel,
    saved: StateModel,
    lengths: Seq<Option<u64>>,
    api_key_configured: bool,
    auto_copy: bool,
    legacy: bool,
)
    ensures
        ({
            let state = restored(
                config,
                saved,
                lengths,
                api_key_configured,
                auto_copy,
                legacy,
            ).state;
            &&& selection_is_open(state)
            &&& state.tabs.len() == 0 ==> state.closed_tabs.len() > 0
        }),
{
    law_restart_is_sound(config, saved, lengths, api_key_configured, auto_copy, legacy);
}

/// A request leaves an open tab selected as it begins, or none where none is open.
proof fn lemma_begin_keeps_selection(
    recorder: RecorderModel,
    action: Action<Seq<char>>,
    legacy: bool,
)
    requires
        selection_is_open(recorder.state),
    ensures
        selection_is_open(begun(recorder, action, legacy).0.state),
{
    let state = recorder.state;
    let after = begun(recorder, action, legacy).0.state;
    match action {
        Action::CloseTab(id) => {
            lemma_first_match(state.tabs, tab_with_id(id));
            if let Some(i) = first_match(state.tabs, tab_with_id(id)) {
                lemma_closed_sound(state, i);
            }
        },
        Action::ReopenTab => {
            lemma_opened_sound(state, Seq::empty());
        },
        Action::SelectTab(id) => {
            lemma_opened_sound(state, id);
        },
        Action::RenameTab { id, name } => {
            lemma_first_match(state.tabs, tab_with_id(id));
            if let Some(i) = first_match(state.tabs, tab_with_id(id)) {
                lemma_renamed_sound(state, i, name);
            }
        },
        _ => {
            assert(after.tabs == state.tabs && after.selected_tab == state.selected_tab);
        },
    }
}

/// So it does as it goes on, and so does a tick.
proof fn lemma_resume_keeps_selection(
    recorder: RecorderModel,
    wait: WaitModel,
    outcome: OutcomeModel,
    legacy: bool,
)
    requires
        selection_is_open(recorder.state),
    ensures
        selection_is_open(resumed(recorder, wait, outcome, legacy).0.state),
{
    let state = recorder.state;
    let after = resumed(recorder, wait, outcome, legacy).0.state;
    match wait {
        Wait::TabStamped { .. } => {
            if outcome !is Failed {
                lemma_found(after.tabs, after.tabs.len() - 1);
            }
        },
        Wait::SavedRemoved => {
            lemma_emptied(state);
        },
        Wait::Polled => {
            assert(after.tabs == state.tabs && after.selected_tab == state.selected_tab);
        },
        Wait::Reloaded => {
            assert(after.tabs == state.tabs && after.selected_tab == state.selected_tab);
        },
        _ => {
            assert(after.tabs == state.tabs && after.selected_tab == state.selected_tab);
        },
    }
}

proof fn lemma_carried_selection(
    recorder: RecorderModel,
    step: StepModel,
    outcomes: Seq<(OutcomeModel, bool)>,
)
    requires
        selection_is_open(recorder.state),
    ensures
        selection_is_open(carried_on(recorder, step, outcomes).0.state),
    decreases outcomes.len(),
{
    if outcomes.len() > 0 {
        if let Step::Perform(_, wait) = step {
            let (outcome, legacy) = outcomes[0];
            lemma_resume_keeps_selection(recorder, wait, outcome, legacy);
            let (next, following) = resumed(recorder, wait, outcome, legacy);
            lemma_carried_selection(next, following, outcomes.drop_first());
        }
    }
}

/// An open tab stays selected, or none where none is open: at any point of any request, whether it
/// succeeds or fails, and of any tick, whatever happens outside.
pub proof fn law_a_tab_stays_selected(
    recorder: RecorderModel,
    action: Action<Seq<char>>,
    reading: Reading<Seq<char>>,
    legacy: bool,
    outcomes: Seq<(OutcomeModel, bool)>,
)
    requires
        selection_is_open(recorder.state),
    ensures
        ({
            let (begin, first) = begun(recorder, action, legacy);
            selection_is_open(carried_on(begin, first, outcomes).0.state)
        }),
        ({
            let (begin, first) = ticked(recorder, reading, legacy);
            selection_is_open(carried_on(begin, first, outcomes).0.state)
        }),
{
    lemma_begin_keeps_selection(recorder, action, legacy);
    let (begin, first) = begun(recorder, action, legacy);
    lemma_carried_selection(begin, first, outcomes);
    let (begin, first) = ticked(recorder, reading, legacy);
    lemma_carried_selection(begin, first, outcomes);
}

/// Whether no variable is there twice, in the configuration and in the settings that are on their
/// way to their file.
pub open spec fn variables_distinct(recorder: RecorderModel, step: StepModel) -> bool {
    &&& distinct_names(recorder.config.whisper_environment)
    &&& step matches Step::Perform(effect, wait) ==> {
        &&& effect matches Effect::SaveSettings { settings, .. } ==> distinct_names(
            settings.environment,
        )
        &&& wait matches Wait::KeySaved { settings } ==> distinct_names(settings.environment)
    }
}

/// Whether settings that were read have no variable twice.
pub open spec fn read_distinct(outcome: OutcomeModel) -> bool {
    match outcome {
        Outcome::Settings(Stored::Parsed(settings)) => distinct_names(settings.environment),
        Outcome::Reloaded { settings: Stored::Parsed(settings), .. } => distinct_names(
            settings.environment,
        ),
        _ => true,
    }
}

/// No request puts a variable twice into the configuration or into the settings it saves.
pub proof fn law_variables_stay_distinct(
    recorder: RecorderModel,
    action: Action<Seq<char>>,
    effect: EffectModel,
    wait: WaitModel,
    outcome: OutcomeModel,
    legacy: bool,
)
    requires
        distinct_names(recorder.config.whisper_environment),
        variables_distinct(recorder, Step::Perform(effect, wait)),
        read_distinct(outcome),
        fits(wait, outcome),
    ensures
        variables_distinct(
            begun(recorder, action, legacy).0,
            begun(recorder, action, legacy).1,
        ),
        variables_distinct(
            resumed(recorder, wait, outcome, legacy).0,
            resumed(recorder, wait, outcome, legacy).1,
        ),
{
    lemma_begun_variables(recorder, action, legacy);
    lemma_resumed_variables(recorder, effect, wait, outcome, legacy);
}

proof fn lemma_begun_variables(recorder: RecorderModel, action: Action<Seq<char>>, legacy: bool)
    requires
        distinct_names(recorder.config.whisper_environment),
    ensures
        variables_distinct(
            begun(recorder, action, legacy).0,
            begun(recorder, action, legacy).1,
        ),
{
    let (after, step) = begun(recorder, action, legacy);
    assert(after.config.whisper_environment == recorder.config.whisper_environment);
    assert(step matches Step::Perform(effect, wait) ==> !(effect is SaveSettings) && !(
    wait is KeySaved));
}

proof fn lemma_resumed_variables(
    recorder: RecorderModel,
    effect: EffectModel,
    wait: WaitModel,
    outcome: OutcomeModel,
    legacy: bool,
)
    requires
        variables_distinct(recorder, Step::Perform(effect, wait)),
        read_distinct(outcome),
        fits(wait, outcome),
    ensures
        variables_distinct(
            resumed(recorder, wait, outcome, legacy).0,
            resumed(recorder, wait, outcome, legacy).1,
        ),
{
    let (after, step) = resumed(recorder, wait, outcome, legacy);
    match wait {
        Wait::SettingsLoaded { .. } => {},
        Wait::KeySaved { .. } => {},
        Wait::Reloaded => {
            law_names_stay_distinct(
                recorder.config,
                recorder.config.directory,
                outcome->Reloaded_around,
                outcome->Reloaded_settings,
            );
        },
        Wait::Polled => {},
        Wait::Saved => {},
        Wait::InterruptSaved { .. } => {},
        Wait::CaptureStarted { .. } => {},
        Wait::CaptureStopped { .. } => {},
        Wait::Measured { .. } => {},
        Wait::LegacyMeasured { .. } => {},
        Wait::TreeMade { .. } => {},
        Wait::Interrupted { .. } => {},
        Wait::AutoCopied => {},
        _ => {
            assert(after.config.whisper_environment == recorder.config.whisper_environment);
            assert(step matches Step::Perform(effect, wait) ==> !(effect is SaveSettings) && !(
            wait is KeySaved));
        },
    }
}

} // verus!
