//! What requests are for: which microphone is recorded, which chunk is transcribed and where its
//! words go, what is copied, and which settings come into force.
use crate::config::{model_refusal, Prerequisites, Stored, Surroundings, TranscriptionSettingsModel};
use crate::error::Error;
use crate::model::{Action, BackendSettings, Chunk, ChunkStatus, StateModel};
use crate::paths::path_join;
use crate::protocol::{
    fits, Effect, NewChunk, Outcome, OutcomeModel, Step, StepModel, Wait, WaitModel,
};
use crate::search::{
    lemma_first_match, lemma_is_first, lemma_is_last, lemma_last_match, lemma_no_first,
};
use crate::service::{begun, resumed, ticked, Reading, RecorderModel};
use crate::session::{completed_in, current_transcript, with_status};
use crate::text::{decimal_digits, digit, trimmed};
use vstd::prelude::*;

verus! {

/// Whether a state differs from another at most in its message and in what is counted and shown
/// anew after every request.
pub open spec fn alike(before: StateModel, after: StateModel) -> bool {
    after == StateModel {
        message: after.message,
        phase: after.phase,
        level: after.level,
        can_retry: after.can_retry,
        queue_depth: after.queue_depth,
        transcribing: after.transcribing,
        ..before
    }
}

/// Whether a state differs from another at most in its chunks, its message and what is counted and
/// shown anew.
pub open spec fn alike_but_chunks(before: StateModel, after: StateModel) -> bool {
    alike(StateModel { chunks: after.chunks, ..before }, after)
}

/// Whether a recorder differs from another at most in its state.
pub open spec fn same_but_state(before: RecorderModel, after: RecorderModel) -> bool {
    after == RecorderModel { state: after.state, ..before }
}

/// Whether chunks are the same as before, but for the one at a place.
pub open spec fn others_kept(
    before: Seq<Chunk<Seq<char>>>,
    after: Seq<Chunk<Seq<char>>>,
    place: int,
) -> bool {
    &&& after.len() == before.len()
    &&& forall|j: int| 0 <= j < before.len() && j != place ==> (#[trigger] after[j]) == before[j]
}

/// Where a chunk has its files.
pub open spec fn files_of(directory: Seq<char>, id: Seq<char>) -> Seq<char> {
    path_join(path_join(directory, "chunks"@), id)
}

/// A request that begins starts no recording itself, and touches the configuration only where a
/// microphone is chosen.
#[verifier::rlimit(60)]
proof fn lemma_begin_settings(recorder: RecorderModel, action: Action<Seq<char>>, legacy: bool)
    ensures
        begun(recorder, action, legacy).1 matches Step::Perform(effect, _) ==> !(effect is
            StartCapture),
        !(action is SelectDevice) ==> begun(recorder, action, legacy).0.config == recorder.config,
        begun(recorder, action, legacy).0.config.directory == recorder.config.directory,
{
    match action {
        Action::Status => {},
        Action::Start => {},
        Action::Stop => {},
        Action::Toggle => {},
        Action::Copy => {},
        Action::CopyLatest => {},
        Action::CopyChunk(_) => {},
        Action::CopyText(_) => {},
        Action::ExportTab { .. } => {},
        Action::CreateTab(_) => {},
        Action::SelectTab(_) => {},
        Action::CloseTab(_) => {},
        Action::ReopenTab => {},
        Action::RenameTab { .. } => {},
        Action::Clear => {},
        Action::Cancel => {},
        Action::Retry => {},
        Action::Shutdown => {},
        Action::Devices => {},
        Action::SelectDevice(_) => {},
        Action::ConfigureBackend { .. } => {},
    }
}

/// A tick that begins starts no recording itself, and touches no configuration.
proof fn lemma_tick_settings(recorder: RecorderModel, reading: Reading<Seq<char>>, legacy: bool)
    ensures
        ticked(recorder, reading, legacy).1 matches Step::Perform(effect, _) ==> !(effect is
            StartCapture),
        ticked(recorder, reading, legacy).0.config == recorder.config,
{
}

/// Only a chunk that is made for it starts a recording.
#[verifier::rlimit(60)]
proof fn lemma_resume_starts(
    recorder: RecorderModel,
    wait: WaitModel,
    outcome: OutcomeModel,
    legacy: bool,
)
    ensures
        resumed(recorder, wait, outcome, legacy).1 matches Step::Perform(effect, _) ==> (effect is
            StartCapture ==> wait is TreeMade && !(outcome is Failed)),
{
    match wait {
        Wait::SettingsLoaded { .. } => {},
        Wait::KeySaved { .. } => {},
        Wait::SettingsSaved => {},
        Wait::Reloaded => {},
        Wait::DevicesListed => {},
        Wait::DeviceChosen { .. } => {},
        Wait::Inspected => {},
        Wait::Stamped { .. } => {},
        Wait::TreeMade { .. } => {},
        Wait::CaptureStarted { .. } => {},
        Wait::CaptureUndone { .. } => {},
        Wait::CaptureStopped { .. } => {},
        Wait::StopFailed { .. } => {},
        Wait::Measured { .. } => {},
        Wait::FileMoved { .. } => {},
        Wait::LegacyMeasured { .. } => {},
        Wait::CancelSaved { .. } => {},
        Wait::CancelSent { .. } => {},
        Wait::Copied => {},
        Wait::Exported { .. } => {},
        Wait::TabStamped { .. } => {},
        Wait::SavedRemoved => {},
        Wait::TreeRemoved => {},
        Wait::Saved => {},
        Wait::LaunchSaved { .. } => {},
        Wait::Launched => {},
        Wait::Interrupted { .. } => {},
        Wait::InterruptSaved { .. } => {},
        Wait::Polled => {},
        Wait::AutoCopied => {},
    }
}

/// The configuration changes only where a microphone is chosen or settings are read again.
#[verifier::rlimit(60)]
proof fn lemma_resume_settings(
    recorder: RecorderModel,
    wait: WaitModel,
    outcome: OutcomeModel,
    legacy: bool,
)
    ensures
        !(wait is DeviceChosen) && !(wait is Reloaded) ==> resumed(
            recorder,
            wait,
            outcome,
            legacy,
        ).0.config == recorder.config,
        !(wait is DeviceChosen) ==> resumed(recorder, wait, outcome, legacy).0.config.device
            == recorder.config.device,
        resumed(recorder, wait, outcome, legacy).0.config.directory == recorder.config.directory,
{
    match wait {
        Wait::SettingsLoaded { .. } => {},
        Wait::KeySaved { .. } => {},
        Wait::SettingsSaved => {},
        Wait::Reloaded => {},
        Wait::DevicesListed => {},
        Wait::DeviceChosen { .. } => {},
        Wait::Inspected => {},
        Wait::Stamped { .. } => {},
        Wait::TreeMade { .. } => {},
        Wait::CaptureStarted { .. } => {},
        Wait::CaptureUndone { .. } => {},
        Wait::CaptureStopped { .. } => {},
        Wait::StopFailed { .. } => {},
        Wait::Measured { .. } => {},
        Wait::FileMoved { .. } => {},
        Wait::LegacyMeasured { .. } => {},
        Wait::CancelSaved { .. } => {},
        Wait::CancelSent { .. } => {},
        Wait::Copied => {},
        Wait::Exported { .. } => {},
        Wait::TabStamped { .. } => {},
        Wait::SavedRemoved => {},
        Wait::TreeRemoved => {},
        Wait::Saved => {},
        Wait::LaunchSaved { .. } => {},
        Wait::Launched => {},
        Wait::Interrupted { .. } => {},
        Wait::InterruptSaved { .. } => {},
        Wait::Polled => {},
        Wait::AutoCopied => {},
    }
}

/// A recording is made from the microphone that is configured, and from no other: nothing else
/// starts one, and it goes into the directory of the chunk that was made for it.
pub proof fn law_configured_microphone_is_recorded(
    recorder: RecorderModel,
    action: Action<Seq<char>>,
    reading: Reading<Seq<char>>,
    wait: WaitModel,
    outcome: OutcomeModel,
    legacy: bool,
)
    ensures
        begun(recorder, action, legacy).1 matches Step::Perform(effect, _) ==> !(effect is
            StartCapture),
        ticked(recorder, reading, legacy).1 matches Step::Perform(effect, _) ==> !(effect is
            StartCapture),
        resumed(recorder, wait, outcome, legacy).1 matches Step::Perform(effect, _) ==> (
        effect matches Effect::StartCapture { path, device } ==> {
            let after = resumed(recorder, wait, outcome, legacy).0;
            &&& device == recorder.config.device
            &&& after.config == recorder.config
            &&& after.state.chunks.len() == recorder.state.chunks.len() + 1
            &&& path == path_join(
                files_of(recorder.config.directory, after.state.chunks.last().id),
                "recording.wav"@,
            )
        }),
{
    lemma_begin_settings(recorder, action, legacy);
    lemma_tick_settings(recorder, reading, legacy);
    lemma_resume_starts(recorder, wait, outcome, legacy);
    if wait is TreeMade && !(outcome is Failed) {
        let id = wait->TreeMade_id;
        assert(resumed(recorder, wait, outcome, legacy).0.state.chunks.last().id == id);
    }
}

/// The microphone and the directory stay as they are, whatever is asked and whatever comes of it,
/// but where a microphone is chosen. The other settings stay but where they are read again.
pub proof fn law_microphone_stays(
    recorder: RecorderModel,
    action: Action<Seq<char>>,
    reading: Reading<Seq<char>>,
    wait: WaitModel,
    outcome: OutcomeModel,
    legacy: bool,
)
    ensures
        !(action is SelectDevice) ==> begun(recorder, action, legacy).0.config == recorder.config,
        ticked(recorder, reading, legacy).0.config == recorder.config,
        !(wait is DeviceChosen) && !(wait is Reloaded) ==> resumed(
            recorder,
            wait,
            outcome,
            legacy,
        ).0.config == recorder.config,
        !(wait is DeviceChosen) ==> resumed(recorder, wait, outcome, legacy).0.config.device
            == recorder.config.device,
        resumed(recorder, wait, outcome, legacy).0.config.directory == recorder.config.directory,
        begun(recorder, action, legacy).0.config.directory == recorder.config.directory,
{
    lemma_begin_settings(recorder, action, legacy);
    lemma_tick_settings(recorder, reading, legacy);
    lemma_resume_settings(recorder, wait, outcome, legacy);
}

/// A microphone that is asked for is the one that is configured and shown from then on, where it
/// is among those that there are; else the request is refused and nothing changes. The system's
/// can always be had. While a recording runs, none can be chosen.
pub proof fn law_chosen_microphone_is_configured(
    recorder: RecorderModel,
    device: Seq<char>,
    names: Seq<Seq<char>>,
    legacy: bool,
)
    ensures
        recorder.capturing ==> begun(recorder, Action::SelectDevice(Some(device)), legacy) == (
            recorder,
            StepModel::Failed(Error::MicrophoneInUse),
        ) && begun(recorder, Action::SelectDevice(None), legacy) == (
            recorder,
            StepModel::Failed(Error::MicrophoneInUse),
        ),
        !recorder.capturing ==> {
            let (asking, step) = begun(recorder, Action::SelectDevice(Some(device)), legacy);
            &&& asking == recorder
            &&& step matches Step::Perform(effect, wait) && effect is ListDevices && {
                let (after, next) = resumed(recorder, wait, Outcome::Devices(names), legacy);
                if names.contains(device) {
                    &&& after.config.device == Some(device)
                    &&& after.state.selected_device == Some(device)
                    &&& after.state.device == device
                    &&& after.state.message == "Microphone selected: "@ + device
                    &&& alike(
                        StateModel {
                            selected_device: Some(device),
                            device,
                            ..recorder.state
                        },
                        after.state,
                    )
                    &&& next matches Step::Perform(effect, wait) && effect is Save && wait is Saved
                } else {
                    &&& after == recorder
                    &&& next == StepModel::Failed(Error::MicrophoneGone)
                }
            }
        },
        !recorder.capturing ==> {
            let (after, next) = begun(recorder, Action::SelectDevice(None), legacy);
            &&& after.config.device is None
            &&& after.state.selected_device is None
            &&& after.state.device == "System default microphone"@
            &&& after.state.chunks == recorder.state.chunks
            &&& after.state.tabs == recorder.state.tabs
            &&& next matches Step::Perform(effect, wait) && effect is Save && wait is Saved
        },
{
}

/// A recording that is asked for, with everything in place, starts in a directory of its own with
/// the configured microphone, as a new chunk of the selected tab at the end of the others. It runs
/// once the microphone does.
pub proof fn law_start_records(
    recorder: RecorderModel,
    known: Prerequisites<Seq<char>>,
    nanos: u128,
    process: u32,
    name: Seq<char>,
    legacy: bool,
)
    requires
        !recorder.capturing,
        recorder.state.selected_tab.len() > 0,
        model_refusal(recorder.config, known) is None,
        recorder.state.chunks.len() <= usize::MAX,
    ensures
        begun(recorder, Action::Start, legacy).0 == recorder,
        begun(recorder, Action::Start, legacy).1 matches Step::Perform(first, looked) && first
            is Inspect && {
            let (two, second) = resumed(recorder, looked, Outcome::Known(known), legacy);
            &&& two == recorder
            &&& second matches Step::Perform(effect, stamped) && effect is Stamp && {
                let (three, third) = resumed(
                    recorder,
                    stamped,
                    Outcome::Stamp { nanos, process },
                    legacy,
                );
                &&& three == recorder
                &&& third matches Step::Perform(Effect::MakeTree { path: tree }, made) && {
                    let (four, fourth) = resumed(recorder, made, Outcome::Done, legacy);
                    let chunk = four.state.chunks.last();
                    &&& tree == files_of(recorder.config.directory, chunk.id)
                    &&& four.state.chunks.len() == recorder.state.chunks.len() + 1
                    &&& forall|i: int|
                        0 <= i < recorder.state.chunks.len() ==> (#[trigger] four.state.chunks[i])
                            == recorder.state.chunks[i]
                    &&& chunk.tab_id == recorder.state.selected_tab
                    &&& chunk.status == ChunkStatus::Recording
                    &&& chunk.text.len() == 0
                    &&& chunk.title.len() == 0
                    &&& chunk.seconds == 0
                    &&& chunk.error is None
                    &&& !four.capturing
                    &&& fourth matches Step::Perform(
                        Effect::StartCapture { path, device },
                        started,
                    ) && {
                        let (five, fifth) = resumed(four, started, Outcome::Device(name), legacy);
                        &&& device == recorder.config.device
                        &&& path == path_join(tree, "recording.wav"@)
                        &&& five.capturing
                        &&& five.pending == recorder.pending
                        &&& five.config == recorder.config
                        &&& five.state.chunks == four.state.chunks
                        &&& five.state.device == name
                        &&& five.state.seconds == 0
                        &&& alike_but_chunks(
                            StateModel { device: name, seconds: 0, ..recorder.state },
                            five.state,
                        )
                        &&& fifth matches Step::Perform(effect, wait) && effect is Save && wait
                            is Saved
                    }
                }
            }
        },
{
}

/// After a microphone was chosen, the next recording is made from it.
pub proof fn law_chosen_microphone_is_recorded(
    recorder: RecorderModel,
    device: Seq<char>,
    names: Seq<Seq<char>>,
    later: RecorderModel,
    wait: WaitModel,
    outcome: OutcomeModel,
    legacy: bool,
)
    requires
        !recorder.capturing,
        names.contains(device),
        ({
            let asking = begun(recorder, Action::SelectDevice(Some(device)), legacy).1;
            later.config.device == resumed(
                recorder,
                asking->Perform_1,
                Outcome::Devices(names),
                legacy,
            ).0.config.device
        }),
    ensures
        resumed(later, wait, outcome, legacy).1 matches Step::Perform(effect, _) ==> (
        effect matches Effect::StartCapture { device: recorded, .. } ==> recorded == Some(device)),
{
    lemma_resume_starts(later, wait, outcome, legacy);
}

/// A recording that cannot start leaves nothing: its directory and its chunk go again, and the
/// request is refused with what was in the way.
pub proof fn law_failed_start_leaves_nothing(
    recorder: RecorderModel,
    id: Seq<char>,
    plain: Seq<char>,
    whole: Seq<char>,
    legacy: bool,
)
    requires
        recorder.state.chunks.len() <= usize::MAX,
    ensures
        ({
            let (made, step) = resumed(
                recorder,
                Wait::TreeMade { cause: NewChunk::Recording, id },
                Outcome::Done,
                legacy,
            );
            &&& step matches Step::Perform(_, started) && {
                let (two, second) = resumed(
                    made,
                    started,
                    Outcome::Failed { plain, whole },
                    legacy,
                );
                &&& second matches Step::Perform(Effect::RemoveTree { path }, undone) && {
                    let (three, third) = resumed(two, undone, Outcome::Done, legacy);
                    &&& path == files_of(recorder.config.directory, id)
                    &&& three == recorder
                    &&& third == StepModel::Failed(Error::Outside(whole))
                }
            }
        }),
{
    let (made, step) = resumed(
        recorder,
        Wait::TreeMade { cause: NewChunk::Recording, id },
        Outcome::Done,
        legacy,
    );
    assert(made.state.chunks.drop_last() =~= recorder.state.chunks);
    assert(made.state.chunks[recorder.state.chunks.len() as int].id == id);
}

/// Starting is refused while a recording runs, and without a tab to record for. Where something
/// that a transcription needs is missing, it is refused with that.
pub proof fn law_start_is_refused(
    recorder: RecorderModel,
    known: Prerequisites<Seq<char>>,
    legacy: bool,
)
    ensures
        recorder.capturing ==> begun(recorder, Action::Start, legacy) == (
            recorder,
            StepModel::Failed(Error::AlreadyRecording),
        ),
        !recorder.capturing && recorder.state.selected_tab.len() == 0 ==> begun(
            recorder,
            Action::Start,
            legacy,
        ) == (recorder, StepModel::Failed(Error::NoTabToRecord)),
        model_refusal(recorder.config, known) matches Some(error) ==> resumed(
            recorder,
            Wait::Inspected,
            Outcome::Known(known),
            legacy,
        ) == (recorder, StepModel::Failed(error)),
        !recorder.capturing ==> begun(recorder, Action::Stop, legacy) == (
            recorder,
            StepModel::Failed(Error::NotRecording),
        ),
        begun(recorder, Action::Toggle, legacy) == begun(
            recorder,
            if recorder.capturing {
                Action::Stop
            } else {
                Action::Start
            },
            legacy,
        ),
{
}

/// A recording that ends is queued with its length, as it was measured or else as it was shown
/// last. Where it cannot be ended properly, it counts as failed with what went wrong, and the
/// request is refused with all that led to it. No other chunk changes.
#[verifier::rlimit(30)]
pub proof fn law_stop_queues_the_recording(
    recorder: RecorderModel,
    place: int,
    length: Option<u64>,
    plain: Seq<char>,
    whole: Seq<char>,
    legacy: bool,
)
    requires
        recorder.capturing,
        0 <= place < recorder.state.chunks.len() <= usize::MAX,
        recorder.state.chunks[place].status == ChunkStatus::Recording,
        forall|j: int|
            0 <= j < place ==> (#[trigger] recorder.state.chunks[j]).status
                != ChunkStatus::Recording,
    ensures
        begun(recorder, Action::Stop, legacy).0 == (RecorderModel { capturing: false, ..recorder }),
        begun(recorder, Action::Stop, legacy).1 matches Step::Perform(first, stopped) && first
            is StopCapture && {
            let one = RecorderModel { capturing: false, ..recorder };
            let (two, second) = resumed(one, stopped, Outcome::Done, legacy);
            &&& two == one
            &&& second matches Step::Perform(Effect::Measure { path }, measured) && {
                let (three, third) = resumed(two, measured, Outcome::Length(length), legacy);
                let chunk = three.state.chunks[place];
                &&& path == path_join(
                    files_of(recorder.config.directory, recorder.state.chunks[place].id),
                    "recording.wav"@,
                )
                &&& same_but_state(one, three)
                &&& alike_but_chunks(recorder.state, three.state)
                &&& others_kept(recorder.state.chunks, three.state.chunks, place)
                &&& chunk.status == ChunkStatus::Queued
                &&& chunk.seconds == match length {
                    Some(seconds) => seconds,
                    None => recorder.state.seconds,
                }
                &&& chunk.id == recorder.state.chunks[place].id
                &&& chunk.tab_id == recorder.state.chunks[place].tab_id
                &&& chunk.text == recorder.state.chunks[place].text
                &&& third matches Step::Perform(effect, wait) && effect is Save && wait is Saved
            }
        },
        begun(recorder, Action::Stop, legacy).1 matches Step::Perform(_, stopped) && {
            let one = RecorderModel { capturing: false, ..recorder };
            let (two, second) = resumed(one, stopped, Outcome::Failed { plain, whole }, legacy);
            let chunk = two.state.chunks[place];
            &&& same_but_state(one, two)
            &&& alike_but_chunks(recorder.state, two.state)
            &&& others_kept(recorder.state.chunks, two.state.chunks, place)
            &&& chunk.status == ChunkStatus::Failed
            &&& chunk.error == Some(plain)
            &&& chunk.id == recorder.state.chunks[place].id
            &&& chunk.tab_id == recorder.state.chunks[place].tab_id
            &&& chunk.text == recorder.state.chunks[place].text
            &&& second matches Step::Perform(effect, saved) && effect is Save && resumed(
                two,
                saved,
                Outcome::Done,
                legacy,
            ) == (two, StepModel::Failed(Error::Outside(whole)))
        },
{
    lemma_is_first(recorder.state.chunks, with_status(ChunkStatus::Recording), place);
}

/// Where nothing is being transcribed, the first chunk that waits is next: it alone changes, from
/// waiting to being transcribed, and once that is saved the recording in its directory is handed
/// to the transcriber. Where nothing waits, or something is being transcribed, nothing starts.
pub proof fn law_first_waiting_is_transcribed(recorder: RecorderModel, place: int, legacy: bool)
    requires
        recorder.pending is None,
        0 <= place < recorder.state.chunks.len() <= usize::MAX,
        recorder.state.chunks[place].status == ChunkStatus::Queued,
        forall|j: int|
            0 <= j < place ==> (#[trigger] recorder.state.chunks[j]).status != ChunkStatus::Queued,
    ensures
        ({
            let (one, first) = resumed(recorder, Wait::Saved, Outcome::Done, legacy);
            let before = recorder.state.chunks[place];
            &&& one.pending == Some(place as usize)
            &&& one.config == recorder.config
            &&& one.capturing == recorder.capturing
            &&& alike_but_chunks(recorder.state, one.state)
            &&& others_kept(recorder.state.chunks, one.state.chunks, place)
            &&& one.state.chunks[place] == Chunk { status: ChunkStatus::Transcribing, ..before }
            &&& first matches Step::Perform(effect, saved) && effect is Save && {
                let (two, second) = resumed(one, saved, Outcome::Done, legacy);
                &&& two == one
                &&& second matches Step::Perform(Effect::Launch { tree }, launched) && tree
                    == files_of(recorder.config.directory, before.id) && resumed(
                    two,
                    launched,
                    Outcome::Done,
                    legacy,
                ) == (two, StepModel::Done)
            }
        }),
{
    lemma_is_first(recorder.state.chunks, with_status(ChunkStatus::Queued), place);
}

/// Where nothing waits, or something is being transcribed already, nothing starts.
pub proof fn law_nothing_starts_twice(recorder: RecorderModel, legacy: bool)
    requires
        recorder.pending is Some || forall|j: int|
            0 <= j < recorder.state.chunks.len() ==> (#[trigger] recorder.state.chunks[j]).status
                != ChunkStatus::Queued,
    ensures
        ({
            let (after, step) = resumed(recorder, Wait::Saved, Outcome::Done, legacy);
            &&& step is Done
            &&& same_but_state(recorder, after)
            &&& alike(recorder.state, after.state)
        }),
{
    if recorder.pending is None {
        lemma_no_first(recorder.state.chunks, with_status(ChunkStatus::Queued));
    }
}

/// Words that come for a chunk become its words, and it is ready; no other chunk changes, and the
/// transcript is that of the selected tab with them. Where the chunk is in the selected tab and
/// copying by itself is on, what goes to the clipboard is that whole transcript; else nothing
/// does.
pub proof fn law_words_go_to_their_chunk(
    recorder: RecorderModel,
    words: Seq<char>,
    legacy: bool,
)
    requires
        recorder.pending is Some,
        recorder.pending->0 < recorder.state.chunks.len(),
        recorder.state.chunks[recorder.pending->0 as int].status != ChunkStatus::Canceled,
    ensures
        ({
            let place = recorder.pending->0 as int;
            let before = recorder.state.chunks[place];
            let (after, step) = resumed(
                recorder,
                Wait::Polled,
                Outcome::Worker(Some(Ok(words))),
                legacy,
            );
            &&& after.pending is None
            &&& after.config == recorder.config
            &&& after.capturing == recorder.capturing
            &&& after.auto_copy == recorder.auto_copy
            &&& others_kept(recorder.state.chunks, after.state.chunks, place)
            &&& after.state.chunks[place] == Chunk {
                text: words,
                status: ChunkStatus::Ready,
                error: None,
                ..before
            }
            &&& after.state.transcript == current_transcript(after.state)
            &&& alike_but_chunks(
                StateModel { transcript: after.state.transcript, ..recorder.state },
                after.state,
            )
            &&& if recorder.auto_copy && before.tab_id == recorder.state.selected_tab
                && after.state.transcript.len() > 0 {
                step matches Step::Perform(Effect::Copy { text }, wait) && text
                    == current_transcript(after.state) && wait is AutoCopied
            } else {
                step matches Step::Perform(effect, wait) && effect is Save && wait is Saved
            }
        }),
{
}

/// What goes to the clipboard without being asked for is always the transcript that is shown, and
/// that is the one of the selected tab.
pub proof fn law_whole_transcript_is_copied(
    recorder: RecorderModel,
    answer: Option<Result<Seq<char>, Seq<char>>>,
    legacy: bool,
)
    requires
        recorder.pending is Some,
        recorder.pending->0 < recorder.state.chunks.len(),
    ensures
        ({
            let (after, step) = resumed(recorder, Wait::Polled, Outcome::Worker(answer), legacy);
            step matches Step::Perform(effect, wait) ==> (effect matches Effect::Copy { text } ==> {
                &&& wait is AutoCopied
                &&& text == after.state.transcript
                &&& text == current_transcript(after.state)
                &&& text.len() > 0
                &&& recorder.auto_copy
                &&& answer matches Some(Ok(_))
            })
        }),
{
}

/// A transcription that fails leaves its chunk with the words it had and with what went wrong. No
/// other chunk and no transcript changes, and nothing is copied.
pub proof fn law_failure_stays_with_its_chunk(
    recorder: RecorderModel,
    words: Seq<char>,
    legacy: bool,
)
    requires
        recorder.pending is Some,
        recorder.pending->0 < recorder.state.chunks.len(),
        recorder.state.chunks[recorder.pending->0 as int].status != ChunkStatus::Canceled,
    ensures
        ({
            let place = recorder.pending->0 as int;
            let (after, step) = resumed(
                recorder,
                Wait::Polled,
                Outcome::Worker(Some(Err(words))),
                legacy,
            );
            &&& after.pending is None
            &&& after.config == recorder.config
            &&& after.capturing == recorder.capturing
            &&& others_kept(recorder.state.chunks, after.state.chunks, place)
            &&& after.state.chunks[place] == Chunk {
                status: ChunkStatus::Failed,
                error: Some(words),
                ..recorder.state.chunks[place]
            }
            &&& alike_but_chunks(recorder.state, after.state)
            &&& step matches Step::Perform(effect, wait) && effect is Save && wait is Saved
        }),
{
}

/// Copying by itself changes nothing but the message, which says whether it went well.
pub proof fn law_copying_is_told(
    recorder: RecorderModel,
    plain: Seq<char>,
    whole: Seq<char>,
    legacy: bool,
)
    ensures
        ({
            let (good, step) = resumed(recorder, Wait::AutoCopied, Outcome::Done, legacy);
            &&& same_but_state(recorder, good)
            &&& alike(recorder.state, good.state)
            &&& good.state.message == "Copied to clipboard."@
            &&& step matches Step::Perform(effect, _) && effect is Save
        }),
        ({
            let (bad, step) = resumed(
                recorder,
                Wait::AutoCopied,
                Outcome::Failed { plain, whole },
                legacy,
            );
            &&& same_but_state(recorder, bad)
            &&& alike(recorder.state, bad.state)
            &&& bad.state.message == "Transcript ready. Clipboard unavailable: "@ + plain
            &&& step matches Step::Perform(effect, _) && effect is Save
        }),
        ({
            let (good, step) = resumed(recorder, Wait::Copied, Outcome::Done, legacy);
            &&& same_but_state(recorder, good)
            &&& alike(recorder.state, good.state)
            &&& good.state.message == "Copied to clipboard."@
            &&& step matches Step::Perform(effect, _) && effect is Save
        }),
        resumed(recorder, Wait::Copied, Outcome::Failed { plain, whole }, legacy) == (
            recorder,
            StepModel::Failed(Error::Outside(whole)),
        ),
{
}

/// Whether a request puts a text on the clipboard, or is refused where there is none, and leaves
/// the recorder as it is.
pub open spec fn copies(
    recorder: RecorderModel,
    action: Action<Seq<char>>,
    text: Seq<char>,
    legacy: bool,
) -> bool {
    let (after, step) = begun(recorder, action, legacy);
    &&& after == recorder
    &&& if text.len() == 0 {
        step == StepModel::Failed(Error::NothingToCopy)
    } else {
        step == StepModel::Perform(Effect::Copy { text }, Wait::Copied)
    }
}

/// What is copied is the transcript that is shown, the text that was marked, or the words of the
/// chunk that was named.
pub proof fn law_asked_text_is_copied(
    recorder: RecorderModel,
    text: Seq<char>,
    id: Seq<char>,
    place: int,
    legacy: bool,
)
    ensures
        copies(recorder, Action::Copy, recorder.state.transcript, legacy),
        copies(recorder, Action::CopyText(text), text, legacy),
        0 <= place < recorder.state.chunks.len() && recorder.state.chunks[place].id == id && (
        forall|j: int| 0 <= j < place ==> (#[trigger] recorder.state.chunks[j]).id != id)
            ==> copies(
            recorder,
            Action::CopyChunk(id),
            recorder.state.chunks[place].text,
            legacy,
        ),
        (forall|j: int|
            0 <= j < recorder.state.chunks.len() ==> (#[trigger] recorder.state.chunks[j]).id
                != id) ==> begun(recorder, Action::CopyChunk(id), legacy) == (
            recorder,
            StepModel::Failed(Error::ChunkGone),
        ),
{
    let chunks = recorder.state.chunks;
    let asked = crate::session::chunk_with_id(id);
    lemma_first_match(chunks, asked);
    if 0 <= place < chunks.len() && chunks[place].id == id && (forall|j: int|
        0 <= j < place ==> (#[trigger] chunks[j]).id != id) {
        lemma_is_first(chunks, asked, place);
    }
    if forall|j: int| 0 <= j < chunks.len() ==> (#[trigger] chunks[j]).id != id {
        lemma_no_first(chunks, asked);
    }
}

/// Whether a chunk is one of the selected tab that has its words.
pub open spec fn has_words(state: StateModel, place: int) -> bool {
    &&& 0 <= place < state.chunks.len()
    &&& state.chunks[place].tab_id == state.selected_tab
    &&& state.chunks[place].status == ChunkStatus::Ready
    &&& state.chunks[place].text.len() > 0
}

/// The latest words are those of the last chunk of the selected tab that has its words.
pub proof fn law_latest_words_are_copied(recorder: RecorderModel, place: int, legacy: bool)
    ensures
        has_words(recorder.state, place) && (forall|j: int|
            place < j ==> !(#[trigger] has_words(recorder.state, j))) ==> copies(
            recorder,
            Action::CopyLatest,
            recorder.state.chunks[place].text,
            legacy,
        ),
        (forall|j: int| !(#[trigger] has_words(recorder.state, j))) ==> begun(
            recorder,
            Action::CopyLatest,
            legacy,
        ) == (recorder, StepModel::Failed(Error::NoCompletedChunk)),
{
    let chunks = recorder.state.chunks;
    let asked = completed_in(recorder.state.selected_tab);
    lemma_last_match(chunks, asked);
    assert forall|j: int| 0 <= j < chunks.len() implies asked(#[trigger] chunks[j]) == has_words(
        recorder.state,
        j,
    ) by {}
    if has_words(recorder.state, place) && (forall|j: int|
        place < j ==> !(#[trigger] has_words(recorder.state, j))) {
        assert forall|j: int| place < j < chunks.len() implies !asked(#[trigger] chunks[j]) by {
            assert(!has_words(recorder.state, j));
        }
        lemma_is_last(chunks, asked, place);
    }
}

/// Whether the chunk at a place is one to be transcribed again: a failed one with none failed
/// before it, or where none failed the last one that is ready.
pub open spec fn to_be_retried(chunks: Seq<Chunk<Seq<char>>>, place: int) -> bool {
    &&& 0 <= place < chunks.len()
    &&& if exists|j: int|
        0 <= j < chunks.len() && (#[trigger] chunks[j]).status == ChunkStatus::Failed {
        chunks[place].status == ChunkStatus::Failed && forall|j: int|
            0 <= j < place ==> (#[trigger] chunks[j]).status != ChunkStatus::Failed
    } else {
        chunks[place].status == ChunkStatus::Ready && forall|j: int|
            place < j < chunks.len() ==> (#[trigger] chunks[j]).status != ChunkStatus::Ready
    }
}

/// The first chunk that failed is transcribed again, and where none failed the last one that is
/// ready. It keeps its recording and its words, and waits without an error; no other chunk changes.
pub proof fn law_failed_chunk_is_retried(recorder: RecorderModel, place: int, legacy: bool)
    requires
        to_be_retried(recorder.state.chunks, place),
    ensures
        ({
            let (after, step) = begun(recorder, Action::Retry, legacy);
            &&& same_but_state(recorder, after)
            &&& alike_but_chunks(recorder.state, after.state)
            &&& others_kept(recorder.state.chunks, after.state.chunks, place)
            &&& after.state.chunks[place] == Chunk {
                status: ChunkStatus::Queued,
                error: None,
                ..recorder.state.chunks[place]
            }
            &&& step matches Step::Perform(effect, wait) && effect is Save && wait is Saved
        }),
{
    let chunks = recorder.state.chunks;
    lemma_first_match(chunks, with_status(ChunkStatus::Failed));
    lemma_last_match(chunks, with_status(ChunkStatus::Ready));
    if chunks[place].status == ChunkStatus::Failed {
        lemma_is_first(chunks, with_status(ChunkStatus::Failed), place);
    } else {
        lemma_no_first(chunks, with_status(ChunkStatus::Failed));
        lemma_is_last(chunks, with_status(ChunkStatus::Ready), place);
    }
}

/// Where no chunk failed or is ready, a recording from before there were chunks is queued as a new
/// chunk of the selected tab, moved into a directory of its own. Where there is none, nothing is
/// there to be tried again.
pub proof fn law_old_recording_is_retried(
    recorder: RecorderModel,
    nanos: u128,
    process: u32,
    length: Option<u64>,
)
    requires
        recorder.state.chunks.len() <= usize::MAX,
        forall|j: int|
            0 <= j < recorder.state.chunks.len() ==> (#[trigger] recorder.state.chunks[j]).status
                != ChunkStatus::Failed && recorder.state.chunks[j].status != ChunkStatus::Ready,
    ensures
        begun(recorder, Action::Retry, false) == (
            recorder,
            StepModel::Failed(Error::NothingToRetry),
        ),
        begun(recorder, Action::Retry, true).0 == recorder,
        begun(recorder, Action::Retry, true).1 matches Step::Perform(first, stamped) && first
            is Stamp && {
            let (two, second) = resumed(
                recorder,
                stamped,
                Outcome::Stamp { nanos, process },
                true,
            );
            &&& two == recorder
            &&& second matches Step::Perform(Effect::MakeTree { path: tree }, made) && {
                let (three, third) = resumed(two, made, Outcome::Done, true);
                let chunk = three.state.chunks.last();
                &&& three.state.chunks == recorder.state.chunks.push(chunk)
                &&& alike_but_chunks(recorder.state, three.state)
                &&& chunk.tab_id == recorder.state.selected_tab
                &&& chunk.status == ChunkStatus::Queued
                &&& chunk.text.len() == 0
                &&& tree == files_of(recorder.config.directory, chunk.id)
                &&& third matches Step::Perform(Effect::MoveFile { from, to }, moved) && {
                    let (four, fourth) = resumed(three, moved, Outcome::Done, true);
                    &&& from == path_join(recorder.config.directory, "recording.wav"@)
                    &&& to == path_join(tree, "recording.wav"@)
                    &&& four == three
                    &&& fourth matches Step::Perform(Effect::Measure { path }, measured) && {
                        let (five, fifth) = resumed(four, measured, Outcome::Length(length), true);
                        let last = five.state.chunks.last();
                        &&& path == to
                        &&& others_kept(
                            four.state.chunks,
                            five.state.chunks,
                            recorder.state.chunks.len() as int,
                        )
                        &&& last == Chunk {
                            seconds: match length {
                                Some(seconds) => seconds,
                                None => 0,
                            },
                            ..chunk
                        }
                        &&& fifth matches Step::Perform(effect, wait) && effect is Save && wait
                            is Saved
                    }
                }
            }
        },
{
    let chunks = recorder.state.chunks;
    lemma_no_first(chunks, with_status(ChunkStatus::Failed));
    lemma_last_match(chunks, with_status(ChunkStatus::Ready));
    let (two, second) = resumed(
        recorder,
        Wait::Stamped { cause: NewChunk::Legacy },
        Outcome::Stamp { nanos, process },
        true,
    );
    let (three, third) = resumed(two, second->Perform_1, Outcome::Done, true);
    assert(three.state.chunks =~= chunks.push(three.state.chunks.last()));
    let (four, fourth) = resumed(three, third->Perform_1, Outcome::Done, true);
    let (five, fifth) = resumed(four, fourth->Perform_1, Outcome::Length(length), true);
    assert(five.state.chunks.last() == five.state.chunks[chunks.len() as int]);
}

/// Whether settings are those that a request asks for, with the variables that were saved.
pub open spec fn as_asked(
    settings: TranscriptionSettingsModel,
    asked: BackendSettings<Seq<char>>,
    environment: Seq<(Seq<char>, Seq<char>)>,
) -> bool {
    &&& settings.provider == asked.provider
    &&& settings.acceleration == asked.acceleration
    &&& settings.binary == Some(asked.binary)
    &&& settings.model == Some(asked.model)
    &&& settings.openai_model == trimmed(asked.openai_model)
    &&& settings.environment == environment
}

/// Whether every variable is one for the transcriber's backends.
pub open spec fn backends_only(environment: Seq<(Seq<char>, Seq<char>)>) -> bool {
    forall|i: int|
        0 <= i < environment.len() ==> {
            ||| "GGML_"@.is_prefix_of((#[trigger] environment[i]).0)
            ||| "VK_"@.is_prefix_of(environment[i].0)
            ||| "MESA_"@.is_prefix_of(environment[i].0)
        }
}

/// The variables that saved settings hold.
pub open spec fn variables_in(
    stored: Stored<TranscriptionSettingsModel, Seq<char>>,
) -> Seq<(Seq<char>, Seq<char>)> {
    match stored {
        Stored::Parsed(settings) => settings.environment,
        _ => Seq::empty(),
    }
}

/// Settings that are asked for are saved field by field, each in its own place, with the variables
/// that were saved before. A key that comes with them is saved first, in its own file, without
/// white space around it; then they are saved all the same.
pub proof fn law_asked_settings_are_saved(
    recorder: RecorderModel,
    asked: BackendSettings<Seq<char>>,
    key: Seq<char>,
    stored: Stored<TranscriptionSettingsModel, Seq<char>>,
    legacy: bool,
)
    requires
        stored is Missing || stored is Parsed,
        trimmed(asked.openai_model).len() > 0,
        backends_only(variables_in(stored)),
        forall|i: int|
            0 <= i < trimmed(key).len() ==> !crate::text::control(#[trigger] trimmed(key)[i]),
    ensures
        ({
            let (begin, first) = begun(
                recorder,
                Action::ConfigureBackend { settings: asked, api_key: None },
                legacy,
            );
            &&& begin == recorder
            &&& first matches Step::Perform(effect, loaded) && effect is LoadSettings && {
                let (two, second) = resumed(recorder, loaded, Outcome::Settings(stored), legacy);
                &&& two == recorder
                &&& second matches Step::Perform(Effect::SaveSettings { path, settings }, wait)
                    && path == path_join(recorder.config.directory, "transcription.json"@)
                    && as_asked(settings, asked, variables_in(stored)) && wait is SettingsSaved
            }
        }),
        ({
            let (begin, first) = begun(
                recorder,
                Action::ConfigureBackend { settings: asked, api_key: Some(key) },
                legacy,
            );
            &&& begin == recorder
            &&& first matches Step::Perform(effect, loaded) && effect is LoadSettings && {
                let (two, second) = resumed(recorder, loaded, Outcome::Settings(stored), legacy);
                &&& two == recorder
                &&& second matches Step::Perform(
                    Effect::SaveApiKey { path: secrets, key: saved },
                    kept,
                ) && secrets == path_join(recorder.config.directory, "secrets.json"@) && saved
                    == trimmed(key) && {
                    let (three, third) = resumed(recorder, kept, Outcome::Done, legacy);
                    &&& three == recorder
                    &&& third matches Step::Perform(Effect::SaveSettings { path, settings }, wait)
                        && path == path_join(recorder.config.directory, "transcription.json"@)
                        && as_asked(settings, asked, variables_in(stored)) && wait is SettingsSaved
                }
            }
        }),
        resumed(recorder, Wait::SettingsSaved, Outcome::Done, legacy) == (
            recorder,
            StepModel::Perform(Effect::Reload, Wait::Reloaded),
        ),
{
    crate::text::lemma_trimmed_twice(asked.openai_model);
    let environment = variables_in(stored);
    assert forall|i: int| 0 <= i < environment.len() implies crate::config::backend_variable(
        #[trigger] environment[i].0,
    ) by {}
}

/// Settings that were asked for and saved are in force and shown after they are read again, where
/// the environment names no path of its own. The microphone, the directory and all that was
/// recorded stay.
pub proof fn law_asked_settings_are_in_force(
    recorder: RecorderModel,
    asked: BackendSettings<Seq<char>>,
    stored: Stored<TranscriptionSettingsModel, Seq<char>>,
    around: Surroundings<Seq<char>>,
    known: Prerequisites<Seq<char>>,
    legacy: bool,
)
    requires
        stored is Missing || stored is Parsed,
        trimmed(asked.openai_model).len() > 0,
        backends_only(variables_in(stored)),
        around.home is Some,
        around.binary is None,
        around.model is None,
    ensures
        ({
            let loaded = resumed(
                recorder,
                Wait::SettingsLoaded { edited: asked, api_key: None },
                Outcome::Settings(stored),
                legacy,
            ).1;
            &&& loaded matches Step::Perform(Effect::SaveSettings { settings, .. }, _) && {
                let (after, step) = resumed(
                    recorder,
                    Wait::Reloaded,
                    Outcome::Reloaded { around, settings: Stored::Parsed(settings), known },
                    legacy,
                );
                let backend = after.state.backend;
                &&& backend.provider == asked.provider
                &&& backend.acceleration == asked.acceleration
                &&& backend.binary == asked.binary
                &&& backend.model == asked.model
                &&& backend.openai_model == trimmed(asked.openai_model)
                &&& after.config.provider == asked.provider
                &&& after.config.acceleration == asked.acceleration
                &&& after.config.binary == asked.binary
                &&& after.config.model == asked.model
                &&& after.config.openai_model == trimmed(asked.openai_model)
                &&& after.config.whisper_environment == variables_in(stored)
                &&& after.config.device == recorder.config.device
                &&& after.config.directory == recorder.config.directory
                &&& after.pending == recorder.pending
                &&& after.capturing == recorder.capturing
                &&& alike(StateModel { backend, ..recorder.state }, after.state)
                &&& after.state.message == "Settings saved. Applies to the next transcription."@
                &&& step matches Step::Perform(effect, wait) && effect is Save && wait is Saved
            }
        }),
{
    crate::text::lemma_trimmed_twice(asked.openai_model);
    let environment = variables_in(stored);
    assert forall|i: int| 0 <= i < environment.len() implies crate::config::backend_variable(
        #[trigger] environment[i].0,
    ) by {}
}

/// What is shown of the settings in force is what they are, and a key counts as there exactly where
/// one with something in it is saved or, without a saved one, in the environment.
pub proof fn law_settings_in_force_are_shown(
    recorder: RecorderModel,
    around: Surroundings<Seq<char>>,
    settings: Stored<TranscriptionSettingsModel, Seq<char>>,
    known: Prerequisites<Seq<char>>,
    legacy: bool,
)
    ensures
        ({
            let (after, step) = resumed(
                recorder,
                Wait::Reloaded,
                Outcome::Reloaded { around, settings, known },
                legacy,
            );
            if around.home is None || settings is Malformed || settings is Unreadable {
                step is Failed && after == recorder
            } else {
                let backend = after.state.backend;
                let named = known.environment_key matches Some(key) && trimmed(key).len() > 0;
                &&& step is Perform
                &&& backend.provider == after.config.provider
                &&& backend.acceleration == after.config.acceleration
                &&& backend.binary == after.config.binary
                &&& backend.model == after.config.model
                &&& backend.openai_model == after.config.openai_model
                &&& backend.api_key_configured == match known.stored_key {
                    Stored::Missing => named,
                    Stored::Parsed(saved) => trimmed(saved).len() > 0 || named,
                    _ => false,
                }
            }
        }),
{
}

/// Settings are refused, and nothing is saved, without the name of a model, with a key that holds a
/// control character, with a variable that is none for the transcriber's backends, and where the
/// saved ones cannot be read.
pub proof fn law_bad_settings_are_refused(
    recorder: RecorderModel,
    asked: BackendSettings<Seq<char>>,
    api_key: Option<Seq<char>>,
    stored: Stored<TranscriptionSettingsModel, Seq<char>>,
    place: int,
    legacy: bool,
)
    ensures
        ({
            let (after, step) = resumed(
                recorder,
                Wait::SettingsLoaded { edited: asked, api_key },
                Outcome::Settings(stored),
                legacy,
            );
            &&& after == recorder
            &&& stored matches Stored::Malformed(words) ==> step == StepModel::Failed(
                Error::MalformedSettings(words),
            )
            &&& stored matches Stored::Unreadable(words) ==> step == StepModel::Failed(
                Error::UnreadableSettings(words),
            )
            &&& stored is Missing || stored is Parsed ==> {
                &&& trimmed(asked.openai_model).len() == 0 ==> step == StepModel::Failed(
                    Error::EmptyModel,
                )
                &&& trimmed(asked.openai_model).len() > 0 && (api_key matches Some(key) && 0
                    <= place < trimmed(key).len() && crate::text::control(trimmed(key)[place]))
                    ==> step == StepModel::Failed(Error::InvalidApiKey)
                &&& trimmed(asked.openai_model).len() > 0 && api_key is None && !backends_only(
                    variables_in(stored),
                ) ==> step == StepModel::Failed(Error::UnsupportedEnvironment)
            }
        }),
{
    crate::text::lemma_trimmed_twice(asked.openai_model);
    let environment = variables_in(stored);
    if !backends_only(environment) {
        let i = choose|i: int|
            0 <= i < environment.len() && !crate::config::backend_variable(
                #[trigger] environment[i].0,
            );
        assert(stored is Parsed);
        let edited = crate::service::edited_settings(stored->Parsed_0, asked);
        assert(!crate::config::backend_variable(edited.environment[i].0));
        assert(crate::config::settings_refusal(edited) is Some);
    }
    if api_key is Some && 0 <= place < trimmed(api_key->0).len() && crate::text::control(
        trimmed(api_key->0)[place],
    ) {
        assert(crate::config::has_control(trimmed(api_key->0)));
    }
}

/// The microphones that there are, are shown, and nothing else changes.
pub proof fn law_microphones_are_listed(
    recorder: RecorderModel,
    names: Seq<Seq<char>>,
    legacy: bool,
)
    ensures
        begun(recorder, Action::Devices, legacy).0 == recorder,
        begun(recorder, Action::Devices, legacy).1 matches Step::Perform(effect, wait) && effect
            is ListDevices && resumed(recorder, wait, Outcome::Devices(names), legacy) == (
            RecorderModel {
                state: StateModel { devices: names, ..recorder.state },
                ..recorder
            },
            StepModel::Done,
        ),
        begun(recorder, Action::Status, legacy) == (recorder, StepModel::Done),
{
}

/// What is recorded for a chunk is what is looked at when it is transcribed.
pub proof fn law_recorded_file_is_transcribed(
    recorder: RecorderModel,
    later: RecorderModel,
    id: Seq<char>,
    place: usize,
    legacy: bool,
)
    requires
        later.config.directory == recorder.config.directory,
        place < later.state.chunks.len(),
        later.state.chunks[place as int].id == id,
    ensures
        resumed(
            recorder,
            Wait::TreeMade { cause: NewChunk::Recording, id },
            Outcome::Done,
            legacy,
        ).1 matches Step::Perform(Effect::StartCapture { path, .. }, _) && (resumed(
            later,
            Wait::LaunchSaved { index: place },
            Outcome::Done,
            legacy,
        ).1 matches Step::Perform(Effect::Launch { tree }, _) && crate::transcribe::begun(tree)
            == crate::transcribe::ProgressModel::Perform(
            crate::transcribe::Work::Inspect { recording: path },
            crate::transcribe::Stage::Inspecting,
        )),
{
}

/// A digit is no hyphen, and digits tell numbers apart.
proof fn lemma_digits(a: nat, b: nat)
    ensures
        forall|i: int|
            0 <= i < decimal_digits(a).len() ==> (#[trigger] decimal_digits(a)[i]) != '-',
        decimal_digits(a) == decimal_digits(b) ==> a == b,
    decreases a + b,
{
    if a >= 10 {
        lemma_digits(a / 10, b / 10);
        let head = decimal_digits(a / 10);
        assert forall|i: int| 0 <= i < decimal_digits(a).len() implies (
        #[trigger] decimal_digits(a)[i]) != '-' by {
            if i < head.len() {
                assert(decimal_digits(a)[i] == head[i]);
            }
        }
        if decimal_digits(a) == decimal_digits(b) {
            assert(head.len() > 0);
            if b >= 10 {
                assert(decimal_digits(a).drop_last() =~= head);
                assert(decimal_digits(b).drop_last() =~= decimal_digits(b / 10));
                assert(decimal_digits(a).last() == digit(a % 10));
                assert(decimal_digits(b).last() == digit(b % 10));
            } else {
                assert(decimal_digits(b).len() == 1);
                assert(decimal_digits(a).len() == head.len() + 1);
            }
        }
    } else if b >= 10 {
        lemma_some_digit(b / 10);
        assert(decimal_digits(b).len() > 1);
    } else {
        assert(decimal_digits(a)[0] == digit(a));
        assert(decimal_digits(b)[0] == digit(b));
    }
}

proof fn lemma_some_digit(n: nat)
    ensures
        decimal_digits(n).len() > 0,
{
}

/// Chunks that are made at different times or by different processes have different directories,
/// and so do not take each other's recordings.
pub proof fn law_chunks_do_not_share_directories(
    recorder: RecorderModel,
    one: (u128, u32),
    other: (u128, u32),
    cause: NewChunk,
    legacy: bool,
)
    requires
        one != other,
    ensures
        resumed(
            recorder,
            Wait::Stamped { cause },
            Outcome::Stamp { nanos: one.0, process: one.1 },
            legacy,
        ).1 matches Step::Perform(Effect::MakeTree { path: first }, _) && (resumed(
            recorder,
            Wait::Stamped { cause },
            Outcome::Stamp { nanos: other.0, process: other.1 },
            legacy,
        ).1 matches Step::Perform(Effect::MakeTree { path: second }, _) && first != second),
{
    let a = decimal_digits(one.0 as nat);
    let b = decimal_digits(one.1 as nat);
    let c = decimal_digits(other.0 as nat);
    let d = decimal_digits(other.1 as nat);
    reveal_strlit("-");
    lemma_digits(one.0 as nat, other.0 as nat);
    lemma_digits(one.1 as nat, other.1 as nat);
    lemma_digits(other.0 as nat, one.0 as nat);
    lemma_digits(other.1 as nat, one.1 as nat);
    lemma_some_digit(one.0 as nat);
    lemma_some_digit(other.0 as nat);
    let first = a + "-"@ + b;
    let second = c + "-"@ + d;
    assert(first[a.len() as int] == '-');
    assert(second[c.len() as int] == '-');
    if first == second {
        if a.len() < c.len() {
            assert(second[a.len() as int] == c[a.len() as int]);
        } else if c.len() < a.len() {
            assert(first[c.len() as int] == a[c.len() as int]);
        }
        assert(a =~= first.take(a.len() as int));
        assert(c =~= second.take(c.len() as int));
        assert(b =~= first.skip((a.len() + 1) as int));
        assert(d =~= second.skip((c.len() + 1) as int));
    }
    assert(first != second);
    let base = path_join(recorder.config.directory, "chunks"@);
    lemma_number_is_relative(one.0 as nat);
    lemma_number_is_relative(other.0 as nat);
    assert(first[0] == a[0]);
    assert(second[0] == c[0]);
    let start = if base.len() == 0 || base.last() == '/' {
        base
    } else {
        base.push('/')
    };
    assert(path_join(base, first) == start + first);
    assert(path_join(base, second) == start + second);
    assert((start + first).skip(start.len() as int) =~= first);
    assert((start + second).skip(start.len() as int) =~= second);
}

proof fn lemma_number_is_relative(n: nat)
    ensures
        decimal_digits(n).len() > 0,
        decimal_digits(n)[0] != '/',
    decreases n,
{
    if n >= 10 {
        lemma_number_is_relative(n / 10);
        assert(decimal_digits(n)[0] == decimal_digits(n / 10)[0]);
    }
}

/// Tabs that are made at different times have different ids, so no chunk is in two of them.
pub proof fn law_tabs_do_not_share_ids(
    recorder: RecorderModel,
    name: Seq<char>,
    one: u128,
    other: u128,
    process: u32,
    legacy: bool,
)
    requires
        one != other,
    ensures
        resumed(
            recorder,
            Wait::TabStamped { name },
            Outcome::Stamp { nanos: one, process },
            legacy,
        ).0.state.selected_tab != resumed(
            recorder,
            Wait::TabStamped { name },
            Outcome::Stamp { nanos: other, process },
            legacy,
        ).0.state.selected_tab,
{
    lemma_digits(one as nat, other as nat);
    let a = decimal_digits(one as nat);
    let b = decimal_digits(other as nat);
    let n = "tab-"@.len() as int;
    assert(("tab-"@ + a).skip(n) =~= a);
    assert(("tab-"@ + b).skip(n) =~= b);
}

/// What goes wrong outside is told in full, and leaves the recorder as it is, wherever it goes wrong
/// but in the start or the end of a recording and in what is done without being asked for.
#[verifier::rlimit(60)]
pub proof fn law_outside_failures_are_told(
    recorder: RecorderModel,
    wait: WaitModel,
    plain: Seq<char>,
    whole: Seq<char>,
    legacy: bool,
)
    requires
        fits(wait, Outcome::Failed { plain, whole }),
        !(wait is CaptureStarted),
        !(wait is CaptureStopped),
        !(wait is AutoCopied),
        !(wait is Interrupted),
    ensures
        resumed(recorder, wait, Outcome::Failed { plain, whole }, legacy) == (
            recorder,
            StepModel::Failed(Error::Outside(whole)),
        ),
{
}

/// What is said tells of the chunk by its number, as users count.
pub proof fn law_chunks_are_told_by_number(
    recorder: RecorderModel,
    index: usize,
    name: Seq<char>,
    length: Option<u64>,
    words: Seq<char>,
    legacy: bool,
)
    requires
        index < recorder.state.chunks.len(),
    ensures
        resumed(
            recorder,
            Wait::CaptureStarted { index },
            Outcome::Device(name),
            legacy,
        ).0.state.message == "Recording chunk "@ + decimal_digits((index + 1) as nat)
            + ". Transcription continues in the background."@,
        resumed(
            recorder,
            Wait::Measured { index },
            Outcome::Length(length),
            legacy,
        ).0.state.message == "Chunk "@ + decimal_digits((index + 1) as nat)
            + " queued. Press Space to record the next one."@,
        resumed(
            recorder,
            Wait::LegacyMeasured { index },
            Outcome::Length(length),
            legacy,
        ).0.state.message == "Saved audio queued for transcription."@,
        recorder.pending == Some(index) && recorder.state.chunks[index as int].status
            != ChunkStatus::Canceled ==> {
            let good = resumed(
                recorder,
                Wait::Polled,
                Outcome::Worker(Some(Ok(words))),
                legacy,
            ).0.state.message;
            let bad = resumed(
                recorder,
                Wait::Polled,
                Outcome::Worker(Some(Err(words))),
                legacy,
            ).0.state.message;
            &&& good == "Chunk "@ + decimal_digits((index + 1) as nat)
                + " transcribed. Keep going whenever you're ready."@
            &&& bad == "Chunk "@ + decimal_digits((index + 1) as nat) + " failed: "@ + words
                + ". Audio retained."@
        },
{
}

/// While no answer has come, the transcription that runs goes on, and nothing changes.
pub proof fn law_no_answer_changes_nothing(recorder: RecorderModel, legacy: bool)
    requires
        recorder.pending is Some,
    ensures
        resumed(recorder, Wait::Polled, Outcome::Worker(None), legacy) == (
            recorder,
            StepModel::Done,
        ),
{
}

/// A chunk that was called off stays so when an answer comes, and the next one may be transcribed.
pub proof fn law_called_off_chunk_stays_so(
    recorder: RecorderModel,
    answer: Result<Seq<char>, Seq<char>>,
    legacy: bool,
)
    requires
        recorder.pending is Some,
        recorder.pending->0 < recorder.state.chunks.len(),
        recorder.state.chunks[recorder.pending->0 as int].status == ChunkStatus::Canceled,
    ensures
        ({
            let (after, step) = resumed(
                recorder,
                Wait::Polled,
                Outcome::Worker(Some(answer)),
                legacy,
            );
            &&& after.pending is None
            &&& alike(recorder.state, after.state)
            &&& after.state.message == recorder.state.message
            &&& after.config == recorder.config
            &&& after.capturing == recorder.capturing
            &&& step matches Step::Perform(effect, wait) && effect is Save && wait is Saved
        }),
{
}

} // verus!
