//! The recorder: what it does with a request, with a tick of the clock, and with what came of the
//! things it had done outside.
//!
//! A request is begun; while it asks for something to be performed, it is resumed with what came
//! of it, until it is done or has failed. Meanwhile nothing else happens to the recorder.
use crate::config;
use crate::config::{
    key_in_force, loaded_settings, model_refusal, reconfiguration, settings_refusal, Config,
    ConfigModel, Prerequisites, Stored, Surroundings, TranscriptionSettings,
    TranscriptionSettingsModel,
};
use crate::error::Error;
use crate::export;
use crate::export::{export_refusal, file_contents};
use crate::model::{shown_backend, Action, BackendSettings, Chunk, ChunkStatus, State, StateModel};
use crate::paths;
use crate::paths::path_join;
use crate::protocol::{
    fits, Effect, NewChunk, Outcome, OutcomeModel, Step, StepModel, Wait, WaitModel,
};
use crate::search::{first_match, last_match};
use crate::session;
use crate::session::{
    awaited_count, canceled_chunks, chunk_added, chunk_failed, chunk_filled, chunk_put,
    chunk_requeued, chunk_with_id, completed_in, exported_text, in_tab, rebuilt, refreshed,
    retry_place, tab_closed, tab_created, tab_emptied, tab_renamed, tab_reopened, tab_selected,
    tab_with_id, valid_tab_name, with_status,
};
use crate::text;
use crate::text::{decimal_digits, trimmed};
use vstd::prelude::*;

verus! {

/// The recorder. `capturing` says whether a recording runs, `pending` which chunk is being
/// transcribed, and `auto_copy` whether a finished transcript goes to the clipboard by itself.
#[derive(Debug)]
pub struct Recorder {
    pub config: Config,
    pub state: State,
    pub capturing: bool,
    pub pending: Option<usize>,
    pub auto_copy: bool,
}

/// A recorder as contracts see it.
#[verifier::ext_equal]
pub struct RecorderModel {
    pub config: ConfigModel,
    pub state: StateModel,
    pub capturing: bool,
    pub pending: Option<usize>,
    pub auto_copy: bool,
}

impl DeepView for Recorder {
    type V = RecorderModel;

    open spec fn deep_view(&self) -> RecorderModel {
        RecorderModel {
            config: self.config.deep_view(),
            state: self.state.deep_view(),
            capturing: self.capturing,
            pending: self.pending,
            auto_copy: self.auto_copy,
        }
    }
}

/// What a running recording says of itself: how long it runs, its peak, and what broke it.
#[derive(Debug)]
pub struct Reading<S = String> {
    pub seconds: u64,
    pub level: u32,
    pub error: Option<S>,
}

impl DeepView for Reading {
    type V = Reading<Seq<char>>;

    open spec fn deep_view(&self) -> Reading<Seq<char>> {
        Reading { seconds: self.seconds, level: self.level, error: self.error.deep_view() }
    }
}

/// The directory of a chunk.
pub open spec fn chunk_tree(directory: Seq<char>, id: Seq<char>) -> Seq<char> {
    path_join(path_join(directory, "chunks"@), id)
}

/// The recording of a chunk.
pub open spec fn chunk_audio(directory: Seq<char>, id: Seq<char>) -> Seq<char> {
    path_join(chunk_tree(directory, id), "recording.wav"@)
}

/// The directory of a chunk, as a mapping.
pub open spec fn tree_in(directory: Seq<char>) -> spec_fn(Chunk<Seq<char>>) -> Seq<char> {
    |chunk: Chunk<Seq<char>>| chunk_tree(directory, chunk.id)
}

/// The id of a chunk made at a time by a process.
pub open spec fn chunk_id(nanos: u128, process: u32) -> Seq<char> {
    decimal_digits(nanos as nat) + "-"@ + decimal_digits(process as nat)
}

/// The id of a tab made at a time.
pub open spec fn tab_id(nanos: u128) -> Seq<char> {
    "tab-"@ + decimal_digits(nanos as nat)
}

/// The number of the chunk at a place, as users count.
pub open spec fn ordinal(index: int) -> Seq<char> {
    decimal_digits((index + 1) as nat)
}

/// The recorder with another message.
pub open spec fn saying(recorder: RecorderModel, message: Seq<char>) -> RecorderModel {
    RecorderModel { state: StateModel { message, ..recorder.state }, ..recorder }
}

/// The recorder with another state.
pub open spec fn with_state(recorder: RecorderModel, state: StateModel) -> RecorderModel {
    RecorderModel { state, ..recorder }
}

/// The recorder with what it shows brought up to date.
pub open spec fn shown(recorder: RecorderModel, legacy: bool) -> RecorderModel {
    with_state(
        recorder,
        refreshed(recorder.state, recorder.capturing, recorder.pending is Some, legacy),
    )
}

/// A request that succeeded so far: the state is brought up to date and saved.
pub open spec fn finishing(recorder: RecorderModel, legacy: bool) -> (RecorderModel, StepModel) {
    (shown(recorder, legacy), Step::Perform(Effect::Save, Wait::Saved))
}

/// A request that is refused.
pub open spec fn refusing(recorder: RecorderModel, error: Error<Seq<char>>) -> (
    RecorderModel,
    StepModel,
) {
    (recorder, Step::Failed(error))
}

/// The next transcription, where none runs: of the first chunk that is queued.
pub open spec fn next_started(recorder: RecorderModel, legacy: bool) -> (
    RecorderModel,
    StepModel,
) {
    if recorder.pending is Some {
        (recorder, Step::Done)
    } else {
        match first_match(recorder.state.chunks, with_status(ChunkStatus::Queued)) {
            None => (shown(recorder, legacy), Step::Done),
            Some(i) => {
                let started = RecorderModel {
                    state: chunk_put(
                        recorder.state,
                        i,
                        Chunk { status: ChunkStatus::Transcribing, ..recorder.state.chunks[i] },
                    ),
                    pending: Some(i as usize),
                    ..recorder
                };
                (
                    shown(started, legacy),
                    Step::Perform(Effect::Save, Wait::LaunchSaved { index: i as usize }),
                )
            },
        }
    }
}

/// A text on its way to the clipboard.
pub open spec fn copying(recorder: RecorderModel, text: Seq<char>) -> (RecorderModel, StepModel) {
    if text.len() == 0 {
        refusing(recorder, Error::NothingToCopy)
    } else {
        (recorder, Step::Perform(Effect::Copy { text }, Wait::Copied))
    }
}

/// A recording that is asked for.
pub open spec fn starting(recorder: RecorderModel) -> (RecorderModel, StepModel) {
    if recorder.capturing {
        refusing(recorder, Error::AlreadyRecording)
    } else if recorder.state.selected_tab.len() == 0 {
        refusing(recorder, Error::NoTabToRecord)
    } else {
        (recorder, Step::Perform(Effect::Inspect, Wait::Inspected))
    }
}

/// A recording that is to end.
pub open spec fn stopping(recorder: RecorderModel) -> (RecorderModel, StepModel) {
    if !recorder.capturing {
        refusing(recorder, Error::NotRecording)
    } else {
        let stopped = RecorderModel { capturing: false, ..recorder };
        match first_match(recorder.state.chunks, with_status(ChunkStatus::Recording)) {
            None => refusing(stopped, Error::RecordingMetadataMissing),
            Some(i) => (
                stopped,
                Step::Perform(Effect::StopCapture, Wait::CaptureStopped { index: i as usize }),
            ),
        }
    }
}

/// The recorder with a microphone chosen, or the system's.
pub open spec fn device_selected(recorder: RecorderModel, device: Option<Seq<char>>) -> RecorderModel {
    let name = match device {
        Some(name) => name,
        None => "System default microphone"@,
    };
    RecorderModel {
        config: ConfigModel { device, ..recorder.config },
        state: StateModel {
            selected_device: device,
            device: name,
            message: "Microphone selected: "@ + name,
            ..recorder.state
        },
        ..recorder
    }
}

/// What is said after everything that waits was called off.
pub open spec fn cancel_message(count: nat) -> Seq<char> {
    if count == 0 {
        "No queued transcription to cancel."@
    } else {
        "Canceled "@ + decimal_digits(count) + " chunks. Transcript and audio retained."@
    }
}

/// Whether anything runs or waits.
pub open spec fn occupied(recorder: RecorderModel) -> bool {
    recorder.capturing || recorder.pending is Some || recorder.state.queue_depth > 0
}

/// The files next to the chunks that a clearing removes.
pub open spec fn loose_files(directory: Seq<char>) -> Seq<Seq<char>> {
    seq![
        path_join(directory, "capture.wav"@),
        path_join(directory, "recording.wav"@),
        path_join(directory, "whisper.wav"@),
        path_join(directory, "whisper-output.txt"@),
    ]
}

/// A tab that is to be cleared.
pub open spec fn clearing(recorder: RecorderModel) -> (RecorderModel, StepModel) {
    if recorder.state.selected_tab.len() == 0 {
        refusing(recorder, Error::NoTabToClear)
    } else if occupied(recorder) {
        refusing(recorder, Error::BusyClearing)
    } else {
        (
            recorder,
            Step::Perform(
                Effect::RemoveSaved {
                    trees: recorder.state.chunks.filter(
                        in_tab(recorder.state.selected_tab),
                    ).map_values(tree_in(recorder.config.directory)),
                    files: loose_files(recorder.config.directory),
                },
                Wait::SavedRemoved,
            ),
        )
    }
}

/// A chunk that is to be transcribed again, or else the recording from before.
pub open spec fn retrying(recorder: RecorderModel, legacy: bool) -> (RecorderModel, StepModel) {
    match retry_place(recorder.state.chunks) {
        Some(i) => finishing(
            saying(
                with_state(
                    recorder,
                    chunk_put(recorder.state, i, chunk_requeued(recorder.state.chunks[i])),
                ),
                "Saved audio queued for transcription."@,
            ),
            legacy,
        ),
        None => if legacy {
            (recorder, Step::Perform(Effect::Stamp, Wait::Stamped { cause: NewChunk::Legacy }))
        } else {
            refusing(recorder, Error::NothingToRetry)
        },
    }
}

/// A tab that is to be saved as a file.
pub open spec fn exporting(recorder: RecorderModel, id: Seq<char>, path: Seq<char>) -> (
    RecorderModel,
    StepModel,
) {
    match exported_text(recorder.state, id) {
        None => refusing(recorder, Error::TabGone),
        Some(text) => match export_refusal(path, text) {
            Some(error) => refusing(recorder, error),
            None => (
                recorder,
                Step::Perform(
                    Effect::Export { path, contents: file_contents(text) },
                    Wait::Exported { path },
                ),
            ),
        },
    }
}

/// How a request begins. `legacy` says whether a recording from before there were chunks is
/// there.
pub open spec fn begun(recorder: RecorderModel, action: Action<Seq<char>>, legacy: bool) -> (
    RecorderModel,
    StepModel,
) {
    match action {
        Action::Status => (recorder, Step::Done),
        Action::ConfigureBackend { settings, api_key } => (
            recorder,
            Step::Perform(Effect::LoadSettings, Wait::SettingsLoaded { edited: settings, api_key }),
        ),
        Action::Devices => (recorder, Step::Perform(Effect::ListDevices, Wait::DevicesListed)),
        Action::SelectDevice(device) => if recorder.capturing {
            refusing(recorder, Error::MicrophoneInUse)
        } else {
            match device {
                Some(device) => (
                    recorder,
                    Step::Perform(Effect::ListDevices, Wait::DeviceChosen { device }),
                ),
                None => finishing(device_selected(recorder, None), legacy),
            }
        },
        Action::Toggle => if recorder.capturing {
            stopping(recorder)
        } else {
            starting(recorder)
        },
        Action::Start => starting(recorder),
        Action::Stop => stopping(recorder),
        Action::Retry => retrying(recorder, legacy),
        Action::Cancel => (
            shown(
                with_state(
                    recorder,
                    StateModel {
                        chunks: canceled_chunks(recorder.state.chunks),
                        ..recorder.state
                    },
                ),
                legacy,
            ),
            Step::Perform(
                Effect::Save,
                Wait::CancelSaved { count: awaited_count(recorder.state.chunks) as usize },
            ),
        ),
        Action::Copy => copying(recorder, recorder.state.transcript),
        Action::CopyText(text) => copying(recorder, text),
        Action::CopyChunk(id) => match first_match(recorder.state.chunks, chunk_with_id(id)) {
            Some(i) => copying(recorder, recorder.state.chunks[i].text),
            None => refusing(recorder, Error::ChunkGone),
        },
        Action::CopyLatest => match last_match(
            recorder.state.chunks,
            completed_in(recorder.state.selected_tab),
        ) {
            Some(i) => copying(recorder, recorder.state.chunks[i].text),
            None => refusing(recorder, Error::NoCompletedChunk),
        },
        Action::ExportTab { id, path } => exporting(recorder, id, path),
        Action::CreateTab(name) => if valid_tab_name(name) {
            (recorder, Step::Perform(Effect::Stamp, Wait::TabStamped { name }))
        } else {
            refusing(recorder, Error::InvalidTabName)
        },
        Action::CloseTab(id) => match first_match(recorder.state.tabs, tab_with_id(id)) {
            Some(i) => finishing(with_state(recorder, tab_closed(recorder.state, i)), legacy),
            None => refusing(recorder, Error::TabGone),
        },
        Action::ReopenTab => if recorder.state.closed_tabs.len() > 0 {
            finishing(with_state(recorder, tab_reopened(recorder.state)), legacy)
        } else {
            refusing(recorder, Error::NoClosedTab)
        },
        Action::SelectTab(id) => match tab_selected(recorder.state, id) {
            Some(state) => finishing(with_state(recorder, state), legacy),
            None => refusing(recorder, Error::TabGone),
        },
        Action::RenameTab { id, name } => if !valid_tab_name(name) {
            refusing(recorder, Error::InvalidTabName)
        } else {
            match first_match(recorder.state.tabs, tab_with_id(id)) {
                Some(i) => finishing(
                    with_state(recorder, tab_renamed(recorder.state, i, name)),
                    legacy,
                ),
                None => refusing(recorder, Error::TabGone),
            }
        },
        Action::Clear => clearing(recorder),
        Action::Shutdown => if occupied(recorder) {
            refusing(recorder, Error::BusyShuttingDown)
        } else {
            finishing(recorder, legacy)
        },
    }
}

/// The saved settings with the edited ones in their place.
pub open spec fn edited_settings(
    saved: TranscriptionSettingsModel,
    settings: BackendSettings<Seq<char>>,
) -> TranscriptionSettingsModel {
    TranscriptionSettingsModel {
        provider: settings.provider,
        acceleration: settings.acceleration,
        binary: Some(settings.binary),
        model: Some(settings.model),
        openai_model: trimmed(settings.openai_model),
        ..saved
    }
}

/// Settings on their way to their file.
pub open spec fn saving_settings(
    recorder: RecorderModel,
    settings: TranscriptionSettingsModel,
) -> (RecorderModel, StepModel) {
    match settings_refusal(settings) {
        Some(error) => refusing(recorder, error),
        None => (
            recorder,
            Step::Perform(
                Effect::SaveSettings {
                    path: path_join(recorder.config.directory, "transcription.json"@),
                    settings,
                },
                Wait::SettingsSaved,
            ),
        ),
    }
}

/// The edited settings, once the saved ones are known: the key goes first.
pub open spec fn settings_loaded(
    recorder: RecorderModel,
    settings: BackendSettings<Seq<char>>,
    api_key: Option<Seq<char>>,
    stored: Stored<TranscriptionSettingsModel, Seq<char>>,
) -> (RecorderModel, StepModel) {
    match loaded_settings(stored) {
        Err(error) => refusing(recorder, error),
        Ok(saved) => {
            let edited = edited_settings(saved, settings);
            if edited.openai_model.len() == 0 {
                refusing(recorder, Error::EmptyModel)
            } else {
                match api_key {
                    Some(key) => if config::has_control(trimmed(key)) {
                        refusing(recorder, Error::InvalidApiKey)
                    } else {
                        (
                            recorder,
                            Step::Perform(
                                Effect::SaveApiKey {
                                    path: path_join(
                                        recorder.config.directory,
                                        "secrets.json"@,
                                    ),
                                    key: trimmed(key),
                                },
                                Wait::KeySaved { settings: edited },
                            ),
                        )
                    },
                    None => saving_settings(recorder, edited),
                }
            }
        },
    }
}

/// The recorder with the settings that were saved in force.
pub open spec fn reloaded(
    recorder: RecorderModel,
    around: Surroundings<Seq<char>>,
    settings: Stored<TranscriptionSettingsModel, Seq<char>>,
    known: Prerequisites<Seq<char>>,
    legacy: bool,
) -> (RecorderModel, StepModel) {
    match reconfiguration(recorder.config, around, settings) {
        Err(error) => refusing(recorder, error),
        Ok(config) => finishing(
            RecorderModel {
                config,
                state: StateModel {
                    backend: shown_backend(
                        config,
                        key_in_force(known.stored_key, known.environment_key) is Ok,
                    ),
                    message: "Settings saved. Applies to the next transcription."@,
                    ..recorder.state
                },
                ..recorder
            },
            legacy,
        ),
    }
}

/// A chunk whose directory is made: the recording starts, or the one from before moves in.
pub open spec fn tree_made(recorder: RecorderModel, cause: NewChunk, id: Seq<char>) -> (
    RecorderModel,
    StepModel,
) {
    let index = recorder.state.chunks.len() as usize;
    let directory = recorder.config.directory;
    match cause {
        NewChunk::Recording => (
            with_state(recorder, chunk_added(recorder.state, id, ChunkStatus::Recording)),
            Step::Perform(
                Effect::StartCapture {
                    path: chunk_audio(directory, id),
                    device: recorder.config.device,
                },
                Wait::CaptureStarted { index },
            ),
        ),
        NewChunk::Legacy => (
            with_state(recorder, chunk_added(recorder.state, id, ChunkStatus::Queued)),
            Step::Perform(
                Effect::MoveFile {
                    from: path_join(directory, "recording.wav"@),
                    to: chunk_audio(directory, id),
                },
                Wait::FileMoved { index },
            ),
        ),
    }
}

/// The recorder after a recording started, or the removal of its chunk where it did not.
pub open spec fn capture_started(
    recorder: RecorderModel,
    index: usize,
    outcome: OutcomeModel,
    legacy: bool,
) -> (RecorderModel, StepModel) {
    match outcome {
        Outcome::Device(device) => finishing(
            RecorderModel {
                capturing: true,
                state: StateModel {
                    device,
                    seconds: 0,
                    message: "Recording chunk "@ + ordinal(index as int)
                        + ". Transcription continues in the background."@,
                    ..recorder.state
                },
                ..recorder
            },
            legacy,
        ),
        Outcome::Failed { whole, .. } => (
            recorder,
            Step::Perform(
                Effect::RemoveTree {
                    path: chunk_tree(
                        recorder.config.directory,
                        recorder.state.chunks[index as int].id,
                    ),
                },
                Wait::CaptureUndone { error: whole },
            ),
        ),
        _ => (recorder, Step::Done),
    }
}

/// The recorder after a recording ended. Where that failed, the chunk keeps what failed, and the
/// request is refused with all that led to it.
pub open spec fn capture_stopped(
    recorder: RecorderModel,
    index: usize,
    outcome: OutcomeModel,
    legacy: bool,
) -> (RecorderModel, StepModel) {
    let i = index as int;
    match outcome {
        Outcome::Failed { plain, whole } => (
            shown(
                with_state(
                    recorder,
                    chunk_put(recorder.state, i, chunk_failed(recorder.state.chunks[i], plain)),
                ),
                legacy,
            ),
            Step::Perform(Effect::Save, Wait::StopFailed { error: whole }),
        ),
        _ => (
            recorder,
            Step::Perform(
                Effect::Measure {
                    path: chunk_audio(recorder.config.directory, recorder.state.chunks[i].id),
                },
                Wait::Measured { index },
            ),
        ),
    }
}

/// The recorder with a finished recording queued.
pub open spec fn measured(
    recorder: RecorderModel,
    index: usize,
    length: Option<u64>,
    legacy: bool,
) -> (RecorderModel, StepModel) {
    let i = index as int;
    let seconds = match length {
        Some(seconds) => seconds,
        None => recorder.state.seconds,
    };
    finishing(
        saying(
            with_state(
                recorder,
                chunk_put(
                    recorder.state,
                    i,
                    Chunk { seconds, status: ChunkStatus::Queued, ..recorder.state.chunks[i] },
                ),
            ),
            "Chunk "@ + ordinal(i) + " queued. Press Space to record the next one."@,
        ),
        legacy,
    )
}

/// The recorder with the recording from before queued.
pub open spec fn legacy_measured(
    recorder: RecorderModel,
    index: usize,
    length: Option<u64>,
    legacy: bool,
) -> (RecorderModel, StepModel) {
    let i = index as int;
    let seconds = match length {
        Some(seconds) => seconds,
        None => 0,
    };
    finishing(
        saying(
            with_state(
                recorder,
                chunk_put(recorder.state, i, Chunk { seconds, ..recorder.state.chunks[i] }),
            ),
            "Saved audio queued for transcription."@,
        ),
        legacy,
    )
}

/// The recorder with the selected tab cleared.
pub open spec fn cleared(recorder: RecorderModel, legacy: bool) -> (RecorderModel, StepModel) {
    finishing(
        with_state(
            recorder,
            StateModel {
                transcript: Seq::empty(),
                prior_transcript: Seq::empty(),
                seconds: 0,
                message: "Cleared. A fresh start."@,
                ..recorder.state
            },
        ),
        legacy,
    )
}

/// The recorder after the recording that ran was broken off.
pub open spec fn interrupted(recorder: RecorderModel, message: Seq<char>) -> RecorderModel {
    let state = match first_match(recorder.state.chunks, with_status(ChunkStatus::Recording)) {
        Some(i) => chunk_put(recorder.state, i, chunk_failed(recorder.state.chunks[i], message)),
        None => recorder.state,
    };
    saying(with_state(recorder, state), message)
}

/// The look at the transcription that runs, or the start of the next one.
pub open spec fn polling(recorder: RecorderModel, legacy: bool) -> (RecorderModel, StepModel) {
    if recorder.pending is Some {
        (recorder, Step::Perform(Effect::PollWorker, Wait::Polled))
    } else {
        next_started(recorder, legacy)
    }
}

/// What is done with the answer of a transcription. What was called off stays so, whatever came.
pub open spec fn polled(
    recorder: RecorderModel,
    answer: Option<Result<Seq<char>, Seq<char>>>,
    legacy: bool,
) -> (RecorderModel, StepModel) {
    match answer {
        None => next_started(recorder, legacy),
        Some(result) => {
            let i = recorder.pending->0 as int;
            let free = RecorderModel { pending: None, ..recorder };
            let chunk = recorder.state.chunks[i];
            if chunk.status == ChunkStatus::Canceled {
                finishing(free, legacy)
            } else {
                match result {
                    Ok(words) => {
                        let filled = saying(
                            with_state(
                                free,
                                rebuilt(chunk_put(free.state, i, chunk_filled(chunk, words))),
                            ),
                            "Chunk "@ + ordinal(i)
                                + " transcribed. Keep going whenever you're ready."@,
                        );
                        if chunk.tab_id == filled.state.selected_tab && filled.auto_copy
                            && filled.state.transcript.len() > 0 {
                            (
                                filled,
                                Step::Perform(
                                    Effect::Copy { text: filled.state.transcript },
                                    Wait::AutoCopied,
                                ),
                            )
                        } else {
                            finishing(filled, legacy)
                        }
                    },
                    Err(words) => finishing(
                        saying(
                            with_state(
                                free,
                                chunk_put(free.state, i, chunk_failed(chunk, words)),
                            ),
                            "Chunk "@ + ordinal(i) + " failed: "@ + words + ". Audio retained."@,
                        ),
                        legacy,
                    ),
                }
            }
        },
    }
}

/// How a request goes on with what came of the thing it waited for.
pub open spec fn resumed(
    recorder: RecorderModel,
    wait: WaitModel,
    outcome: OutcomeModel,
    legacy: bool,
) -> (RecorderModel, StepModel) {
    match wait {
        Wait::SettingsLoaded { edited, api_key } => settings_loaded(
            recorder,
            edited,
            api_key,
            outcome->Settings_0,
        ),
        Wait::Reloaded => reloaded(
            recorder,
            outcome->Reloaded_around,
            outcome->Reloaded_settings,
            outcome->Reloaded_known,
            legacy,
        ),
        Wait::Inspected => match model_refusal(recorder.config, outcome->Known_0) {
            Some(error) => refusing(recorder, error),
            None => (
                recorder,
                Step::Perform(Effect::Stamp, Wait::Stamped { cause: NewChunk::Recording }),
            ),
        },
        Wait::CaptureStarted { index } => capture_started(recorder, index, outcome, legacy),
        Wait::CaptureStopped { index } => capture_stopped(recorder, index, outcome, legacy),
        Wait::Measured { index } => measured(recorder, index, outcome->Length_0, legacy),
        Wait::LegacyMeasured { index } => legacy_measured(
            recorder,
            index,
            outcome->Length_0,
            legacy,
        ),
        Wait::Polled => polled(recorder, outcome->Worker_0, legacy),
        Wait::Interrupted { message, ticking } => (
            shown(interrupted(recorder, message), legacy),
            Step::Perform(Effect::Save, Wait::InterruptSaved { ticking }),
        ),
        Wait::AutoCopied => match outcome {
            Outcome::Failed { plain, .. } => finishing(
                saying(recorder, "Transcript ready. Clipboard unavailable: "@ + plain),
                legacy,
            ),
            _ => finishing(saying(recorder, "Copied to clipboard."@), legacy),
        },
        _ => match outcome {
            Outcome::Failed { whole, .. } => refusing(recorder, Error::Outside(whole)),
            _ => continued(recorder, wait, outcome, legacy),
        },
    }
}

/// How a request goes on where a failure would have ended it.
pub open spec fn continued(
    recorder: RecorderModel,
    wait: WaitModel,
    outcome: OutcomeModel,
    legacy: bool,
) -> (RecorderModel, StepModel) {
    match wait {
        Wait::KeySaved { settings } => saving_settings(recorder, settings),
        Wait::SettingsSaved => (recorder, Step::Perform(Effect::Reload, Wait::Reloaded)),
        Wait::DevicesListed => (
            with_state(
                recorder,
                StateModel { devices: outcome->Devices_0, ..recorder.state },
            ),
            Step::Done,
        ),
        Wait::DeviceChosen { device } => if outcome->Devices_0.contains(device) {
            finishing(device_selected(recorder, Some(device)), legacy)
        } else {
            refusing(recorder, Error::MicrophoneGone)
        },
        Wait::Stamped { cause } => {
            let id = chunk_id(outcome->Stamp_nanos, outcome->Stamp_process);
            (
                recorder,
                Step::Perform(
                    Effect::MakeTree { path: chunk_tree(recorder.config.directory, id) },
                    Wait::TreeMade { cause, id },
                ),
            )
        },
        Wait::TreeMade { cause, id } => tree_made(recorder, cause, id),
        Wait::CaptureUndone { error } => refusing(
            with_state(
                recorder,
                StateModel { chunks: recorder.state.chunks.drop_last(), ..recorder.state },
            ),
            Error::Outside(error),
        ),
        Wait::StopFailed { error } => refusing(recorder, Error::Outside(error)),
        Wait::FileMoved { index } => (
            recorder,
            Step::Perform(
                Effect::Measure {
                    path: chunk_audio(
                        recorder.config.directory,
                        recorder.state.chunks[index as int].id,
                    ),
                },
                Wait::LegacyMeasured { index },
            ),
        ),
        Wait::CancelSaved { count } => if recorder.pending is Some {
            (recorder, Step::Perform(Effect::CancelWorker, Wait::CancelSent { count }))
        } else {
            finishing(saying(recorder, cancel_message(count as nat)), legacy)
        },
        Wait::CancelSent { count } => finishing(
            saying(recorder, cancel_message(count as nat)),
            legacy,
        ),
        Wait::Copied => finishing(saying(recorder, "Copied to clipboard."@), legacy),
        Wait::Exported { path } => finishing(saying(recorder, "Exported to "@ + path), legacy),
        Wait::TabStamped { name } => finishing(
            with_state(recorder, tab_created(recorder.state, tab_id(outcome->Stamp_nanos), name)),
            legacy,
        ),
        Wait::SavedRemoved => (
            with_state(recorder, tab_emptied(recorder.state)),
            Step::Perform(
                Effect::RemoveIfEmpty { path: path_join(recorder.config.directory, "chunks"@) },
                Wait::TreeRemoved,
            ),
        ),
        Wait::TreeRemoved => cleared(recorder, legacy),
        Wait::Saved => next_started(recorder, legacy),
        Wait::LaunchSaved { index } => (
            recorder,
            Step::Perform(
                Effect::Launch {
                    tree: chunk_tree(
                        recorder.config.directory,
                        recorder.state.chunks[index as int].id,
                    ),
                },
                Wait::Launched,
            ),
        ),
        Wait::InterruptSaved { ticking } => if ticking {
            polling(recorder, legacy)
        } else {
            (recorder, Step::Done)
        },
        _ => (recorder, Step::Done),
    }
}

/// Whether what is waited for speaks of chunks that are there.
pub open spec fn in_place(recorder: RecorderModel, wait: WaitModel) -> bool {
    let count = recorder.state.chunks.len();
    match wait {
        Wait::CaptureStarted { index } => index < count,
        Wait::CaptureUndone { .. } => count > 0,
        Wait::CaptureStopped { index } => index < count,
        Wait::Measured { index } => index < count,
        Wait::FileMoved { index } => index < count,
        Wait::LegacyMeasured { index } => index < count,
        Wait::LaunchSaved { index } => index < count,
        Wait::Polled => recorder.pending is Some && recorder.pending->0 < count,
        _ => true,
    }
}

/// The recorder with what a running recording says of itself.
pub open spec fn observed(recorder: RecorderModel, reading: Reading<Seq<char>>) -> RecorderModel {
    let state = StateModel { seconds: reading.seconds, level: reading.level, ..recorder.state };
    with_state(
        recorder,
        match first_match(state.chunks, with_status(ChunkStatus::Recording)) {
            Some(i) => chunk_put(state, i, Chunk { seconds: reading.seconds, ..state.chunks[i] }),
            None => state,
        },
    )
}

/// The end of a recording that breaks off.
pub open spec fn breaking_off(recorder: RecorderModel, message: Seq<char>, ticking: bool) -> (
    RecorderModel,
    StepModel,
) {
    (
        RecorderModel { capturing: false, ..recorder },
        Step::Perform(Effect::StopCapture, Wait::Interrupted { message, ticking }),
    )
}

/// The end of a recording that runs, because the recorder is told to stop.
pub open spec fn interrupting(recorder: RecorderModel) -> (RecorderModel, StepModel) {
    if recorder.capturing {
        breaking_off(recorder, "Recording interrupted. Retry retained audio."@, false)
    } else {
        (recorder, Step::Done)
    }
}

/// How a tick of the clock begins.
pub open spec fn ticked(recorder: RecorderModel, reading: Reading<Seq<char>>, legacy: bool) -> (
    RecorderModel,
    StepModel,
) {
    if recorder.capturing {
        let recorder = observed(recorder, reading);
        match reading.error {
            Some(error) => breaking_off(recorder, error, true),
            None => polling(recorder, legacy),
        }
    } else {
        polling(recorder, legacy)
    }
}

/// The path of a chunk's directory.
fn tree_path(directory: &str, id: &str) -> (path: String)
    ensures
        path@ == chunk_tree(directory@, id@),
{
    paths::join(paths::join(directory, "chunks").as_str(), id)
}

/// The path of a chunk's recording.
fn audio_path(directory: &str, id: &str) -> (path: String)
    ensures
        path@ == chunk_audio(directory@, id@),
{
    paths::join(tree_path(directory, id).as_str(), "recording.wav")
}

/// The id of a chunk made at a time by a process.
fn make_chunk_id(nanos: u128, process: u32) -> (id: String)
    ensures
        id@ == chunk_id(nanos, process),
{
    let mut id = text::decimal(nanos);
    id.append("-");
    id.append(text::decimal(process as u128).as_str());
    id
}

/// A text about a chunk, with its number in the middle.
fn about_chunk(before: &str, index: usize, after: &str) -> (message: String)
    ensures
        message@ == before@ + ordinal(index as int) + after@,
{
    let mut message = before.to_owned();
    message.append(text::decimal(index as u128 + 1).as_str());
    message.append(after);
    message
}

impl Recorder {
    /// Whether a transcription runs.
    fn working(&self) -> (answer: bool)
        ensures
            answer == (self.pending is Some),
    {
        self.pending.is_some()
    }

    /// Brings up to date what is shown.
    fn refresh(&mut self, legacy: bool)
        ensures
            final(self).deep_view() == shown(old(self).deep_view(), legacy),
    {
        let working = self.working();
        self.state.refresh(self.capturing, working, legacy);
    }

    fn finish(&mut self, legacy: bool) -> (step: Step)
        ensures
            (final(self).deep_view(), step.deep_view()) == finishing(
                old(self).deep_view(),
                legacy,
            ),
    {
        self.refresh(legacy);
        Step::Perform(Effect::Save, Wait::Saved)
    }

    /// Starts the next transcription, where none runs.
    fn start_next(&mut self, legacy: bool) -> (step: Step)
        ensures
            (final(self).deep_view(), step.deep_view()) == next_started(
                old(self).deep_view(),
                legacy,
            ),
    {
        if self.working() {
            return Step::Done;
        }
        proof {
            crate::search::lemma_first_match(
                self.state.chunks.deep_view(),
                with_status(ChunkStatus::Queued),
            );
        }
        match session::find_status(&self.state.chunks, ChunkStatus::Queued) {
            None => {
                self.refresh(legacy);
                Step::Done
            },
            Some(index) => {
                self.state.set_status(index, ChunkStatus::Transcribing);
                self.pending = Some(index);
                self.refresh(legacy);
                Step::Perform(Effect::Save, Wait::LaunchSaved { index })
            },
        }
    }

    fn copy_text(&self, text: String) -> (step: Step)
        ensures
            (self.deep_view(), step.deep_view()) == copying(self.deep_view(), text@),
    {
        if text.as_str().is_empty() {
            Step::Failed(Error::NothingToCopy)
        } else {
            Step::Perform(Effect::Copy { text }, Wait::Copied)
        }
    }

    fn start(&self) -> (step: Step)
        ensures
            (self.deep_view(), step.deep_view()) == starting(self.deep_view()),
    {
        if self.capturing {
            Step::Failed(Error::AlreadyRecording)
        } else if self.state.selected_tab.as_str().is_empty() {
            Step::Failed(Error::NoTabToRecord)
        } else {
            Step::Perform(Effect::Inspect, Wait::Inspected)
        }
    }

    fn stop(&mut self) -> (step: Step)
        ensures
            (final(self).deep_view(), step.deep_view()) == stopping(old(self).deep_view()),
    {
        if !self.capturing {
            return Step::Failed(Error::NotRecording);
        }
        self.capturing = false;
        match session::find_status(&self.state.chunks, ChunkStatus::Recording) {
            None => Step::Failed(Error::RecordingMetadataMissing),
            Some(index) => Step::Perform(Effect::StopCapture, Wait::CaptureStopped { index }),
        }
    }

    fn select_device(&mut self, device: Option<String>)
        ensures
            final(self).deep_view() == device_selected(
                old(self).deep_view(),
                device.deep_view(),
            ),
    {
        self.config.device = text::copied_option(&device);
        self.state.selected_device = text::copied_option(&device);
        let name = match device {
            Some(name) => name,
            None => "System default microphone".to_owned(),
        };
        let mut message = "Microphone selected: ".to_owned();
        message.append(name.as_str());
        self.state.device = name;
        self.state.message = message;
    }

    fn retry(&mut self, legacy: bool) -> (step: Step)
        ensures
            (final(self).deep_view(), step.deep_view()) == retrying(
                old(self).deep_view(),
                legacy,
            ),
    {
        proof {
            let chunks = self.state.chunks.deep_view();
            crate::search::lemma_first_match(chunks, with_status(ChunkStatus::Failed));
            crate::search::lemma_last_match(chunks, with_status(ChunkStatus::Ready));
        }
        match self.state.retry_index() {
            Some(index) => {
                self.state.requeue(index);
                self.state.message = "Saved audio queued for transcription.".to_owned();
                self.finish(legacy)
            },
            None => if legacy {
                Step::Perform(Effect::Stamp, Wait::Stamped { cause: NewChunk::Legacy })
            } else {
                Step::Failed(Error::NothingToRetry)
            },
        }
    }

    fn export(&self, id: String, path: String) -> (step: Step)
        ensures
            (self.deep_view(), step.deep_view()) == exporting(self.deep_view(), id@, path@),
    {
        match self.state.text_of_tab(id.as_str()) {
            None => Step::Failed(Error::TabGone),
            Some(text) => match export::write(path.as_str(), text.as_str()) {
                Err(error) => Step::Failed(error),
                Ok(contents) => Step::Perform(
                    Effect::Export { path: path.clone(), contents },
                    Wait::Exported { path },
                ),
            },
        }
    }

    /// Whether anything runs or waits.
    fn is_occupied(&self) -> (answer: bool)
        ensures
            answer == occupied(self.deep_view()),
    {
        self.capturing || self.working() || self.state.queue_depth > 0
    }

    /// The directories of the selected tab's chunks.
    fn selected_trees(&self) -> (trees: Vec<String>)
        ensures
            trees.deep_view() == self.deep_view().state.chunks.filter(
                in_tab(self.state.selected_tab@),
            ).map_values(tree_in(self.config.directory@)),
    {
        let ghost all = self.state.chunks.deep_view();
        let ghost keep = in_tab(self.state.selected_tab@);
        let ghost tree = tree_in(self.config.directory@);
        let mut trees: Vec<String> = Vec::new();
        let mut i: usize = 0;
        proof {
            assert(all.take(0) =~= Seq::empty());
            reveal(Seq::filter);
            assert(trees.deep_view() =~= all.take(0).filter(keep).map_values(tree));
        }
        while i < self.state.chunks.len()
            invariant
                i <= self.state.chunks.len(),
                all == self.state.chunks.deep_view(),
                keep == in_tab(self.state.selected_tab@),
                tree == tree_in(self.config.directory@),
                trees.deep_view() == all.take(i as int).filter(keep).map_values(tree),
            decreases self.state.chunks.len() - i,
        {
            let chunk = &self.state.chunks[i];
            let ghost before = trees.deep_view();
            proof {
                assert(all[i as int] == chunk.deep_view());
                crate::search::lemma_filter_step(all, i as int, keep);
            }
            if text::same(chunk.tab_id.as_str(), self.state.selected_tab.as_str()) {
                trees.push(tree_path(self.config.directory.as_str(), chunk.id.as_str()));
                proof {
                    assert(trees.deep_view() =~= before.push(tree(all[i as int])));
                    assert(all.take(i + 1).filter(keep).map_values(tree) =~= before.push(
                        tree(all[i as int]),
                    ));
                }
            }
            i += 1;
        }
        proof {
            assert(all.take(all.len() as int) =~= all);
        }
        trees
    }

    fn clear(&self) -> (step: Step)
        ensures
            (self.deep_view(), step.deep_view()) == clearing(self.deep_view()),
    {
        if self.state.selected_tab.as_str().is_empty() {
            return Step::Failed(Error::NoTabToClear);
        }
        if self.is_occupied() {
            return Step::Failed(Error::BusyClearing);
        }
        let directory = self.config.directory.as_str();
        let trees = self.selected_trees();
        let mut files: Vec<String> = Vec::new();
        files.push(paths::join(directory, "capture.wav"));
        files.push(paths::join(directory, "recording.wav"));
        files.push(paths::join(directory, "whisper.wav"));
        files.push(paths::join(directory, "whisper-output.txt"));
        proof {
            assert(files.deep_view() =~= loose_files(directory@));
        }
        Step::Perform(Effect::RemoveSaved { trees, files }, Wait::SavedRemoved)
    }

    /// Begins a request for the clipboard.
    fn begin_copy(&self, action: Action) -> (step: Step)
        requires
            action is Copy || action is CopyText || action is CopyChunk || action is CopyLatest,
        ensures
            forall|legacy: bool|
                (self.deep_view(), step.deep_view()) == #[trigger] begun(
                    self.deep_view(),
                    action.deep_view(),
                    legacy,
                ),
    {
        match action {
            Action::Copy => self.copy_text(self.state.transcript.clone()),
            Action::CopyText(text) => self.copy_text(text),
            Action::CopyChunk(id) => {
                proof {
                    crate::search::lemma_first_match(
                        self.state.chunks.deep_view(),
                        chunk_with_id(id@),
                    );
                }
                match session::find_chunk(&self.state.chunks, id.as_str()) {
                    Some(index) => self.copy_text(self.state.chunks[index].text.clone()),
                    None => Step::Failed(Error::ChunkGone),
                }
            },
            Action::CopyLatest => match self.state.latest_text() {
                Some(text) => self.copy_text(text),
                None => Step::Failed(Error::NoCompletedChunk),
            },
            _ => Step::Done,
        }
    }

    /// Begins a request about a tab.
    fn begin_tab(&mut self, action: Action, legacy: bool) -> (step: Step)
        requires
            action is ExportTab || action is CreateTab || action is CloseTab || action is ReopenTab
                || action is SelectTab || action is RenameTab,
        ensures
            (final(self).deep_view(), step.deep_view()) == begun(
                old(self).deep_view(),
                action.deep_view(),
                legacy,
            ),
    {
        match action {
            Action::ExportTab { id, path } => self.export(id, path),
            Action::CreateTab(name) => match session::validate_tab_name(name.as_str()) {
                Ok(_) => Step::Perform(Effect::Stamp, Wait::TabStamped { name }),
                Err(error) => Step::Failed(error),
            },
            Action::CloseTab(id) => match self.state.close_tab(id.as_str()) {
                Ok(_) => self.finish(legacy),
                Err(error) => Step::Failed(error),
            },
            Action::ReopenTab => match self.state.reopen_tab() {
                Ok(_) => self.finish(legacy),
                Err(error) => Step::Failed(error),
            },
            Action::SelectTab(id) => match self.state.select_tab(id) {
                Ok(_) => self.finish(legacy),
                Err(error) => Step::Failed(error),
            },
            Action::RenameTab { id, name } => {
                match session::validate_tab_name(name.as_str()) {
                    Ok(_) => {},
                    Err(error) => return Step::Failed(error),
                }
                match self.state.rename_tab(id.as_str(), name.as_str()) {
                    Ok(_) => self.finish(legacy),
                    Err(error) => Step::Failed(error),
                }
            },
            _ => Step::Done,
        }
    }

    /// Begins a request.
    pub fn begin(&mut self, action: Action, legacy: bool) -> (step: Step)
        ensures
            (final(self).deep_view(), step.deep_view()) == begun(
                old(self).deep_view(),
                action.deep_view(),
                legacy,
            ),
    {
        match action {
            Action::Status => Step::Done,
            Action::ConfigureBackend { settings, api_key } => Step::Perform(
                Effect::LoadSettings,
                Wait::SettingsLoaded { edited: settings, api_key },
            ),
            Action::Devices => Step::Perform(Effect::ListDevices, Wait::DevicesListed),
            Action::SelectDevice(device) => {
                if self.capturing {
                    return Step::Failed(Error::MicrophoneInUse);
                }
                match device {
                    Some(device) => Step::Perform(
                        Effect::ListDevices,
                        Wait::DeviceChosen { device },
                    ),
                    None => {
                        self.select_device(None);
                        self.finish(legacy)
                    },
                }
            },
            Action::Toggle => if self.capturing {
                self.stop()
            } else {
                self.start()
            },
            Action::Start => self.start(),
            Action::Stop => self.stop(),
            Action::Retry => self.retry(legacy),
            Action::Cancel => {
                proof {
                    crate::search::lemma_filter_len(
                        self.state.chunks.deep_view(),
                        session::waits(),
                    );
                }
                let count: usize = self.state.cancel_waiting();
                self.refresh(legacy);
                Step::Perform(Effect::Save, Wait::CancelSaved { count })
            },
            Action::Copy | Action::CopyText(_) | Action::CopyChunk(_) | Action::CopyLatest =>
                self.begin_copy(action),
            Action::Clear => self.clear(),
            Action::Shutdown => if self.is_occupied() {
                Step::Failed(Error::BusyShuttingDown)
            } else {
                self.finish(legacy)
            },
            _ => self.begin_tab(action, legacy),
        }
    }
}

impl Recorder {
    fn save_settings(&self, settings: TranscriptionSettings) -> (step: Step)
        ensures
            (self.deep_view(), step.deep_view()) == saving_settings(
                self.deep_view(),
                settings.deep_view(),
            ),
    {
        match self.config.save_settings(&settings) {
            Ok(path) => Step::Perform(
                Effect::SaveSettings { path, settings },
                Wait::SettingsSaved,
            ),
            Err(error) => Step::Failed(error),
        }
    }

    fn edit_settings(
        &self,
        edited: BackendSettings,
        api_key: Option<String>,
        stored: Stored<TranscriptionSettings>,
    ) -> (step: Step)
        ensures
            (self.deep_view(), step.deep_view()) == settings_loaded(
                self.deep_view(),
                edited.deep_view(),
                api_key.deep_view(),
                stored.deep_view(),
            ),
    {
        let mut saved = match self.config.settings(stored) {
            Ok(saved) => saved,
            Err(error) => return Step::Failed(error),
        };
        saved.provider = edited.provider;
        saved.acceleration = edited.acceleration;
        saved.binary = Some(edited.binary);
        saved.model = Some(edited.model);
        saved.openai_model = edited.openai_model.as_str().trim().to_owned();
        if saved.openai_model.as_str().is_empty() {
            return Step::Failed(Error::EmptyModel);
        }
        match api_key {
            Some(key) => match self.config.save_api_key(key.as_str()) {
                Ok((path, key)) => Step::Perform(
                    Effect::SaveApiKey { path, key },
                    Wait::KeySaved { settings: saved },
                ),
                Err(error) => Step::Failed(error),
            },
            None => self.save_settings(saved),
        }
    }

    fn reload(
        &mut self,
        around: &Surroundings,
        settings: Stored<TranscriptionSettings>,
        known: &Prerequisites,
        legacy: bool,
    ) -> (step: Step)
        ensures
            (final(self).deep_view(), step.deep_view()) == reloaded(
                old(self).deep_view(),
                around.deep_view(),
                settings.deep_view(),
                known.deep_view(),
                legacy,
            ),
    {
        let config = match self.config.with_current_settings(around, settings) {
            Ok(config) => config,
            Err(error) => return Step::Failed(error),
        };
        let configured = config.api_key_configured(&known.stored_key, &known.environment_key);
        self.state.backend = BackendSettings::from_config(&config, configured);
        self.config = config;
        self.state.message = "Settings saved. Applies to the next transcription.".to_owned();
        self.finish(legacy)
    }

    fn add_made_chunk(&mut self, cause: NewChunk, id: String) -> (step: Step)
        ensures
            (final(self).deep_view(), step.deep_view()) == tree_made(
                old(self).deep_view(),
                cause,
                id@,
            ),
    {
        let path = audio_path(self.config.directory.as_str(), id.as_str());
        match cause {
            NewChunk::Recording => {
                let index: usize = self.state.add_chunk(id, ChunkStatus::Recording);
                Step::Perform(
                    Effect::StartCapture {
                        path,
                        device: text::copied_option(&self.config.device),
                    },
                    Wait::CaptureStarted { index },
                )
            },
            NewChunk::Legacy => {
                let index: usize = self.state.add_chunk(id, ChunkStatus::Queued);
                let from = paths::join(self.config.directory.as_str(), "recording.wav");
                Step::Perform(Effect::MoveFile { from, to: path }, Wait::FileMoved { index })
            },
        }
    }

    fn capture(&mut self, index: usize, outcome: Outcome, legacy: bool) -> (step: Step)
        requires
            index < old(self).state.chunks.len(),
            outcome is Device || outcome is Failed,
        ensures
            (final(self).deep_view(), step.deep_view()) == capture_started(
                old(self).deep_view(),
                index,
                outcome.deep_view(),
                legacy,
            ),
    {
        match outcome {
            Outcome::Device(device) => {
                self.state.device = device;
                self.capturing = true;
                self.state.seconds = 0;
                self.state.message = about_chunk(
                    "Recording chunk ",
                    index,
                    ". Transcription continues in the background.",
                );
                self.finish(legacy)
            },
            Outcome::Failed { whole, .. } => {
                let path = tree_path(
                    self.config.directory.as_str(),
                    self.state.chunks[index].id.as_str(),
                );
                Step::Perform(Effect::RemoveTree { path }, Wait::CaptureUndone { error: whole })
            },
            _ => Step::Done,
        }
    }

    fn end_capture(&mut self, index: usize, outcome: Outcome, legacy: bool) -> (step: Step)
        requires
            index < old(self).state.chunks.len(),
        ensures
            (final(self).deep_view(), step.deep_view()) == capture_stopped(
                old(self).deep_view(),
                index,
                outcome.deep_view(),
                legacy,
            ),
    {
        if let Outcome::Failed { plain, whole } = outcome {
            self.state.fail_chunk(index, plain);
            self.refresh(legacy);
            return Step::Perform(Effect::Save, Wait::StopFailed { error: whole });
        }
        let path = audio_path(
            self.config.directory.as_str(),
            self.state.chunks[index].id.as_str(),
        );
        Step::Perform(Effect::Measure { path }, Wait::Measured { index })
    }

    fn queue_recording(&mut self, index: usize, length: Option<u64>, legacy: bool) -> (step: Step)
        requires
            index < old(self).state.chunks.len(),
        ensures
            (final(self).deep_view(), step.deep_view()) == measured(
                old(self).deep_view(),
                index,
                length,
                legacy,
            ),
    {
        let seconds: u64 = match length {
            Some(seconds) => seconds,
            None => self.state.seconds,
        };
        let ghost chunks = self.state.deep_view().chunks;
        self.state.set_length(index, seconds);
        proof {
            assert(self.state.deep_view().chunks.len() == chunks.len());
        }
        self.state.set_status(index, ChunkStatus::Queued);
        proof {
            let i = index as int;
            assert(self.state.deep_view().chunks =~= chunks.update(
                i,
                Chunk { seconds, status: ChunkStatus::Queued, ..chunks[i] },
            ));
        }
        self.state.message = about_chunk(
            "Chunk ",
            index,
            " queued. Press Space to record the next one.",
        );
        self.finish(legacy)
    }

    fn queue_legacy(&mut self, index: usize, length: Option<u64>, legacy: bool) -> (step: Step)
        requires
            index < old(self).state.chunks.len(),
        ensures
            (final(self).deep_view(), step.deep_view()) == legacy_measured(
                old(self).deep_view(),
                index,
                length,
                legacy,
            ),
    {
        let seconds: u64 = match length {
            Some(seconds) => seconds,
            None => 0,
        };
        self.state.set_length(index, seconds);
        self.state.message = "Saved audio queued for transcription.".to_owned();
        self.finish(legacy)
    }

    fn finish_clear(&mut self, legacy: bool) -> (step: Step)
        ensures
            (final(self).deep_view(), step.deep_view()) == cleared(old(self).deep_view(), legacy),
    {
        self.state.transcript = String::new();
        self.state.prior_transcript = String::new();
        self.state.seconds = 0;
        self.state.message = "Cleared. A fresh start.".to_owned();
        self.finish(legacy)
    }

    fn mark_interrupted(&mut self, message: String)
        ensures
            final(self).deep_view() == interrupted(old(self).deep_view(), message@),
    {
        proof {
            crate::search::lemma_first_match(
                self.state.chunks.deep_view(),
                with_status(ChunkStatus::Recording),
            );
        }
        if let Some(index) = session::find_status(&self.state.chunks, ChunkStatus::Recording) {
            self.state.fail_chunk(index, message.clone());
        }
        self.state.message = message;
    }

    fn poll(&mut self, legacy: bool) -> (step: Step)
        ensures
            (final(self).deep_view(), step.deep_view()) == polling(old(self).deep_view(), legacy),
    {
        if self.working() {
            Step::Perform(Effect::PollWorker, Wait::Polled)
        } else {
            self.start_next(legacy)
        }
    }

    fn take_answer(&mut self, answer: Option<Result<String, String>>, legacy: bool) -> (step: Step)
        requires
            old(self).pending is Some,
            old(self).pending->0 < old(self).state.chunks.len(),
        ensures
            (final(self).deep_view(), step.deep_view()) == polled(
                old(self).deep_view(),
                crate::protocol::worker_view(answer),
                legacy,
            ),
    {
        let result = match answer {
            Some(result) => result,
            None => return self.start_next(legacy),
        };
        let index: usize = match self.pending {
            Some(index) => index,
            None => return Step::Done,
        };
        self.pending = None;
        if self.state.chunks[index].status == ChunkStatus::Canceled {
            return self.finish(legacy);
        }
        match result {
            Ok(words) => {
                let ghost chunks = self.state.deep_view().chunks;
                self.state.fill_chunk(index, words);
                self.state.rebuild_transcript();
                proof {
                    assert(self.state.deep_view().chunks.len() == chunks.len());
                    assert(self.state.deep_view().chunks[index as int].tab_id
                        == chunks[index as int].tab_id);
                    assert(self.state.chunks[index as int].deep_view()
                        == self.state.deep_view().chunks[index as int]);
                }
                self.state.message = about_chunk(
                    "Chunk ",
                    index,
                    " transcribed. Keep going whenever you're ready.",
                );
                if text::same(
                    self.state.chunks[index].tab_id.as_str(),
                    self.state.selected_tab.as_str(),
                ) && self.auto_copy && !self.state.transcript.as_str().is_empty() {
                    return Step::Perform(
                        Effect::Copy { text: self.state.transcript.clone() },
                        Wait::AutoCopied,
                    );
                }
                self.finish(legacy)
            },
            Err(words) => {
                let mut message = about_chunk("Chunk ", index, " failed: ");
                message.append(words.as_str());
                message.append(". Audio retained.");
                self.state.fail_chunk(index, words);
                self.state.message = message;
                self.finish(legacy)
            },
        }
    }

    /// Says what was called off.
    fn report_cancel(&mut self, count: usize, legacy: bool) -> (step: Step)
        ensures
            (final(self).deep_view(), step.deep_view()) == finishing(
                saying(old(self).deep_view(), cancel_message(count as nat)),
                legacy,
            ),
    {
        self.state.message = if count == 0 {
            "No queued transcription to cancel.".to_owned()
        } else {
            let mut message = "Canceled ".to_owned();
            message.append(text::decimal(count as u128).as_str());
            message.append(" chunks. Transcript and audio retained.");
            message
        };
        self.finish(legacy)
    }

    /// Goes on with settings, devices and ids.
    fn go_on_choosing(&mut self, wait: Wait, outcome: Outcome, legacy: bool) -> (step: Step)
        requires
            fits(wait.deep_view(), outcome.deep_view()),
            in_place(old(self).deep_view(), wait.deep_view()),
            outcome !is Failed,
            wait is KeySaved || wait is SettingsSaved || wait is DevicesListed
                || wait is DeviceChosen || wait is Stamped || wait is TabStamped,
        ensures
            (final(self).deep_view(), step.deep_view()) == continued(
                old(self).deep_view(),
                wait.deep_view(),
                outcome.deep_view(),
                legacy,
            ),
    {
        match wait {
            Wait::KeySaved { settings } => self.save_settings(settings),
            Wait::SettingsSaved => Step::Perform(Effect::Reload, Wait::Reloaded),
            Wait::DevicesListed => {
                if let Outcome::Devices(names) = outcome {
                    self.state.devices = names;
                }
                Step::Done
            },
            Wait::DeviceChosen { device } => match outcome {
                Outcome::Devices(names) => if text::contains_text(&names, device.as_str()) {
                    self.select_device(Some(device));
                    self.finish(legacy)
                } else {
                    Step::Failed(Error::MicrophoneGone)
                },
                _ => Step::Done,
            },
            Wait::Stamped { cause } => match outcome {
                Outcome::Stamp { nanos, process } => {
                    let id = make_chunk_id(nanos, process);
                    let path = tree_path(self.config.directory.as_str(), id.as_str());
                    Step::Perform(Effect::MakeTree { path }, Wait::TreeMade { cause, id })
                },
                _ => Step::Done,
            },
            Wait::TabStamped { name } => match outcome {
                Outcome::Stamp { nanos, .. } => {
                    let mut id = "tab-".to_owned();
                    id.append(text::decimal(nanos).as_str());
                    self.state.create_tab(id, name.as_str());
                    self.finish(legacy)
                },
                _ => Step::Done,
            },
            _ => Step::Done,
        }
    }

    /// Goes on with a chunk, or with calling chunks off.
    fn go_on_with_chunk(&mut self, wait: Wait, outcome: Outcome, legacy: bool) -> (step: Step)
        requires
            fits(wait.deep_view(), outcome.deep_view()),
            in_place(old(self).deep_view(), wait.deep_view()),
            outcome !is Failed,
            wait is TreeMade || wait is CaptureUndone || wait is StopFailed
                || wait is FileMoved || wait is CancelSaved || wait is CancelSent,
        ensures
            (final(self).deep_view(), step.deep_view()) == continued(
                old(self).deep_view(),
                wait.deep_view(),
                outcome.deep_view(),
                legacy,
            ),
    {
        match wait {
            Wait::TreeMade { cause, id } => self.add_made_chunk(cause, id),
            Wait::CaptureUndone { error } => {
                let ghost chunks = self.state.chunks.deep_view();
                let _ = self.state.chunks.pop();
                proof {
                    assert(self.state.chunks.deep_view() =~= chunks.drop_last());
                }
                Step::Failed(Error::Outside(error))
            },
            Wait::StopFailed { error } => Step::Failed(Error::Outside(error)),
            Wait::FileMoved { index } => {
                let path = audio_path(
                    self.config.directory.as_str(),
                    self.state.chunks[index].id.as_str(),
                );
                Step::Perform(Effect::Measure { path }, Wait::LegacyMeasured { index })
            },
            Wait::CancelSaved { count } => if self.working() {
                Step::Perform(Effect::CancelWorker, Wait::CancelSent { count })
            } else {
                self.report_cancel(count, legacy)
            },
            Wait::CancelSent { count } => self.report_cancel(count, legacy),
            _ => Step::Done,
        }
    }

    /// Goes on with a request where a failure would have ended it.
    fn go_on(&mut self, wait: Wait, outcome: Outcome, legacy: bool) -> (step: Step)
        requires
            fits(wait.deep_view(), outcome.deep_view()),
            in_place(old(self).deep_view(), wait.deep_view()),
            outcome !is Failed,
        ensures
            (final(self).deep_view(), step.deep_view()) == continued(
                old(self).deep_view(),
                wait.deep_view(),
                outcome.deep_view(),
                legacy,
            ),
    {
        match wait {
            Wait::Copied => {
                self.state.message = "Copied to clipboard.".to_owned();
                self.finish(legacy)
            },
            Wait::Exported { path } => {
                let mut message = "Exported to ".to_owned();
                message.append(path.as_str());
                self.state.message = message;
                self.finish(legacy)
            },
            Wait::SavedRemoved => {
                self.state.empty_tab();
                let path = paths::join(self.config.directory.as_str(), "chunks");
                Step::Perform(Effect::RemoveIfEmpty { path }, Wait::TreeRemoved)
            },
            Wait::TreeRemoved => self.finish_clear(legacy),
            Wait::Saved => self.start_next(legacy),
            Wait::LaunchSaved { index } => {
                let tree = tree_path(
                    self.config.directory.as_str(),
                    self.state.chunks[index].id.as_str(),
                );
                Step::Perform(Effect::Launch { tree }, Wait::Launched)
            },
            Wait::InterruptSaved { ticking } => if ticking {
                self.poll(legacy)
            } else {
                Step::Done
            },
            Wait::KeySaved { .. } | Wait::SettingsSaved | Wait::DevicesListed
            | Wait::DeviceChosen { .. } | Wait::Stamped { .. } | Wait::TabStamped { .. } =>
                self.go_on_choosing(wait, outcome, legacy),
            Wait::TreeMade { .. } | Wait::CaptureUndone { .. } | Wait::StopFailed { .. }
            | Wait::FileMoved { .. } | Wait::CancelSaved { .. } | Wait::CancelSent { .. } =>
                self.go_on_with_chunk(wait, outcome, legacy),
            _ => Step::Done,
        }
    }

    /// Whether what is waited for speaks of chunks that are there.
    pub fn can_resume(&self, wait: &Wait) -> (answer: bool)
        ensures
            answer == in_place(self.deep_view(), wait.deep_view()),
    {
        let count: usize = self.state.chunks.len();
        proof {
            assert(self.deep_view().state.chunks.len() == count);
        }
        match wait {
            Wait::CaptureStarted { index } => *index < count,
            Wait::CaptureUndone { .. } => count > 0,
            Wait::CaptureStopped { index } => *index < count,
            Wait::Measured { index } => *index < count,
            Wait::FileMoved { index } => *index < count,
            Wait::LegacyMeasured { index } => *index < count,
            Wait::LaunchSaved { index } => *index < count,
            Wait::Polled => match self.pending {
                Some(index) => index < count,
                None => false,
            },
            _ => true,
        }
    }

    /// Goes on with a request, with what came of the thing it waited for.
    pub fn resume(&mut self, wait: Wait, outcome: Outcome, legacy: bool) -> (step: Step)
        requires
            fits(wait.deep_view(), outcome.deep_view()),
            in_place(old(self).deep_view(), wait.deep_view()),
        ensures
            (final(self).deep_view(), step.deep_view()) == resumed(
                old(self).deep_view(),
                wait.deep_view(),
                outcome.deep_view(),
                legacy,
            ),
    {
        match wait {
            Wait::SettingsLoaded { edited, api_key } => match outcome {
                Outcome::Settings(stored) => self.edit_settings(edited, api_key, stored),
                _ => Step::Done,
            },
            Wait::Reloaded => match outcome {
                Outcome::Reloaded { around, settings, known } => self.reload(
                    &around,
                    settings,
                    &known,
                    legacy,
                ),
                _ => Step::Done,
            },
            Wait::Inspected => match outcome {
                Outcome::Known(known) => match self.config.check_model(&known) {
                    Ok(_) => Step::Perform(
                        Effect::Stamp,
                        Wait::Stamped { cause: NewChunk::Recording },
                    ),
                    Err(error) => Step::Failed(error),
                },
                _ => Step::Done,
            },
            Wait::CaptureStarted { index } => self.capture(index, outcome, legacy),
            Wait::CaptureStopped { index } => self.end_capture(index, outcome, legacy),
            Wait::Measured { index } => match outcome {
                Outcome::Length(length) => self.queue_recording(index, length, legacy),
                _ => Step::Done,
            },
            Wait::LegacyMeasured { index } => match outcome {
                Outcome::Length(length) => self.queue_legacy(index, length, legacy),
                _ => Step::Done,
            },
            Wait::Polled => match outcome {
                Outcome::Worker(answer) => self.take_answer(answer, legacy),
                _ => Step::Done,
            },
            Wait::Interrupted { message, ticking } => {
                self.mark_interrupted(message);
                self.refresh(legacy);
                Step::Perform(Effect::Save, Wait::InterruptSaved { ticking })
            },
            Wait::AutoCopied => {
                self.state.message = match outcome {
                    Outcome::Failed { plain, .. } => {
                        let mut message = "Transcript ready. Clipboard unavailable: ".to_owned();
                        message.append(plain.as_str());
                        message
                    },
                    _ => "Copied to clipboard.".to_owned(),
                };
                self.finish(legacy)
            },
            _ => match outcome {
                Outcome::Failed { whole, .. } => Step::Failed(Error::Outside(whole)),
                _ => self.go_on(wait, outcome, legacy),
            },
        }
    }

    /// Begins a tick of the clock: the running recording is looked at, then the transcription.
    pub fn tick(&mut self, reading: Reading, legacy: bool) -> (step: Step)
        ensures
            (final(self).deep_view(), step.deep_view()) == ticked(
                old(self).deep_view(),
                reading.deep_view(),
                legacy,
            ),
    {
        if self.capturing {
            self.state.seconds = reading.seconds;
            self.state.level = reading.level;
            proof {
                crate::search::lemma_first_match(
                    self.state.chunks.deep_view(),
                    with_status(ChunkStatus::Recording),
                );
            }
            if let Some(index) = session::find_status(&self.state.chunks, ChunkStatus::Recording) {
                self.state.set_length(index, reading.seconds);
            }
            if let Some(message) = reading.error {
                self.capturing = false;
                return Step::Perform(
                    Effect::StopCapture,
                    Wait::Interrupted { message, ticking: true },
                );
            }
        }
        self.poll(legacy)
    }

    /// Breaks the recording off that runs, because the recorder is told to stop.
    pub fn interrupt(&mut self) -> (step: Step)
        ensures
            (final(self).deep_view(), step.deep_view()) == interrupting(old(self).deep_view()),
    {
        if !self.capturing {
            return Step::Done;
        }
        self.capturing = false;
        Step::Perform(
            Effect::StopCapture,
            Wait::Interrupted {
                message: "Recording interrupted. Retry retained audio.".to_owned(),
                ticking: false,
            },
        )
    }
}

} // verus!
