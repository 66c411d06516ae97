//! What the recorder has done for it outside, what it waits for meanwhile, and what came of it.
//!
//! The types here have their texts, their lists of texts and their settings as parameters:
//! `String`, `Vec<String>` and `TranscriptionSettings` in running code, sequences and models in
//! contracts.
use crate::config::{
    Prerequisites, Stored, Surroundings, TranscriptionSettings, TranscriptionSettingsModel,
};
use crate::error::Error;
use crate::model::BackendSettings;
use vstd::prelude::*;

verus! {

/// Something that only the outside can do.
#[derive(Debug)]
pub enum Effect<S = String, L = Vec<String>, T = TranscriptionSettings> {
    /// Read the saved settings.
    LoadSettings,
    /// Save the key, for the owner's eyes only.
    SaveApiKey { path: S, key: S },
    /// Save the settings, for the owner's eyes only.
    SaveSettings { path: S, settings: T },
    /// Read the saved settings and the surroundings again.
    Reload,
    /// List the microphones.
    ListDevices,
    /// Find out what a transcription needs.
    Inspect,
    /// Read the clock.
    Stamp,
    /// Make a directory, with those above it.
    MakeTree { path: S },
    /// Record into a file.
    StartCapture { path: S, device: Option<S> },
    /// Remove a directory and what is in it.
    RemoveTree { path: S },
    /// End the recording and its file.
    StopCapture,
    /// Read the length of a recording.
    Measure { path: S },
    /// Save the state.
    Save,
    /// Tell the transcription that runs to stop.
    CancelWorker,
    /// Put a text on the clipboard.
    Copy { text: S },
    /// Write a file that is not there yet.
    Export { path: S, contents: S },
    /// Move a file.
    MoveFile { from: S, to: S },
    /// Remove the directories and the files that are there.
    RemoveSaved { trees: L, files: L },
    /// Remove a directory, if it is there and empty.
    RemoveIfEmpty { path: S },
    /// Ask the transcription that runs for its result.
    PollWorker,
    /// Start to transcribe the recording in a directory.
    Launch { tree: S },
}

/// What a new chunk is for.
#[derive(Clone, Copy, Debug, PartialEq, Eq, Structural)]
pub enum NewChunk {
    /// A recording that is about to start.
    Recording,
    /// A recording that was made before there were chunks.
    Legacy,
}

/// What happens next, once the outside has done its part.
#[derive(Debug)]
pub enum Wait<S = String, T = TranscriptionSettings> {
    SettingsLoaded { edited: BackendSettings<S>, api_key: Option<S> },
    KeySaved { settings: T },
    SettingsSaved,
    Reloaded,
    DevicesListed,
    DeviceChosen { device: S },
    Inspected,
    Stamped { cause: NewChunk },
    TreeMade { cause: NewChunk, id: S },
    CaptureStarted { index: usize },
    CaptureUndone { error: S },
    CaptureStopped { index: usize },
    StopFailed { error: S },
    Measured { index: usize },
    FileMoved { index: usize },
    LegacyMeasured { index: usize },
    CancelSaved { count: usize },
    CancelSent { count: usize },
    Copied,
    Exported { path: S },
    TabStamped { name: S },
    SavedRemoved,
    TreeRemoved,
    Saved,
    LaunchSaved { index: usize },
    Launched,
    Interrupted { message: S, ticking: bool },
    InterruptSaved { ticking: bool },
    Polled,
    AutoCopied,
}

/// What came of it.
#[derive(Debug)]
pub enum Outcome<S = String, L = Vec<String>, T = TranscriptionSettings> {
    Done,
    /// It failed: what failed, and that with all that led to it.
    Failed { plain: S, whole: S },
    Settings(Stored<T, S>),
    Reloaded { around: Surroundings<S>, settings: Stored<T, S>, known: Prerequisites<S> },
    Devices(L),
    Known(Prerequisites<S>),
    Stamp { nanos: u128, process: u32 },
    Device(S),
    Length(Option<u64>),
    Worker(Option<Result<S, S>>),
}

/// How a request goes on.
#[derive(Debug)]
pub enum Step<S = String, L = Vec<String>, T = TranscriptionSettings> {
    Done,
    Failed(Error<S>),
    Perform(Effect<S, L, T>, Wait<S, T>),
}

/// An effect as contracts see it.
pub type EffectModel = Effect<Seq<char>, Seq<Seq<char>>, TranscriptionSettingsModel>;

/// A wait as contracts see it.
pub type WaitModel = Wait<Seq<char>, TranscriptionSettingsModel>;

/// An outcome as contracts see it.
pub type OutcomeModel = Outcome<Seq<char>, Seq<Seq<char>>, TranscriptionSettingsModel>;

/// A step as contracts see it.
pub type StepModel = Step<Seq<char>, Seq<Seq<char>>, TranscriptionSettingsModel>;

impl DeepView for Effect {
    type V = EffectModel;

    open spec fn deep_view(&self) -> EffectModel {
        match *self {
            Effect::LoadSettings => Effect::LoadSettings,
            Effect::SaveApiKey { path, key } => Effect::SaveApiKey { path: path@, key: key@ },
            Effect::SaveSettings { path, settings } => Effect::SaveSettings {
                path: path@,
                settings: settings.deep_view(),
            },
            Effect::Reload => Effect::Reload,
            Effect::ListDevices => Effect::ListDevices,
            Effect::Inspect => Effect::Inspect,
            Effect::Stamp => Effect::Stamp,
            Effect::MakeTree { path } => Effect::MakeTree { path: path@ },
            Effect::StartCapture { path, device } => Effect::StartCapture {
                path: path@,
                device: device.deep_view(),
            },
            Effect::RemoveTree { path } => Effect::RemoveTree { path: path@ },
            Effect::StopCapture => Effect::StopCapture,
            Effect::Measure { path } => Effect::Measure { path: path@ },
            Effect::Save => Effect::Save,
            Effect::CancelWorker => Effect::CancelWorker,
            Effect::Copy { text } => Effect::Copy { text: text@ },
            Effect::Export { path, contents } => Effect::Export {
                path: path@,
                contents: contents@,
            },
            Effect::MoveFile { from, to } => Effect::MoveFile { from: from@, to: to@ },
            Effect::RemoveSaved { trees, files } => Effect::RemoveSaved {
                trees: trees.deep_view(),
                files: files.deep_view(),
            },
            Effect::RemoveIfEmpty { path } => Effect::RemoveIfEmpty { path: path@ },
            Effect::PollWorker => Effect::PollWorker,
            Effect::Launch { tree } => Effect::Launch { tree: tree@ },
        }
    }
}

impl DeepView for Wait {
    type V = WaitModel;

    open spec fn deep_view(&self) -> WaitModel {
        match *self {
            Wait::SettingsLoaded { edited, api_key } => Wait::SettingsLoaded {
                edited: edited.deep_view(),
                api_key: api_key.deep_view(),
            },
            Wait::KeySaved { settings } => Wait::KeySaved { settings: settings.deep_view() },
            Wait::SettingsSaved => Wait::SettingsSaved,
            Wait::Reloaded => Wait::Reloaded,
            Wait::DevicesListed => Wait::DevicesListed,
            Wait::DeviceChosen { device } => Wait::DeviceChosen { device: device@ },
            Wait::Inspected => Wait::Inspected,
            Wait::Stamped { cause } => Wait::Stamped { cause },
            Wait::TreeMade { cause, id } => Wait::TreeMade { cause, id: id@ },
            Wait::CaptureStarted { index } => Wait::CaptureStarted { index },
            Wait::CaptureUndone { error } => Wait::CaptureUndone { error: error@ },
            Wait::CaptureStopped { index } => Wait::CaptureStopped { index },
            Wait::StopFailed { error } => Wait::StopFailed { error: error@ },
            Wait::Measured { index } => Wait::Measured { index },
            Wait::FileMoved { index } => Wait::FileMoved { index },
            Wait::LegacyMeasured { index } => Wait::LegacyMeasured { index },
            Wait::CancelSaved { count } => Wait::CancelSaved { count },
            Wait::CancelSent { count } => Wait::CancelSent { count },
            Wait::Copied => Wait::Copied,
            Wait::Exported { path } => Wait::Exported { path: path@ },
            Wait::TabStamped { name } => Wait::TabStamped { name: name@ },
            Wait::SavedRemoved => Wait::SavedRemoved,
            Wait::TreeRemoved => Wait::TreeRemoved,
            Wait::Saved => Wait::Saved,
            Wait::LaunchSaved { index } => Wait::LaunchSaved { index },
            Wait::Launched => Wait::Launched,
            Wait::Interrupted { message, ticking } => Wait::Interrupted {
                message: message@,
                ticking,
            },
            Wait::InterruptSaved { ticking } => Wait::InterruptSaved { ticking },
            Wait::Polled => Wait::Polled,
            Wait::AutoCopied => Wait::AutoCopied,
        }
    }
}

/// The answer of a transcription as contracts see it.
pub open spec fn worker_view(answer: Option<Result<String, String>>) -> Option<
    Result<Seq<char>, Seq<char>>,
> {
    match answer {
        None => None,
        Some(Ok(words)) => Some(Ok(words@)),
        Some(Err(words)) => Some(Err(words@)),
    }
}

impl DeepView for Outcome {
    type V = OutcomeModel;

    open spec fn deep_view(&self) -> OutcomeModel {
        match *self {
            Outcome::Done => Outcome::Done,
            Outcome::Failed { plain, whole } => Outcome::Failed { plain: plain@, whole: whole@ },
            Outcome::Settings(stored) => Outcome::Settings(stored.deep_view()),
            Outcome::Reloaded { around, settings, known } => Outcome::Reloaded {
                around: around.deep_view(),
                settings: settings.deep_view(),
                known: known.deep_view(),
            },
            Outcome::Devices(names) => Outcome::Devices(names.deep_view()),
            Outcome::Known(known) => Outcome::Known(known.deep_view()),
            Outcome::Stamp { nanos, process } => Outcome::Stamp { nanos, process },
            Outcome::Device(name) => Outcome::Device(name@),
            Outcome::Length(seconds) => Outcome::Length(seconds),
            Outcome::Worker(answer) => Outcome::Worker(worker_view(answer)),
        }
    }
}

impl DeepView for Step {
    type V = StepModel;

    open spec fn deep_view(&self) -> StepModel {
        match *self {
            Step::Done => Step::Done,
            Step::Failed(error) => Step::Failed(error.deep_view()),
            Step::Perform(effect, wait) => Step::Perform(effect.deep_view(), wait.deep_view()),
        }
    }
}

/// Whether an outcome is of the kind that is waited for.
pub open spec fn fits(wait: WaitModel, outcome: OutcomeModel) -> bool {
    match wait {
        Wait::SettingsLoaded { .. } => outcome is Settings,
        Wait::Reloaded => outcome is Reloaded,
        Wait::DevicesListed => outcome is Devices || outcome is Failed,
        Wait::DeviceChosen { .. } => outcome is Devices || outcome is Failed,
        Wait::Inspected => outcome is Known,
        Wait::Stamped { .. } => outcome is Stamp || outcome is Failed,
        Wait::TabStamped { .. } => outcome is Stamp || outcome is Failed,
        Wait::CaptureStarted { .. } => outcome is Device || outcome is Failed,
        Wait::Measured { .. } => outcome is Length,
        Wait::LegacyMeasured { .. } => outcome is Length,
        Wait::Polled => outcome is Worker,
        Wait::CancelSent { .. } => outcome is Done,
        Wait::Launched => outcome is Done,
        _ => outcome is Done || outcome is Failed,
    }
}

impl Wait {
    /// Whether an outcome is of the kind that is waited for.
    pub fn accepts(&self, outcome: &Outcome) -> (answer: bool)
        ensures
            answer == fits(self.deep_view(), outcome.deep_view()),
    {
        match self {
            Wait::SettingsLoaded { .. } => matches!(outcome, Outcome::Settings(_)),
            Wait::Reloaded => matches!(outcome, Outcome::Reloaded { .. }),
            Wait::DevicesListed | Wait::DeviceChosen { .. } => matches!(
                outcome,
                Outcome::Devices(_) | Outcome::Failed { .. }
            ),
            Wait::Inspected => matches!(outcome, Outcome::Known(_)),
            Wait::Stamped { .. } | Wait::TabStamped { .. } => matches!(
                outcome,
                Outcome::Stamp { .. } | Outcome::Failed { .. }
            ),
            Wait::CaptureStarted { .. } => matches!(
                outcome,
                Outcome::Device(_) | Outcome::Failed { .. }
            ),
            Wait::Measured { .. } | Wait::LegacyMeasured { .. } => matches!(
                outcome,
                Outcome::Length(_)
            ),
            Wait::Polled => matches!(outcome, Outcome::Worker(_)),
            Wait::CancelSent { .. } | Wait::Launched => matches!(outcome, Outcome::Done),
            _ => matches!(outcome, Outcome::Done | Outcome::Failed { .. }),
        }
    }
}

/// Each thing that is waited for takes the outcomes that can come of it and no others: settings,
/// surroundings, microphones, needs, the clock, a microphone, a length or an answer where these were
/// asked for, a success elsewhere, and a failure where it can come.
pub proof fn law_outcomes_fit_what_was_asked(wait: WaitModel, outcome: OutcomeModel)
    ensures
        fits(wait, outcome) ==> {
            &&& outcome is Settings <==> wait is SettingsLoaded
            &&& outcome is Reloaded <==> wait is Reloaded
            &&& outcome is Known <==> wait is Inspected
            &&& outcome is Length <==> wait is Measured || wait is LegacyMeasured
            &&& outcome is Worker <==> wait is Polled
            &&& outcome is Devices ==> wait is DevicesListed || wait is DeviceChosen
            &&& outcome is Stamp ==> wait is Stamped || wait is TabStamped
            &&& outcome is Device ==> wait is CaptureStarted
        },
        outcome is Devices && (wait is DevicesListed || wait is DeviceChosen) ==> fits(
            wait,
            outcome,
        ),
        outcome is Stamp && (wait is Stamped || wait is TabStamped) ==> fits(wait, outcome),
        outcome is Device && wait is CaptureStarted ==> fits(wait, outcome),
        ({
            let asks = wait is SettingsLoaded || wait is Reloaded || wait is Inspected || wait
                is Measured || wait is LegacyMeasured || wait is Polled;
            let gets = wait is DevicesListed || wait is DeviceChosen || wait is Stamped || wait
                is TabStamped || wait is CaptureStarted;
            &&& outcome is Done ==> (fits(wait, outcome) <==> !asks && !gets)
            &&& outcome is Failed ==> (fits(wait, outcome) <==> !asks && !(wait is CancelSent)
                && !(wait is Launched))
        }),
{
}

} // verus!
