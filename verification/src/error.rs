//! Everything that can go wrong, and what the user is told about it.
use vstd::prelude::*;

verus! {

/// A reason for which a request is refused or given up.
///
/// `S` is the type of the texts inside: `String` in running code, a sequence of characters in
/// contracts.
#[derive(Debug)]
pub enum Error<S = String> {
    /// A failure that came from outside, in the words it came in.
    Outside(S),
    AlreadyRecording,
    NoTabToRecord,
    NotRecording,
    RecordingMetadataMissing,
    NothingToRetry,
    NothingToCopy,
    NoCompletedChunk,
    ChunkGone,
    TabGone,
    NoClosedTab,
    InvalidTabName,
    NoTabToClear,
    BusyClearing,
    BusyShuttingDown,
    MicrophoneInUse,
    MicrophoneGone,
    EmptyModel,
    InvalidApiKey,
    UnsupportedEnvironment,
    /// The saved key could not be parsed, with the parser's words.
    MalformedApiKey(S),
    UnreadableApiKey,
    ApiKeyMissing,
    HomeUnknown,
    /// The saved settings could not be parsed, with the parser's words.
    MalformedSettings(S),
    /// The saved settings could not be read, with the system's words.
    UnreadableSettings(S),
    /// The saved state could not be parsed, with the parser's words.
    MalformedState(S),
    BinaryMissing(S),
    ModelMissing(S),
    ExecutableGone,
    NoExportName,
    NothingToExport,
    RelativeExportPath,
    InvalidRequest,
    TranscriptionCanceled,
    NoAudioCaptured,
    /// The recording could not be converted, with the words for why.
    ConversionFailed(S),
    /// The local transcriber failed, with the words for why.
    WhisperFailed(S),
    /// A program could not be started: its name, and the system's words.
    CannotStart(S, S),
    /// The recording could not be read, with the system's words.
    UnreadableAudio(S),
    AudioTooLarge,
    /// No connection could be prepared, with the words for why.
    NoConnection(S),
    RequestTimedOut,
    ConnectionFailed,
    InvalidTranscript,
    KeyRejected,
    AccessDenied,
    ModelUnavailable,
    FileTooLarge,
    LimitReached,
    /// The service failed on its side, with the status line it answered.
    ServiceUnavailable(S),
    /// The service refused, with the status line it answered.
    ServiceRefused(S),
    WorkerStopped,
    /// The recorder is there but does not answer, with the words for why.
    NotResponding(S),
    NoTerminal,
    NoConverter,
    /// The recorder could not be started, with the path of its log.
    RecorderUnavailable(S),
}

impl DeepView for Error {
    type V = Error<Seq<char>>;

    open spec fn deep_view(&self) -> Error<Seq<char>> {
        match *self {
            Error::Outside(s) => Error::Outside(s@),
            Error::AlreadyRecording => Error::AlreadyRecording,
            Error::NoTabToRecord => Error::NoTabToRecord,
            Error::NotRecording => Error::NotRecording,
            Error::RecordingMetadataMissing => Error::RecordingMetadataMissing,
            Error::NothingToRetry => Error::NothingToRetry,
            Error::NothingToCopy => Error::NothingToCopy,
            Error::NoCompletedChunk => Error::NoCompletedChunk,
            Error::ChunkGone => Error::ChunkGone,
            Error::TabGone => Error::TabGone,
            Error::NoClosedTab => Error::NoClosedTab,
            Error::InvalidTabName => Error::InvalidTabName,
            Error::NoTabToClear => Error::NoTabToClear,
            Error::BusyClearing => Error::BusyClearing,
            Error::BusyShuttingDown => Error::BusyShuttingDown,
            Error::MicrophoneInUse => Error::MicrophoneInUse,
            Error::MicrophoneGone => Error::MicrophoneGone,
            Error::EmptyModel => Error::EmptyModel,
            Error::InvalidApiKey => Error::InvalidApiKey,
            Error::UnsupportedEnvironment => Error::UnsupportedEnvironment,
            Error::MalformedApiKey(s) => Error::MalformedApiKey(s@),
            Error::UnreadableApiKey => Error::UnreadableApiKey,
            Error::ApiKeyMissing => Error::ApiKeyMissing,
            Error::HomeUnknown => Error::HomeUnknown,
            Error::MalformedSettings(s) => Error::MalformedSettings(s@),
            Error::UnreadableSettings(s) => Error::UnreadableSettings(s@),
            Error::MalformedState(s) => Error::MalformedState(s@),
            Error::BinaryMissing(s) => Error::BinaryMissing(s@),
            Error::ModelMissing(s) => Error::ModelMissing(s@),
            Error::ExecutableGone => Error::ExecutableGone,
            Error::NoExportName => Error::NoExportName,
            Error::NothingToExport => Error::NothingToExport,
            Error::RelativeExportPath => Error::RelativeExportPath,
            Error::InvalidRequest => Error::InvalidRequest,
            Error::TranscriptionCanceled => Error::TranscriptionCanceled,
            Error::NoAudioCaptured => Error::NoAudioCaptured,
            Error::ConversionFailed(s) => Error::ConversionFailed(s@),
            Error::WhisperFailed(s) => Error::WhisperFailed(s@),
            Error::CannotStart(name, s) => Error::CannotStart(name@, s@),
            Error::UnreadableAudio(s) => Error::UnreadableAudio(s@),
            Error::AudioTooLarge => Error::AudioTooLarge,
            Error::NoConnection(s) => Error::NoConnection(s@),
            Error::RequestTimedOut => Error::RequestTimedOut,
            Error::ConnectionFailed => Error::ConnectionFailed,
            Error::InvalidTranscript => Error::InvalidTranscript,
            Error::KeyRejected => Error::KeyRejected,
            Error::AccessDenied => Error::AccessDenied,
            Error::ModelUnavailable => Error::ModelUnavailable,
            Error::FileTooLarge => Error::FileTooLarge,
            Error::LimitReached => Error::LimitReached,
            Error::ServiceUnavailable(s) => Error::ServiceUnavailable(s@),
            Error::ServiceRefused(s) => Error::ServiceRefused(s@),
            Error::WorkerStopped => Error::WorkerStopped,
            Error::NotResponding(s) => Error::NotResponding(s@),
            Error::NoTerminal => Error::NoTerminal,
            Error::NoConverter => Error::NoConverter,
            Error::RecorderUnavailable(s) => Error::RecorderUnavailable(s@),
        }
    }
}

/// The words for an error.
pub open spec fn error_text(error: Error<Seq<char>>) -> Seq<char> {
    match error {
        Error::Outside(s) => s,
        Error::AlreadyRecording => "Already recording."@,
        Error::NoTabToRecord => "Create or reopen a tab before recording."@,
        Error::NotRecording => "No recording to stop."@,
        Error::RecordingMetadataMissing => "Recording metadata missing"@,
        Error::NothingToRetry => "No finished or failed chunk to retry."@,
        Error::NothingToCopy => "No transcript to copy yet."@,
        Error::NoCompletedChunk => "No completed chunk to copy yet."@,
        Error::ChunkGone => "Chunk is no longer available."@,
        Error::TabGone => "Tab is no longer available."@,
        Error::NoClosedTab => "No closed tabs to reopen."@,
        Error::InvalidTabName => "Tab names must contain 1–48 printable characters."@,
        Error::NoTabToClear => "Select a tab before clearing."@,
        Error::BusyClearing => "Finish recording and let the queue drain before clearing."@,
        Error::BusyShuttingDown =>
            "Finish recording and let the queue drain before shutting down."@,
        Error::MicrophoneInUse => "Stop recording before changing microphone."@,
        Error::MicrophoneGone => "Microphone is no longer available. Refresh the picker."@,
        Error::EmptyModel => "OpenAI model cannot be empty"@,
        Error::InvalidApiKey => "API key contains invalid characters"@,
        Error::UnsupportedEnvironment =>
            "Only GGML_, VK_ and MESA_ backend environment settings are supported"@,
        Error::MalformedApiKey(s) => "Could not read saved API key: "@ + s,
        Error::UnreadableApiKey => "Could not read saved API key"@,
        Error::ApiKeyMissing => "Add an OpenAI API key in settings or set OPENAI_API_KEY"@,
        Error::HomeUnknown => "Cannot determine home directory"@,
        Error::MalformedSettings(s) => "Invalid transcription settings: "@ + s,
        Error::UnreadableSettings(s) => "Could not read transcription settings: "@ + s,
        Error::MalformedState(s) => "Could not read saved state: "@ + s,
        Error::BinaryMissing(s) => "Whisper executable missing: "@ + s
            + ". Set WHISPER_BINARY or change settings."@,
        Error::ModelMissing(s) => "Whisper model missing: "@ + s
            + ". Set WHISPER_MODEL or change settings."@,
        Error::ExecutableGone =>
            "Pasteface executable is unavailable. Reinstall it and reopen the tray."@,
        Error::NoExportName => "Choose an export filename."@,
        Error::NothingToExport => "No transcript to export yet."@,
        Error::RelativeExportPath => "Export requires an absolute save path."@,
        Error::InvalidRequest => "Invalid request"@,
        Error::TranscriptionCanceled => "Transcription canceled"@,
        Error::NoAudioCaptured => "No audio captured. Check your microphone."@,
        Error::ConversionFailed(s) => "Audio conversion failed: "@ + s,
        Error::WhisperFailed(s) => "Whisper failed: "@ + s,
        Error::CannotStart(name, s) => "Could not start "@ + name + ": "@ + s,
        Error::UnreadableAudio(s) => "Cannot read recorded audio: "@ + s,
        Error::AudioTooLarge =>
            "Recording exceeds OpenAI's 25 MB file limit. Use shorter chunks or the local provider."@,
        Error::NoConnection(s) => "Cannot initialize transcription connection: "@ + s,
        Error::RequestTimedOut => "OpenAI transcription timed out; recording is retained"@,
        Error::ConnectionFailed => "Could not connect to OpenAI; check your connection"@,
        Error::InvalidTranscript => "OpenAI returned an invalid transcript"@,
        Error::KeyRejected => "OpenAI rejected the API key. Update it in settings."@,
        Error::AccessDenied => "OpenAI access denied. Check project and model permissions."@,
        Error::ModelUnavailable => "OpenAI model unavailable. Check the model in settings."@,
        Error::FileTooLarge =>
            "Recording exceeds OpenAI's file size limit. Use shorter chunks."@,
        Error::LimitReached =>
            "OpenAI rate or billing limit reached. Check your API account."@,
        Error::ServiceUnavailable(s) => "OpenAI is temporarily unavailable (HTTP "@ + s
            + "). Recording is retained."@,
        Error::ServiceRefused(s) => "OpenAI transcription failed (HTTP "@ + s
            + "). Check model and audio settings."@,
        Error::WorkerStopped => "Transcription worker stopped unexpectedly"@,
        Error::NotResponding(s) => "Recorder is not responding: "@ + s,
        Error::NoTerminal => "No terminal found. Set TERMINAL to your terminal executable."@,
        Error::NoConverter => "ffmpeg is unavailable"@,
        Error::RecorderUnavailable(s) => "Could not start recorder. See "@ + s,
    }
}

fn between(before: &str, text: &String, after: &str) -> (s: String)
    ensures
        s@ == before@ + text@ + after@,
{
    let mut s = before.to_owned();
    s.append(text.as_str());
    s.append(after);
    s
}

fn before(words: &str, text: &String) -> (s: String)
    ensures
        s@ == words@ + text@,
{
    let mut s = words.to_owned();
    s.append(text.as_str());
    s
}

impl Error {
    /// The words for this error.
    pub fn message(&self) -> (text: String)
        ensures
            text@ == error_text(self.deep_view()),
    {
        match self {
            Error::Outside(s) => s.clone(),
            Error::AlreadyRecording => "Already recording.".to_owned(),
            Error::NoTabToRecord => "Create or reopen a tab before recording.".to_owned(),
            Error::NotRecording => "No recording to stop.".to_owned(),
            Error::RecordingMetadataMissing => "Recording metadata missing".to_owned(),
            Error::NothingToRetry => "No finished or failed chunk to retry.".to_owned(),
            Error::NothingToCopy => "No transcript to copy yet.".to_owned(),
            Error::NoCompletedChunk => "No completed chunk to copy yet.".to_owned(),
            Error::ChunkGone => "Chunk is no longer available.".to_owned(),
            Error::TabGone => "Tab is no longer available.".to_owned(),
            Error::NoClosedTab => "No closed tabs to reopen.".to_owned(),
            Error::InvalidTabName =>
                "Tab names must contain 1–48 printable characters.".to_owned(),
            Error::NoTabToClear => "Select a tab before clearing.".to_owned(),
            Error::BusyClearing =>
                "Finish recording and let the queue drain before clearing.".to_owned(),
            Error::BusyShuttingDown =>
                "Finish recording and let the queue drain before shutting down.".to_owned(),
            Error::MicrophoneInUse => "Stop recording before changing microphone.".to_owned(),
            Error::MicrophoneGone =>
                "Microphone is no longer available. Refresh the picker.".to_owned(),
            Error::EmptyModel => "OpenAI model cannot be empty".to_owned(),
            Error::InvalidApiKey => "API key contains invalid characters".to_owned(),
            Error::UnsupportedEnvironment =>
                "Only GGML_, VK_ and MESA_ backend environment settings are supported".to_owned(),
            Error::MalformedApiKey(s) => before("Could not read saved API key: ", s),
            Error::UnreadableApiKey => "Could not read saved API key".to_owned(),
            Error::ApiKeyMissing =>
                "Add an OpenAI API key in settings or set OPENAI_API_KEY".to_owned(),
            Error::HomeUnknown => "Cannot determine home directory".to_owned(),
            Error::MalformedSettings(s) => before("Invalid transcription settings: ", s),
            Error::UnreadableSettings(s) => before("Could not read transcription settings: ", s),
            Error::MalformedState(s) => before("Could not read saved state: ", s),
            Error::BinaryMissing(s) => between(
                "Whisper executable missing: ",
                s,
                ". Set WHISPER_BINARY or change settings.",
            ),
            Error::ModelMissing(s) => between(
                "Whisper model missing: ",
                s,
                ". Set WHISPER_MODEL or change settings.",
            ),
            Error::ExecutableGone =>
                "Pasteface executable is unavailable. Reinstall it and reopen the tray.".to_owned(),
            Error::NoExportName => "Choose an export filename.".to_owned(),
            Error::NothingToExport => "No transcript to export yet.".to_owned(),
            Error::RelativeExportPath => "Export requires an absolute save path.".to_owned(),
            Error::InvalidRequest => "Invalid request".to_owned(),
            Error::TranscriptionCanceled => "Transcription canceled".to_owned(),
            Error::NoAudioCaptured => "No audio captured. Check your microphone.".to_owned(),
            Error::ConversionFailed(s) => before("Audio conversion failed: ", s),
            Error::WhisperFailed(s) => before("Whisper failed: ", s),
            Error::CannotStart(name, s) => {
                let mut words = between("Could not start ", name, ": ");
                words.append(s.as_str());
                words
            },
            Error::UnreadableAudio(s) => before("Cannot read recorded audio: ", s),
            Error::NoConnection(s) => before("Cannot initialize transcription connection: ", s),
            Error::AudioTooLarge =>
                "Recording exceeds OpenAI's 25 MB file limit. Use shorter chunks or the local provider.".to_owned(),
            Error::RequestTimedOut =>
                "OpenAI transcription timed out; recording is retained".to_owned(),
            Error::ConnectionFailed =>
                "Could not connect to OpenAI; check your connection".to_owned(),
            Error::InvalidTranscript => "OpenAI returned an invalid transcript".to_owned(),
            Error::KeyRejected =>
                "OpenAI rejected the API key. Update it in settings.".to_owned(),
            Error::AccessDenied =>
                "OpenAI access denied. Check project and model permissions.".to_owned(),
            Error::ModelUnavailable =>
                "OpenAI model unavailable. Check the model in settings.".to_owned(),
            Error::FileTooLarge =>
                "Recording exceeds OpenAI's file size limit. Use shorter chunks.".to_owned(),
            Error::LimitReached =>
                "OpenAI rate or billing limit reached. Check your API account.".to_owned(),
            Error::ServiceUnavailable(s) => between(
                "OpenAI is temporarily unavailable (HTTP ",
                s,
                "). Recording is retained.",
            ),
            Error::ServiceRefused(s) => between(
                "OpenAI transcription failed (HTTP ",
                s,
                "). Check model and audio settings.",
            ),
            Error::NotResponding(s) => before("Recorder is not responding: ", s),
            Error::NoTerminal =>
                "No terminal found. Set TERMINAL to your terminal executable.".to_owned(),
            Error::NoConverter => "ffmpeg is unavailable".to_owned(),
            Error::WorkerStopped => "Transcription worker stopped unexpectedly".to_owned(),
            Error::RecorderUnavailable(s) => before("Could not start recorder. See ", s),
        }
    }
}

} // verus!
