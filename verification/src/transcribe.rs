//! The transcription of one recording, step by step: it is converted, and then handed to the
//! local transcriber or sent to the remote one.

use crate::config::{
    copied_environment, distinct_names, key_in_force, model_refusal, Acceleration, Config, ConfigModel,
    Environment, Prerequisites, Provider,
};
use crate::error::{error_text, Error};
use crate::paths;
use crate::paths::path_join;
use crate::provider;
use crate::provider::{possible, size_view, understood, upload_refusal, Response};
use crate::text::trimmed;
use vstd::prelude::*;

verus! {

/// A program to be run, and the file for what it says.
#[derive(Debug)]
pub struct CommandLine {
    pub program: String,
    pub arguments: Vec<String>,
    pub environment: Environment,
    pub log: String,
}

/// A program to be run, as contracts see it.
#[verifier::ext_equal]
pub struct CommandModel {
    pub program: Seq<char>,
    pub arguments: Seq<Seq<char>>,
    pub environment: Seq<(Seq<char>, Seq<char>)>,
    pub log: Seq<char>,
}

impl DeepView for CommandLine {
    type V = CommandModel;

    open spec fn deep_view(&self) -> CommandModel {
        CommandModel {
            program: self.program@,
            arguments: self.arguments.deep_view(),
            environment: self.environment.deep_view(),
            log: self.log@,
        }
    }
}

/// What is to be done next.
#[derive(Debug)]
pub enum Work<S = String, C = CommandLine> {
    /// Look what there is, and how large the recording is.
    Inspect { recording: S },
    /// Run a program until it ends.
    Run(C),
    /// Remove a file, if it is there.
    Remove { path: S },
    /// Read a text.
    Read { path: S },
    /// Look how large the converted recording is, and which key there is.
    Weigh { audio: S },
    /// Send the converted recording.
    Upload { audio: S, key: S, model: S },
}

/// What is to be done next, as contracts see it.
pub type WorkModel = Work<Seq<char>, CommandModel>;

impl DeepView for Work {
    type V = WorkModel;

    open spec fn deep_view(&self) -> WorkModel {
        match *self {
            Work::Inspect { recording } => Work::Inspect { recording: recording@ },
            Work::Run(command) => Work::Run(command.deep_view()),
            Work::Remove { path } => Work::Remove { path: path@ },
            Work::Read { path } => Work::Read { path: path@ },
            Work::Weigh { audio } => Work::Weigh { audio: audio@ },
            Work::Upload { audio, key, model } => Work::Upload {
                audio: audio@,
                key: key@,
                model: model@,
            },
        }
    }
}

/// How far a transcription has come.
#[derive(Clone, Copy, Debug, PartialEq, Eq, Structural)]
pub enum Stage {
    Inspecting,
    Converting,
    Removing,
    Transcribing,
    Reading,
    Weighing,
    Uploading,
}

/// What came of what was done.
#[derive(Debug)]
pub enum Found<S = String, P = Prerequisites, E = Error> {
    Inspected { canceled: bool, known: P, size: Result<u64, S> },
    Ran(Result<(), E>),
    Removed(Result<(), S>),
    Text(Result<S, S>),
    Weighed { canceled: bool, size: Result<u64, S>, known: P },
    Replied(Response<S>),
}

/// What came of what was done, as contracts see it.
pub type FoundModel = Found<Seq<char>, Prerequisites<Seq<char>>, Error<Seq<char>>>;

/// A result without a value, as contracts see it.
pub open spec fn done_view(result: Result<(), String>) -> Result<(), Seq<char>> {
    match result {
        Ok(_) => Ok(()),
        Err(words) => Err(words@),
    }
}

impl DeepView for Found {
    type V = FoundModel;

    open spec fn deep_view(&self) -> FoundModel {
        match *self {
            Found::Inspected { canceled, known, size } => Found::Inspected {
                canceled,
                known: known.deep_view(),
                size: size_view(size),
            },
            Found::Ran(result) => Found::Ran(
                match result {
                    Ok(_) => Ok(()),
                    Err(error) => Err(error.deep_view()),
                },
            ),
            Found::Removed(result) => Found::Removed(done_view(result)),
            Found::Text(result) => Found::Text(
                match result {
                    Ok(text) => Ok(text@),
                    Err(words) => Err(words@),
                },
            ),
            Found::Weighed { canceled, size, known } => Found::Weighed {
                canceled,
                size: size_view(size),
                known: known.deep_view(),
            },
            Found::Replied(response) => Found::Replied(response.deep_view()),
        }
    }
}

/// Whether something can have come of what a stage waits for.
pub open spec fn fits(stage: Stage, found: FoundModel) -> bool {
    match stage {
        Stage::Inspecting => found is Inspected,
        Stage::Converting => found is Ran,
        Stage::Removing => found is Removed,
        Stage::Transcribing => found is Ran,
        Stage::Reading => found is Text,
        Stage::Weighing => found is Weighed,
        Stage::Uploading => found matches Found::Replied(response) && possible(response),
    }
}

impl Stage {
    /// Whether something can have come of what this stage waits for.
    pub fn accepts(self, found: &Found) -> (answer: bool)
        ensures
            answer == fits(self, found.deep_view()),
    {
        match found {
            Found::Inspected { .. } => self == Stage::Inspecting,
            Found::Ran(_) => self == Stage::Converting || self == Stage::Transcribing,
            Found::Removed(_) => self == Stage::Removing,
            Found::Text(_) => self == Stage::Reading,
            Found::Weighed { .. } => self == Stage::Weighing,
            Found::Replied(response) => self == Stage::Uploading && response.is_possible(),
        }
    }
}

/// How a transcription goes on, or ends.
#[derive(Debug)]
pub enum Progress<S = String, W = Work, E = Error> {
    Perform(W, Stage),
    Done(S),
    Failed(E),
}

/// How a transcription goes on, as contracts see it.
pub type ProgressModel = Progress<Seq<char>, WorkModel, Error<Seq<char>>>;

impl DeepView for Progress {
    type V = ProgressModel;

    open spec fn deep_view(&self) -> ProgressModel {
        match *self {
            Progress::Perform(work, stage) => Progress::Perform(work.deep_view(), stage),
            Progress::Done(text) => Progress::Done(text@),
            Progress::Failed(error) => Progress::Failed(error.deep_view()),
        }
    }
}

/// How large a file with a header and no sound in it is, in bytes.
pub const EMPTY_RECORDING: u64 = 44;

/// The recording in a directory.
pub open spec fn recording_in(tree: Seq<char>) -> Seq<char> {
    path_join(tree, "recording.wav"@)
}

/// The converted recording in a directory.
pub open spec fn converted_in(tree: Seq<char>) -> Seq<char> {
    path_join(tree, "whisper.wav"@)
}

/// The text of the local transcriber in a directory, without its ending.
pub open spec fn output_in(tree: Seq<char>) -> Seq<char> {
    path_join(tree, "whisper-output"@)
}

/// The text of the local transcriber in a directory.
pub open spec fn text_in(tree: Seq<char>) -> Seq<char> {
    path_join(tree, "whisper-output.txt"@)
}

/// The conversion of the recording in a directory: sixteen thousand samples a second, in one
/// channel.
pub open spec fn conversion(tree: Seq<char>) -> CommandModel {
    CommandModel {
        program: "ffmpeg"@,
        arguments: seq![
            "-nostdin"@,
            "-v"@,
            "error"@,
            "-y"@,
            "-i"@,
            recording_in(tree),
            "-ar"@,
            "16000"@,
            "-ac"@,
            "1"@,
            "-c:a"@,
            "pcm_s16le"@,
            converted_in(tree),
        ],
        environment: Seq::empty(),
        log: path_join(tree, "ffmpeg.log"@),
    }
}

/// The local transcription of the converted recording in a directory.
pub open spec fn local_transcription(config: ConfigModel, tree: Seq<char>) -> CommandModel {
    CommandModel {
        program: config.binary,
        arguments: seq![
            "-m"@,
            config.model,
            "-f"@,
            converted_in(tree),
            "-nt"@,
            "-otxt"@,
            "-of"@,
            output_in(tree),
        ] + (if config.acceleration == Acceleration::Cpu {
            seq!["-ng"@]
        } else {
            Seq::empty()
        }),
        environment: config.whisper_environment,
        log: path_join(tree, "whisper.log"@),
    }
}

/// How a transcription begins.
pub open spec fn begun(tree: Seq<char>) -> ProgressModel {
    Progress::Perform(Work::Inspect { recording: recording_in(tree) }, Stage::Inspecting)
}

/// What comes of the look at what there is.
pub open spec fn inspected(
    config: ConfigModel,
    tree: Seq<char>,
    canceled: bool,
    known: Prerequisites<Seq<char>>,
    size: Result<u64, Seq<char>>,
) -> ProgressModel {
    if canceled {
        Progress::Failed(Error::TranscriptionCanceled)
    } else {
        match model_refusal(config, known) {
            Some(error) => Progress::Failed(error),
            None => match size {
                Err(words) => Progress::Failed(Error::Outside(words)),
                Ok(size) => if size <= EMPTY_RECORDING {
                    Progress::Failed(Error::NoAudioCaptured)
                } else {
                    Progress::Perform(Work::Run(conversion(tree)), Stage::Converting)
                },
            },
        }
    }
}

/// What comes of the look at the converted recording.
pub open spec fn weighed(
    config: ConfigModel,
    tree: Seq<char>,
    canceled: bool,
    size: Result<u64, Seq<char>>,
    known: Prerequisites<Seq<char>>,
) -> ProgressModel {
    match upload_refusal(canceled, size) {
        Some(error) => Progress::Failed(error),
        None => match key_in_force(known.stored_key, known.environment_key) {
            Err(error) => Progress::Failed(error),
            Ok(key) => Progress::Perform(
                Work::Upload { audio: converted_in(tree), key, model: config.openai_model },
                Stage::Uploading,
            ),
        },
    }
}

/// How a transcription goes on with what came of what it waited for.
pub open spec fn resumed(
    config: ConfigModel,
    tree: Seq<char>,
    stage: Stage,
    found: FoundModel,
) -> ProgressModel {
    match found {
        Found::Inspected { canceled, known, size } => inspected(
            config,
            tree,
            canceled,
            known,
            size,
        ),
        Found::Ran(Err(error)) => Progress::Failed(
            if stage == Stage::Converting {
                Error::ConversionFailed(error_text(error))
            } else {
                Error::WhisperFailed(error_text(error))
            },
        ),
        Found::Ran(Ok(_)) => if stage != Stage::Converting {
            Progress::Perform(Work::Read { path: text_in(tree) }, Stage::Reading)
        } else if config.provider == Provider::OpenAi {
            Progress::Perform(Work::Weigh { audio: converted_in(tree) }, Stage::Weighing)
        } else {
            Progress::Perform(Work::Remove { path: text_in(tree) }, Stage::Removing)
        },
        Found::Removed(Err(words)) => Progress::Failed(Error::Outside(words)),
        Found::Removed(Ok(_)) => Progress::Perform(
            Work::Run(local_transcription(config, tree)),
            Stage::Transcribing,
        ),
        Found::Text(Ok(text)) => Progress::Done(trimmed(text)),
        Found::Text(Err(words)) => Progress::Failed(Error::Outside(words)),
        Found::Weighed { canceled, size, known } => weighed(config, tree, canceled, size, known),
        Found::Replied(response) => match understood(response) {
            Ok(text) => Progress::Done(text),
            Err(error) => Progress::Failed(error),
        },
    }
}

fn convert(tree: &str) -> (command: CommandLine)
    ensures
        command.deep_view() == conversion(tree@),
{
    let arguments = vec![
        "-nostdin".to_owned(),
        "-v".to_owned(),
        "error".to_owned(),
        "-y".to_owned(),
        "-i".to_owned(),
        paths::join(tree, "recording.wav"),
        "-ar".to_owned(),
        "16000".to_owned(),
        "-ac".to_owned(),
        "1".to_owned(),
        "-c:a".to_owned(),
        "pcm_s16le".to_owned(),
        paths::join(tree, "whisper.wav"),
    ];
    let command = CommandLine {
        program: "ffmpeg".to_owned(),
        arguments,
        environment: Vec::new(),
        log: paths::join(tree, "ffmpeg.log"),
    };
    proof {
        assert(command.arguments.deep_view() =~= conversion(tree@).arguments);
        assert(command.environment.deep_view() =~= Seq::empty());
    }
    command
}

fn transcribe_locally(config: &Config, tree: &str) -> (command: CommandLine)
    ensures
        command.deep_view() == local_transcription(config.deep_view(), tree@),
{
    let mut arguments = vec![
        "-m".to_owned(),
        config.model.clone(),
        "-f".to_owned(),
        paths::join(tree, "whisper.wav"),
        "-nt".to_owned(),
        "-otxt".to_owned(),
        "-of".to_owned(),
        paths::join(tree, "whisper-output"),
    ];
    if config.acceleration == Acceleration::Cpu {
        arguments.push("-ng".to_owned());
    }
    let command = CommandLine {
        program: config.binary.clone(),
        arguments,
        environment: copied_environment(&config.whisper_environment),
        log: paths::join(tree, "whisper.log"),
    };
    proof {
        assert(command.arguments.deep_view() =~= local_transcription(
            config.deep_view(),
            tree@,
        ).arguments);
    }
    command
}

/// Begins the transcription of the recording in a directory.
pub fn begin(tree: &str) -> (progress: Progress)
    ensures
        progress.deep_view() == begun(tree@),
{
    Progress::Perform(
        Work::Inspect { recording: paths::join(tree, "recording.wav") },
        Stage::Inspecting,
    )
}

fn go_on_inspected(
    config: &Config,
    tree: &str,
    canceled: bool,
    known: &Prerequisites,
    size: Result<u64, String>,
) -> (progress: Progress)
    ensures
        progress.deep_view() == inspected(
            config.deep_view(),
            tree@,
            canceled,
            known.deep_view(),
            size_view(size),
        ),
{
    if canceled {
        return Progress::Failed(Error::TranscriptionCanceled);
    }
    if let Err(error) = config.check_model(known) {
        return Progress::Failed(error);
    }
    match size {
        Err(words) => Progress::Failed(Error::Outside(words)),
        Ok(size) => if size <= EMPTY_RECORDING {
            Progress::Failed(Error::NoAudioCaptured)
        } else {
            Progress::Perform(Work::Run(convert(tree)), Stage::Converting)
        },
    }
}

fn go_on_weighed(
    config: &Config,
    tree: &str,
    canceled: bool,
    size: Result<u64, String>,
    known: &Prerequisites,
) -> (progress: Progress)
    ensures
        progress.deep_view() == weighed(
            config.deep_view(),
            tree@,
            canceled,
            size_view(size),
            known.deep_view(),
        ),
{
    if let Err(error) = provider::check_upload(canceled, &size) {
        return Progress::Failed(error);
    }
    match config.openai_api_key(&known.stored_key, &known.environment_key) {
        Err(error) => Progress::Failed(error),
        Ok(key) => Progress::Perform(
            Work::Upload {
                audio: paths::join(tree, "whisper.wav"),
                key,
                model: config.openai_model.clone(),
            },
            Stage::Uploading,
        ),
    }
}

/// Goes on with what came of what was waited for.
pub fn resume(config: &Config, tree: &str, stage: Stage, found: Found) -> (progress: Progress)
    requires
        fits(stage, found.deep_view()),
    ensures
        progress.deep_view() == resumed(config.deep_view(), tree@, stage, found.deep_view()),
{
    match found {
        Found::Inspected { canceled, known, size } => go_on_inspected(
            config,
            tree,
            canceled,
            &known,
            size,
        ),
        Found::Ran(result) => match result {
            Err(error) => Progress::Failed(
                if stage == Stage::Converting {
                    Error::ConversionFailed(error.message())
                } else {
                    Error::WhisperFailed(error.message())
                },
            ),
            Ok(_) => if stage != Stage::Converting {
                Progress::Perform(
                    Work::Read { path: paths::join(tree, "whisper-output.txt") },
                    Stage::Reading,
                )
            } else if config.provider == Provider::OpenAi {
                Progress::Perform(
                    Work::Weigh { audio: paths::join(tree, "whisper.wav") },
                    Stage::Weighing,
                )
            } else {
                Progress::Perform(
                    Work::Remove { path: paths::join(tree, "whisper-output.txt") },
                    Stage::Removing,
                )
            },
        },
        Found::Removed(result) => match result {
            Err(words) => Progress::Failed(Error::Outside(words)),
            Ok(_) => Progress::Perform(
                Work::Run(transcribe_locally(config, tree)),
                Stage::Transcribing,
            ),
        },
        Found::Text(result) => match result {
            Ok(text) => Progress::Done(text.as_str().trim().to_owned()),
            Err(words) => Progress::Failed(Error::Outside(words)),
        },
        Found::Weighed { canceled, size, known } => go_on_weighed(
            config,
            tree,
            canceled,
            size,
            &known,
        ),
        Found::Replied(response) => match provider::understand(response) {
            Ok(text) => Progress::Done(text),
            Err(error) => Progress::Failed(error),
        },
    }
}

/// What is to be done about a program that was started.
#[derive(Debug)]
pub enum Watch<E = Error> {
    /// Look again in a little while.
    Wait,
    /// Kill it with all it started, and give up.
    Kill(E),
    /// It has ended.
    Ended(Result<(), E>),
}

/// What is to be done about a program, as contracts see it.
pub type WatchModel = Watch<Error<Seq<char>>>;

impl DeepView for Watch {
    type V = WatchModel;

    open spec fn deep_view(&self) -> WatchModel {
        match *self {
            Watch::Wait => Watch::Wait,
            Watch::Kill(error) => Watch::Kill(error.deep_view()),
            Watch::Ended(result) => Watch::Ended(
                match result {
                    Ok(_) => Ok(()),
                    Err(error) => Err(error.deep_view()),
                },
            ),
        }
    }
}

/// What is to be done about a program that has ended or not: of one that ended badly, the words
/// that it left.
pub open spec fn watched(canceled: bool, ended: Option<Result<(), Seq<char>>>) -> WatchModel {
    if canceled {
        Watch::Kill(Error::TranscriptionCanceled)
    } else {
        match ended {
            None => Watch::Wait,
            Some(Ok(_)) => Watch::Ended(Ok(())),
            Some(Err(words)) => Watch::Ended(Err(Error::Outside(words))),
        }
    }
}

/// What is to be done about a program that has ended or not: of one that ended badly, the words
/// that it left. What is called off is killed, even where it has just ended.
pub fn watch(canceled: bool, ended: Option<Result<(), String>>) -> (next: Watch)
    ensures
        next.deep_view() == watched(
            canceled,
            match ended {
                Some(result) => Some(done_view(result)),
                None => None,
            },
        ),
{
    if canceled {
        return Watch::Kill(Error::TranscriptionCanceled);
    }
    match ended {
        None => Watch::Wait,
        Some(Ok(_)) => Watch::Ended(Ok(())),
        Some(Err(words)) => Watch::Ended(Err(Error::Outside(words))),
    }
}

/// Nothing is sent anywhere unless the remote transcriber is selected: neither is a recording
/// looked at for it, nor uploaded.
pub proof fn law_nothing_leaves_unasked(
    config: ConfigModel,
    tree: Seq<char>,
    stage: Stage,
    found: FoundModel,
)
    requires
        config.provider != Provider::OpenAi,
        fits(stage, found),
        stage != Stage::Weighing,
        stage != Stage::Uploading,
    ensures
        resumed(config, tree, stage, found) matches Progress::Perform(work, next) ==> {
            &&& work !is Upload
            &&& work !is Weigh
            &&& next != Stage::Weighing
            &&& next != Stage::Uploading
        },
{
}

/// A transcription goes forward only, so it ends: every step leads to a later one, or to the end.
pub proof fn law_transcription_ends(
    config: ConfigModel,
    tree: Seq<char>,
    stage: Stage,
    found: FoundModel,
)
    requires
        fits(stage, found),
    ensures
        resumed(config, tree, stage, found) matches Progress::Perform(_, next) ==> rank(next)
            > rank(stage),
{
}

/// How far along a stage is.
pub open spec fn rank(stage: Stage) -> int {
    match stage {
        Stage::Inspecting => 0,
        Stage::Converting => 1,
        Stage::Removing => 2,
        Stage::Transcribing => 3,
        Stage::Reading => 4,
        Stage::Weighing => 5,
        Stage::Uploading => 6,
    }
}

/// What was called off before it began runs no program.
pub proof fn law_canceled_runs_nothing(
    config: ConfigModel,
    tree: Seq<char>,
    known: Prerequisites<Seq<char>>,
    size: Result<u64, Seq<char>>,
)
    ensures
        inspected(config, tree, true, known, size) == ProgressModel::Failed(
            Error::TranscriptionCanceled,
        ),
        weighed(config, tree, true, size, known) == ProgressModel::Failed(
            Error::TranscriptionCanceled,
        ),
{
}

/// Where no variable is in force twice, no program is given one twice.
pub proof fn law_variables_stay_distinct(
    config: ConfigModel,
    tree: Seq<char>,
    stage: Stage,
    found: FoundModel,
)
    requires
        fits(stage, found),
        distinct_names(config.whisper_environment),
    ensures
        resumed(config, tree, stage, found) matches Progress::Perform(work, _) ==> (work matches
            Work::Run(command) ==> distinct_names(command.environment)),
{
}

/// What is sent is the recording that the conversion made, to the model that is configured, with
/// the key that is in force; and only where it is not called off and not too large.
pub proof fn law_configured_model_is_asked(
    config: ConfigModel,
    tree: Seq<char>,
    stage: Stage,
    found: FoundModel,
    known: Prerequisites<Seq<char>>,
    size: u64,
)
    requires
        fits(stage, found),
    ensures
        resumed(config, tree, stage, found) matches Progress::Perform(work, next) ==> (
        work matches Work::Upload { audio, key, model } ==> {
            &&& next == Stage::Uploading
            &&& stage == Stage::Weighing
            &&& model == config.openai_model
            &&& found matches Found::Weighed { canceled, size, known } && {
                &&& !canceled
                &&& size matches Ok(bytes) && bytes <= 25_000_000
                &&& key_in_force(known.stored_key, known.environment_key) == Ok::<
                    Seq<char>,
                    Error<Seq<char>>,
                >(key)
                &&& key.len() > 0
            }
            &&& resumed(
                config,
                tree,
                Stage::Inspecting,
                Found::Inspected { canceled: false, known, size: Ok(size) },
            ) matches Progress::Perform(Work::Run(command), _) ==> audio
                == command.arguments.last()
        }),
{
}

/// A recording that is converted and not too large is sent where a key is in force.
pub proof fn law_weighed_recording_is_sent(
    config: ConfigModel,
    tree: Seq<char>,
    known: Prerequisites<Seq<char>>,
    size: u64,
)
    ensures
        ({
            let next = resumed(
                config,
                tree,
                Stage::Weighing,
                Found::Weighed { canceled: false, size: Ok(size), known },
            );
            if size > 25_000_000 {
                next == ProgressModel::Failed(Error::AudioTooLarge)
            } else {
                match key_in_force(known.stored_key, known.environment_key) {
                    Err(error) => next == ProgressModel::Failed(error),
                    Ok(_) => next matches Progress::Perform(Work::Upload { .. }, Stage::Uploading),
                }
            }
        }),
{
}

/// The recording that is looked at is the one that is converted, into another file in the same
/// directory: sixteen thousand samples a second, in one channel. It is converted where it holds
/// any sound and nothing is missing; else the transcription fails.
pub proof fn law_looked_at_recording_is_converted(
    config: ConfigModel,
    tree: Seq<char>,
    known: Prerequisites<Seq<char>>,
    size: u64,
)
    ensures
        begun(tree) matches Progress::Perform(Work::Inspect { recording }, Stage::Inspecting)
            && recording == path_join(tree, "recording.wav"@) && {
            let next = resumed(
                config,
                tree,
                Stage::Inspecting,
                Found::Inspected { canceled: false, known, size: Ok(size) },
            );
            match model_refusal(config, known) {
                Some(error) => next == ProgressModel::Failed(error),
                None => if size <= 44 {
                    next == ProgressModel::Failed(Error::NoAudioCaptured)
                } else {
                    next matches Progress::Perform(Work::Run(command), Stage::Converting) && {
                        let arguments = command.arguments;
                        &&& command.program == "ffmpeg"@
                        &&& command.environment.len() == 0
                        &&& command.log == path_join(tree, "ffmpeg.log"@)
                        &&& arguments == seq![
                            "-nostdin"@,
                            "-v"@,
                            "error"@,
                            "-y"@,
                            "-i"@,
                            recording,
                            "-ar"@,
                            "16000"@,
                            "-ac"@,
                            "1"@,
                            "-c:a"@,
                            "pcm_s16le"@,
                            path_join(tree, "whisper.wav"@),
                        ]
                    }
                },
            }
        },
{
}

/// What the conversion made is what is weighed for the remote transcriber, or what the local one is
/// given: the configured program with the configured model and variables, kept off the graphics
/// card where that is asked for. The text that it writes is not there before, is read after, and is
/// what the transcription gives, without white space around it.
pub proof fn law_converted_recording_is_transcribed(
    config: ConfigModel,
    tree: Seq<char>,
    known: Prerequisites<Seq<char>>,
    size: u64,
    text: Seq<char>,
)
    requires
        model_refusal(config, known) is None,
        size > 44,
    ensures
        resumed(
            config,
            tree,
            Stage::Inspecting,
            Found::Inspected { canceled: false, known, size: Ok(size) },
        ) matches Progress::Perform(Work::Run(conversion), converting) && {
            let audio = conversion.arguments.last();
            let next = resumed(config, tree, converting, Found::Ran(Ok(())));
            if config.provider == Provider::OpenAi {
                next == ProgressModel::Perform(Work::Weigh { audio }, Stage::Weighing)
            } else {
                next matches Progress::Perform(Work::Remove { path: old }, removing) && (resumed(
                    config,
                    tree,
                    removing,
                    Found::Removed(Ok(())),
                ) matches Progress::Perform(Work::Run(command), transcribing) && {
                    let arguments = command.arguments;
                    let cpu = config.acceleration == Acceleration::Cpu;
                    &&& command.program == config.binary
                    &&& command.environment == config.whisper_environment
                    &&& command.log == path_join(tree, "whisper.log"@)
                    &&& arguments.len() == if cpu {
                        9nat
                    } else {
                        8nat
                    }
                    &&& arguments[0] == "-m"@
                    &&& arguments[1] == config.model
                    &&& arguments[2] == "-f"@
                    &&& arguments[3] == audio
                    &&& arguments[4] == "-nt"@
                    &&& arguments[5] == "-otxt"@
                    &&& arguments[6] == "-of"@
                    &&& arguments[7] + ".txt"@ == old
                    &&& cpu ==> arguments[8] == "-ng"@
                    &&& resumed(config, tree, transcribing, Found::Ran(Ok(())))
                        == ProgressModel::Perform(Work::Read { path: old }, Stage::Reading)
                    &&& resumed(config, tree, Stage::Reading, Found::Text(Ok(text)))
                        == ProgressModel::Done(trimmed(text))
                })
            }
        },
{
    reveal_strlit("whisper-output");
    reveal_strlit(".txt");
    reveal_strlit("whisper-output.txt");
    assert("whisper-output"@ + ".txt"@ =~= "whisper-output.txt"@);
    assert(output_in(tree) + ".txt"@ =~= text_in(tree));
}

/// A step that fails ends the transcription with what went wrong, and with which step it was.
pub proof fn law_failures_are_told(
    config: ConfigModel,
    tree: Seq<char>,
    error: Error<Seq<char>>,
    words: Seq<char>,
    known: Prerequisites<Seq<char>>,
)
    ensures
        resumed(config, tree, Stage::Converting, Found::Ran(Err(error))) == ProgressModel::Failed(
            Error::ConversionFailed(error_text(error)),
        ),
        resumed(config, tree, Stage::Transcribing, Found::Ran(Err(error))) == ProgressModel::Failed(
            Error::WhisperFailed(error_text(error)),
        ),
        resumed(config, tree, Stage::Removing, Found::Removed(Err(words)))
            == ProgressModel::Failed(Error::Outside(words)),
        resumed(config, tree, Stage::Reading, Found::Text(Err(words))) == ProgressModel::Failed(
            Error::Outside(words),
        ),
        resumed(
            config,
            tree,
            Stage::Weighing,
            Found::Weighed { canceled: false, size: Err(words), known },
        ) == ProgressModel::Failed(Error::UnreadableAudio(words)),
        model_refusal(config, known) is None ==> resumed(
            config,
            tree,
            Stage::Inspecting,
            Found::Inspected { canceled: false, known, size: Err(words) },
        ) == ProgressModel::Failed(Error::Outside(words)),
{
}

/// What the remote transcriber answers is what the transcription gives.
pub proof fn law_answer_is_the_result(
    config: ConfigModel,
    tree: Seq<char>,
    status: u16,
    words: Seq<char>,
)
    requires
        200 <= status < 300,
    ensures
        resumed(
            config,
            tree,
            Stage::Uploading,
            Found::Replied(Response::Answered { status, transcript: Some(words) }),
        ) == ProgressModel::Done(trimmed(words)),
        resumed(
            config,
            tree,
            Stage::Uploading,
            Found::Replied(Response::Answered { status, transcript: None }),
        ) == ProgressModel::Failed(Error::InvalidTranscript),
{
}

/// A program is waited for while it runs, and killed where it is called off; what it leaves when it
/// ends badly is told.
pub proof fn law_programs_are_watched(
    ended: Option<Result<(), Seq<char>>>,
    words: Seq<char>,
)
    ensures
        watched(true, ended) == WatchModel::Kill(Error::TranscriptionCanceled),
        watched(false, None) == WatchModel::Wait,
        watched(false, Some(Ok(()))) == WatchModel::Ended(Ok(())),
        watched(false, Some(Err(words))) == WatchModel::Ended(Err(Error::Outside(words))),
{
}

/// Each stage takes what can come of it and nothing else.
pub proof fn law_findings_fit_their_stage(stage: Stage, found: FoundModel)
    requires
        fits(stage, found),
    ensures
        found is Inspected <==> stage == Stage::Inspecting,
        found is Ran <==> stage == Stage::Converting || stage == Stage::Transcribing,
        found is Removed <==> stage == Stage::Removing,
        found is Text <==> stage == Stage::Reading,
        found is Weighed <==> stage == Stage::Weighing,
        found is Replied <==> stage == Stage::Uploading,
        found matches Found::Replied(Response::Answered { status, .. }) ==> 100 <= status < 1000,
{
}

} // verus!
