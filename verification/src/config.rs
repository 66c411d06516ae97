//! Where the recorder keeps its files, and how it transcribes.
use crate::error::Error;
use crate::paths;
use crate::paths::{path_join, strip_end, without_end};
use crate::text;
use crate::text::{control, lemma_trimmed_twice, trimmed};
use vstd::prelude::*;

verus! {

/// Who transcribes.
#[derive(Clone, Copy, Debug, PartialEq, Eq, Structural)]
pub enum Provider {
    Local,
    OpenAi,
}

impl Default for Provider {
    fn default() -> (provider: Self)
        ensures
            provider == Provider::Local,
    {
        Provider::Local
    }
}

/// What the local transcriber computes on.
#[derive(Clone, Copy, Debug, PartialEq, Eq, Structural)]
pub enum Acceleration {
    Auto,
    Cpu,
    Vulkan,
}

impl Default for Acceleration {
    fn default() -> (acceleration: Self)
        ensures
            acceleration == Acceleration::Auto,
    {
        Acceleration::Auto
    }
}

/// What reading and parsing a file gave: `T` is what it held, `C` the words for a failure.
#[derive(Debug)]
pub enum Stored<T, C = String> {
    Missing,
    Parsed(T),
    Malformed(C),
    Unreadable(C),
}

impl<T: DeepView> DeepView for Stored<T> {
    type V = Stored<T::V, Seq<char>>;

    open spec fn deep_view(&self) -> Stored<T::V, Seq<char>> {
        match *self {
            Stored::Missing => Stored::Missing,
            Stored::Parsed(value) => Stored::Parsed(value.deep_view()),
            Stored::Malformed(cause) => Stored::Malformed(cause@),
            Stored::Unreadable(cause) => Stored::Unreadable(cause@),
        }
    }
}

/// Environment variables for the local transcriber, as pairs of a name and a value. No name is there
/// twice.
pub type Environment = Vec<(String, String)>;

/// Whether no variable is there twice.
pub open spec fn distinct_names(environment: Seq<(Seq<char>, Seq<char>)>) -> bool {
    forall|i: int, j: int|
        0 <= i < j < environment.len() ==> (#[trigger] environment[i]).0 != (
        #[trigger] environment[j]).0
}

/// A copy of a list of variables.
pub fn copied_environment(environment: &Environment) -> (copy: Environment)
    ensures
        copy.deep_view() == environment.deep_view(),
{
    let mut copy: Environment = Vec::new();
    let mut i: usize = 0;
    while i < environment.len()
        invariant
            i <= environment.len(),
            copy.len() == i,
            forall|j: int| 0 <= j < i ==> copy[j].deep_view() == environment[j].deep_view(),
        decreases environment.len() - i,
    {
        let pair = &environment[i];
        copy.push((pair.0.clone(), pair.1.clone()));
        i += 1;
    }
    proof {
        assert(copy.deep_view() =~= environment.deep_view());
    }
    copy
}

/// The choices about transcription that are kept in a file.
#[derive(Debug)]
pub struct TranscriptionSettings {
    pub provider: Provider,
    pub binary: Option<String>,
    pub model: Option<String>,
    pub environment: Environment,
    pub acceleration: Acceleration,
    pub openai_model: String,
}

/// Transcription settings as contracts see them.
#[verifier::ext_equal]
pub struct TranscriptionSettingsModel {
    pub provider: Provider,
    pub binary: Option<Seq<char>>,
    pub model: Option<Seq<char>>,
    pub environment: Seq<(Seq<char>, Seq<char>)>,
    pub acceleration: Acceleration,
    pub openai_model: Seq<char>,
}

impl DeepView for TranscriptionSettings {
    type V = TranscriptionSettingsModel;

    open spec fn deep_view(&self) -> TranscriptionSettingsModel {
        TranscriptionSettingsModel {
            provider: self.provider,
            binary: self.binary.deep_view(),
            model: self.model.deep_view(),
            environment: self.environment.deep_view(),
            acceleration: self.acceleration,
            openai_model: self.openai_model@,
        }
    }
}

impl Clone for TranscriptionSettings {
    fn clone(&self) -> (copy: Self)
        ensures
            copy.deep_view() == self.deep_view(),
    {
        TranscriptionSettings {
            provider: self.provider,
            binary: text::copied_option(&self.binary),
            model: text::copied_option(&self.model),
            environment: copied_environment(&self.environment),
            acceleration: self.acceleration,
            openai_model: self.openai_model.clone(),
        }
    }
}

/// The settings before anything was chosen.
pub open spec fn default_settings() -> TranscriptionSettingsModel {
    TranscriptionSettingsModel {
        provider: Provider::Local,
        binary: None,
        model: None,
        environment: Seq::empty(),
        acceleration: Acceleration::Auto,
        openai_model: "gpt-transcribe"@,
    }
}

impl Default for TranscriptionSettings {
    fn default() -> (settings: Self)
        ensures
            settings.deep_view() == default_settings(),
    {
        let settings = TranscriptionSettings {
            provider: Provider::Local,
            binary: None,
            model: None,
            environment: Vec::new(),
            acceleration: Acceleration::Auto,
            openai_model: "gpt-transcribe".to_owned(),
        };
        proof {
            assert(settings.deep_view() =~= default_settings());
        }
        settings
    }
}

/// The settings that a read of their file stands for: none saved means the first choice of each.
pub open spec fn loaded_settings(
    stored: Stored<TranscriptionSettingsModel, Seq<char>>,
) -> Result<TranscriptionSettingsModel, Error<Seq<char>>> {
    match stored {
        Stored::Missing => Ok(default_settings()),
        Stored::Parsed(settings) => Ok(settings),
        Stored::Malformed(cause) => Err(Error::MalformedSettings(cause)),
        Stored::Unreadable(cause) => Err(Error::UnreadableSettings(cause)),
    }
}

/// A result as contracts see it.
pub open spec fn result_view<T: DeepView>(result: Result<T, Error>) -> Result<
    T::V,
    Error<Seq<char>>,
> {
    match result {
        Ok(value) => Ok(value.deep_view()),
        Err(error) => Err(error.deep_view()),
    }
}

impl TranscriptionSettings {
    /// The settings that a read of their file stands for.
    pub fn load(stored: Stored<TranscriptionSettings>) -> (settings: Result<Self, Error>)
        ensures
            result_view(settings) == loaded_settings(stored.deep_view()),
    {
        match stored {
            Stored::Missing => Ok(TranscriptionSettings::default()),
            Stored::Parsed(settings) => Ok(settings),
            Stored::Malformed(cause) => Err(Error::MalformedSettings(cause)),
            Stored::Unreadable(cause) => Err(Error::UnreadableSettings(cause)),
        }
    }
}

/// What the surroundings of the process say: the home directory, and the paths and the
/// microphone that its environment names.
#[derive(Debug)]
pub struct Surroundings<S = String> {
    pub home: Option<S>,
    pub binary: Option<S>,
    pub model: Option<S>,
    pub device: Option<S>,
}

impl DeepView for Surroundings {
    type V = Surroundings<Seq<char>>;

    open spec fn deep_view(&self) -> Surroundings<Seq<char>> {
        Surroundings {
            home: self.home.deep_view(),
            binary: self.binary.deep_view(),
            model: self.model.deep_view(),
            device: self.device.deep_view(),
        }
    }
}

/// What is known of the prerequisites of a transcription: the saved key, the key in the
/// environment, and whether the executable and the model are files.
#[derive(Debug)]
pub struct Prerequisites<S = String> {
    pub stored_key: Stored<S, S>,
    pub environment_key: Option<S>,
    pub binary_is_file: bool,
    pub model_is_file: bool,
}

impl DeepView for Prerequisites {
    type V = Prerequisites<Seq<char>>;

    open spec fn deep_view(&self) -> Prerequisites<Seq<char>> {
        Prerequisites {
            stored_key: self.stored_key.deep_view(),
            environment_key: self.environment_key.deep_view(),
            binary_is_file: self.binary_is_file,
            model_is_file: self.model_is_file,
        }
    }
}

/// The directory for the recorder's files: the one that is asked for, else `pasteface` in the
/// first place for state that the system has.
pub open spec fn directory_choice(
    asked: Option<Seq<char>>,
    state_place: Option<Seq<char>>,
    data_place: Option<Seq<char>>,
    home: Seq<char>,
) -> Seq<char> {
    if asked is Some {
        asked->0
    } else if state_place is Some {
        path_join(state_place->0, "pasteface"@)
    } else if data_place is Some {
        path_join(data_place->0, "pasteface"@)
    } else {
        path_join(path_join(home, ".local/state"@), "pasteface"@)
    }
}

/// The directory for the recorder's files.
pub fn state_directory(
    asked: Option<String>,
    state_place: Option<String>,
    data_place: Option<String>,
    home: &str,
) -> (directory: String)
    ensures
        directory@ == directory_choice(
            asked.deep_view(),
            state_place.deep_view(),
            data_place.deep_view(),
            home@,
        ),
{
    if let Some(directory) = asked {
        return directory;
    }
    let place = if let Some(place) = state_place {
        place
    } else if let Some(place) = data_place {
        place
    } else {
        paths::join(home, ".local/state")
    };
    paths::join(place.as_str(), "pasteface")
}

/// Where the recorder keeps its files, and how it transcribes.
#[derive(Debug)]
pub struct Config {
    pub directory: String,
    pub binary: String,
    pub model: String,
    pub device: Option<String>,
    pub whisper_environment: Environment,
    pub provider: Provider,
    pub acceleration: Acceleration,
    pub openai_model: String,
}

/// A configuration as contracts see it.
#[verifier::ext_equal]
pub struct ConfigModel {
    pub directory: Seq<char>,
    pub binary: Seq<char>,
    pub model: Seq<char>,
    pub device: Option<Seq<char>>,
    pub whisper_environment: Seq<(Seq<char>, Seq<char>)>,
    pub provider: Provider,
    pub acceleration: Acceleration,
    pub openai_model: Seq<char>,
}

impl DeepView for Config {
    type V = ConfigModel;

    open spec fn deep_view(&self) -> ConfigModel {
        ConfigModel {
            directory: self.directory@,
            binary: self.binary@,
            model: self.model@,
            device: self.device.deep_view(),
            whisper_environment: self.whisper_environment.deep_view(),
            provider: self.provider,
            acceleration: self.acceleration,
            openai_model: self.openai_model@,
        }
    }
}

impl Clone for Config {
    fn clone(&self) -> (copy: Self)
        ensures
            copy.deep_view() == self.deep_view(),
    {
        Config {
            directory: self.directory.clone(),
            binary: self.binary.clone(),
            model: self.model.clone(),
            device: text::copied_option(&self.device),
            whisper_environment: copied_environment(&self.whisper_environment),
            provider: self.provider,
            acceleration: self.acceleration,
            openai_model: self.openai_model.clone(),
        }
    }
}

/// A path that was named, else one that was saved, else the one below the home directory.
pub open spec fn path_choice(
    named: Option<Seq<char>>,
    saved: Option<Seq<char>>,
    home: Seq<char>,
    part: Seq<char>,
) -> Seq<char> {
    if named is Some {
        named->0
    } else if saved is Some {
        saved->0
    } else {
        path_join(path_join(home, ".local/lib/whisper.cpp"@), part)
    }
}

fn choose_path(named: &Option<String>, saved: Option<String>, home: &str, part: &str) -> (path:
    String)
    ensures
        path@ == path_choice(named.deep_view(), saved.deep_view(), home@, part@),
{
    if let Some(path) = named {
        path.clone()
    } else if let Some(path) = saved {
        path
    } else {
        paths::join(paths::join(home, ".local/lib/whisper.cpp").as_str(), part)
    }
}

/// A text that may be missing, where an empty one counts as missing.
pub open spec fn non_empty_choice(text: Option<Seq<char>>) -> Option<Seq<char>> {
    match text {
        Some(t) => if t.len() == 0 {
            None
        } else {
            Some(t)
        },
        None => None,
    }
}

/// The configuration for a directory: what the environment names comes before what is saved.
pub open spec fn configuration(
    directory: Seq<char>,
    around: Surroundings<Seq<char>>,
    stored: Stored<TranscriptionSettingsModel, Seq<char>>,
) -> Result<ConfigModel, Error<Seq<char>>> {
    if around.home is None {
        Err(Error::HomeUnknown)
    } else {
        match loaded_settings(stored) {
            Err(error) => Err(error),
            Ok(settings) => Ok(
                ConfigModel {
                    directory,
                    binary: path_choice(
                        around.binary,
                        settings.binary,
                        around.home->0,
                        "build/bin/whisper-cli"@,
                    ),
                    model: path_choice(
                        around.model,
                        settings.model,
                        around.home->0,
                        "models/ggml-large-v3-turbo-q5_0.bin"@,
                    ),
                    device: non_empty_choice(around.device),
                    whisper_environment: settings.environment,
                    provider: settings.provider,
                    acceleration: settings.acceleration,
                    openai_model: settings.openai_model,
                },
            ),
        }
    }
}

/// The configuration after the settings were saved again: the microphone stays as chosen.
pub open spec fn reconfiguration(
    config: ConfigModel,
    around: Surroundings<Seq<char>>,
    stored: Stored<TranscriptionSettingsModel, Seq<char>>,
) -> Result<ConfigModel, Error<Seq<char>>> {
    match configuration(config.directory, around, stored) {
        Err(error) => Err(error),
        Ok(loaded) => Ok(ConfigModel { device: config.device, ..loaded }),
    }
}

/// Whether the name of a variable is one that the transcriber's backends read.
pub open spec fn backend_variable(name: Seq<char>) -> bool {
    "GGML_"@.is_prefix_of(name) || "VK_"@.is_prefix_of(name) || "MESA_"@.is_prefix_of(name)
}

/// Why settings may not be saved, if they may not.
pub open spec fn settings_refusal(settings: TranscriptionSettingsModel) -> Option<
    Error<Seq<char>>,
> {
    if trimmed(settings.openai_model).len() == 0 {
        Some(Error::EmptyModel)
    } else if exists|i: int|
        0 <= i < settings.environment.len() && !backend_variable(
            #[trigger] settings.environment[i].0,
        ) {
        Some(Error::UnsupportedEnvironment)
    } else {
        None
    }
}

/// Whether a text holds a control character.
pub open spec fn has_control(s: Seq<char>) -> bool {
    exists|i: int| 0 <= i < s.len() && control(#[trigger] s[i])
}

/// Whether a text holds a control character.
pub fn holds_control(s: &str) -> (answer: bool)
    ensures
        answer == has_control(s@),
{
    for c in it: s.chars()
        invariant
            it.seq() == s@,
            forall|i: int| 0 <= i < it.index() ==> !control(#[trigger] s@[i]),
    {
        if c.is_control() {
            return true;
        }
    }
    false
}

/// The key that is in force: the saved one, else the one in the environment, without white
/// space around it.
pub open spec fn key_in_force(
    stored: Stored<Seq<char>, Seq<char>>,
    environment: Option<Seq<char>>,
) -> Result<Seq<char>, Error<Seq<char>>> {
    match stored {
        Stored::Malformed(cause) => Err(Error::MalformedApiKey(cause)),
        Stored::Unreadable(_) => Err(Error::UnreadableApiKey),
        Stored::Parsed(saved) => if trimmed(saved).len() > 0 {
            Ok(trimmed(saved))
        } else {
            environment_key(environment)
        },
        Stored::Missing => environment_key(environment),
    }
}

/// The key that the environment holds, without white space around it.
pub open spec fn environment_key(environment: Option<Seq<char>>) -> Result<
    Seq<char>,
    Error<Seq<char>>,
> {
    match environment {
        Some(key) => if trimmed(key).len() > 0 {
            Ok(trimmed(key))
        } else {
            Err(Error::ApiKeyMissing)
        },
        None => Err(Error::ApiKeyMissing),
    }
}

/// What stands in the way of a transcription, if anything does.
pub open spec fn model_refusal(config: ConfigModel, known: Prerequisites<Seq<char>>) -> Option<
    Error<Seq<char>>,
> {
    if config.provider == Provider::OpenAi {
        match key_in_force(known.stored_key, known.environment_key) {
            Err(error) => Some(error),
            Ok(_) => None,
        }
    } else if !known.binary_is_file {
        Some(Error::BinaryMissing(config.binary))
    } else if !known.model_is_file {
        Some(Error::ModelMissing(config.model))
    } else {
        None
    }
}

/// The reason in a result that has no other use.
pub open spec fn refusal_view(result: Result<(), Error>) -> Option<Error<Seq<char>>> {
    match result {
        Ok(_) => None,
        Err(error) => Some(error.deep_view()),
    }
}

impl Config {
    /// The configuration for a directory.
    pub fn load_directory(
        directory: String,
        around: &Surroundings,
        stored: Stored<TranscriptionSettings>,
    ) -> (config: Result<Self, Error>)
        ensures
            result_view(config) == configuration(
                directory@,
                around.deep_view(),
                stored.deep_view(),
            ),
    {
        let home = match &around.home {
            Some(home) => home,
            None => return Err(Error::HomeUnknown),
        };
        let settings = match TranscriptionSettings::load(stored) {
            Ok(settings) => settings,
            Err(error) => return Err(error),
        };
        let device = match &around.device {
            Some(device) => if device.as_str().is_empty() {
                None
            } else {
                Some(device.clone())
            },
            None => None,
        };
        Ok(
            Config {
                directory,
                binary: choose_path(
                    &around.binary,
                    settings.binary,
                    home.as_str(),
                    "build/bin/whisper-cli",
                ),
                model: choose_path(
                    &around.model,
                    settings.model,
                    home.as_str(),
                    "models/ggml-large-v3-turbo-q5_0.bin",
                ),
                device,
                whisper_environment: settings.environment,
                provider: settings.provider,
                acceleration: settings.acceleration,
                openai_model: settings.openai_model,
            },
        )
    }

    /// The configuration with the settings as they are saved now. The microphone stays.
    pub fn with_current_settings(
        &self,
        around: &Surroundings,
        stored: Stored<TranscriptionSettings>,
    ) -> (config: Result<Self, Error>)
        ensures
            result_view(config) == reconfiguration(
                self.deep_view(),
                around.deep_view(),
                stored.deep_view(),
            ),
    {
        match Config::load_directory(self.directory.clone(), around, stored) {
            Ok(mut config) => {
                config.device = text::copied_option(&self.device);
                Ok(config)
            },
            Err(error) => Err(error),
        }
    }

    /// The file that keeps the transcription settings.
    pub fn settings_path(&self) -> (path: String)
        ensures
            path@ == path_join(self.directory@, "transcription.json"@),
    {
        paths::join(self.directory.as_str(), "transcription.json")
    }

    /// The file that keeps the key.
    pub fn secrets_path(&self) -> (path: String)
        ensures
            path@ == path_join(self.directory@, "secrets.json"@),
    {
        paths::join(self.directory.as_str(), "secrets.json")
    }

    /// The settings that a read of their file stands for.
    pub fn settings(&self, stored: Stored<TranscriptionSettings>) -> (settings: Result<
        TranscriptionSettings,
        Error,
    >)
        ensures
            result_view(settings) == loaded_settings(stored.deep_view()),
    {
        TranscriptionSettings::load(stored)
    }

    /// Whether settings may be saved, and in which file.
    pub fn save_settings(&self, settings: &TranscriptionSettings) -> (path: Result<String, Error>)
        ensures
            match settings_refusal(settings.deep_view()) {
                Some(error) => path is Err && path->Err_0.deep_view() == error,
                None => path is Ok && path->Ok_0@ == path_join(
                    self.directory@,
                    "transcription.json"@,
                ),
            },
    {
        if settings.openai_model.as_str().trim().is_empty() {
            return Err(Error::EmptyModel);
        }
        let ghost model = settings.deep_view();
        let mut i: usize = 0;
        while i < settings.environment.len()
            invariant
                i <= settings.environment.len(),
                model == settings.deep_view(),
                trimmed(model.openai_model).len() > 0,
                forall|j: int|
                    0 <= j < i ==> backend_variable(#[trigger] model.environment[j].0),
            decreases settings.environment.len() - i,
        {
            let name = settings.environment[i].0.as_str();
            proof {
                assert(model.environment[i as int].0 == name@);
            }
            if !text::starts_with(name, "GGML_") && !text::starts_with(name, "VK_")
                && !text::starts_with(name, "MESA_") {
                return Err(Error::UnsupportedEnvironment);
            }
            i += 1;
        }
        Ok(self.settings_path())
    }

    /// The key to save and the file for it, where it may be saved.
    pub fn save_api_key(&self, key: &str) -> (file: Result<(String, String), Error>)
        ensures
            if has_control(trimmed(key@)) {
                file is Err && file->Err_0.deep_view() == Error::<Seq<char>>::InvalidApiKey
            } else {
                file is Ok && file->Ok_0.deep_view() == (
                    path_join(self.directory@, "secrets.json"@),
                    trimmed(key@),
                )
            },
    {
        let key = key.trim();
        if holds_control(key) {
            return Err(Error::InvalidApiKey);
        }
        Ok((self.secrets_path(), key.to_owned()))
    }

    /// The key that is in force, from what the file and the environment hold.
    pub fn openai_api_key(&self, stored: &Stored<String>, environment: &Option<String>) -> (key:
        Result<String, Error>)
        ensures
            result_view(key) == key_in_force(stored.deep_view(), environment.deep_view()),
    {
        match stored {
            Stored::Malformed(cause) => return Err(Error::MalformedApiKey(cause.clone())),
            Stored::Unreadable(_) => return Err(Error::UnreadableApiKey),
            Stored::Parsed(saved) => {
                let saved = saved.as_str().trim();
                if !saved.is_empty() {
                    return Ok(saved.to_owned());
                }
            },
            Stored::Missing => {},
        }
        match environment {
            Some(key) => {
                let key = key.as_str().trim();
                if key.is_empty() {
                    Err(Error::ApiKeyMissing)
                } else {
                    Ok(key.to_owned())
                }
            },
            None => Err(Error::ApiKeyMissing),
        }
    }

    /// Whether a key is in force.
    pub fn api_key_configured(&self, stored: &Stored<String>, environment: &Option<String>) -> (answer:
        bool)
        ensures
            answer == (key_in_force(stored.deep_view(), environment.deep_view()) is Ok),
    {
        self.openai_api_key(stored, environment).is_ok()
    }

    /// The socket that the recorder listens on.
    pub fn socket(&self) -> (path: String)
        ensures
            path@ == path_join(self.directory@, "recorder.sock"@),
    {
        paths::join(self.directory.as_str(), "recorder.sock")
    }

    /// Whether a transcription can be made with what is there.
    pub fn check_model(&self, known: &Prerequisites) -> (result: Result<(), Error>)
        ensures
            refusal_view(result) == model_refusal(self.deep_view(), known.deep_view()),
    {
        if self.provider == Provider::OpenAi {
            match self.openai_api_key(&known.stored_key, &known.environment_key) {
                Ok(_) => Ok(()),
                Err(error) => Err(error),
            }
        } else if !known.binary_is_file {
            Err(Error::BinaryMissing(self.binary.clone()))
        } else if !known.model_is_file {
            Err(Error::ModelMissing(self.model.clone()))
        } else {
            Ok(())
        }
    }
}

/// The path of the program that took the place of a deleted one, if the path says that it was
/// deleted.
pub fn replacement(path: &str) -> (installed: Option<String>)
    ensures
        installed.deep_view() == without_end(path@, " (deleted)"@),
{
    strip_end(path, " (deleted)")
}

/// The program to start: the running one while it is there, else its replacement.
pub open spec fn program(
    path: Seq<char>,
    is_file: bool,
    replacement_is_file: bool,
) -> Result<Seq<char>, Error<Seq<char>>> {
    let installed = without_end(path, " (deleted)"@);
    if is_file {
        Ok(path)
    } else if installed is Some && replacement_is_file {
        Ok(installed->0)
    } else {
        Err(Error::ExecutableGone)
    }
}

/// The program to start, from its own path and from which of the two paths are files.
pub fn resolve_executable(path: String, is_file: bool, replacement_is_file: bool) -> (program:
    Result<String, Error>)
    ensures
        result_view(program) == self::program(path@, is_file, replacement_is_file),
{
    if is_file {
        return Ok(path);
    }
    match replacement(path.as_str()) {
        Some(installed) => if replacement_is_file {
            Ok(installed)
        } else {
            Err(Error::ExecutableGone)
        },
        None => Err(Error::ExecutableGone),
    }
}

/// A key that was saved is the key in force from then on, whatever the environment holds. One with
/// nothing in it leaves the environment's in force.
pub proof fn law_saved_key_is_read_back(key: Seq<char>, environment: Option<Seq<char>>)
    requires
        !has_control(trimmed(key)),
    ensures
        key_in_force(Stored::Parsed(trimmed(key)), environment) == if trimmed(key).len() > 0 {
            Ok(trimmed(key))
        } else {
            environment_key(environment)
        },
{
    lemma_trimmed_twice(key);
}

/// Settings that were saved are in force from then on, with the microphone as it was. Only a path
/// that the environment names comes before a saved one.
pub proof fn law_saved_settings_are_used(
    config: ConfigModel,
    around: Surroundings<Seq<char>>,
    settings: TranscriptionSettingsModel,
)
    requires
        around.home is Some,
    ensures
        reconfiguration(config, around, Stored::Parsed(settings)) matches Ok(after) && {
            &&& after.directory == config.directory
            &&& after.device == config.device
            &&& after.provider == settings.provider
            &&& after.acceleration == settings.acceleration
            &&& after.openai_model == settings.openai_model
            &&& after.whisper_environment == settings.environment
            &&& around.binary is None && settings.binary is Some ==> after.binary
                == settings.binary->0
            &&& around.binary is Some ==> after.binary == around.binary->0
            &&& around.model is None && settings.model is Some ==> after.model
                == settings.model->0
            &&& around.model is Some ==> after.model == around.model->0
        },
{
}

/// Where no variable is saved twice, none is in force twice.
pub proof fn law_names_stay_distinct(
    config: ConfigModel,
    directory: Seq<char>,
    around: Surroundings<Seq<char>>,
    stored: Stored<TranscriptionSettingsModel, Seq<char>>,
)
    requires
        stored matches Stored::Parsed(settings) ==> distinct_names(settings.environment),
    ensures
        loaded_settings(stored) matches Ok(settings) ==> distinct_names(settings.environment),
        configuration(directory, around, stored) matches Ok(loaded) ==> distinct_names(
            loaded.whisper_environment,
        ),
        reconfiguration(config, around, stored) matches Ok(loaded) ==> distinct_names(
            loaded.whisper_environment,
        ),
{
}

/// The key in force is the saved one where it holds something, else that of the environment where
/// that does. Where a saved one cannot be read or understood, that is told and none is in force.
pub proof fn law_saved_key_comes_first(
    stored: Stored<Seq<char>, Seq<char>>,
    environment: Option<Seq<char>>,
)
    ensures
        ({
            let key = key_in_force(stored, environment);
            &&& stored matches Stored::Malformed(words) ==> key == Err::<
                Seq<char>,
                Error<Seq<char>>,
            >(Error::MalformedApiKey(words))
            &&& stored is Unreadable ==> key == Err::<Seq<char>, Error<Seq<char>>>(
                Error::UnreadableApiKey,
            )
            &&& stored is Parsed && trimmed(stored->Parsed_0).len() > 0 ==> key == Ok::<
                Seq<char>,
                Error<Seq<char>>,
            >(trimmed(stored->Parsed_0))
            &&& stored is Missing || (stored is Parsed && trimmed(stored->Parsed_0).len() == 0)
                ==> key == if environment is Some && trimmed(environment->0).len() > 0 {
                Ok::<Seq<char>, Error<Seq<char>>>(trimmed(environment->0))
            } else {
                Err(Error::ApiKeyMissing)
            }
        }),
{
}

/// The remote transcriber needs a key and nothing else; the local one needs its executable and its
/// model and no key. What is missing is told with its path.
pub proof fn law_each_transcriber_has_its_needs(
    config: ConfigModel,
    known: Prerequisites<Seq<char>>,
)
    ensures
        ({
            let refusal = model_refusal(config, known);
            if config.provider == Provider::OpenAi {
                match key_in_force(known.stored_key, known.environment_key) {
                    Ok(_) => refusal is None,
                    Err(error) => refusal == Some(error),
                }
            } else {
                &&& refusal is None <==> known.binary_is_file && known.model_is_file
                &&& !known.binary_is_file ==> refusal == Some(
                    Error::<Seq<char>>::BinaryMissing(config.binary),
                )
                &&& known.binary_is_file && !known.model_is_file ==> refusal == Some(
                    Error::<Seq<char>>::ModelMissing(config.model),
                )
            }
        }),
{
}

/// A configuration is made of what is saved, where the environment does not name a path itself, and
/// of the usual paths below the home directory where neither does. The microphone is the one that
/// the environment names, if it names one.
pub proof fn law_configuration_has_its_sources(
    directory: Seq<char>,
    around: Surroundings<Seq<char>>,
    stored: Stored<TranscriptionSettingsModel, Seq<char>>,
)
    ensures
        around.home is None ==> configuration(directory, around, stored) == Err::<
            ConfigModel,
            Error<Seq<char>>,
        >(Error::HomeUnknown),
        around.home matches Some(home) ==> match stored {
            Stored::Malformed(words) => configuration(directory, around, stored) == Err::<
                ConfigModel,
                Error<Seq<char>>,
            >(Error::MalformedSettings(words)),
            Stored::Unreadable(words) => configuration(directory, around, stored) == Err::<
                ConfigModel,
                Error<Seq<char>>,
            >(Error::UnreadableSettings(words)),
            Stored::Missing => configuration(directory, around, stored) matches Ok(config) && {
                &&& config.directory == directory
                &&& config.provider == Provider::Local
                &&& config.acceleration == Acceleration::Auto
                &&& config.openai_model == "gpt-transcribe"@
                &&& config.whisper_environment.len() == 0
                &&& around.binary is None ==> config.binary == path_join(
                    path_join(home, ".local/lib/whisper.cpp"@),
                    "build/bin/whisper-cli"@,
                )
                &&& around.model is None ==> config.model == path_join(
                    path_join(home, ".local/lib/whisper.cpp"@),
                    "models/ggml-large-v3-turbo-q5_0.bin"@,
                )
                &&& around.binary matches Some(path) ==> config.binary == path
                &&& around.model matches Some(path) ==> config.model == path
            },
            Stored::Parsed(settings) => configuration(directory, around, stored) matches Ok(config)
                && {
                &&& config.directory == directory
                &&& config.provider == settings.provider
                &&& config.acceleration == settings.acceleration
                &&& config.openai_model == settings.openai_model
                &&& config.whisper_environment == settings.environment
                &&& around.binary matches Some(path) ==> config.binary == path
                &&& around.model matches Some(path) ==> config.model == path
                &&& around.binary is None && settings.binary is Some ==> config.binary
                    == settings.binary->0
                &&& around.model is None && settings.model is Some ==> config.model
                    == settings.model->0
            },
        },
        configuration(directory, around, stored) matches Ok(config) ==> config.device == if around.device
            is Some && around.device->0.len() > 0 {
            around.device
        } else {
            None
        },
{
}

/// The directory that is asked for is taken as it is; else there is one of the program's own in the
/// first place that there is for it.
pub proof fn law_asked_directory_is_taken(
    asked: Seq<char>,
    state_place: Option<Seq<char>>,
    data_place: Option<Seq<char>>,
    place: Seq<char>,
    home: Seq<char>,
)
    ensures
        directory_choice(Some(asked), state_place, data_place, home) == asked,
        directory_choice(None, Some(place), data_place, home) == path_join(place, "pasteface"@),
        directory_choice(None, None, Some(place), home) == path_join(place, "pasteface"@),
        directory_choice(None, None, None, home) == path_join(
            path_join(home, ".local/state"@),
            "pasteface"@,
        ),
{
}

/// The program that is started is the running one while its file is there, and else the one that
/// was put in its place.
pub proof fn law_program_that_is_there_is_started(installed: Seq<char>, path: Seq<char>)
    ensures
        program(path, true, false) == Ok::<Seq<char>, Error<Seq<char>>>(path),
        program(path, true, true) == Ok::<Seq<char>, Error<Seq<char>>>(path),
        program(path, false, false) == Err::<Seq<char>, Error<Seq<char>>>(Error::ExecutableGone),
        program(installed + " (deleted)"@, false, true) == Ok::<Seq<char>, Error<Seq<char>>>(
            installed,
        ),
        !" (deleted)"@.is_suffix_of(path) ==> program(path, false, true) == Err::<
            Seq<char>,
            Error<Seq<char>>,
        >(Error::ExecutableGone),
{
    let whole = installed + " (deleted)"@;
    assert(whole.subrange(whole.len() - " (deleted)"@.len(), whole.len() as int)
        =~= " (deleted)"@);
    assert(whole.take(whole.len() - " (deleted)"@.len()) =~= installed);
}

} // verus!
