//! The recorder, driven through whole requests against files, a clock and a transcriber that are
//! kept in memory.
use pasteface::config::{
    Acceleration, Config, Prerequisites, Provider, Stored, Surroundings, TranscriptionSettings,
};
use pasteface::error::Error;
use pasteface::export;
use pasteface::model::{
    Action, BackendSettings, Chunk, ChunkStatus, Phase, State, TranscriptTab,
};
use pasteface::protocol::{Effect, Outcome, Step, Wait};
use pasteface::restore::{ends, load_state};
use pasteface::service::{Reading, Recorder};
use std::io::Cursor;

const DIRECTORY: &str = "/state";

/// A failure that nothing led to.
fn failed(words: &str) -> Outcome {
    Outcome::Failed { plain: words.to_string(), whole: words.to_string() }
}

/// A failure that something led to.
fn failed_by(words: &str, cause: &str) -> Outcome {
    Outcome::Failed { plain: words.to_string(), whole: format!("{words}: {cause}") }
}

/// What is outside the recorder.
struct World {
    files: Vec<(String, Vec<u8>)>,
    trees: Vec<String>,
    saved: Option<State>,
    saves: usize,
    save_fails: bool,
    settings: Option<TranscriptionSettings>,
    key: Option<String>,
    environment_key: Option<String>,
    programs: Vec<String>,
    devices: Vec<String>,
    clock: u128,
    clipboard: Vec<String>,
    clipboard_works: bool,
    capture_works: bool,
    stop_works: bool,
    removal_works: bool,
    launched: Vec<String>,
    canceled: bool,
    answer: Option<Result<String, String>>,
    length: Option<u64>,
    performed: Vec<&'static str>,
}

impl World {
    fn new() -> World {
        World {
            files: Vec::new(),
            trees: Vec::new(),
            saved: None,
            saves: 0,
            save_fails: false,
            settings: None,
            key: None,
            environment_key: None,
            programs: Vec::new(),
            devices: Vec::new(),
            clock: 1000,
            clipboard: Vec::new(),
            clipboard_works: true,
            capture_works: true,
            stop_works: true,
            removal_works: true,
            launched: Vec::new(),
            canceled: false,
            answer: None,
            length: None,
            performed: Vec::new(),
        }
    }

    fn has(&self, path: &str) -> bool {
        self.files.iter().any(|(name, _)| name == path) || self.trees.iter().any(|t| t == path)
    }

    fn read(&self, path: &str) -> Option<&Vec<u8>> {
        self.files.iter().find(|(name, _)| name == path).map(|(_, bytes)| bytes)
    }

    fn write(&mut self, path: &str, bytes: &[u8]) {
        self.files.retain(|(name, _)| name != path);
        self.files.push((path.to_string(), bytes.to_vec()));
    }

    fn legacy(&self) -> bool {
        self.has("/state/recording.wav")
    }

    fn known(&self, config: &Config) -> Prerequisites {
        Prerequisites {
            stored_key: match &self.key {
                Some(key) => Stored::Parsed(key.clone()),
                None => Stored::Missing,
            },
            environment_key: self.environment_key.clone(),
            binary_is_file: self.programs.contains(&config.binary),
            model_is_file: self.programs.contains(&config.model),
        }
    }

    fn stored_settings(&self) -> Stored<TranscriptionSettings> {
        match &self.settings {
            Some(settings) => Stored::Parsed(settings.clone()),
            None => Stored::Missing,
        }
    }

    fn remove_tree(&mut self, path: &str) {
        let below = format!("{path}/");
        self.trees.retain(|t| t != path && !t.starts_with(&below));
        self.files.retain(|(name, _)| !name.starts_with(&below));
    }

    fn perform(&mut self, recorder: &Recorder, effect: Effect) -> Outcome {
        match effect {
            Effect::LoadSettings => {
                self.performed.push("load settings");
                Outcome::Settings(self.stored_settings())
            }
            Effect::SaveApiKey { path, key } => {
                self.performed.push("save key");
                assert_eq!(path, "/state/secrets.json");
                self.key = Some(key);
                Outcome::Done
            }
            Effect::SaveSettings { path, settings } => {
                self.performed.push("save settings");
                assert_eq!(path, "/state/transcription.json");
                self.settings = Some(settings);
                Outcome::Done
            }
            Effect::Reload => {
                let config = &recorder.config;
                Outcome::Reloaded {
                    around: Surroundings {
                        home: Some("/home/me".to_string()),
                        binary: None,
                        model: None,
                        device: None,
                    },
                    settings: self.stored_settings(),
                    known: self.known(config),
                }
            }
            Effect::ListDevices => Outcome::Devices(self.devices.clone()),
            Effect::Inspect => Outcome::Known(self.known(&recorder.config)),
            Effect::Stamp => {
                self.clock += 1;
                Outcome::Stamp { nanos: self.clock, process: 7 }
            }
            Effect::MakeTree { path } => {
                if !self.trees.contains(&"/state/chunks".to_string()) {
                    self.trees.push("/state/chunks".to_string());
                }
                self.trees.push(path);
                Outcome::Done
            }
            Effect::StartCapture { path, device } => {
                self.performed.push("start capture");
                if self.capture_works {
                    self.write(&path, b"samples");
                    Outcome::Device(device.unwrap_or("Built-in".to_string()))
                } else {
                    failed_by("Microphone not found.", "none attached")
                }
            }
            Effect::RemoveTree { path } => {
                self.remove_tree(&path);
                Outcome::Done
            }
            Effect::StopCapture => {
                self.performed.push("stop capture");
                if self.stop_works {
                    Outcome::Done
                } else {
                    failed_by("stream broke", "device gone")
                }
            }
            Effect::Measure { .. } => Outcome::Length(self.length),
            Effect::Save => {
                if self.save_fails {
                    return failed("disk full");
                }
                self.saves += 1;
                self.saved = Some(recorder.state.clone());
                Outcome::Done
            }
            Effect::CancelWorker => {
                assert!(self.saves > 0, "canceled work is saved before it is told");
                self.canceled = true;
                Outcome::Done
            }
            Effect::Copy { text } => {
                if self.clipboard_works {
                    self.clipboard.push(text);
                    Outcome::Done
                } else {
                    failed_by("no display", "not connected")
                }
            }
            Effect::Export { path, contents } => {
                if self.has(&path) {
                    failed(&format!(
                        "Could not create {path}. Choose another filename if it already exists."
                    ))
                } else {
                    self.write(&path, contents.as_bytes());
                    Outcome::Done
                }
            }
            Effect::MoveFile { from, to } => {
                let bytes = self.read(&from).unwrap().clone();
                self.files.retain(|(name, _)| *name != from);
                self.write(&to, &bytes);
                Outcome::Done
            }
            Effect::RemoveSaved { trees, files } => {
                for tree in &trees {
                    self.remove_tree(tree);
                }
                self.files.retain(|(name, _)| !files.contains(name));
                Outcome::Done
            }
            Effect::RemoveIfEmpty { path } => {
                if !self.removal_works {
                    return failed("not permitted");
                }
                let below = format!("{path}/");
                if !self.trees.iter().any(|t| t.starts_with(&below)) {
                    self.trees.retain(|t| *t != path);
                }
                Outcome::Done
            }
            Effect::PollWorker => Outcome::Worker(self.answer.take()),
            Effect::Launch { tree } => {
                self.launched.push(tree);
                self.canceled = false;
                Outcome::Done
            }
        }
    }

    fn drive(&mut self, recorder: &mut Recorder, first: Step) -> Result<(), Error> {
        let mut step = first;
        loop {
            match step {
                Step::Done => return Ok(()),
                Step::Failed(error) => return Err(error),
                Step::Perform(effect, wait) => {
                    let outcome = self.perform(recorder, effect);
                    assert!(wait.accepts(&outcome));
                    assert!(recorder.can_resume(&wait));
                    step = recorder.resume(wait, outcome, self.legacy());
                }
            }
        }
    }

    fn action(&mut self, recorder: &mut Recorder, action: Action) -> Result<(), Error> {
        let step = recorder.begin(action, self.legacy());
        self.drive(recorder, step)
    }

    fn tick(&mut self, recorder: &mut Recorder) -> Result<(), Error> {
        let step = recorder.tick(Reading { seconds: 0, level: 0, error: None }, self.legacy());
        self.drive(recorder, step)
    }

    fn save(&mut self, recorder: &Recorder) {
        self.saved = Some(recorder.state.clone());
    }

    fn restart(&self, recorder: &Recorder, lengths: &Vec<Option<u64>>) -> Recorder {
        let stored = match &self.saved {
            Some(state) => Stored::Parsed(state.clone()),
            None => Stored::Missing,
        };
        let config = recorder.config.clone();
        let configured = config.api_key_configured(
            &match &self.key {
                Some(key) => Stored::Parsed(key.clone()),
                None => Stored::Missing,
            },
            &self.environment_key,
        );
        Recorder::new(
            config,
            load_state(stored).unwrap(),
            lengths,
            configured,
            false,
            self.legacy(),
        )
    }
}

fn configuration() -> Config {
    Config {
        directory: DIRECTORY.to_string(),
        binary: "/missing".to_string(),
        model: "/missing".to_string(),
        device: None,
        whisper_environment: Vec::new(),
        provider: Provider::default(),
        acceleration: Acceleration::default(),
        openai_model: "gpt-transcribe".to_string(),
    }
}

fn setup() -> (World, Recorder) {
    let world = World::new();
    let recorder =
        Recorder::new(configuration(), State::default(), &Vec::new(), false, false, false);
    (world, recorder)
}

fn add_chunk(world: &mut World, recorder: &mut Recorder, status: ChunkStatus) -> usize {
    world.clock += 1;
    let id = format!("{}-7", world.clock);
    world.trees.push("/state/chunks".to_string());
    world.trees.push(format!("/state/chunks/{id}"));
    recorder.state.chunks.push(Chunk {
        tab_id: recorder.state.selected_tab.clone(),
        title: String::new(),
        id,
        status,
        text: String::new(),
        error: None,
        seconds: 0,
    });
    recorder.state.chunks.len() - 1
}

fn audio(recorder: &Recorder, index: usize) -> String {
    format!("/state/chunks/{}/recording.wav", recorder.state.chunks[index].id)
}

#[test]
fn transcription_does_not_block_new_capture() {
    let (mut world, mut r) = setup();
    r.pending = Some(0);
    // The request gets as far as the look at the model.
    let error = world.action(&mut r, Action::Start).unwrap_err().message();
    assert!(error.contains("Whisper executable missing"));
    assert!(world.action(&mut r, Action::Clear).is_err());
    assert!(world.action(&mut r, Action::Shutdown).is_err());
}

#[test]
fn restart_requeues_worker_and_retains_failed_capture() {
    let (mut world, mut r) = setup();
    add_chunk(&mut world, &mut r, ChunkStatus::Transcribing);
    add_chunk(&mut world, &mut r, ChunkStatus::Queued);
    add_chunk(&mut world, &mut r, ChunkStatus::Recording);
    world.save(&r);
    let restored = world.restart(&r, &Vec::new());
    assert_eq!(restored.state.queue_depth, 2);
    assert_eq!(restored.state.chunks[2].status, ChunkStatus::Failed);
    assert!(restored.state.can_retry);
    assert_eq!(
        restored.state.chunks[2].error.as_deref(),
        Some("Recording interrupted. Retry retained audio.")
    );
}

#[test]
fn clear_removes_all_chunks_and_transcript() {
    let (mut world, mut r) = setup();
    r.state.transcript = "private words".to_string();
    let index = add_chunk(&mut world, &mut r, ChunkStatus::Ready);
    let path = audio(&r, index);
    world.write(&path, b"audio");
    world.action(&mut r, Action::Clear).unwrap();
    assert!(!world.has("/state/chunks"));
    let restored = world.restart(&r, &Vec::new());
    assert!(restored.state.transcript.is_empty());
    assert!(restored.state.chunks.is_empty());
}

#[test]
fn saved_microphone_is_restored() {
    let (mut world, mut r) = setup();
    r.state.selected_device = Some("Saved microphone".to_string());
    world.save(&r);
    let restored = world.restart(&r, &Vec::new());
    assert_eq!(restored.config.device.as_deref(), Some("Saved microphone"));
}

#[test]
fn cancel_retains_text_audio_and_recording_and_survives_restart() {
    let (mut world, mut r) = setup();
    let done = add_chunk(&mut world, &mut r, ChunkStatus::Ready);
    r.state.chunks[done].text = "Keep these words".to_string();
    r.state.transcript = "Keep these words".to_string();
    let active = add_chunk(&mut world, &mut r, ChunkStatus::Transcribing);
    let waiting = add_chunk(&mut world, &mut r, ChunkStatus::Queued);
    let recording = add_chunk(&mut world, &mut r, ChunkStatus::Recording);
    let path = audio(&r, active);
    world.write(&path, b"retained audio");
    r.pending = Some(active);
    world.action(&mut r, Action::Cancel).unwrap();
    assert!(world.canceled);
    assert_eq!(r.state.message, "Canceled 2 chunks. Transcript and audio retained.");
    assert_eq!(r.state.chunks[recording].status, ChunkStatus::Recording);
    assert_eq!(r.state.queue_depth, 0);
    // A success that still comes in neither takes the cancellation back nor adds its words.
    world.answer = Some(Ok("Discard this late result".to_string()));
    world.tick(&mut r).unwrap();
    assert!(r.pending.is_none());
    assert_eq!(r.state.transcript, "Keep these words");
    assert_eq!(world.read(&path).unwrap(), b"retained audio");
    let restored = world.restart(&r, &Vec::new());
    assert_eq!(restored.state.chunks[active].status, ChunkStatus::Canceled);
    assert_eq!(restored.state.chunks[waiting].status, ChunkStatus::Canceled);
    assert_eq!(restored.state.queue_depth, 0);
}

#[test]
fn old_state_recovers_duration_from_saved_samples() {
    let (mut world, mut r) = setup();
    let index = add_chunk(&mut world, &mut r, ChunkStatus::Ready);
    let spec = hound::WavSpec {
        channels: 2,
        sample_rate: 100,
        bits_per_sample: 16,
        sample_format: hound::SampleFormat::Int,
    };
    let mut bytes = Cursor::new(Vec::new());
    let mut wav = hound::WavWriter::new(&mut bytes, spec).unwrap();
    for _ in 0..250 {
        wav.write_sample(0_i16).unwrap();
    }
    wav.finalize().unwrap();
    let path = audio(&r, index);
    world.write(&path, bytes.get_ref());
    world.save(&r);
    let wav = hound::WavReader::new(Cursor::new(world.read(&path).unwrap().clone())).unwrap();
    let length = f64::from(wav.duration()) / f64::from(wav.spec().sample_rate);
    let restored = world.restart(&r, &vec![Some(length.to_bits())]);
    assert_eq!(f64::from_bits(restored.state.chunks[index].seconds), 1.25);
}

#[test]
fn settings_switch_provider_without_exposing_key_or_losing_transcript() {
    let (mut world, mut recorder) = setup();
    recorder.state.transcript = "Retained text".to_string();
    recorder.config.device = Some("Selected mic".to_string());
    let mut settings = BackendSettings::from_config(&recorder.config, false);
    settings.provider = Provider::OpenAi;
    world
        .action(
            &mut recorder,
            Action::ConfigureBackend {
                settings,
                api_key: Some("mock-api-secret".to_string()),
            },
        )
        .unwrap();
    assert_eq!(recorder.config.provider, Provider::OpenAi);
    assert_eq!(recorder.config.device.as_deref(), Some("Selected mic"));
    assert_eq!(recorder.state.transcript, "Retained text");
    assert!(recorder.state.backend.api_key_configured);
    assert!(!format!("{:?}", recorder.state).contains("mock-api-secret"));
    assert_eq!(world.key.as_deref(), Some("mock-api-secret"));
    assert_eq!(world.performed, vec!["load settings", "save key", "save settings"]);
}

#[test]
fn explicit_tabs_keep_chunks_together_and_survive_restart() {
    let (mut world, mut recorder) = setup();
    let first = add_chunk(&mut world, &mut recorder, ChunkStatus::Ready);
    recorder.state.chunks[first].text = "First words".to_string();
    let next = add_chunk(&mut world, &mut recorder, ChunkStatus::Ready);
    recorder.state.chunks[next].text = "More words".to_string();
    assert_eq!(recorder.state.tabs.len(), 1);
    world.action(&mut recorder, Action::CreateTab("Notes".to_string())).unwrap();
    assert!(recorder.state.transcript.is_empty());
    let tab = recorder.state.selected_tab.clone();
    let second = add_chunk(&mut world, &mut recorder, ChunkStatus::Ready);
    recorder.state.chunks[second].text = "Separate words".to_string();
    world
        .action(
            &mut recorder,
            Action::RenameTab { id: tab, name: "Meeting notes".to_string() },
        )
        .unwrap();
    world.action(&mut recorder, Action::SelectTab("default".to_string())).unwrap();
    assert_eq!(recorder.state.transcript, "First words\nMore words");
    let restored = world.restart(&recorder, &Vec::new());
    assert_eq!(restored.state.tabs.len(), 2);
    assert_eq!(restored.state.tabs[1].name, "Meeting notes");
    assert_eq!(restored.state.transcript, "First words\nMore words");
    assert_eq!(restored.state.chunks[second].text, "Separate words");
}

#[test]
fn closing_last_tab_preserves_audio_and_reopens_after_restart() {
    let (mut world, mut recorder) = setup();
    let index = add_chunk(&mut world, &mut recorder, ChunkStatus::Ready);
    recorder.state.chunks[index].text = "Keep these words".to_string();
    let path = audio(&recorder, index);
    world.write(&path, b"saved audio");
    world.action(&mut recorder, Action::CloseTab("default".to_string())).unwrap();
    assert!(recorder.state.tabs.is_empty());
    assert!(recorder.state.transcript.is_empty());
    let mut restored = world.restart(&recorder, &Vec::new());
    assert!(restored.state.tabs.is_empty());
    assert_eq!(restored.state.closed_tabs.len(), 1);
    assert!(world.has(&path));
    world.action(&mut restored, Action::ReopenTab).unwrap();
    assert_eq!(restored.state.transcript, "Keep these words");
    assert_eq!(restored.state.selected_tab, "default");
}

#[test]
fn export_uses_requested_tab_without_changing_active_tab() {
    let (mut world, mut recorder) = setup();
    let first = add_chunk(&mut world, &mut recorder, ChunkStatus::Ready);
    recorder.state.chunks[first].text = "First tab text".to_string();
    world.action(&mut recorder, Action::CreateTab("Another".to_string())).unwrap();
    let second = add_chunk(&mut world, &mut recorder, ChunkStatus::Ready);
    recorder.state.chunks[second].text = "Other tab text".to_string();
    let selected = recorder.state.selected_tab.clone();
    let path = "/state/export.txt".to_string();
    world
        .action(
            &mut recorder,
            Action::ExportTab { id: "default".to_string(), path: path.clone() },
        )
        .unwrap();
    assert_eq!(world.read(&path).unwrap(), b"First tab text\n");
    assert_eq!(recorder.state.selected_tab, selected);
    assert_eq!(recorder.state.chunks[second].text, "Other tab text");
    assert_eq!(recorder.state.message, "Exported to /state/export.txt");
}

#[test]
fn transcription_is_observable_and_clear_removes_saved_data() {
    let (mut world, mut recorder) = setup();
    world.write("/state/recording.wav", b"forty-eight thousand samples");
    world.action(&mut recorder, Action::Retry).unwrap();
    assert_eq!(recorder.state.phase, Phase::Transcribing);
    assert!(recorder.state.transcribing);
    let tree = format!("/state/chunks/{}", recorder.state.chunks[0].id);
    assert_eq!(world.launched, vec![tree.clone()]);
    assert!(world.action(&mut recorder, Action::Clear).is_err());
    assert!(world.action(&mut recorder, Action::Stop).is_err());
    world.tick(&mut recorder).unwrap();
    assert_eq!(recorder.state.phase, Phase::Transcribing);
    world.answer = Some(Ok("A thought worth keeping.".to_string()));
    world.tick(&mut recorder).unwrap();
    assert_eq!(recorder.state.transcript, "A thought worth keeping.");
    assert_eq!(recorder.state.phase, Phase::Ready);
    assert!(world.has(&format!("{tree}/recording.wav")));
    world.action(&mut recorder, Action::Clear).unwrap();
    assert_eq!(recorder.state.transcript, "");
    assert!(!world.has("/state/recording.wav"));
    assert!(!world.has(&tree));
    world.action(&mut recorder, Action::Shutdown).unwrap();
    assert!(ends(&Some(Action::Shutdown), false));
    assert!(!ends(&Some(Action::Shutdown), true));
    assert!(!ends(&None, false));
}

#[test]
fn failures_are_visible_and_audio_can_be_retried() {
    let (mut world, mut recorder) = setup();
    world.write("/state/recording.wav", &[0; 100]);
    world.action(&mut recorder, Action::Retry).unwrap();
    world.answer = Some(Err("Audio conversion failed: no such stream".to_string()));
    world.tick(&mut recorder).unwrap();
    assert_eq!(recorder.state.phase, Phase::Error);
    assert!(recorder.state.message.contains("Audio conversion failed"));
    assert!(world.has("/state/chunks"));
    assert!(recorder.state.can_retry);
    world.action(&mut recorder, Action::Retry).unwrap();
    assert_eq!(recorder.state.phase, Phase::Transcribing);
    assert_eq!(world.launched.len(), 2);
}

#[test]
fn chunks_queue_while_worker_runs_and_append_in_order() {
    let (mut world, mut recorder) = setup();
    for _ in 0..3 {
        world.write("/state/recording.wav", b"samples");
        world.action(&mut recorder, Action::Retry).unwrap();
    }
    assert_eq!(recorder.state.chunks.len(), 3);
    assert!(recorder.state.queue_depth >= 1);
    assert_eq!(world.launched.len(), 1);
    while recorder.state.phase == Phase::Transcribing {
        world.answer = Some(Ok("A thought worth keeping.".to_string()));
        world.tick(&mut recorder).unwrap();
    }
    assert_eq!(
        recorder.state.transcript,
        "A thought worth keeping.\nA thought worth keeping.\nA thought worth keeping."
    );
    assert!(recorder.state.chunks.iter().all(|c| c.status == ChunkStatus::Ready));
    let trees: Vec<String> =
        recorder.state.chunks.iter().map(|c| format!("/state/chunks/{}", c.id)).collect();
    assert_eq!(world.launched, trees);
}

#[test]
fn cancel_aborts_queue_without_erasing_audio_or_appending_late_results() {
    let (mut world, mut recorder) = setup();
    for _ in 0..3 {
        world.write("/state/recording.wav", b"samples");
        world.action(&mut recorder, Action::Retry).unwrap();
    }
    world.action(&mut recorder, Action::Cancel).unwrap();
    assert!(world.canceled);
    assert!(recorder.state.transcribing);
    world.answer = Some(Err("Transcription canceled".to_string()));
    world.tick(&mut recorder).unwrap();
    assert!(!recorder.state.transcribing);
    assert_eq!(recorder.state.queue_depth, 0);
    assert_eq!(recorder.state.transcript, "");
    for chunk in &recorder.state.chunks {
        assert_eq!(chunk.status, ChunkStatus::Canceled);
        assert!(world.has(&format!("/state/chunks/{}/recording.wav", chunk.id)));
    }
    world.tick(&mut recorder).unwrap();
    assert_eq!(recorder.state.transcript, "");
    world.action(&mut recorder, Action::Shutdown).unwrap();
}

#[test]
fn a_recording_starts_ends_and_is_queued() {
    let (mut world, mut recorder) = setup();
    world.programs.push("/missing".to_string());
    world.action(&mut recorder, Action::Toggle).unwrap();
    assert!(recorder.capturing);
    assert_eq!(recorder.state.phase, Phase::Recording);
    assert_eq!(recorder.state.device, "Built-in");
    assert_eq!(
        recorder.state.message,
        "Recording chunk 1. Transcription continues in the background."
    );
    assert_eq!(
        world.action(&mut recorder, Action::Start).unwrap_err().message(),
        "Already recording."
    );
    assert_eq!(
        world.action(&mut recorder, Action::SelectDevice(None)).unwrap_err().message(),
        "Stop recording before changing microphone."
    );
    let reading = Reading { seconds: 3_f64.to_bits(), level: 0x3f00_0000, error: None };
    let step = recorder.tick(reading, false);
    world.drive(&mut recorder, step).unwrap();
    assert_eq!(f64::from_bits(recorder.state.seconds), 3.);
    assert_eq!(recorder.state.level, 0x3f00_0000);
    assert_eq!(f64::from_bits(recorder.state.chunks[0].seconds), 3.);
    world.length = Some(2.9_f64.to_bits());
    world.action(&mut recorder, Action::Toggle).unwrap();
    assert!(!recorder.capturing);
    assert_eq!(f64::from_bits(recorder.state.chunks[0].seconds), 2.9);
    assert_eq!(recorder.state.chunks[0].status, ChunkStatus::Transcribing);
    assert_eq!(
        recorder.state.message,
        "Chunk 1 queued. Press Space to record the next one."
    );
    assert_eq!(recorder.state.level, 0);
    assert!(!recorder.may_end());
}

#[test]
fn a_recording_that_cannot_start_leaves_nothing() {
    let (mut world, mut recorder) = setup();
    world.programs.push("/missing".to_string());
    world.capture_works = false;
    assert_eq!(
        world.action(&mut recorder, Action::Start).unwrap_err().message(),
        "Microphone not found.: none attached"
    );
    assert!(recorder.state.chunks.is_empty());
    assert!(!recorder.capturing);
    assert_eq!(world.trees, vec!["/state/chunks".to_string()]);
}

#[test]
fn a_recording_that_ends_badly_is_kept_as_failed() {
    let (mut world, mut recorder) = setup();
    world.programs.push("/missing".to_string());
    world.action(&mut recorder, Action::Start).unwrap();
    world.stop_works = false;
    assert_eq!(
        world.action(&mut recorder, Action::Stop).unwrap_err().message(),
        "stream broke: device gone"
    );
    assert_eq!(recorder.state.chunks[0].status, ChunkStatus::Failed);
    assert_eq!(recorder.state.chunks[0].error.as_deref(), Some("stream broke"));
    assert_eq!(recorder.state.phase, Phase::Error);
}

#[test]
fn a_recording_that_breaks_off_is_kept_as_failed() {
    let (mut world, mut recorder) = setup();
    world.programs.push("/missing".to_string());
    world.action(&mut recorder, Action::Start).unwrap();
    let reading = Reading { seconds: 5_f64.to_bits(), level: 0, error: Some("unplugged".to_string()) };
    let step = recorder.tick(reading, false);
    world.drive(&mut recorder, step).unwrap();
    assert!(!recorder.capturing);
    assert_eq!(recorder.state.chunks[0].status, ChunkStatus::Failed);
    assert_eq!(recorder.state.message, "unplugged");
    world.action(&mut recorder, Action::Start).unwrap();
    let step = recorder.interrupt();
    world.drive(&mut recorder, step).unwrap();
    assert_eq!(recorder.state.message, "Recording interrupted. Retry retained audio.");
    let step = recorder.interrupt();
    assert!(matches!(step, Step::Done));
}

#[test]
fn refused_requests_leave_the_recorder_as_it_was() {
    let (mut world, mut recorder) = setup();
    let before = format!("{recorder:?}");
    let cases = vec![
        (Action::Stop, "No recording to stop."),
        (Action::Retry, "No finished or failed chunk to retry."),
        (Action::Copy, "No transcript to copy yet."),
        (Action::CopyText(String::new()), "No transcript to copy yet."),
        (Action::CopyChunk("gone".to_string()), "Chunk is no longer available."),
        (Action::CopyLatest, "No completed chunk to copy yet."),
        (Action::CloseTab("gone".to_string()), "Tab is no longer available."),
        (Action::SelectTab("gone".to_string()), "Tab is no longer available."),
        (Action::ReopenTab, "No closed tabs to reopen."),
        (
            Action::CreateTab("  ".to_string()),
            "Tab names must contain 1–48 printable characters.",
        ),
        (
            Action::CreateTab("x".repeat(49)),
            "Tab names must contain 1–48 printable characters.",
        ),
        (
            Action::RenameTab { id: "default".to_string(), name: "a\tb".to_string() },
            "Tab names must contain 1–48 printable characters.",
        ),
        (
            Action::RenameTab { id: "gone".to_string(), name: "a".to_string() },
            "Tab is no longer available.",
        ),
        (
            Action::SelectDevice(Some("gone".to_string())),
            "Microphone is no longer available. Refresh the picker.",
        ),
        (
            Action::ExportTab { id: "gone".to_string(), path: "/a.txt".to_string() },
            "Tab is no longer available.",
        ),
        (
            Action::ExportTab { id: "default".to_string(), path: "/a.txt".to_string() },
            "No transcript to export yet.",
        ),
    ];
    for (action, words) in cases {
        assert_eq!(world.action(&mut recorder, action).unwrap_err().message(), words);
        assert_eq!(format!("{recorder:?}"), before);
    }
    assert_eq!(world.saves, 0);
    let step = recorder.request(None, false);
    assert!(matches!(step, Step::Failed(Error::InvalidRequest)));
    let reply = recorder.reply(Some(&Error::InvalidRequest));
    assert_eq!(reply.error.as_deref(), Some("Invalid request"));
    assert!(recorder.reply(None).error.is_none());
}

#[test]
fn a_recording_whose_chunk_is_gone_is_over_all_the_same() {
    let (mut world, mut recorder) = setup();
    recorder.capturing = true;
    assert_eq!(
        world.action(&mut recorder, Action::Stop).unwrap_err().message(),
        "Recording metadata missing"
    );
    assert!(!recorder.capturing);
}

#[test]
fn no_tab_means_no_recording_and_no_clearing() {
    let (mut world, mut recorder) = setup();
    world.action(&mut recorder, Action::CloseTab("default".to_string())).unwrap();
    assert_eq!(
        world.action(&mut recorder, Action::Start).unwrap_err().message(),
        "Create or reopen a tab before recording."
    );
    assert_eq!(
        world.action(&mut recorder, Action::Clear).unwrap_err().message(),
        "Select a tab before clearing."
    );
}

#[test]
fn settings_that_do_not_hold_are_refused_before_anything_is_saved() {
    let (mut world, mut recorder) = setup();
    let mut settings = BackendSettings::from_config(&recorder.config, false);
    settings.openai_model = "  ".to_string();
    let request =
        Action::ConfigureBackend { settings, api_key: Some("secret".to_string()) };
    assert_eq!(
        world.action(&mut recorder, request).unwrap_err().message(),
        "OpenAI model cannot be empty"
    );
    assert!(world.key.is_none());
    let settings = BackendSettings::from_config(&recorder.config, false);
    let request = Action::ConfigureBackend { settings, api_key: Some("a\nb".to_string()) };
    assert_eq!(
        world.action(&mut recorder, request).unwrap_err().message(),
        "API key contains invalid characters"
    );
    assert!(world.settings.is_none());
    let mut bad = TranscriptionSettings::default();
    bad.environment.push(("PATH".to_string(), "/tmp".to_string()));
    world.settings = Some(bad);
    let settings = BackendSettings::from_config(&recorder.config, false);
    let request = Action::ConfigureBackend { settings, api_key: None };
    assert_eq!(
        world.action(&mut recorder, request).unwrap_err().message(),
        "Only GGML_, VK_ and MESA_ backend environment settings are supported"
    );
}

#[test]
fn microphones_are_listed_and_chosen() {
    let (mut world, mut recorder) = setup();
    world.devices = vec!["A".to_string(), "B".to_string()];
    world.action(&mut recorder, Action::Devices).unwrap();
    assert_eq!(recorder.state.devices, vec!["A".to_string(), "B".to_string()]);
    assert_eq!(world.saves, 0);
    world.action(&mut recorder, Action::SelectDevice(Some("B".to_string()))).unwrap();
    assert_eq!(recorder.config.device.as_deref(), Some("B"));
    assert_eq!(recorder.state.message, "Microphone selected: B");
    world.action(&mut recorder, Action::SelectDevice(None)).unwrap();
    assert_eq!(recorder.state.device, "System default microphone");
    assert!(recorder.config.device.is_none());
}

#[test]
fn finished_words_go_to_the_clipboard_by_themselves() {
    let (mut world, mut recorder) = setup();
    recorder.auto_copy = true;
    world.write("/state/recording.wav", b"samples");
    world.action(&mut recorder, Action::Retry).unwrap();
    world.answer = Some(Ok("words".to_string()));
    world.tick(&mut recorder).unwrap();
    assert_eq!(world.clipboard, vec!["words".to_string()]);
    assert_eq!(recorder.state.message, "Copied to clipboard.");
    world.clipboard_works = false;
    world.action(&mut recorder, Action::Retry).unwrap();
    world.answer = Some(Ok("other words".to_string()));
    world.tick(&mut recorder).unwrap();
    assert_eq!(
        recorder.state.message,
        "Transcript ready. Clipboard unavailable: no display"
    );
    assert_eq!(recorder.state.transcript, "other words");
}

#[test]
fn copies_take_the_latest_or_the_named_words() {
    let (mut world, mut recorder) = setup();
    let first = add_chunk(&mut world, &mut recorder, ChunkStatus::Ready);
    recorder.state.chunks[first].text = "first".to_string();
    let second = add_chunk(&mut world, &mut recorder, ChunkStatus::Ready);
    recorder.state.chunks[second].text = "second".to_string();
    add_chunk(&mut world, &mut recorder, ChunkStatus::Failed);
    let id = recorder.state.chunks[first].id.clone();
    world.action(&mut recorder, Action::CopyLatest).unwrap();
    world.action(&mut recorder, Action::CopyChunk(id)).unwrap();
    world.action(&mut recorder, Action::CopyText("marked".to_string())).unwrap();
    assert_eq!(
        world.clipboard,
        vec!["second".to_string(), "first".to_string(), "marked".to_string()]
    );
}

#[test]
fn an_export_never_replaces_a_file() {
    let (mut world, mut recorder) = setup();
    let index = add_chunk(&mut world, &mut recorder, ChunkStatus::Ready);
    recorder.state.chunks[index].text = "words".to_string();
    world.write("/out.txt", b"old");
    let request = Action::ExportTab { id: "default".to_string(), path: "/out.txt".to_string() };
    assert_eq!(
        world.action(&mut recorder, request).unwrap_err().message(),
        "Could not create /out.txt. Choose another filename if it already exists."
    );
    assert_eq!(world.read("/out.txt").unwrap(), b"old");
    let request = Action::ExportTab { id: "default".to_string(), path: "out.txt".to_string() };
    assert_eq!(
        world.action(&mut recorder, request).unwrap_err().message(),
        "Export requires an absolute save path."
    );
}

#[test]
fn exports_plain_text_and_never_overwrites_existing_files() {
    let mut world = World::new();
    let recorder = setup().1;
    let path = "/tmp/notes.txt";
    let contents = export::write(path, "First chunk.\nSecond chunk.").unwrap();
    let first = Effect::Export { path: path.to_string(), contents };
    assert!(matches!(world.perform(&recorder, first), Outcome::Done));
    assert_eq!(world.read(path).unwrap(), b"First chunk.\nSecond chunk.\n");
    let contents = export::write(path, "Replacement").unwrap();
    let second = Effect::Export { path: path.to_string(), contents };
    assert!(matches!(world.perform(&recorder, second), Outcome::Failed { .. }));
    assert_eq!(world.read(path).unwrap(), b"First chunk.\nSecond chunk.\n");
    assert!(export::write("/tmp/empty.txt", "").is_err());
}

#[test]
fn clearing_leaves_the_other_tabs() {
    let (mut world, mut recorder) = setup();
    let first = add_chunk(&mut world, &mut recorder, ChunkStatus::Ready);
    recorder.state.chunks[first].text = "kept".to_string();
    world.action(&mut recorder, Action::CreateTab("Other".to_string())).unwrap();
    let second = add_chunk(&mut world, &mut recorder, ChunkStatus::Ready);
    recorder.state.chunks[second].text = "cleared".to_string();
    world.action(&mut recorder, Action::Clear).unwrap();
    assert_eq!(recorder.state.transcript, "");
    assert_eq!(recorder.state.chunks.len(), 1);
    assert!(world.has("/state/chunks"));
    world.action(&mut recorder, Action::SelectTab("default".to_string())).unwrap();
    assert_eq!(recorder.state.transcript, "kept");
}

#[test]
fn a_clearing_whose_last_removal_fails_leaves_the_words_on_the_screen() {
    let (mut world, mut recorder) = setup();
    let index = add_chunk(&mut world, &mut recorder, ChunkStatus::Ready);
    recorder.state.chunks[index].text = "words".to_string();
    recorder.state.transcript = "words".to_string();
    world.removal_works = false;
    assert_eq!(
        world.action(&mut recorder, Action::Clear).unwrap_err().message(),
        "not permitted"
    );
    assert!(recorder.state.chunks.is_empty());
    assert_eq!(recorder.state.transcript, "words");
}

#[test]
fn a_state_that_cannot_be_saved_fails_the_request() {
    let (mut world, mut recorder) = setup();
    world.save_fails = true;
    assert_eq!(
        world.action(&mut recorder, Action::CreateTab("a".to_string())).unwrap_err().message(),
        "disk full"
    );
    add_chunk(&mut world, &mut recorder, ChunkStatus::Queued);
    assert!(world.tick(&mut recorder).is_err());
    assert!(world.launched.is_empty());
}

#[test]
fn a_closed_tab_comes_back_with_its_transcript() {
    let (mut world, mut recorder) = setup();
    let first = add_chunk(&mut world, &mut recorder, ChunkStatus::Ready);
    recorder.state.chunks[first].text = "one".to_string();
    world.action(&mut recorder, Action::CreateTab("Second".to_string())).unwrap();
    world.action(&mut recorder, Action::SelectTab("default".to_string())).unwrap();
    assert_eq!(recorder.state.transcript, "one");
    world.action(&mut recorder, Action::CloseTab("default".to_string())).unwrap();
    assert_eq!(recorder.state.transcript, "");
    assert_eq!(recorder.state.tabs[0].name, "Second");
    assert_eq!(recorder.state.selected_tab, recorder.state.tabs[0].id);
    world.action(&mut recorder, Action::ReopenTab).unwrap();
    assert_eq!(recorder.state.transcript, "one");
    assert_eq!(recorder.state.tabs[1].id, "default");
    assert!(recorder.state.closed_tabs.is_empty());
}

#[test]
fn a_state_from_before_there_were_tabs_gets_one() {
    let state = State {
        tabs: Vec::new(),
        selected_tab: String::new(),
        transcript_title: "Diary".to_string(),
        transcript: "old words".to_string(),
        ..State::default()
    };
    let recorder = Recorder::new(configuration(), state, &Vec::new(), false, false, false);
    assert_eq!(recorder.state.tabs.len(), 1);
    assert_eq!(recorder.state.tabs[0].name, "Diary");
    assert_eq!(recorder.state.selected_tab, "default");
    assert_eq!(recorder.state.transcript, "old words");
    assert_eq!(recorder.state.tabs[0].prior_transcript, "old words");
    assert_eq!(recorder.state.phase, Phase::Ready);
}

#[test]
fn saved_states_that_cannot_be_read_are_told() {
    let error = load_state(Stored::Malformed("line 1".to_string())).unwrap_err();
    assert_eq!(error.message(), "Could not read saved state: line 1");
    let error = load_state(Stored::Unreadable("denied".to_string())).unwrap_err();
    assert_eq!(error.message(), "denied");
    assert_eq!(load_state(Stored::Missing).unwrap().tabs.len(), 1);
}

#[test]
fn only_one_chunk_is_transcribed_at_a_time() {
    let (mut world, mut recorder) = setup();
    for _ in 0..4 {
        add_chunk(&mut world, &mut recorder, ChunkStatus::Queued);
    }
    for _ in 0..5 {
        world.tick(&mut recorder).unwrap();
        let busy = recorder
            .state
            .chunks
            .iter()
            .filter(|c| c.status == ChunkStatus::Transcribing)
            .count();
        assert_eq!(busy, usize::from(recorder.pending.is_some()));
        world.answer = Some(Ok("w".to_string()));
    }
    assert_eq!(recorder.state.transcript, "w\nw\nw\nw");
}

#[test]
fn what_is_waited_for_is_tested_before_a_request_goes_on() {
    let (_, recorder) = setup();
    assert!(!recorder.can_resume(&Wait::Measured { index: 0 }));
    assert!(!recorder.can_resume(&Wait::Polled));
    assert!(recorder.can_resume(&Wait::Saved));
    assert!(!Wait::Polled.accepts(&Outcome::Done));
    assert!(Wait::Saved.accepts(&failed("")));
}

#[test]
fn tabs_of_other_names_are_told_apart_by_id() {
    let (mut world, mut recorder) = setup();
    recorder.state.tabs.push(TranscriptTab {
        id: "second".to_string(),
        name: "Transcript 1".to_string(),
        prior_transcript: "before".to_string(),
    });
    world.action(&mut recorder, Action::SelectTab("second".to_string())).unwrap();
    assert_eq!(recorder.state.transcript, "before");
    let request = Action::RenameTab { id: "second".to_string(), name: "  New  ".to_string() };
    world.action(&mut recorder, request).unwrap();
    assert_eq!(recorder.state.tabs[0].name, "Transcript 1");
    assert_eq!(recorder.state.tabs[1].name, "New");
}

/// Whether every chunk is still in its place with its words, every tab is still there, and an open
/// tab is selected, where there is one.
fn nothing_lost(before: &State, after: &State) -> bool {
    let chunks = before.chunks.iter().zip(&after.chunks);
    let tabs = |state: &State| -> Vec<(String, String)> {
        let all = state.tabs.iter().chain(&state.closed_tabs);
        all.map(|tab| (tab.id.clone(), tab.prior_transcript.clone())).collect()
    };
    let left = tabs(after);
    before.chunks.len() <= after.chunks.len()
        && chunks.into_iter().all(|(a, b)| {
            a.id == b.id && a.tab_id == b.tab_id && a.text == b.text
        })
        && tabs(before).iter().all(|tab| left.contains(tab))
        && if after.tabs.is_empty() {
            after.selected_tab.is_empty()
        } else {
            after.tabs.iter().any(|tab| tab.id == after.selected_tab)
        }
}

#[test]
fn only_clearing_loses_anything() {
    let actions = || {
        vec![
            Action::CreateTab("Second".to_string()),
            Action::Start,
            Action::Stop,
            Action::RenameTab { id: "default".to_string(), name: "First".to_string() },
            Action::Retry,
            Action::Cancel,
            Action::Retry,
            Action::SelectTab("default".to_string()),
            Action::CloseTab("default".to_string()),
            Action::CloseTab("missing".to_string()),
            Action::Copy,
            Action::CopyLatest,
            Action::SelectDevice(None),
            Action::SelectDevice(Some("Gone".to_string())),
            Action::ExportTab { id: "default".to_string(), path: "/x.txt".to_string() },
            Action::ReopenTab,
            Action::Shutdown,
        ]
    };
    for broken in 0..4 {
        let (mut world, mut recorder) = setup();
        world.programs = vec!["/missing".to_string()];
        let index = add_chunk(&mut world, &mut recorder, ChunkStatus::Ready);
        recorder.state.chunks[index].text = "words".to_string();
        recorder.state.tabs[0].prior_transcript = "from before".to_string();
        world.save_fails = broken == 1;
        world.capture_works = broken != 2;
        world.clipboard_works = broken != 3;
        for action in actions() {
            let before = recorder.state.clone();
            let audio = audio(&recorder, index);
            world.write(&audio, b"audio");
            let _ = world.action(&mut recorder, action);
            assert!(nothing_lost(&before, &recorder.state));
            assert!(world.has(&audio));
        }
        while let Some(id) = recorder.state.tabs.first().map(|tab| tab.id.clone()) {
            let before = recorder.state.clone();
            let _ = world.action(&mut recorder, Action::CloseTab(id));
            assert!(nothing_lost(&before, &recorder.state));
        }
        assert!(!recorder.state.closed_tabs.is_empty());
    }
}
