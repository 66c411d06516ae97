//! The transcription of one recording.
use pasteface::config::{Acceleration, Config, Prerequisites, Provider, Stored};
use pasteface::error::Error;
use pasteface::provider::{
    check_upload, service_error, understand, upload_form, Response, MAX_AUDIO_BYTES,
};
use pasteface::transcribe::{
    begin, resume, watch, CommandLine, Found, Progress, Stage, Watch, Work,
};

fn config(provider: Provider) -> Config {
    Config {
        directory: "/state".to_string(),
        binary: "/bin/whisper".to_string(),
        model: "/model.bin".to_string(),
        device: None,
        whisper_environment: vec![("GGML_X".to_string(), "1".to_string())],
        provider,
        acceleration: Acceleration::Auto,
        openai_model: "gpt-transcribe".to_string(),
    }
}

fn known(key: Option<&str>) -> Prerequisites {
    Prerequisites {
        stored_key: match key {
            Some(key) => Stored::Parsed(key.to_string()),
            None => Stored::Missing,
        },
        environment_key: None,
        binary_is_file: true,
        model_is_file: true,
    }
}

fn inspected(canceled: bool, size: u64) -> Found {
    Found::Inspected { canceled, known: known(Some("mock-secret")), size: Ok(size) }
}

fn go(config: &Config, stage: Stage, found: Found) -> Progress {
    assert!(stage.accepts(&found));
    resume(config, "/tree", stage, found)
}

fn failure(progress: Progress) -> String {
    match progress {
        Progress::Failed(error) => error.message(),
        other => panic!("Expected a failure, not {other:?}"),
    }
}

fn command(progress: Progress) -> (CommandLine, Stage) {
    match progress {
        Progress::Perform(Work::Run(command), stage) => (command, stage),
        other => panic!("Expected a program, not {other:?}"),
    }
}

#[test]
fn uploads_exact_model_and_returns_text() {
    let config = config(Provider::OpenAi);
    let (_, stage) = command(go(&config, Stage::Inspecting, inspected(false, 45)));
    let next = go(&config, stage, Found::Ran(Ok(())));
    assert!(matches!(
        &next,
        Progress::Perform(Work::Weigh { audio }, Stage::Weighing) if audio == "/tree/whisper.wav"
    ));
    let weighed =
        Found::Weighed { canceled: false, size: Ok(8), known: known(Some("mock-secret")) };
    match go(&config, Stage::Weighing, weighed) {
        Progress::Perform(Work::Upload { audio, key, model }, Stage::Uploading) => {
            assert_eq!(audio, "/tree/whisper.wav");
            assert_eq!(key, "mock-secret");
            assert_eq!(model, "gpt-transcribe");
            let form = upload_form(&model);
            assert!(form.fields.contains(&("model".to_string(), "gpt-transcribe".to_string())));
            assert!(form.fields.contains(&("response_format".to_string(), "json".to_string())));
            assert_eq!(form.fields.len(), 2);
            assert_eq!(form.part, "file");
            assert_eq!(form.file_name, "recording.wav");
            assert_eq!(form.media_type, "audio/wav");
        }
        other => panic!("Expected an upload, not {other:?}"),
    }
    let reply = Found::Replied(Response::Answered {
        status: 200,
        transcript: Some("  hello there  ".to_string()),
    });
    match go(&config, Stage::Uploading, reply) {
        Progress::Done(text) => assert_eq!(text, "hello there"),
        other => panic!("Expected a transcript, not {other:?}"),
    }
}

#[test]
fn server_errors_never_echo_response_secrets() {
    let answer =
        Response::Answered { status: 401, transcript: Some("mock-secret".to_string()) };
    let error = understand(answer).unwrap_err().message();
    assert!(error.contains("API key"));
    assert!(!error.contains("mock-secret"));
}

#[test]
fn cancellation_aborts_a_waiting_response() {
    let error = understand(Response::Canceled).unwrap_err().message();
    assert!(error.contains("canceled"));
}

#[test]
fn cancellation_kills_and_reaps_running_process_promptly() {
    match watch(true, None) {
        Watch::Kill(error) => assert!(error.message().contains("canceled")),
        other => panic!("Expected an end, not {other:?}"),
    }
    assert!(matches!(watch(true, Some(Ok(()))), Watch::Kill(_)));
    assert!(matches!(watch(false, None), Watch::Wait));
    assert!(matches!(watch(false, Some(Ok(()))), Watch::Ended(Ok(()))));
    match watch(false, Some(Err("stderr".to_string()))) {
        Watch::Ended(Err(error)) => assert_eq!(error.message(), "stderr"),
        other => panic!("Expected an error, not {other:?}"),
    }
}

#[test]
fn cancellation_before_spawn_does_not_run_command() {
    let config = config(Provider::Local);
    let error = failure(go(&config, Stage::Inspecting, inspected(true, 100)));
    assert_eq!(error, "Transcription canceled");
    // The same is asked right before a program is started.
    assert!(matches!(watch(true, None), Watch::Kill(Error::TranscriptionCanceled)));
}

#[test]
fn a_recording_is_converted_and_transcribed_here() {
    let mut config = config(Provider::Local);
    let first = begin("/tree");
    assert!(matches!(
        &first,
        Progress::Perform(Work::Inspect { recording }, Stage::Inspecting)
            if recording == "/tree/recording.wav"
    ));
    let (converter, stage) = command(go(&config, Stage::Inspecting, inspected(false, 45)));
    assert_eq!(converter.program, "ffmpeg");
    assert_eq!(
        converter.arguments,
        vec![
            "-nostdin", "-v", "error", "-y", "-i", "/tree/recording.wav", "-ar", "16000", "-ac",
            "1", "-c:a", "pcm_s16le", "/tree/whisper.wav",
        ]
    );
    assert_eq!(converter.log, "/tree/ffmpeg.log");
    assert!(matches!(
        go(&config, stage, Found::Ran(Ok(()))),
        Progress::Perform(Work::Remove { path }, Stage::Removing)
            if path == "/tree/whisper-output.txt"
    ));
    let (whisper, stage) = command(go(&config, Stage::Removing, Found::Removed(Ok(()))));
    assert_eq!(whisper.program, "/bin/whisper");
    assert_eq!(
        whisper.arguments,
        vec![
            "-m", "/model.bin", "-f", "/tree/whisper.wav", "-nt", "-otxt", "-of",
            "/tree/whisper-output",
        ]
    );
    assert_eq!(whisper.environment, vec![("GGML_X".to_string(), "1".to_string())]);
    assert!(matches!(
        go(&config, stage, Found::Ran(Ok(()))),
        Progress::Perform(Work::Read { path }, Stage::Reading)
            if path == "/tree/whisper-output.txt"
    ));
    match go(&config, Stage::Reading, Found::Text(Ok(" words \n".to_string()))) {
        Progress::Done(text) => assert_eq!(text, "words"),
        other => panic!("Expected a transcript, not {other:?}"),
    }
    config.acceleration = Acceleration::Cpu;
    let (whisper, _) = command(go(&config, Stage::Removing, Found::Removed(Ok(()))));
    assert_eq!(whisper.arguments.last().map(|s| s.as_str()), Some("-ng"));
}

#[test]
fn each_step_of_a_transcription_can_fail() {
    let local = config(Provider::Local);
    assert_eq!(
        failure(go(&local, Stage::Inspecting, inspected(false, 44))),
        "No audio captured. Check your microphone."
    );
    let unread = Found::Inspected {
        canceled: false,
        known: known(None),
        size: Err("No such file".to_string()),
    };
    assert_eq!(failure(go(&local, Stage::Inspecting, unread)), "No such file");
    let bare = Found::Inspected {
        canceled: false,
        known: Prerequisites { model_is_file: false, ..known(None) },
        size: Ok(100),
    };
    assert!(failure(go(&local, Stage::Inspecting, bare)).starts_with("Whisper model missing"));
    let broken = || Found::Ran(Err(Error::Outside("bad data".to_string())));
    assert_eq!(
        failure(go(&local, Stage::Converting, broken())),
        "Audio conversion failed: bad data"
    );
    assert_eq!(failure(go(&local, Stage::Transcribing, broken())), "Whisper failed: bad data");
    let missing = Found::Ran(Err(Error::CannotStart(
        "ffmpeg".to_string(),
        "No such file".to_string(),
    )));
    assert_eq!(
        failure(go(&local, Stage::Converting, missing)),
        "Audio conversion failed: Could not start ffmpeg: No such file"
    );
    let stuck = Found::Removed(Err("denied".to_string()));
    assert_eq!(failure(go(&local, Stage::Removing, stuck)), "denied");
    let lost = Found::Text(Err("gone".to_string()));
    assert_eq!(failure(go(&local, Stage::Reading, lost)), "gone");
    let remote = config(Provider::OpenAi);
    let keyless = Found::Weighed { canceled: false, size: Ok(1), known: known(None) };
    assert!(failure(go(&remote, Stage::Weighing, keyless)).contains("Add an OpenAI API key"));
    assert!(!Stage::Uploading.accepts(&Found::Replied(Response::Answered {
        status: 99,
        transcript: None
    })));
}

#[test]
fn large_recordings_are_not_sent() {
    assert!(check_upload(false, &Ok(MAX_AUDIO_BYTES)).is_ok());
    assert_eq!(
        check_upload(false, &Ok(MAX_AUDIO_BYTES + 1)).unwrap_err().message(),
        "Recording exceeds OpenAI's 25 MB file limit. Use shorter chunks or the local provider."
    );
    assert_eq!(
        check_upload(false, &Err("denied".to_string())).unwrap_err().message(),
        "Cannot read recorded audio: denied"
    );
    assert_eq!(
        check_upload(true, &Ok(1)).unwrap_err().message(),
        "Transcription canceled"
    );
}

#[test]
fn answers_are_understood() {
    let answer = |status: u16| {
        understand(Response::Answered { status, transcript: None }).unwrap_err().message()
    };
    assert_eq!(answer(200), "OpenAI returned an invalid transcript");
    assert_eq!(answer(403), "OpenAI access denied. Check project and model permissions.");
    assert_eq!(answer(404), "OpenAI model unavailable. Check the model in settings.");
    assert_eq!(
        answer(413),
        "Recording exceeds OpenAI's file size limit. Use shorter chunks."
    );
    assert_eq!(answer(429), "OpenAI rate or billing limit reached. Check your API account.");
    assert_eq!(
        answer(503),
        "OpenAI is temporarily unavailable (HTTP 503 Service Unavailable). Recording is retained."
    );
    assert_eq!(
        answer(302),
        "OpenAI transcription failed (HTTP 302 Found). Check model and audio settings."
    );
    assert_eq!(
        service_error(599, "599 x".to_string()).message(),
        "OpenAI is temporarily unavailable (HTTP 599 x). Recording is retained."
    );
    let told = |response: Response| understand(response).unwrap_err().message();
    assert_eq!(
        told(Response::TimedOut),
        "OpenAI transcription timed out; recording is retained"
    );
    assert_eq!(
        told(Response::Unreachable),
        "Could not connect to OpenAI; check your connection"
    );
    assert_eq!(
        told(Response::NotPrepared("no roots".to_string())),
        "Cannot initialize transcription connection: no roots"
    );
    assert_eq!(
        told(Response::Unread("gone".to_string())),
        "Cannot read recorded audio: gone"
    );
    assert_eq!(told(Response::Broken("no runtime".to_string())), "no runtime");
}
