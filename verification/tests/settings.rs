//! The configuration: where it comes from, what is saved, and what is refused.
use pasteface::cli::{doctor_report, Command};
use pasteface::config::{
    resolve_executable, state_directory, Acceleration, Config, Prerequisites, Provider, Stored,
    Surroundings, TranscriptionSettings,
};
use pasteface::export::{resolve_path, suggested_path, Places};
use pasteface::model::Action;
use pasteface::session::validate_tab_name;
use pasteface::text::words_in;

fn around() -> Surroundings {
    Surroundings { home: Some("/home/me".to_string()), binary: None, model: None, device: None }
}

fn known(key: Stored<String>, environment: Option<&str>) -> Prerequisites {
    Prerequisites {
        stored_key: key,
        environment_key: environment.map(|key| key.to_string()),
        binary_is_file: false,
        model_is_file: false,
    }
}

#[test]
fn saves_provider_without_disclosing_key_and_refreshes_device() {
    let mut config =
        Config::load_directory("/state".to_string(), &around(), Stored::Missing).unwrap();
    config.device = Some("selected microphone".to_string());
    let (path, key) = config.save_api_key("test-key-only").unwrap();
    assert_eq!(path, "/state/secrets.json");
    let settings = TranscriptionSettings {
        provider: Provider::OpenAi,
        acceleration: Acceleration::Vulkan,
        ..TranscriptionSettings::default()
    };
    assert_eq!(config.save_settings(&settings).unwrap(), "/state/transcription.json");
    assert!(!format!("{settings:?}").contains("test-key-only"));
    let updated =
        config.with_current_settings(&around(), Stored::Parsed(settings)).unwrap();
    assert_eq!(updated.provider, Provider::OpenAi);
    assert_eq!(updated.openai_model, "gpt-transcribe");
    assert_eq!(updated.device, config.device);
    assert_eq!(updated.openai_api_key(&Stored::Parsed(key), &None).unwrap(), "test-key-only");
}

#[test]
fn resolves_replaced_executable_to_installed_path() {
    let running = "/opt/pasteface (deleted)".to_string();
    assert_eq!(resolve_executable(running, false, true).unwrap(), "/opt/pasteface");
    assert!(resolve_executable("/opt/missing (deleted)".to_string(), false, false).is_err());
    assert_eq!(resolve_executable("/opt/p".to_string(), true, false).unwrap(), "/opt/p");
    assert_eq!(
        resolve_executable("/opt/p".to_string(), false, true).unwrap_err().message(),
        "Pasteface executable is unavailable. Reinstall it and reopen the tray."
    );
}

#[test]
fn what_is_named_comes_before_what_is_saved() {
    let saved = TranscriptionSettings {
        binary: Some("/saved/binary".to_string()),
        ..TranscriptionSettings::default()
    };
    let config =
        Config::load_directory("/state".to_string(), &around(), Stored::Parsed(saved.clone()))
            .unwrap();
    assert_eq!(config.binary, "/saved/binary");
    assert_eq!(
        config.model,
        "/home/me/.local/lib/whisper.cpp/models/ggml-large-v3-turbo-q5_0.bin"
    );
    assert_eq!(config.socket(), "/state/recorder.sock");
    let named = Surroundings {
        binary: Some("/named".to_string()),
        device: Some("Mic".to_string()),
        ..around()
    };
    let config =
        Config::load_directory("/state".to_string(), &named, Stored::Parsed(saved)).unwrap();
    assert_eq!(config.binary, "/named");
    assert_eq!(config.device.as_deref(), Some("Mic"));
    let empty = Surroundings { device: Some(String::new()), ..around() };
    let config =
        Config::load_directory("/state".to_string(), &empty, Stored::Missing).unwrap();
    assert_eq!(config.device, None);
    assert_eq!(config.binary, "/home/me/.local/lib/whisper.cpp/build/bin/whisper-cli");
}

#[test]
fn broken_settings_are_told() {
    let load = |stored: Stored<TranscriptionSettings>| {
        Config::load_directory("/state".to_string(), &around(), stored).unwrap_err().message()
    };
    assert_eq!(
        load(Stored::Malformed("line 2".to_string())),
        "Invalid transcription settings: line 2"
    );
    assert_eq!(
        load(Stored::Unreadable("denied".to_string())),
        "Could not read transcription settings: denied"
    );
    let homeless = Surroundings { home: None, ..around() };
    assert_eq!(
        Config::load_directory("/state".to_string(), &homeless, Stored::Missing)
            .unwrap_err()
            .message(),
        "Cannot determine home directory"
    );
}

#[test]
fn the_saved_key_comes_before_the_one_in_the_environment() {
    let config =
        Config::load_directory("/state".to_string(), &around(), Stored::Missing).unwrap();
    let environment = Some(" env ".to_string());
    let saved = Stored::Parsed("  saved ".to_string());
    assert_eq!(config.openai_api_key(&saved, &environment).unwrap(), "saved");
    let blank = Stored::Parsed("  ".to_string());
    assert_eq!(config.openai_api_key(&blank, &environment).unwrap(), "env");
    assert_eq!(
        config.openai_api_key(&Stored::Missing, &None).unwrap_err().message(),
        "Add an OpenAI API key in settings or set OPENAI_API_KEY"
    );
    assert_eq!(
        config
            .openai_api_key(&Stored::Malformed("line 1".to_string()), &environment)
            .unwrap_err()
            .message(),
        "Could not read saved API key: line 1"
    );
    assert_eq!(
        config
            .openai_api_key(&Stored::Unreadable("denied".to_string()), &environment)
            .unwrap_err()
            .message(),
        "Could not read saved API key"
    );
    assert!(config.api_key_configured(&saved, &None));
    assert!(!config.api_key_configured(&Stored::Missing, &None));
    assert_eq!(
        config.save_api_key("a\u{1}b").unwrap_err().message(),
        "API key contains invalid characters"
    );
    assert_eq!(config.save_api_key("  key\n").unwrap().1, "key");
}

#[test]
fn settings_are_checked_before_they_are_saved() {
    let config =
        Config::load_directory("/state".to_string(), &around(), Stored::Missing).unwrap();
    let mut settings = TranscriptionSettings::default();
    for name in ["GGML_X", "VK_LAYER", "MESA_DEBUG"] {
        settings.environment.push((name.to_string(), "1".to_string()));
    }
    assert!(config.save_settings(&settings).is_ok());
    settings.environment.push(("LD_PRELOAD".to_string(), "1".to_string()));
    assert_eq!(
        config.save_settings(&settings).unwrap_err().message(),
        "Only GGML_, VK_ and MESA_ backend environment settings are supported"
    );
    settings.openai_model = " \n".to_string();
    assert_eq!(
        config.save_settings(&settings).unwrap_err().message(),
        "OpenAI model cannot be empty"
    );
}

#[test]
fn what_a_transcription_needs_is_looked_for() {
    let mut config =
        Config::load_directory("/state".to_string(), &around(), Stored::Missing).unwrap();
    config.binary = "/b".to_string();
    config.model = "/m".to_string();
    let nothing = known(Stored::Missing, None);
    assert_eq!(
        config.check_model(&nothing).unwrap_err().message(),
        "Whisper executable missing: /b. Set WHISPER_BINARY or change settings."
    );
    let binary = Prerequisites { binary_is_file: true, ..known(Stored::Missing, None) };
    assert_eq!(
        config.check_model(&binary).unwrap_err().message(),
        "Whisper model missing: /m. Set WHISPER_MODEL or change settings."
    );
    let both = Prerequisites { model_is_file: true, ..binary };
    assert!(config.check_model(&both).is_ok());
    config.provider = Provider::OpenAi;
    assert!(config.check_model(&both).is_err());
    assert!(config.check_model(&known(Stored::Missing, Some("key"))).is_ok());
}

#[test]
fn the_state_has_a_place() {
    let place = |asked: Option<&str>, state: Option<&str>, data: Option<&str>| {
        state_directory(
            asked.map(|s| s.to_string()),
            state.map(|s| s.to_string()),
            data.map(|s| s.to_string()),
            "/home/me",
        )
    };
    assert_eq!(place(Some("/here"), Some("/s"), None), "/here");
    assert_eq!(place(None, Some("/s"), Some("/d")), "/s/pasteface");
    assert_eq!(place(None, None, Some("/d")), "/d/pasteface");
    assert_eq!(place(None, None, None), "/home/me/.local/state/pasteface");
}

#[test]
fn files_are_suggested_and_found() {
    let places =
        Places { home: Some("/home/me".to_string()), current: Ok("/work".to_string()) };
    assert_eq!(suggested_path("My notes: 1/2", &places), "/work/My_notes__1_2.txt");
    assert_eq!(suggested_path("***", &places), "/work/transcript.txt");
    assert_eq!(suggested_path("Grüße", &places), "/work/Grüße.txt");
    let find = |input: &str| resolve_path(input, &places);
    assert_eq!(find(" ~/a ").unwrap(), "/home/me/a.txt");
    assert_eq!(find("/x/b.TXT").unwrap(), "/x/b.TXT");
    assert_eq!(find("c.md").unwrap(), "/work/c.md.txt");
    assert_eq!(find(".txt").unwrap(), "/work/.txt.txt");
    assert_eq!(find("/a/b.tar.txt").unwrap(), "/a/b.tar.txt");
    assert_eq!(find("/a.txt/b").unwrap(), "/a.txt/b.txt");
    assert_eq!(find("/a.txt//").unwrap(), "/a.txt//");
    assert_eq!(find("/a.txt/./.").unwrap(), "/a.txt/./.");
    assert_eq!(find("/a.txt/..").unwrap(), "/a.txt/...txt");
    assert_eq!(find("/").unwrap(), "/.txt");
    assert_eq!(find(".").unwrap(), "/work/..txt");
    assert_eq!(find("...txt").unwrap(), "/work/...txt");
    assert_eq!(find("a.").unwrap(), "/work/a..txt");
    assert_eq!(pasteface::export::write(&find("a").unwrap(), "words").unwrap(), "words\n");
    assert_eq!(
        pasteface::export::write("a.txt", "words").unwrap_err().message(),
        "Export requires an absolute save path."
    );
    // A suggestion stays as it is.
    for name in ["My notes", "***", "a.txt", "Grüße", "~/x"] {
        let suggested = suggested_path(name, &places);
        assert_eq!(find(&suggested).unwrap(), suggested);
    }
    assert_eq!(find("  ").unwrap_err().message(), "Choose an export filename.");
    let lost = Places { home: Some("/home/me".to_string()), current: Err("gone".to_string()) };
    assert_eq!(suggested_path("a", &lost), "/home/me/a.txt");
    assert_eq!(resolve_path("a", &lost).unwrap_err().message(), "gone");
}

/// The characters with the property `White_Space`.
fn is_blank(c: char) -> bool {
    matches!(
        c,
        '\u{9}'..='\u{d}'
            | ' '
            | '\u{85}'
            | '\u{a0}'
            | '\u{1680}'
            | '\u{2000}'..='\u{200a}'
            | '\u{2028}'
            | '\u{2029}'
            | '\u{202f}'
            | '\u{205f}'
            | '\u{3000}'
    )
}

#[test]
fn characters_are_told_apart() {
    let places =
        Places { home: Some("/home/me".to_string()), current: Ok("/work".to_string()) };
    for c in '\u{0}'..=char::MAX {
        let words = format!("a{c}b");
        assert_eq!(words_in(&words), if is_blank(c) { 2 } else { 1 });
        let control = matches!(c, '\u{0}'..='\u{1f}' | '\u{7f}'..='\u{9f}');
        assert_eq!(validate_tab_name(&words).is_err(), control);
        if c.is_ascii() {
            let kept = c.is_ascii_alphanumeric() || c == '-' || c == '_';
            let expected = if kept { c } else { '_' };
            assert_eq!(suggested_path(&words, &places), format!("/work/a{expected}b.txt"));
        }
    }
    assert_eq!(suggested_path("aéb", &places), "/work/aéb.txt");
    assert_eq!(suggested_path("a€b", &places), "/work/a_b.txt");
    assert_eq!(suggested_path("a\u{85}b", &places), "/work/a_b.txt");
    assert_eq!(words_in("  two  words\n"), 2);
    assert_eq!(
        validate_tab_name("").unwrap_err().message(),
        "Tab names must contain 1–48 printable characters."
    );
    assert!(validate_tab_name(&"é".repeat(48)).is_ok());
    assert!(validate_tab_name(&"é".repeat(49)).is_err());
}

#[test]
fn saved_keys_and_settings_are_in_force() {
    let config =
        Config::load_directory("/state".to_string(), &around(), Stored::Missing).unwrap();
    let environment = Some("env".to_string());
    let (_, key) = config.save_api_key(" \u{3000}my key ").unwrap();
    assert_eq!(
        config.openai_api_key(&Stored::Parsed(key), &environment).unwrap(),
        "my key"
    );
    let (_, removed) = config.save_api_key("  ").unwrap();
    assert_eq!(
        config.openai_api_key(&Stored::Parsed(removed), &environment).unwrap(),
        "env"
    );
    let settings = TranscriptionSettings {
        binary: Some("/b".to_string()),
        model: Some("/m".to_string()),
        acceleration: Acceleration::Cpu,
        ..TranscriptionSettings::default()
    };
    let named = Surroundings { model: Some("/named".to_string()), ..around() };
    let after = config.with_current_settings(&named, Stored::Parsed(settings)).unwrap();
    assert_eq!(after.binary, "/b");
    assert_eq!(after.model, "/named");
    assert_eq!(after.acceleration, Acceleration::Cpu);
}

#[test]
fn commands_ask_for_what_they_say() {
    assert!(matches!(Command::Start.action(), Some(Action::Start)));
    assert!(matches!(Command::CopyLatest.action(), Some(Action::CopyLatest)));
    assert!(matches!(Command::Status.action(), Some(Action::Status)));
    assert!(Command::Daemon.action().is_none());
    assert!(Command::Tui { no_tray: true }.action().is_none());
    let config =
        Config::load_directory("/state".to_string(), &around(), Stored::Missing).unwrap();
    let report = doctor_report(&config, &vec!["A".to_string(), "B".to_string()]);
    assert!(report.starts_with("Provider: Local\nAcceleration: Auto\nWhisper: /home/me/"));
    assert!(report.ends_with("\nState: /state\nMicrophones: A, B"));
}
