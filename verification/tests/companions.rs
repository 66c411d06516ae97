//! What the interfaces know of the recorder, and the tray.
use pasteface::error::Error;
use pasteface::ipc::{Client, Course, Errand, Launch, Report, TRIES};
use pasteface::logo::{rgba, ANSI_FACE};
use pasteface::model::{Action, Phase, Reply, State};
use pasteface::tray::{
    after_attempt, has_display, launcher_script, terminal_candidates, update, Attempt, Choice,
    Event,
};

fn reply(error: Option<&str>) -> Result<Reply, String> {
    Ok(Reply {
        state: State { transcript: "words".to_string(), ..State::default() },
        error: error.map(|words| words.to_string()),
    })
}

#[test]
fn errors_stay_until_something_else_is_asked_for() {
    let mut client = Client::new();
    client.receive(&Action::Stop, reply(Some("No recording to stop.")));
    client.receive(&Action::Status, reply(None));
    assert_eq!(client.snapshot().1.as_deref(), Some("No recording to stop."));
    assert_eq!(client.snapshot().0.transcript, "words");
    client.receive(&Action::Toggle, reply(None));
    assert_eq!(client.snapshot().1, None);
}

#[test]
fn a_recorder_that_is_away_is_told_and_forgotten() {
    let mut client = Client::new();
    client.receive(&Action::Status, reply(None));
    client.receive(&Action::Status, Err("refused".to_string()));
    let (state, error) = client.snapshot();
    assert_eq!(error.as_deref(), Some("Recorder offline: refused"));
    assert_eq!(state.transcript, "words");
    client.receive(&Action::Status, reply(None));
    assert_eq!(client.snapshot().1, None);
}

#[test]
fn only_copies_that_worked_are_counted() {
    let mut client = Client::new();
    client.receive(&Action::Copy, reply(None));
    client.receive(&Action::CopyLatest, reply(Some("nothing")));
    client.receive(&Action::CopyText("a".to_string()), reply(None));
    client.receive(&Action::Toggle, reply(None));
    client.receive(&Action::CopyChunk("b".to_string()), Err("gone".to_string()));
    assert_eq!(client.copies(), 2);
    client.copies = u64::MAX;
    client.receive(&Action::Copy, reply(None));
    assert_eq!(client.copies(), 0);
}

fn next(launch: &mut Launch, report: Report) -> Errand {
    match launch.next(report, "/state") {
        Course::Perform(errand) => errand,
        other => panic!("Expected an errand, not {other:?}"),
    }
}

fn unanswered(recoverable: bool) -> Report {
    Report::Unanswered { recoverable, words: "timed out".to_string() }
}

#[test]
fn a_recorder_that_answers_is_not_started() {
    let mut launch = Launch::new();
    assert!(matches!(launch.next(Report::Answered, "/state"), Course::Running));
    let mut launch = Launch::new();
    match launch.next(unanswered(false), "/state") {
        Course::Failed(error) => {
            assert_eq!(error.message(), "Recorder is not responding: timed out");
        }
        other => panic!("Expected a failure, not {other:?}"),
    }
}

#[test]
fn a_recorder_is_started_once() {
    let mut launch = Launch::new();
    assert_eq!(next(&mut launch, unanswered(true)), Errand::Ask);
    assert_eq!(next(&mut launch, unanswered(true)), Errand::LockStartup);
    assert_eq!(next(&mut launch, Report::Locked(false)), Errand::Sleep);
    assert_eq!(next(&mut launch, Report::Slept), Errand::Ask);
    assert_eq!(next(&mut launch, unanswered(false)), Errand::LockStartup);
    assert_eq!(next(&mut launch, Report::Locked(true)), Errand::TryRecorder);
    assert_eq!(next(&mut launch, Report::Free(false)), Errand::Sleep);
    assert_eq!(next(&mut launch, Report::Slept), Errand::Ask);
    assert_eq!(next(&mut launch, unanswered(true)), Errand::TryRecorder);
    assert_eq!(next(&mut launch, Report::Free(true)), Errand::Spawn);
    assert_eq!(next(&mut launch, Report::Spawned(Ok(()))), Errand::Sleep);
    assert_eq!(next(&mut launch, Report::Slept), Errand::Ask);
    assert_eq!(next(&mut launch, unanswered(true)), Errand::Sleep);
    assert_eq!(next(&mut launch, Report::Slept), Errand::Ask);
    assert!(matches!(launch.next(Report::Answered, "/state"), Course::Running));
}

#[test]
fn a_recorder_that_does_not_come_up_is_given_up() {
    let mut launch = Launch::new();
    next(&mut launch, unanswered(true));
    let mut asked = 1;
    loop {
        next(&mut launch, unanswered(true));
        next(&mut launch, Report::Locked(false));
        match launch.next(Report::Slept, "/state") {
            Course::Perform(_) => asked += 1,
            Course::Failed(error) => {
                assert_eq!(
                    error.message(),
                    "Could not start recorder. See /state/daemon.log"
                );
                break;
            }
            Course::Running => panic!("Nothing runs"),
        }
    }
    assert_eq!(asked, TRIES);
    let mut launch = Launch::new();
    match launch.next(Report::Spawned(Err("denied".to_string())), "/state") {
        Course::Failed(error) => assert_eq!(error.message(), "denied"),
        other => panic!("Expected a failure, not {other:?}"),
    }
}

#[test]
fn the_tray_shows_the_state() {
    let mut state = State { queue_depth: 3, seconds: 61_f64.to_bits(), ..State::default() };
    let page = update(&state, &None, None);
    assert_eq!(page.status, "Pasteface · Ready when you are · 01:01 · 3 queued");
    assert_eq!(page.toggle, "Start recording");
    assert!(!page.can_copy && page.repaint);
    state.phase = Phase::Recording;
    state.transcript = "words".to_string();
    let page = update(&state, &Some("Broken".to_string()), Some(Phase::Recording));
    assert_eq!(page.status, "Broken");
    assert_eq!(page.tooltip, "Pasteface · Listening · 01:01 · 3 queued");
    assert_eq!(page.toggle, "Stop & transcribe");
    assert!(page.can_copy && !page.repaint);
}

#[test]
fn the_tray_asks_for_what_was_chosen() {
    assert!(matches!(Event::Show.choice(), Choice::OpenTerminal));
    assert!(matches!(Event::Toggle.choice(), Choice::Send(Action::Toggle)));
    assert!(matches!(Event::Copy.choice(), Choice::Send(Action::Copy)));
    assert!(matches!(Event::Quit.choice(), Choice::Quit));
    assert!(has_display(false, false, false));
    assert!(!has_display(true, false, false));
    assert!(has_display(true, false, true));
}

#[test]
fn terminals_are_tried_one_after_another() {
    let all = terminal_candidates(&None);
    assert_eq!(all.len(), 6);
    assert_eq!(all[1], ("kitty".to_string(), "--".to_string()));
    let named = terminal_candidates(&Some("foot".to_string()));
    assert_eq!(named, vec![("foot".to_string(), "-e".to_string())]);
    let missing = || Attempt::Missing("No such file".to_string());
    assert!(after_attempt(missing(), false, false).is_none());
    assert!(matches!(
        after_attempt(missing(), false, true),
        Some(Err(Error::NoTerminal))
    ));
    let end = after_attempt(missing(), true, true).unwrap().unwrap_err();
    assert_eq!(end.message(), "No such file");
    let end = after_attempt(Attempt::Failed("denied".to_string()), false, false);
    assert_eq!(end.unwrap().unwrap_err().message(), "denied");
    assert!(matches!(after_attempt(Attempt::Opened, false, false), Some(Ok(()))));
    assert_eq!(
        Error::<String>::NoTerminal.message(),
        "No terminal found. Set TERMINAL to your terminal executable."
    );
}

#[test]
fn scripts_quote_what_they_run() {
    assert_eq!(
        launcher_script("/opt/it's/p"),
        "#!/bin/sh\nexec '/opt/it'\\''s/p' tui\n"
    );
}

#[test]
fn the_circle_has_the_color_of_the_phase() {
    assert_eq!(rgba(Phase::Idle, &vec![0, 255]), vec![146, 158, 174, 0, 146, 158, 174, 255]);
    assert_eq!(rgba(Phase::Error, &vec![9])[..3], [255, 100, 115]);
    assert_eq!(rgba(Phase::Recording, &vec![9]), rgba(Phase::Error, &vec![9]));
    assert_eq!(rgba(Phase::Transcribing, &vec![1]), vec![243, 199, 125, 1]);
    assert_eq!(rgba(Phase::Ready, &vec![]), Vec::<u8>::new());
    assert_eq!(ANSI_FACE.len(), 9);
    assert!(ANSI_FACE.iter().all(|line| line.chars().count() == 25));
}
