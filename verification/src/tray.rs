//! The tray: what its menu shows and does, and how a terminal is opened from it.
use crate::error::Error;
use crate::model::{phase_label, timestamp, timestamp_text, Action, Phase, State, StateModel};
use crate::text;
use crate::text::decimal_digits;
use vstd::prelude::*;

verus! {

/// A line of the menu that was chosen.
#[derive(Clone, Copy, Debug, PartialEq, Eq, Structural)]
pub enum Event {
    Show,
    Toggle,
    Copy,
    Quit,
}

/// What comes of it.
#[derive(Debug)]
pub enum Choice<S = String> {
    OpenTerminal,
    Send(Action<S>),
    Quit,
}

impl DeepView for Choice {
    type V = Choice<Seq<char>>;

    open spec fn deep_view(&self) -> Choice<Seq<char>> {
        match *self {
            Choice::OpenTerminal => Choice::OpenTerminal,
            Choice::Send(action) => Choice::Send(action.deep_view()),
            Choice::Quit => Choice::Quit,
        }
    }
}

/// What comes of a line of the menu.
pub open spec fn choice_of(event: Event) -> Choice<Seq<char>> {
    match event {
        Event::Show => Choice::OpenTerminal,
        Event::Toggle => Choice::Send(Action::Toggle),
        Event::Copy => Choice::Send(Action::Copy),
        Event::Quit => Choice::Quit,
    }
}

impl Event {
    /// What comes of a line of the menu.
    pub fn choice(self) -> (choice: Choice)
        ensures
            choice.deep_view() == choice_of(self),
    {
        match self {
            Event::Show => Choice::OpenTerminal,
            Event::Toggle => Choice::Send(Action::Toggle),
            Event::Copy => Choice::Send(Action::Copy),
            Event::Quit => Choice::Quit,
        }
    }
}

/// What the menu shows: the line for the state, the words for the toggle, whether there is
/// something to copy, and whether the icon is to be painted anew.
#[derive(Debug)]
pub struct TrayPage<S = String> {
    pub status: S,
    pub tooltip: S,
    pub toggle: S,
    pub can_copy: bool,
    pub repaint: bool,
}

impl DeepView for TrayPage {
    type V = TrayPage<Seq<char>>;

    open spec fn deep_view(&self) -> TrayPage<Seq<char>> {
        TrayPage {
            status: self.status@,
            tooltip: self.tooltip@,
            toggle: self.toggle@,
            can_copy: self.can_copy,
            repaint: self.repaint,
        }
    }
}

/// The line for a state.
pub open spec fn status_words(state: StateModel) -> Seq<char> {
    "Pasteface · "@ + phase_label(state.phase) + " · "@ + timestamp_text(state.seconds)
        + " · "@ + decimal_digits(state.queue_depth) + " queued"@
}

/// What the menu shows of a state and an error, where some phase was painted last.
pub open spec fn tray_page(
    state: StateModel,
    error: Option<Seq<char>>,
    painted: Option<Phase>,
) -> TrayPage<Seq<char>> {
    TrayPage {
        status: match error {
            Some(words) => words,
            None => status_words(state),
        },
        tooltip: status_words(state),
        toggle: if state.phase == Phase::Recording {
            "Stop & transcribe"@
        } else {
            "Start recording"@
        },
        can_copy: state.transcript.len() > 0,
        repaint: painted != Some(state.phase),
    }
}

fn status_line(state: &State) -> (words: String)
    ensures
        words@ == status_words(state.deep_view()),
{
    let mut words = "Pasteface · ".to_owned();
    words.append(state.phase.label());
    words.append(" · ");
    words.append(timestamp(state.seconds).as_str());
    words.append(" · ");
    words.append(text::decimal(state.queue_depth as u128).as_str());
    words.append(" queued");
    words
}

/// What the menu shows of a state and an error, where some phase was painted last.
pub fn update(state: &State, error: &Option<String>, painted: Option<Phase>) -> (page: TrayPage)
    ensures
        page.deep_view() == tray_page(state.deep_view(), error.deep_view(), painted),
{
    let tooltip = status_line(state);
    let status = match error {
        Some(words) => words.clone(),
        None => tooltip.clone(),
    };
    let toggle = if state.phase == Phase::Recording {
        "Stop & transcribe"
    } else {
        "Start recording"
    };
    let repaint = match painted {
        Some(phase) => phase != state.phase,
        None => true,
    };
    TrayPage {
        status,
        tooltip,
        toggle: toggle.to_owned(),
        can_copy: !state.transcript.as_str().is_empty(),
        repaint,
    }
}

/// Whether there is a screen for a tray: on Linux one of the two kinds.
pub open spec fn screen_is_there(linux: bool, x11: bool, wayland: bool) -> bool {
    !linux || x11 || wayland
}

/// Whether there is a screen for a tray.
pub fn has_display(linux: bool, x11: bool, wayland: bool) -> (answer: bool)
    ensures
        answer == screen_is_there(linux, x11, wayland),
{
    !linux || x11 || wayland
}

/// The terminals to be tried one after another, each with what makes it run a program.
pub open spec fn terminals() -> Seq<(Seq<char>, Seq<char>)> {
    seq![
        ("alacritty"@, "-e"@),
        ("kitty"@, "--"@),
        ("gnome-terminal"@, "--"@),
        ("konsole"@, "-e"@),
        ("xfce4-terminal"@, "-x"@),
        ("xterm"@, "-e"@),
    ]
}

/// The terminals to be tried: the one that was named, if one was.
pub open spec fn candidates(named: Option<Seq<char>>) -> Seq<(Seq<char>, Seq<char>)> {
    match named {
        Some(terminal) => seq![(terminal, "-e"@)],
        None => terminals(),
    }
}

/// The terminals to be tried, each with what makes it run a program.
pub fn terminal_candidates(named: &Option<String>) -> (all: Vec<(String, String)>)
    ensures
        all.deep_view() == candidates(named.deep_view()),
{
    let all = match named {
        Some(terminal) => vec![(terminal.clone(), "-e".to_owned())],
        None => vec![
            ("alacritty".to_owned(), "-e".to_owned()),
            ("kitty".to_owned(), "--".to_owned()),
            ("gnome-terminal".to_owned(), "--".to_owned()),
            ("konsole".to_owned(), "-e".to_owned()),
            ("xfce4-terminal".to_owned(), "-x".to_owned()),
            ("xterm".to_owned(), "-e".to_owned()),
        ],
    };
    proof {
        assert(all.deep_view() =~= candidates(named.deep_view()));
    }
    all
}

/// What came of an attempt to open a terminal.
#[derive(Debug)]
pub enum Attempt<S = String> {
    Opened,
    Missing(S),
    Failed(S),
}

/// What is done after an attempt: `None` where the next terminal is to be tried.
pub open spec fn attempted(
    attempt: Attempt<Seq<char>>,
    named: bool,
    last: bool,
) -> Option<Result<(), Error<Seq<char>>>> {
    match attempt {
        Attempt::Opened => Some(Ok(())),
        Attempt::Failed(words) => Some(Err(Error::Outside(words))),
        Attempt::Missing(words) => if named {
            Some(Err(Error::Outside(words)))
        } else if last {
            Some(Err(Error::NoTerminal))
        } else {
            None
        },
    }
}

/// What is done after an attempt: `None` where the next terminal is to be tried. `named` says
/// whether the user named the terminal, `last` whether there is no other one.
pub fn after_attempt(attempt: Attempt, named: bool, last: bool) -> (end: Option<Result<(), Error>>)
    ensures
        ({
            let model = match attempt {
                Attempt::Opened => Attempt::Opened,
                Attempt::Missing(words) => Attempt::Missing(words@),
                Attempt::Failed(words) => Attempt::Failed(words@),
            };
            match attempted(model, named, last) {
                None => end is None,
                Some(Ok(_)) => end matches Some(end) && end is Ok,
                Some(Err(error)) => end matches Some(end) && end is Err && end->Err_0.deep_view()
                    == error,
            }
        }),
{
    match attempt {
        Attempt::Opened => Some(Ok(())),
        Attempt::Failed(words) => Some(Err(Error::Outside(words))),
        Attempt::Missing(words) => if named {
            Some(Err(Error::Outside(words)))
        } else if last {
            Some(Err(Error::NoTerminal))
        } else {
            None
        },
    }
}

/// A path between quotes of a shell, without the quotes around it.
pub open spec fn quoted(path: Seq<char>) -> Seq<char>
    decreases path.len(),
{
    if path.len() == 0 {
        Seq::empty()
    } else {
        quoted(path.drop_last()) + (if path.last() == '\'' {
            "'\\''"@
        } else {
            seq![path.last()]
        })
    }
}

/// A script that opens the interface of a program.
pub open spec fn script_for(executable: Seq<char>) -> Seq<char> {
    "#!/bin/sh\nexec '"@ + quoted(executable) + "' tui\n"@
}

/// A script that opens the interface of a program.
pub fn launcher_script(executable: &str) -> (script: String)
    ensures
        script@ == script_for(executable@),
{
    let mut script = "#!/bin/sh\nexec '".to_owned();
    let ghost start = script@;
    let ghost all = executable@;
    proof {
        assert(start + quoted(all.take(0)) =~= start);
    }
    for c in it: executable.chars()
        invariant
            it.seq() == all,
            executable@ == all,
            script@ == start + quoted(all.take(it.index())),
    {
        proof {
            assert(all.take(it.index() + 1).drop_last() =~= all.take(it.index()));
        }
        if c == '\'' {
            script.append("'\\''");
        } else {
            script.push(c);
        }
        proof {
            assert(script@ =~= start + quoted(all.take(it.index() + 1)));
        }
    }
    proof {
        assert(all.take(all.len() as int) =~= all);
    }
    script.append("' tui\n");
    script
}

/// A tray has a screen on every system but Linux, and there where one of the two kinds runs. The
/// script that opens the interface runs the program that it is made for, and nothing else.
pub proof fn law_tray_has_its_place(x11: bool, wayland: bool, executable: Seq<char>)
    ensures
        screen_is_there(false, x11, wayland),
        screen_is_there(true, x11, wayland) <==> x11 || wayland,
        script_for(executable) == "#!/bin/sh\nexec '"@ + quoted(executable) + "' tui\n"@,
{
}

} // verus!
