//! What the interfaces know of the recorder from its answers, and how they get it started.
use crate::error::Error;
use crate::model::{Action, Reply, State, StateModel};
use crate::paths;
use crate::paths::path_join;
use crate::text::copied_option;
use vstd::prelude::*;

verus! {

/// What an interface knows of the recorder.
#[derive(Debug)]
pub struct Client {
    pub state: State,
    pub error: Option<String>,
    pub copies: u64,
    pub offline: bool,
}

/// What an interface knows of the recorder, as contracts see it.
#[verifier::ext_equal]
pub struct ClientModel {
    pub state: StateModel,
    pub error: Option<Seq<char>>,
    pub copies: u64,
    pub offline: bool,
}

impl DeepView for Client {
    type V = ClientModel;

    open spec fn deep_view(&self) -> ClientModel {
        ClientModel {
            state: self.state.deep_view(),
            error: self.error.deep_view(),
            copies: self.copies,
            offline: self.offline,
        }
    }
}

/// What came of a request: a state and maybe an error, or the words for why there is no answer.
pub type Answer = Result<(StateModel, Option<Seq<char>>), Seq<char>>;

/// What came of a request, as contracts see it.
pub open spec fn answer_view(answer: Result<Reply, String>) -> Answer {
    match answer {
        Ok(reply) => Ok((reply.state.deep_view(), reply.error.deep_view())),
        Err(words) => Err(words@),
    }
}

/// Whether a request copies something.
pub open spec fn copies_something(action: Action<Seq<char>>) -> bool {
    action is Copy || action is CopyLatest || action is CopyChunk || action is CopyText
}

/// One more, from nothing on again after the last number.
pub open spec fn counted(copies: u64) -> u64 {
    if copies == u64::MAX {
        0
    } else {
        (copies + 1) as u64
    }
}

/// What an interface knows after an answer. An error stays until something else is asked for, or
/// the recorder is back.
pub open spec fn informed(
    client: ClientModel,
    action: Action<Seq<char>>,
    answer: Answer,
) -> ClientModel {
    match answer {
        Ok((state, error)) => ClientModel {
            state,
            error: if client.offline || action !is Status || error is Some {
                error
            } else {
                client.error
            },
            copies: if copies_something(action) && error is None {
                counted(client.copies)
            } else {
                client.copies
            },
            offline: false,
        },
        Err(words) => ClientModel {
            error: Some("Recorder offline: "@ + words),
            offline: true,
            ..client
        },
    }
}

fn copying(action: &Action) -> (answer: bool)
    ensures
        answer == copies_something(action.deep_view()),
{
    matches!(
        action,
        Action::Copy | Action::CopyLatest | Action::CopyChunk(_) | Action::CopyText(_)
    )
}

impl Client {
    /// What is known before the first answer.
    pub fn new() -> (client: Self)
        ensures
            client.deep_view() == (ClientModel {
                state: crate::model::fresh_state(),
                error: None,
                copies: 0,
                offline: false,
            }),
    {
        Client { state: State::default(), error: None, copies: 0, offline: false }
    }

    /// Takes what came of a request.
    pub fn receive(&mut self, action: &Action, answer: Result<Reply, String>)
        ensures
            final(self).deep_view() == informed(
                old(self).deep_view(),
                action.deep_view(),
                answer_view(answer),
            ),
    {
        match answer {
            Ok(reply) => {
                if copying(action) && reply.error.is_none() {
                    self.copies = self.copies.wrapping_add(1);
                }
                self.state = reply.state;
                if self.offline || !matches!(action, Action::Status) || reply.error.is_some() {
                    self.error = reply.error;
                }
                self.offline = false;
            },
            Err(words) => {
                self.offline = true;
                let mut message = "Recorder offline: ".to_owned();
                message.append(words.as_str());
                self.error = Some(message);
            },
        }
    }

    /// What is known, to be shown.
    pub fn snapshot(&self) -> (shown: (State, Option<String>))
        ensures
            shown.0.deep_view() == self.state.deep_view(),
            shown.1.deep_view() == self.error.deep_view(),
    {
        (self.state.clone(), copied_option(&self.error))
    }

    /// How often something was copied.
    pub fn copies(&self) -> (copies: u64)
        ensures
            copies == self.copies,
    {
        self.copies
    }
}

/// How often it is tried to reach a recorder that is being started.
pub const TRIES: u32 = 80;

/// How far the start of a recorder has come: how often it was tried to reach it, whether this
/// interface is the one that starts it, and whether it did.
#[derive(Clone, Copy, Debug, PartialEq, Eq, Structural)]
pub struct Launch {
    pub tries: u32,
    pub launcher: bool,
    pub spawned: bool,
}

/// What is to be done next to get a recorder started.
#[derive(Clone, Copy, Debug, PartialEq, Eq, Structural)]
pub enum Errand {
    /// Ask the recorder for its state.
    Ask,
    /// Become the one that starts it, if nobody else is.
    LockStartup,
    /// Look whether the one before has let go.
    TryRecorder,
    /// Start it.
    Spawn,
    /// Wait a little.
    Sleep,
}

/// What came of an errand.
#[derive(Debug)]
pub enum Report<S = String> {
    Answered,
    Unanswered { recoverable: bool, words: S },
    Locked(bool),
    Free(bool),
    Spawned(Result<(), S>),
    Slept,
}

impl DeepView for Report {
    type V = Report<Seq<char>>;

    open spec fn deep_view(&self) -> Report<Seq<char>> {
        match *self {
            Report::Answered => Report::Answered,
            Report::Unanswered { recoverable, words } => Report::Unanswered {
                recoverable,
                words: words@,
            },
            Report::Locked(done) => Report::Locked(done),
            Report::Free(done) => Report::Free(done),
            Report::Spawned(result) => Report::Spawned(
                match result {
                    Ok(_) => Ok(()),
                    Err(words) => Err(words@),
                },
            ),
            Report::Slept => Report::Slept,
        }
    }
}

/// How the start of a recorder goes on.
#[derive(Debug)]
pub enum Course<E = Error> {
    Perform(Errand),
    Running,
    Failed(E),
}

impl DeepView for Course {
    type V = Course<Error<Seq<char>>>;

    open spec fn deep_view(&self) -> Course<Error<Seq<char>>> {
        match *self {
            Course::Perform(errand) => Course::Perform(errand),
            Course::Running => Course::Running,
            Course::Failed(error) => Course::Failed(error.deep_view()),
        }
    }
}

/// A start that has not been tried yet. The first question comes before all tries.
pub open spec fn unlaunched() -> Launch {
    Launch { tries: 0, launcher: false, spawned: false }
}

/// What is done once the role of the one who starts it is settled.
pub open spec fn spawning(launch: Launch) -> Course<Error<Seq<char>>> {
    Course::Perform(
        if !launch.spawned && launch.launcher {
            Errand::TryRecorder
        } else {
            Errand::Sleep
        },
    )
}

/// How the start of a recorder goes on with what came of an errand. What is asked for before all
/// tries must find nobody there for a start to be tried at all.
pub open spec fn launched(launch: Launch, report: Report<Seq<char>>, directory: Seq<char>) -> (
    Launch,
    Course<Error<Seq<char>>>,
) {
    match report {
        Report::Answered => (launch, Course::Running),
        Report::Unanswered { recoverable, words } => if launch.tries == 0 {
            if recoverable {
                (Launch { tries: 1, ..launch }, Course::Perform(Errand::Ask))
            } else {
                (launch, Course::Failed(Error::NotResponding(words)))
            }
        } else if launch.launcher {
            (launch, spawning(launch))
        } else {
            (launch, Course::Perform(Errand::LockStartup))
        },
        Report::Locked(done) => {
            let launch = Launch { launcher: done, ..launch };
            (launch, spawning(launch))
        },
        Report::Free(free) => (
            launch,
            Course::Perform(
                if free {
                    Errand::Spawn
                } else {
                    Errand::Sleep
                },
            ),
        ),
        Report::Spawned(Ok(_)) => (
            Launch { spawned: true, ..launch },
            Course::Perform(Errand::Sleep),
        ),
        Report::Spawned(Err(words)) => (launch, Course::Failed(Error::Outside(words))),
        Report::Slept => if launch.tries < TRIES {
            (Launch { tries: (launch.tries + 1) as u32, ..launch }, Course::Perform(Errand::Ask))
        } else {
            (
                launch,
                Course::Failed(Error::RecorderUnavailable(path_join(directory, "daemon.log"@))),
            )
        },
    }
}

impl Launch {
    /// A start that has not been tried yet.
    pub fn new() -> (launch: Self)
        ensures
            launch == unlaunched(),
    {
        Launch { tries: 0, launcher: false, spawned: false }
    }

    fn spawn_next(&self) -> (course: Course)
        ensures
            course.deep_view() == spawning(*self),
    {
        Course::Perform(
            if !self.spawned && self.launcher {
                Errand::TryRecorder
            } else {
                Errand::Sleep
            },
        )
    }

    /// Goes on with what came of an errand; the first one is to ask.
    pub fn next(&mut self, report: Report, directory: &str) -> (course: Course)
        ensures
            (*final(self), course.deep_view()) == launched(
                *old(self),
                report.deep_view(),
                directory@,
            ),
    {
        match report {
            Report::Answered => Course::Running,
            Report::Unanswered { recoverable, words } => {
                if self.tries == 0 {
                    if recoverable {
                        self.tries = 1;
                        Course::Perform(Errand::Ask)
                    } else {
                        Course::Failed(Error::NotResponding(words))
                    }
                } else if self.launcher {
                    self.spawn_next()
                } else {
                    Course::Perform(Errand::LockStartup)
                }
            },
            Report::Locked(done) => {
                self.launcher = done;
                self.spawn_next()
            },
            Report::Free(free) => Course::Perform(
                if free {
                    Errand::Spawn
                } else {
                    Errand::Sleep
                },
            ),
            Report::Spawned(result) => match result {
                Ok(_) => {
                    self.spawned = true;
                    Course::Perform(Errand::Sleep)
                },
                Err(words) => Course::Failed(Error::Outside(words)),
            },
            Report::Slept => {
                if self.tries < TRIES {
                    self.tries = self.tries + 1;
                    Course::Perform(Errand::Ask)
                } else {
                    Course::Failed(
                        Error::RecorderUnavailable(paths::join(directory, "daemon.log")),
                    )
                }
            },
        }
    }
}

/// Whether a report can have come of an errand.
pub open spec fn reports(errand: Errand, report: Report<Seq<char>>) -> bool {
    match errand {
        Errand::Ask => report is Answered || report is Unanswered,
        Errand::LockStartup => report is Locked,
        Errand::TryRecorder => report is Free,
        Errand::Spawn => report is Spawned,
        Errand::Sleep => report is Slept,
    }
}

/// Whether an errand fits how far a start has come: only the one who starts it looks for it and
/// starts it, and only where that was not done before.
pub open spec fn errand_fits(launch: Launch, errand: Errand) -> bool {
    &&& launch.tries <= TRIES
    &&& errand == Errand::TryRecorder || errand == Errand::Spawn ==> launch.launcher
        && !launch.spawned
    &&& errand == Errand::LockStartup ==> !launch.launcher
    &&& errand != Errand::Ask ==> launch.tries > 0
}

/// A recorder is started once at most, and only by the one who holds the lock for it.
pub proof fn law_recorder_starts_once(
    launch: Launch,
    errand: Errand,
    report: Report<Seq<char>>,
    directory: Seq<char>,
)
    requires
        errand_fits(launch, errand),
        reports(errand, report),
    ensures
        ({
            let (after, course) = launched(launch, report, directory);
            &&& course matches Course::Perform(next) ==> errand_fits(after, next)
            &&& launch.spawned ==> after.spawned
            &&& launch.launcher ==> after.launcher
            &&& course == Course::<Error<Seq<char>>>::Perform(Errand::Spawn) ==> launch.launcher
                && !launch.spawned
        }),
{
}

/// How many steps a start can still take: each try takes six at most.
pub open spec fn steps_left(launch: Launch, errand: Errand) -> int {
    (TRIES - launch.tries) * 6 + match errand {
        Errand::Ask => 5int,
        Errand::LockStartup => 4,
        Errand::TryRecorder => 3,
        Errand::Spawn => 2,
        Errand::Sleep => 1,
    }
}

/// The start of a recorder comes to an end, one way or the other.
pub proof fn law_start_ends(
    launch: Launch,
    errand: Errand,
    report: Report<Seq<char>>,
    directory: Seq<char>,
)
    requires
        errand_fits(launch, errand),
        reports(errand, report),
    ensures
        ({
            let (after, course) = launched(launch, report, directory);
            course matches Course::Perform(next) ==> 0 <= steps_left(after, next) < steps_left(
                launch,
                errand,
            )
        }),
{
}

/// An error that is shown is not swept away by the next look at the recorder: it stays until
/// something else is asked for, or another error comes.
pub proof fn law_errors_stay_in_sight(client: ClientModel, state: StateModel)
    requires
        !client.offline,
    ensures
        informed(client, Action::Status, Ok((state, None))).error == client.error,
        informed(client, Action::Status, Ok((state, None))).copies == client.copies,
{
}

/// A recorder that is back is shown without the error that it was away.
pub proof fn law_return_clears_the_error(
    client: ClientModel,
    words: Seq<char>,
    action: Action<Seq<char>>,
    state: StateModel,
)
    ensures
        informed(informed(client, action, Err(words)), Action::Status, Ok((state, None))).error
            == None::<Seq<char>>,
        informed(client, action, Err(words)).state == client.state,
{
}

/// A start begins with nothing tried and nobody in charge of it.
pub proof fn law_start_begins_with_nothing()
    ensures
        unlaunched().tries == 0,
        !unlaunched().launcher,
        !unlaunched().spawned,
        errand_fits(unlaunched(), Errand::Ask),
{
}

} // verus!
