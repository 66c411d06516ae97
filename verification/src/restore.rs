//! How a recorder comes up: from what was saved, with nothing left running.
use crate::config::{Config, ConfigModel, Stored};
use crate::error::{error_text, Error};
use crate::model::{
    first_tab, fresh_state, is_zero, shown_backend, Action, BackendSettings, Chunk, ChunkStatus, Reply,
    State, StateModel, TranscriptTab,
};
use crate::search::first_match;
use crate::service::{Recorder, RecorderModel};
use crate::session;
use crate::session::{rebuilt, refreshed, tab_with_id};
use crate::text;
use vstd::prelude::*;

verus! {

/// The state that a read of its file stands for.
pub open spec fn loaded_state(stored: Stored<StateModel, Seq<char>>) -> Result<
    StateModel,
    Error<Seq<char>>,
> {
    match stored {
        Stored::Missing => Ok(fresh_state()),
        Stored::Parsed(state) => Ok(state),
        Stored::Malformed(cause) => Err(Error::MalformedState(cause)),
        Stored::Unreadable(cause) => Err(Error::Outside(cause)),
    }
}

/// The state that a read of its file stands for.
pub fn load_state(stored: Stored<State>) -> (state: Result<State, Error>)
    ensures
        crate::config::result_view(state) == loaded_state(stored.deep_view()),
{
    match stored {
        Stored::Missing => Ok(State::default()),
        Stored::Parsed(state) => Ok(state),
        Stored::Malformed(cause) => Err(Error::MalformedState(cause)),
        Stored::Unreadable(cause) => Err(Error::Outside(cause)),
    }
}

/// The words of a state from before there were chunks are words from before.
pub open spec fn words_carried(state: StateModel) -> StateModel {
    if state.chunks.len() == 0 && state.prior_transcript.len() == 0 {
        StateModel { prior_transcript: state.transcript, ..state }
    } else {
        state
    }
}

/// A state from before there were tabs gets one, under the title that it had.
pub open spec fn tab_supplied(state: StateModel) -> StateModel {
    if state.tabs.len() == 0 && state.closed_tabs.len() == 0 {
        let tab = if state.transcript_title.len() > 0 {
            TranscriptTab { name: state.transcript_title, ..first_tab() }
        } else {
            first_tab()
        };
        StateModel { tabs: seq![tab], transcript_title: Seq::empty(), ..state }
    } else {
        state
    }
}

/// Where the selected tab is not an open one, the first open one is selected.
pub open spec fn selection_mended(state: StateModel) -> StateModel {
    if first_match(state.tabs, tab_with_id(state.selected_tab)) is Some {
        state
    } else {
        StateModel {
            selected_tab: if state.tabs.len() > 0 {
                state.tabs[0].id
            } else {
                Seq::empty()
            },
            ..state
        }
    }
}

/// The words from before belong to the first tab, if it has none yet.
pub open spec fn words_placed(state: StateModel) -> StateModel {
    if state.tabs.len() > 0 && state.tabs[0].prior_transcript.len() == 0 {
        StateModel {
            tabs: state.tabs.update(
                0,
                TranscriptTab { prior_transcript: state.prior_transcript, ..state.tabs[0] },
            ),
            prior_transcript: Seq::empty(),
            ..state
        }
    } else {
        state
    }
}

/// The tab for chunks that name none.
pub open spec fn home_tab(tabs: Seq<TranscriptTab<Seq<char>>>) -> Seq<char> {
    if tabs.len() > 0 {
        tabs[0].id
    } else {
        "default"@
    }
}

/// A chunk as it comes up again: in some tab, with its length, and not in the middle of anything.
pub open spec fn chunk_restored(
    chunk: Chunk<Seq<char>>,
    home: Seq<char>,
    length: Option<u64>,
) -> Chunk<Seq<char>> {
    Chunk {
        tab_id: if chunk.tab_id.len() == 0 {
            home
        } else {
            chunk.tab_id
        },
        seconds: if !is_zero(chunk.seconds) {
            chunk.seconds
        } else if length is Some {
            length->0
        } else {
            0
        },
        status: match chunk.status {
            ChunkStatus::Transcribing => ChunkStatus::Queued,
            ChunkStatus::Recording => ChunkStatus::Failed,
            status => status,
        },
        error: if chunk.status == ChunkStatus::Recording {
            Some("Recording interrupted. Retry retained audio."@)
        } else {
            chunk.error
        },
        ..chunk
    }
}

/// The length that was measured for the chunk at a place, if one was.
pub open spec fn length_at(lengths: Seq<Option<u64>>, i: int) -> Option<u64> {
    if i < lengths.len() {
        lengths[i]
    } else {
        None
    }
}

/// The chunks as they come up again.
pub open spec fn chunks_restored(
    chunks: Seq<Chunk<Seq<char>>>,
    home: Seq<char>,
    lengths: Seq<Option<u64>>,
) -> Seq<Chunk<Seq<char>>> {
    Seq::new(chunks.len(), |i: int| chunk_restored(chunks[i], home, length_at(lengths, i)))
}

/// The tabs and chunks of a state as they come up again.
pub open spec fn contents_restored(state: StateModel, lengths: Seq<Option<u64>>) -> StateModel {
    let state = words_placed(selection_mended(tab_supplied(words_carried(state))));
    StateModel {
        chunks: chunks_restored(state.chunks, home_tab(state.tabs), lengths),
        ..state
    }
}

/// The microphone in force: the one of the configuration, else the one that was saved.
pub open spec fn device_restored(config: ConfigModel, state: StateModel) -> Option<Seq<char>> {
    if config.device is Some {
        config.device
    } else {
        state.selected_device
    }
}

/// The recorder that comes up from a saved state. `lengths` are what the recordings of the
/// chunks measure, where they could be read.
pub open spec fn restored(
    config: ConfigModel,
    saved: StateModel,
    lengths: Seq<Option<u64>>,
    api_key_configured: bool,
    auto_copy: bool,
    legacy: bool,
) -> RecorderModel {
    let device = device_restored(config, saved);
    let config = ConfigModel { device, ..config };
    let state = StateModel {
        selected_device: device,
        device: match device {
            Some(name) => name,
            None => "System default microphone"@,
        },
        backend: shown_backend(config, api_key_configured),
        level: 0,
        ..contents_restored(saved, lengths)
    };
    RecorderModel {
        config,
        state: refreshed(rebuilt(state), false, false, legacy),
        capturing: false,
        pending: None,
        auto_copy,
    }
}

impl State {
    fn carry_words(&mut self)
        ensures
            final(self).deep_view() == words_carried(old(self).deep_view()),
    {
        if self.chunks.len() == 0 && self.prior_transcript.as_str().is_empty() {
            self.prior_transcript = self.transcript.clone();
        }
    }

    fn supply_tab(&mut self)
        ensures
            final(self).deep_view() == tab_supplied(old(self).deep_view()),
    {
        if self.tabs.len() == 0 && self.closed_tabs.len() == 0 {
            let mut tab = TranscriptTab::default();
            if !self.transcript_title.as_str().is_empty() {
                tab.name = self.transcript_title.clone();
            }
            self.transcript_title = String::new();
            let ghost supplied = tab.deep_view();
            self.tabs.push(tab);
            proof {
                assert(self.tabs.deep_view() =~= seq![supplied]);
            }
        }
    }

    fn mend_selection(&mut self)
        ensures
            final(self).deep_view() == selection_mended(old(self).deep_view()),
    {
        if session::find_tab(&self.tabs, self.selected_tab.as_str()).is_none() {
            self.selected_tab = if self.tabs.len() > 0 {
                self.tabs[0].id.clone()
            } else {
                String::new()
            };
        }
    }

    fn place_words(&mut self)
        ensures
            final(self).deep_view() == words_placed(old(self).deep_view()),
    {
        let ghost before = self.deep_view();
        if self.tabs.len() > 0 && self.tabs[0].prior_transcript.as_str().is_empty() {
            self.tabs[0].prior_transcript = self.prior_transcript.clone();
            self.prior_transcript = String::new();
            proof {
                assert(self.tabs.deep_view() =~= before.tabs.update(
                    0,
                    TranscriptTab {
                        prior_transcript: before.prior_transcript,
                        ..before.tabs[0]
                    },
                ));
            }
        }
    }

    fn restore_chunks(&mut self, lengths: &Vec<Option<u64>>)
        ensures
            final(self).deep_view() == (StateModel {
                chunks: chunks_restored(
                    old(self).deep_view().chunks,
                    home_tab(old(self).deep_view().tabs),
                    lengths@,
                ),
                ..old(self).deep_view()
            }),
    {
        let ghost before = self.deep_view();
        let home = if self.tabs.len() > 0 {
            self.tabs[0].id.clone()
        } else {
            "default".to_owned()
        };
        let mut i: usize = 0;
        while i < self.chunks.len()
            invariant
                i <= self.chunks.len(),
                self.chunks.len() == before.chunks.len(),
                home@ == home_tab(before.tabs),
                self.deep_view() == (StateModel { chunks: self.chunks.deep_view(), ..before }),
                forall|j: int|
                    0 <= j < i ==> (#[trigger] self.chunks[j]).deep_view() == chunk_restored(
                        before.chunks[j],
                        home@,
                        length_at(lengths@, j),
                    ),
                forall|j: int|
                    i <= j < before.chunks.len() ==> (#[trigger] self.chunks[j]).deep_view()
                        == before.chunks[j],
            decreases self.chunks.len() - i,
        {
            proof {
                assert(self.chunks[i as int].deep_view() == before.chunks[i as int]);
            }
            if self.chunks[i].tab_id.as_str().is_empty() {
                self.chunks[i].tab_id = home.clone();
            }
            if self.chunks[i].seconds == 0 || self.chunks[i].seconds == 0x8000_0000_0000_0000 {
                let length: Option<u64> = if i < lengths.len() {
                    lengths[i]
                } else {
                    None
                };
                self.chunks[i].seconds = match length {
                    Some(seconds) => seconds,
                    None => 0,
                };
            }
            let status = self.chunks[i].status;
            if status == ChunkStatus::Transcribing {
                self.chunks[i].status = ChunkStatus::Queued;
            } else if status == ChunkStatus::Recording {
                self.chunks[i].status = ChunkStatus::Failed;
                self.chunks[i].error =
                Some("Recording interrupted. Retry retained audio.".to_owned());
            }
            i += 1;
        }
        proof {
            assert(self.chunks.deep_view() =~= chunks_restored(
                before.chunks,
                home_tab(before.tabs),
                lengths@,
            ));
        }
    }
}

/// How a request begins as it came in: one that could not be read is refused.
pub open spec fn requested(
    recorder: RecorderModel,
    parsed: Option<Action<Seq<char>>>,
    legacy: bool,
) -> (RecorderModel, crate::protocol::StepModel) {
    match parsed {
        Some(action) => crate::service::begun(recorder, action, legacy),
        None => (recorder, crate::protocol::StepModel::Failed(Error::InvalidRequest)),
    }
}

/// Whether no transcription runs.
pub open spec fn idle(recorder: RecorderModel) -> bool {
    recorder.pending is None
}

/// Whether the recorder ends after a request.
pub open spec fn ending(parsed: Option<Action<Seq<char>>>, failed: bool) -> bool {
    !failed && parsed is Some && parsed->0 is Shutdown
}

impl Recorder {
    /// The recorder that comes up from a saved state.
    pub fn new(
        config: Config,
        saved: State,
        lengths: &Vec<Option<u64>>,
        api_key_configured: bool,
        auto_copy: bool,
        legacy: bool,
    ) -> (recorder: Self)
        ensures
            recorder.deep_view() == restored(
                config.deep_view(),
                saved.deep_view(),
                lengths@,
                api_key_configured,
                auto_copy,
                legacy,
            ),
    {
        let mut config = config;
        let mut state = saved;
        state.carry_words();
        state.supply_tab();
        state.mend_selection();
        state.place_words();
        state.restore_chunks(lengths);
        if config.device.is_none() {
            config.device = text::copied_option(&state.selected_device);
        }
        state.selected_device = text::copied_option(&config.device);
        state.device = match &config.device {
            Some(name) => name.clone(),
            None => "System default microphone".to_owned(),
        };
        state.backend = BackendSettings::from_config(&config, api_key_configured);
        state.level = 0;
        state.rebuild_transcript();
        state.refresh(false, false, legacy);
        Recorder { config, state, capturing: false, pending: None, auto_copy }
    }

    /// Begins a request as it came in: one that could not be read is refused.
    pub fn request(&mut self, parsed: Option<Action>, legacy: bool) -> (step: crate::protocol::Step)
        ensures
            (final(self).deep_view(), step.deep_view()) == requested(
                old(self).deep_view(),
                parsed.deep_view(),
                legacy,
            ),
    {
        match parsed {
            Some(action) => self.begin(action, legacy),
            None => crate::protocol::Step::Failed(Error::InvalidRequest),
        }
    }

    /// The answer to a request: the state as it is now, and the words for what went wrong.
    pub fn reply(&self, failure: Option<&Error>) -> (reply: Reply)
        ensures
            reply.state.deep_view() == self.state.deep_view(),
            reply.error.deep_view() == match failure {
                Some(error) => Some(error_text(error.deep_view())),
                None => None,
            },
    {
        Reply {
            state: self.state.clone(),
            error: match failure {
                Some(error) => Some(error.message()),
                None => None,
            },
        }
    }

    /// Whether the recorder may end where it was told to: not while a transcription runs.
    pub fn may_end(&self) -> (answer: bool)
        ensures
            answer == idle(self.deep_view()),
    {
        self.pending.is_none()
    }
}

/// Whether the recorder ends after a request: it was asked to shut down, and nothing was in the
/// way.
pub fn ends(parsed: &Option<Action>, failed: bool) -> (answer: bool)
    ensures
        answer == ending(parsed.deep_view(), failed),
{
    match parsed {
        Some(action) => !failed && matches!(action, Action::Shutdown),
        None => false,
    }
}

/// A recorder that comes up records from the microphone that it is configured with, or else from
/// the one that was chosen before, and shows which; it transcribes as it is configured, and shows
/// how.
pub proof fn law_restart_keeps_the_microphone(
    config: ConfigModel,
    saved: StateModel,
    lengths: Seq<Option<u64>>,
    api_key_configured: bool,
    auto_copy: bool,
    legacy: bool,
)
    ensures
        ({
            let after = restored(config, saved, lengths, api_key_configured, auto_copy, legacy);
            let backend = after.state.backend;
            &&& config.device is Some ==> after.config.device == config.device
            &&& config.device is None ==> after.config.device == saved.selected_device
            &&& after.state.selected_device == after.config.device
            &&& after.config.device matches Some(name) ==> after.state.device == name
            &&& after.config.device is None ==> after.state.device == "System default microphone"@
            &&& after.config == ConfigModel { device: after.config.device, ..config }
            &&& backend.provider == config.provider
            &&& backend.acceleration == config.acceleration
            &&& backend.binary == config.binary
            &&& backend.model == config.model
            &&& backend.openai_model == config.openai_model
            &&& backend.api_key_configured == api_key_configured
            &&& after.auto_copy == auto_copy
            &&& after.state.level == 0
            &&& after.state.message == saved.message
            &&& after.state.seconds == saved.seconds
            &&& after.state.devices == saved.devices
        }),
{
}

/// A chunk that comes up again keeps its id, its title, its words and its tab. Its length is the
/// one it had, or else what its recording measures. One that was being recorded says that it can be
/// tried again; the others keep what went wrong with them.
pub proof fn law_restart_keeps_each_chunk(
    config: ConfigModel,
    saved: StateModel,
    lengths: Seq<Option<u64>>,
    api_key_configured: bool,
    auto_copy: bool,
    legacy: bool,
    place: int,
)
    requires
        0 <= place < saved.chunks.len(),
    ensures
        ({
            let state = restored(
                config,
                saved,
                lengths,
                api_key_configured,
                auto_copy,
                legacy,
            ).state;
            let before = saved.chunks[place];
            let chunk = state.chunks[place];
            &&& chunk.id == before.id
            &&& chunk.title == before.title
            &&& chunk.text == before.text
            &&& before.tab_id.len() > 0 ==> chunk.tab_id == before.tab_id
            &&& before.tab_id.len() == 0 && state.tabs.len() > 0 ==> chunk.tab_id
                == state.tabs[0].id
            &&& before.seconds != 0 && before.seconds != 0x8000_0000_0000_0000 ==> chunk.seconds
                == before.seconds
            &&& before.seconds == 0 || before.seconds == 0x8000_0000_0000_0000 ==> chunk.seconds
                == if place < lengths.len() && lengths[place] is Some {
                lengths[place]->0
            } else {
                0
            }
            &&& before.status == ChunkStatus::Recording ==> chunk.status == ChunkStatus::Failed
                && chunk.error == Some("Recording interrupted. Retry retained audio."@)
            &&& before.status == ChunkStatus::Transcribing ==> chunk.status == ChunkStatus::Queued
            &&& before.status != ChunkStatus::Recording ==> chunk.error == before.error
            &&& before.status != ChunkStatus::Recording && before.status
                != ChunkStatus::Transcribing ==> chunk.status == before.status
        }),
{
}

/// A state from before there were tabs comes up with one, under the title that it had, which holds
/// its words from before and all its chunks.
pub proof fn law_old_state_gets_a_tab(
    config: ConfigModel,
    saved: StateModel,
    lengths: Seq<Option<u64>>,
    api_key_configured: bool,
    auto_copy: bool,
    legacy: bool,
)
    requires
        saved.tabs.len() == 0,
        saved.closed_tabs.len() == 0,
    ensures
        ({
            let state = restored(
                config,
                saved,
                lengths,
                api_key_configured,
                auto_copy,
                legacy,
            ).state;
            &&& state.tabs.len() == 1
            &&& state.closed_tabs.len() == 0
            &&& state.tabs[0].id == "default"@
            &&& state.selected_tab == "default"@
            &&& state.tabs[0].name == if saved.transcript_title.len() > 0 {
                saved.transcript_title
            } else {
                "Transcript 1"@
            }
            &&& state.tabs[0].prior_transcript == if saved.chunks.len() == 0
                && saved.prior_transcript.len() == 0 {
                saved.transcript
            } else {
                saved.prior_transcript
            }
            &&& state.prior_transcript.len() == 0
            &&& forall|i: int|
                0 <= i < saved.chunks.len() && saved.chunks[i].tab_id.len() == 0 ==> (
                #[trigger] state.chunks[i]).tab_id == "default"@
        }),
{
    let supplied = tab_supplied(words_carried(saved));
    assert(supplied.tabs[0].id == "default"@);
    crate::search::lemma_first_match(supplied.tabs, tab_with_id(supplied.selected_tab));
    let found = first_match(supplied.tabs, tab_with_id(supplied.selected_tab));
    if found is Some {
        assert(tab_with_id(supplied.selected_tab)(supplied.tabs[found->0]));
    }
}

/// A file that is not there yet stands for a state with one empty tab; one that can be read stands
/// for what it holds; and one that cannot is told with the reason.
pub proof fn law_saved_state_is_read(state: StateModel, words: Seq<char>)
    ensures
        loaded_state(Stored::Parsed(state)) == Ok::<StateModel, Error<Seq<char>>>(state),
        loaded_state(Stored::Malformed(words)) == Err::<StateModel, Error<Seq<char>>>(
            Error::MalformedState(words),
        ),
        loaded_state(Stored::Unreadable(words)) == Err::<StateModel, Error<Seq<char>>>(
            Error::Outside(words),
        ),
        loaded_state(Stored::Missing) matches Ok(first) && {
            &&& first.tabs.len() == 1
            &&& first.tabs[0].id == "default"@
            &&& first.tabs[0].name == "Transcript 1"@
            &&& first.tabs[0].prior_transcript.len() == 0
            &&& first.selected_tab == "default"@
            &&& first.closed_tabs.len() == 0
            &&& first.chunks.len() == 0
            &&& first.transcript.len() == 0
            &&& first.selected_device is None
        },
{
}

/// A request that cannot be read is refused and changes nothing; any other one is begun. The
/// recorder ends only where it was asked to shut down and did not refuse, and not while a
/// transcription runs.
pub proof fn law_requests_are_taken(
    recorder: RecorderModel,
    action: Action<Seq<char>>,
    failed: bool,
    legacy: bool,
)
    ensures
        requested(recorder, None, legacy) == (
            recorder,
            crate::protocol::StepModel::Failed(Error::InvalidRequest),
        ),
        requested(recorder, Some(action), legacy) == crate::service::begun(
            recorder,
            action,
            legacy,
        ),
        ending(Some(action), failed) <==> action is Shutdown && !failed,
        !ending(None, failed),
        idle(recorder) <==> recorder.pending is None,
{
}

/// Words from before belong to the first tab, where it has none of its own yet; else each tab keeps
/// its own. No tab is lost, and no name or id changes.
pub proof fn law_old_words_find_their_tab(
    config: ConfigModel,
    saved: StateModel,
    lengths: Seq<Option<u64>>,
    api_key_configured: bool,
    auto_copy: bool,
    legacy: bool,
    place: int,
)
    requires
        0 <= place < saved.tabs.len(),
    ensures
        ({
            let state = restored(
                config,
                saved,
                lengths,
                api_key_configured,
                auto_copy,
                legacy,
            ).state;
            let old = if saved.chunks.len() == 0 && saved.prior_transcript.len() == 0 {
                saved.transcript
            } else {
                saved.prior_transcript
            };
            &&& state.tabs.len() == saved.tabs.len()
            &&& state.closed_tabs == saved.closed_tabs
            &&& state.tabs[place].id == saved.tabs[place].id
            &&& state.tabs[place].name == saved.tabs[place].name
            &&& state.tabs[place].prior_transcript == if place == 0
                && saved.tabs[0].prior_transcript.len() == 0 {
                old
            } else {
                saved.tabs[place].prior_transcript
            }
        }),
{
}

} // verus!
