//! Tabs, chunks and the transcript: how one request changes what the recorder keeps.
use crate::config::has_control;
use crate::error::Error;
use crate::model::{Chunk, ChunkStatus, Phase, State, StateModel, TranscriptTab};
use crate::search::{first_match, last_match, lemma_filter_has, place};
use crate::text;
use crate::text::{joined, non_empty, same, trimmed};
use vstd::prelude::*;

verus! {

/// Whether a chunk belongs to a tab.
pub open spec fn in_tab(tab: Seq<char>) -> spec_fn(Chunk<Seq<char>>) -> bool {
    |chunk: Chunk<Seq<char>>| chunk.tab_id == tab
}

/// Whether a chunk belongs to another tab.
pub open spec fn outside_tab(tab: Seq<char>) -> spec_fn(Chunk<Seq<char>>) -> bool {
    |chunk: Chunk<Seq<char>>| chunk.tab_id != tab
}

/// Whether a chunk has come just so far.
pub open spec fn with_status(status: ChunkStatus) -> spec_fn(Chunk<Seq<char>>) -> bool {
    |chunk: Chunk<Seq<char>>| chunk.status == status
}

/// Whether a chunk has an id.
pub open spec fn chunk_with_id(id: Seq<char>) -> spec_fn(Chunk<Seq<char>>) -> bool {
    |chunk: Chunk<Seq<char>>| chunk.id == id
}

/// Whether a chunk is a completed one of a tab, with words in it.
pub open spec fn completed_in(tab: Seq<char>) -> spec_fn(Chunk<Seq<char>>) -> bool {
    |chunk: Chunk<Seq<char>>|
        chunk.tab_id == tab && chunk.status == ChunkStatus::Ready && chunk.text.len() > 0
}

/// Whether a tab has an id.
pub open spec fn tab_with_id(id: Seq<char>) -> spec_fn(TranscriptTab<Seq<char>>) -> bool {
    |tab: TranscriptTab<Seq<char>>| tab.id == id
}

/// The words of a chunk.
pub open spec fn words_of() -> spec_fn(Chunk<Seq<char>>) -> Seq<char> {
    |chunk: Chunk<Seq<char>>| chunk.text
}

/// The words of a tab's chunks, in the order of the chunks.
pub open spec fn texts_of(chunks: Seq<Chunk<Seq<char>>>, tab: Seq<char>) -> Seq<Seq<char>> {
    chunks.filter(in_tab(tab)).map_values(words_of())
}

/// The transcript of a tab: the words it had before, then those of its chunks, a line each.
pub open spec fn tab_text(
    prior: Seq<char>,
    chunks: Seq<Chunk<Seq<char>>>,
    tab: Seq<char>,
) -> Seq<char> {
    joined(non_empty(seq![prior] + texts_of(chunks, tab)), "\n"@)
}

/// The words that an open tab had before.
pub open spec fn prior_of(tabs: Seq<TranscriptTab<Seq<char>>>, id: Seq<char>) -> Seq<char> {
    match first_match(tabs, tab_with_id(id)) {
        Some(i) => tabs[i].prior_transcript,
        None => Seq::empty(),
    }
}

/// The transcript of the selected tab.
pub open spec fn current_transcript(state: StateModel) -> Seq<char> {
    tab_text(prior_of(state.tabs, state.selected_tab), state.chunks, state.selected_tab)
}

/// The state with its transcript made again from its tab and chunks.
pub open spec fn rebuilt(state: StateModel) -> StateModel {
    StateModel { transcript: current_transcript(state), ..state }
}

/// How many chunks have come just so far.
pub open spec fn count_status(chunks: Seq<Chunk<Seq<char>>>, status: ChunkStatus) -> nat {
    chunks.filter(with_status(status)).len()
}

/// Whether any chunk has come just so far.
pub open spec fn any_status(chunks: Seq<Chunk<Seq<char>>>, status: ChunkStatus) -> bool {
    exists|i: int| 0 <= i < chunks.len() && (#[trigger] chunks[i]).status == status
}

/// The phase that the rest of the state stands for.
pub open spec fn phase_of(
    chunks: Seq<Chunk<Seq<char>>>,
    transcript: Seq<char>,
    capturing: bool,
    working: bool,
) -> Phase {
    if capturing {
        Phase::Recording
    } else if working || any_status(chunks, ChunkStatus::Queued) {
        Phase::Transcribing
    } else if any_status(chunks, ChunkStatus::Failed) {
        Phase::Error
    } else if transcript.len() == 0 {
        Phase::Idle
    } else {
        Phase::Ready
    }
}

/// The state with everything in it brought up to date that follows from the chunks, from whether
/// a recording and a transcription run, and from whether a recording from before is there.
pub open spec fn refreshed(
    state: StateModel,
    capturing: bool,
    working: bool,
    legacy: bool,
) -> StateModel {
    StateModel {
        queue_depth: count_status(state.chunks, ChunkStatus::Queued),
        transcribing: working,
        can_retry: any_status(state.chunks, ChunkStatus::Ready) || any_status(
            state.chunks,
            ChunkStatus::Failed,
        ) || legacy,
        phase: phase_of(state.chunks, state.transcript, capturing, working),
        level: if capturing {
            state.level
        } else {
            0
        },
        ..state
    }
}

/// Whether a text will do as the name of a tab.
pub open spec fn valid_tab_name(name: Seq<char>) -> bool {
    trimmed(name).len() > 0 && name.len() <= 48 && !has_control(name)
}

/// The state with one more tab, which is selected.
pub open spec fn tab_created(state: StateModel, id: Seq<char>, name: Seq<char>) -> StateModel {
    let tab = TranscriptTab { id, name: trimmed(name), prior_transcript: Seq::empty() };
    let state = rebuilt(
        StateModel { tabs: state.tabs.push(tab), selected_tab: id, ..state },
    );
    StateModel { message: "Tab created."@, ..state }
}

/// The tab to select where the one at a place was taken out.
pub open spec fn neighbour(tabs: Seq<TranscriptTab<Seq<char>>>, index: int) -> Seq<char> {
    if tabs.len() == 0 {
        Seq::empty()
    } else if index < tabs.len() {
        tabs[index].id
    } else {
        tabs.last().id
    }
}

/// The state with the tab at a place closed.
pub open spec fn tab_closed(state: StateModel, index: int) -> StateModel {
    let tab = state.tabs[index];
    let tabs = state.tabs.remove(index);
    let state = rebuilt(
        StateModel {
            tabs,
            closed_tabs: state.closed_tabs.push(tab),
            selected_tab: if state.selected_tab == tab.id {
                neighbour(tabs, index)
            } else {
                state.selected_tab
            },
            ..state
        },
    );
    StateModel { message: "Tab closed. Transcript and recordings saved."@, ..state }
}

/// The state with the tab open and selected that was closed last.
pub open spec fn tab_reopened(state: StateModel) -> StateModel {
    let tab = state.closed_tabs.last();
    let state = rebuilt(
        StateModel {
            tabs: state.tabs.push(tab),
            closed_tabs: state.closed_tabs.drop_last(),
            selected_tab: tab.id,
            ..state
        },
    );
    StateModel { message: "Tab reopened."@, ..state }
}

/// The state with a tab opened again, if it is a closed one.
pub open spec fn tab_recalled(state: StateModel, id: Seq<char>) -> StateModel {
    match first_match(state.closed_tabs, tab_with_id(id)) {
        Some(i) => StateModel {
            tabs: state.tabs.push(state.closed_tabs[i]),
            closed_tabs: state.closed_tabs.remove(i),
            ..state
        },
        None => state,
    }
}

/// The state with a tab selected, and opened again if it was closed; none if there is no such
/// tab.
pub open spec fn tab_selected(state: StateModel, id: Seq<char>) -> Option<StateModel> {
    let state = tab_recalled(state, id);
    if first_match(state.tabs, tab_with_id(id)) is Some {
        Some(rebuilt(StateModel { selected_tab: id, ..state }))
    } else {
        None
    }
}

/// The state with the tab at a place renamed.
pub open spec fn tab_renamed(state: StateModel, index: int, name: Seq<char>) -> StateModel {
    StateModel {
        tabs: state.tabs.update(
            index,
            TranscriptTab { name: trimmed(name), ..state.tabs[index] },
        ),
        message: "Tab renamed."@,
        ..state
    }
}

/// The whole text of a tab, open or closed; none if there is no such tab.
pub open spec fn exported_text(state: StateModel, id: Seq<char>) -> Option<Seq<char>> {
    match first_match(state.tabs + state.closed_tabs, tab_with_id(id)) {
        Some(i) => Some(
            tab_text((state.tabs + state.closed_tabs)[i].prior_transcript, state.chunks, id),
        ),
        None => None,
    }
}

/// Whether a chunk waits for its transcript.
pub open spec fn awaited(status: ChunkStatus) -> bool {
    status == ChunkStatus::Queued || status == ChunkStatus::Transcribing
}

/// A chunk after everything that waits was called off.
pub open spec fn canceled_chunk(chunk: Chunk<Seq<char>>) -> Chunk<Seq<char>> {
    if awaited(chunk.status) {
        Chunk { status: ChunkStatus::Canceled, error: None, ..chunk }
    } else {
        chunk
    }
}

/// The chunks after everything that waits was called off.
pub open spec fn canceled_chunks(chunks: Seq<Chunk<Seq<char>>>) -> Seq<Chunk<Seq<char>>> {
    Seq::new(chunks.len(), |i: int| canceled_chunk(chunks[i]))
}

/// Whether a chunk waits, as a filter.
pub open spec fn waits() -> spec_fn(Chunk<Seq<char>>) -> bool {
    |chunk: Chunk<Seq<char>>| awaited(chunk.status)
}

/// How many chunks wait.
pub open spec fn awaited_count(chunks: Seq<Chunk<Seq<char>>>) -> nat {
    chunks.filter(waits()).len()
}

/// A chunk with nothing in it yet.
pub open spec fn new_chunk(tab: Seq<char>, id: Seq<char>, status: ChunkStatus) -> Chunk<Seq<char>> {
    Chunk {
        tab_id: tab,
        title: Seq::empty(),
        id,
        status,
        text: Seq::empty(),
        error: None,
        seconds: 0,
    }
}

/// The state with one more chunk in the selected tab.
pub open spec fn chunk_added(state: StateModel, id: Seq<char>, status: ChunkStatus) -> StateModel {
    StateModel {
        chunks: state.chunks.push(new_chunk(state.selected_tab, id, status)),
        ..state
    }
}

/// The state without the selected tab's chunks and earlier words. The transcript itself is left.
pub open spec fn tab_emptied(state: StateModel) -> StateModel {
    StateModel {
        chunks: state.chunks.filter(outside_tab(state.selected_tab)),
        tabs: match first_match(state.tabs, tab_with_id(state.selected_tab)) {
            Some(i) => state.tabs.update(
                i,
                TranscriptTab { prior_transcript: Seq::empty(), ..state.tabs[i] },
            ),
            None => state.tabs,
        },
        ..state
    }
}

/// The chunk to transcribe again: the first failed one, else the last one that is ready.
pub open spec fn retry_place(chunks: Seq<Chunk<Seq<char>>>) -> Option<int> {
    match first_match(chunks, with_status(ChunkStatus::Failed)) {
        Some(i) => Some(i),
        None => last_match(chunks, with_status(ChunkStatus::Ready)),
    }
}

/// The state with another chunk at a place.
pub open spec fn chunk_put(state: StateModel, index: int, chunk: Chunk<Seq<char>>) -> StateModel {
    StateModel { chunks: state.chunks.update(index, chunk), ..state }
}

/// A chunk that waits again for its transcript.
pub open spec fn chunk_requeued(chunk: Chunk<Seq<char>>) -> Chunk<Seq<char>> {
    Chunk { status: ChunkStatus::Queued, error: None, ..chunk }
}

/// A chunk that has no transcript, for a reason.
pub open spec fn chunk_failed(chunk: Chunk<Seq<char>>, words: Seq<char>) -> Chunk<Seq<char>> {
    Chunk { status: ChunkStatus::Failed, error: Some(words), ..chunk }
}

/// A chunk that has its transcript.
pub open spec fn chunk_filled(chunk: Chunk<Seq<char>>, words: Seq<char>) -> Chunk<Seq<char>> {
    Chunk { text: words, status: ChunkStatus::Ready, error: None, ..chunk }
}

/// The first chunk that has come just so far.
pub fn find_status(chunks: &Vec<Chunk>, status: ChunkStatus) -> (found: Option<usize>)
    ensures
        place(found) == first_match(chunks.deep_view(), with_status(status)),
{
    let ghost all = chunks.deep_view();
    let mut i: usize = 0;
    while i < chunks.len()
        invariant
            i <= chunks.len(),
            all == chunks.deep_view(),
            forall|j: int| 0 <= j < i ==> !with_status(status)(#[trigger] all[j]),
        decreases chunks.len() - i,
    {
        proof {
            assert(all[i as int].status == chunks[i as int].status);
        }
        if chunks[i].status == status {
            proof {
                crate::search::lemma_is_first(all, with_status(status), i as int);
            }
            return Some(i);
        }
        i += 1;
    }
    proof {
        crate::search::lemma_no_first(all, with_status(status));
    }
    None
}

/// The last chunk that has come just so far.
pub fn find_last_status(chunks: &Vec<Chunk>, status: ChunkStatus) -> (found: Option<usize>)
    ensures
        place(found) == last_match(chunks.deep_view(), with_status(status)),
{
    let ghost all = chunks.deep_view();
    let mut i: usize = chunks.len();
    while i > 0
        invariant
            i <= chunks.len(),
            all == chunks.deep_view(),
            forall|j: int| i <= j < all.len() ==> !with_status(status)(#[trigger] all[j]),
        decreases i,
    {
        i -= 1;
        proof {
            assert(all[i as int].status == chunks[i as int].status);
        }
        if chunks[i].status == status {
            proof {
                crate::search::lemma_is_last(all, with_status(status), i as int);
            }
            return Some(i);
        }
    }
    proof {
        crate::search::lemma_last_match(all, with_status(status));
    }
    None
}

/// The first chunk with an id.
pub fn find_chunk(chunks: &Vec<Chunk>, id: &str) -> (found: Option<usize>)
    ensures
        place(found) == first_match(chunks.deep_view(), chunk_with_id(id@)),
{
    let ghost all = chunks.deep_view();
    let mut i: usize = 0;
    while i < chunks.len()
        invariant
            i <= chunks.len(),
            all == chunks.deep_view(),
            forall|j: int| 0 <= j < i ==> !chunk_with_id(id@)(#[trigger] all[j]),
        decreases chunks.len() - i,
    {
        proof {
            assert(all[i as int].id == chunks[i as int].id@);
        }
        if same(chunks[i].id.as_str(), id) {
            proof {
                crate::search::lemma_is_first(all, chunk_with_id(id@), i as int);
            }
            return Some(i);
        }
        i += 1;
    }
    proof {
        crate::search::lemma_no_first(all, chunk_with_id(id@));
    }
    None
}

/// The first tab with an id.
pub fn find_tab(tabs: &Vec<TranscriptTab>, id: &str) -> (found: Option<usize>)
    ensures
        place(found) == first_match(tabs.deep_view(), tab_with_id(id@)),
{
    let ghost all = tabs.deep_view();
    let mut i: usize = 0;
    while i < tabs.len()
        invariant
            i <= tabs.len(),
            all == tabs.deep_view(),
            forall|j: int| 0 <= j < i ==> !tab_with_id(id@)(#[trigger] all[j]),
        decreases tabs.len() - i,
    {
        proof {
            assert(all[i as int].id == tabs[i as int].id@);
        }
        if same(tabs[i].id.as_str(), id) {
            proof {
                crate::search::lemma_is_first(all, tab_with_id(id@), i as int);
            }
            return Some(i);
        }
        i += 1;
    }
    proof {
        crate::search::lemma_no_first(all, tab_with_id(id@));
    }
    None
}

/// Whether a text will do as the name of a tab.
pub fn validate_tab_name(name: &str) -> (result: Result<(), Error>)
    ensures
        result is Ok <==> valid_tab_name(name@),
        result is Err ==> result->Err_0.deep_view() == Error::<Seq<char>>::InvalidTabName,
{
    if !name.trim().is_empty() && name.unicode_len() <= 48 && !crate::config::holds_control(name) {
        Ok(())
    } else {
        Err(Error::InvalidTabName)
    }
}

proof fn lemma_joined_push(pieces: Seq<Seq<char>>, piece: Seq<char>, separator: Seq<char>)
    ensures
        joined(pieces.push(piece), separator) == if pieces.len() == 0 {
            piece
        } else {
            joined(pieces, separator) + separator + piece
        },
{
    assert(pieces.push(piece).drop_last() =~= pieces);
    assert(pieces.push(piece).last() == piece);
}

/// The pieces of a tab's transcript after one more chunk was looked at.
proof fn lemma_pieces_step(
    prior: Seq<char>,
    chunks: Seq<Chunk<Seq<char>>>,
    tab: Seq<char>,
    i: int,
)
    requires
        0 <= i < chunks.len(),
    ensures
        non_empty(seq![prior] + texts_of(chunks.take(i + 1), tab)) == if chunks[i].tab_id == tab
            && chunks[i].text.len() > 0 {
            non_empty(seq![prior] + texts_of(chunks.take(i), tab)).push(chunks[i].text)
        } else {
            non_empty(seq![prior] + texts_of(chunks.take(i), tab))
        },
{
    crate::search::lemma_filter_step(chunks, i, in_tab(tab));
    let kept = chunks.take(i).filter(in_tab(tab));
    let before = texts_of(chunks.take(i), tab);
    if chunks[i].tab_id == tab {
        assert(texts_of(chunks.take(i + 1), tab) =~= before.push(chunks[i].text));
        assert(seq![prior] + texts_of(chunks.take(i + 1), tab) =~= (seq![prior] + before).push(
            chunks[i].text,
        ));
        crate::search::lemma_filter_of_push(
            seq![prior] + before,
            chunks[i].text,
            |piece: Seq<char>| piece.len() > 0,
        );
    }
}

/// The transcript of a tab, from the words it had before and its chunks.
pub fn gather(prior: &str, chunks: &Vec<Chunk>, tab: &str) -> (transcript: String)
    ensures
        transcript@ == tab_text(prior@, chunks.deep_view(), tab@),
{
    let ghost all = chunks.deep_view();
    let mut transcript = prior.to_owned();
    let mut any = !prior.is_empty();
    proof {
        assert(all.take(0) =~= Seq::empty());
        reveal(Seq::filter);
        assert(texts_of(all.take(0), tab@) =~= Seq::empty());
        assert(seq![prior@] + texts_of(all.take(0), tab@) =~= Seq::empty().push(prior@));
        crate::search::lemma_filter_of_push(
            Seq::<Seq<char>>::empty(),
            prior@,
            |piece: Seq<char>| piece.len() > 0,
        );
        assert(non_empty(seq![prior@] + texts_of(all.take(0), tab@)) =~= if prior@.len() > 0 {
            seq![prior@]
        } else {
            Seq::empty()
        });
        assert(transcript@ =~= joined(
            non_empty(seq![prior@] + texts_of(all.take(0), tab@)),
            "\n"@,
        ));
    }
    let mut i: usize = 0;
    while i < chunks.len()
        invariant
            i <= chunks.len(),
            all == chunks.deep_view(),
            any == (non_empty(seq![prior@] + texts_of(all.take(i as int), tab@)).len() > 0),
            transcript@ == joined(
                non_empty(seq![prior@] + texts_of(all.take(i as int), tab@)),
                "\n"@,
            ),
        decreases chunks.len() - i,
    {
        let chunk = &chunks[i];
        proof {
            assert(all[i as int] == chunk.deep_view());
            lemma_pieces_step(prior@, all, tab@, i as int);
            lemma_joined_push(
                non_empty(seq![prior@] + texts_of(all.take(i as int), tab@)),
                chunk.text@,
                "\n"@,
            );
        }
        if same(chunk.tab_id.as_str(), tab) && !chunk.text.as_str().is_empty() {
            if any {
                transcript.append("\n");
                transcript.append(chunk.text.as_str());
            } else {
                transcript = chunk.text.clone();
            }
            any = true;
        }
        i += 1;
    }
    proof {
        assert(all.take(all.len() as int) =~= all);
    }
    transcript
}

fn count_queued(chunks: &Vec<Chunk>) -> (count: usize)
    ensures
        count as nat == count_status(chunks.deep_view(), ChunkStatus::Queued),
{
    let ghost all = chunks.deep_view();
    let mut count: usize = 0;
    let mut i: usize = 0;
    proof {
        assert(all.take(0) =~= Seq::empty());
        reveal(Seq::filter);
    }
    while i < chunks.len()
        invariant
            i <= chunks.len(),
            all == chunks.deep_view(),
            count <= i,
            count as nat == count_status(all.take(i as int), ChunkStatus::Queued),
        decreases chunks.len() - i,
    {
        proof {
            assert(all[i as int] == chunks[i as int].deep_view());
            crate::search::lemma_filter_step(all, i as int, with_status(ChunkStatus::Queued));
        }
        if chunks[i].status == ChunkStatus::Queued {
            count += 1;
        }
        i += 1;
    }
    proof {
        assert(all.take(all.len() as int) =~= all);
    }
    count
}

/// A first match is there exactly where any chunk has the status.
pub proof fn lemma_any_is_first(chunks: Seq<Chunk<Seq<char>>>, status: ChunkStatus)
    ensures
        any_status(chunks, status) == (first_match(chunks, with_status(status)) is Some),
        any_status(chunks, status) == (count_status(chunks, status) > 0),
{
    crate::search::lemma_first_match(chunks, with_status(status));
    crate::search::lemma_filter_kept(chunks, with_status(status));
    let found = first_match(chunks, with_status(status));
    if found is None {
        crate::search::lemma_filter_none(chunks, with_status(status));
        if any_status(chunks, status) {
            let i = choose|i: int| 0 <= i < chunks.len() && (#[trigger] chunks[i]).status
                == status;
            assert(!with_status(status)(chunks[i]));
        }
    } else {
        lemma_filter_has(chunks, with_status(status), found->0);
    }
}

fn holds_status(chunks: &Vec<Chunk>, status: ChunkStatus) -> (answer: bool)
    ensures
        answer == any_status(chunks.deep_view(), status),
{
    proof {
        lemma_any_is_first(chunks.deep_view(), status);
    }
    find_status(chunks, status).is_some()
}

impl State {
    /// Makes the transcript again from the selected tab and its chunks.
    pub fn rebuild_transcript(&mut self)
        ensures
            final(self).deep_view() == rebuilt(old(self).deep_view()),
    {
        let transcript = match find_tab(&self.tabs, self.selected_tab.as_str()) {
            Some(i) => {
                proof {
                    crate::search::lemma_first_match(
                        self.tabs.deep_view(),
                        tab_with_id(self.selected_tab@),
                    );
                }
                gather(
                    self.tabs[i].prior_transcript.as_str(),
                    &self.chunks,
                    self.selected_tab.as_str(),
                )
            },
            None => {
                proof {
                    reveal_strlit("");
                    assert(""@ =~= Seq::empty());
                }
                gather("", &self.chunks, self.selected_tab.as_str())
            },
        };
        self.transcript = transcript;
    }

    /// Brings up to date what follows from the chunks and from what runs.
    pub fn refresh(&mut self, capturing: bool, working: bool, legacy: bool)
        ensures
            final(self).deep_view() == refreshed(
                old(self).deep_view(),
                capturing,
                working,
                legacy,
            ),
    {
        let depth: usize = count_queued(&self.chunks);
        let failed = holds_status(&self.chunks, ChunkStatus::Failed);
        let ready = holds_status(&self.chunks, ChunkStatus::Ready);
        proof {
            lemma_any_is_first(self.chunks.deep_view(), ChunkStatus::Queued);
        }
        self.queue_depth = depth;
        self.transcribing = working;
        self.can_retry = ready || failed || legacy;
        self.phase = if capturing {
            Phase::Recording
        } else if working || depth > 0 {
            Phase::Transcribing
        } else if failed {
            Phase::Error
        } else if self.transcript.as_str().is_empty() {
            Phase::Idle
        } else {
            Phase::Ready
        };
        if !capturing {
            self.level = 0;
        }
    }

    /// Adds a tab and selects it.
    pub fn create_tab(&mut self, id: String, name: &str)
        ensures
            final(self).deep_view() == tab_created(old(self).deep_view(), id@, name@),
    {
        let ghost before = self.tabs.deep_view();
        self.tabs.push(
            TranscriptTab {
                id: id.clone(),
                name: name.trim().to_owned(),
                prior_transcript: String::new(),
            },
        );
        proof {
            assert(self.tabs.deep_view() =~= before.push(
                TranscriptTab {
                    id: id@,
                    name: trimmed(name@),
                    prior_transcript: Seq::empty(),
                },
            ));
        }
        self.selected_tab = id;
        self.rebuild_transcript();
        self.message = "Tab created.".to_owned();
    }

    /// Closes an open tab.
    pub fn close_tab(&mut self, id: &str) -> (result: Result<(), Error>)
        ensures
            match first_match(old(self).deep_view().tabs, tab_with_id(id@)) {
                Some(i) => result is Ok && final(self).deep_view() == tab_closed(
                    old(self).deep_view(),
                    i,
                ),
                None => result is Err && result->Err_0.deep_view() == Error::<Seq<char>>::TabGone
                    && final(self).deep_view() == old(self).deep_view(),
            },
    {
        let index: usize = match find_tab(&self.tabs, id) {
            Some(index) => index,
            None => return Err(Error::TabGone),
        };
        let ghost tabs = self.tabs.deep_view();
        let ghost closed = self.closed_tabs.deep_view();
        proof {
            crate::search::lemma_first_match(tabs, tab_with_id(id@));
        }
        let tab = self.tabs.remove(index);
        self.closed_tabs.push(tab);
        proof {
            assert(self.tabs.deep_view() =~= tabs.remove(index as int));
            assert(self.closed_tabs.deep_view() =~= closed.push(tabs[index as int]));
        }
        if same(self.selected_tab.as_str(), id) {
            let left: usize = self.tabs.len();
            self.selected_tab = if left == 0 {
                String::new()
            } else if index < left {
                self.tabs[index].id.clone()
            } else {
                self.tabs[left - 1].id.clone()
            };
        }
        self.rebuild_transcript();
        self.message = "Tab closed. Transcript and recordings saved.".to_owned();
        Ok(())
    }

    /// Opens the tab again that was closed last, and selects it.
    pub fn reopen_tab(&mut self) -> (result: Result<(), Error>)
        ensures
            if old(self).deep_view().closed_tabs.len() > 0 {
                result is Ok && final(self).deep_view() == tab_reopened(old(self).deep_view())
            } else {
                result is Err && result->Err_0.deep_view() == Error::<Seq<char>>::NoClosedTab
                    && final(self).deep_view() == old(self).deep_view()
            },
    {
        let ghost tabs = self.tabs.deep_view();
        let ghost closed = self.closed_tabs.deep_view();
        let tab = match self.closed_tabs.pop() {
            Some(tab) => tab,
            None => return Err(Error::NoClosedTab),
        };
        self.selected_tab = tab.id.clone();
        self.tabs.push(tab);
        proof {
            assert(self.tabs.deep_view() =~= tabs.push(closed.last()));
            assert(self.closed_tabs.deep_view() =~= closed.drop_last());
        }
        self.rebuild_transcript();
        self.message = "Tab reopened.".to_owned();
        Ok(())
    }

    /// Selects a tab, opening it again if it was closed.
    pub fn select_tab(&mut self, id: String) -> (result: Result<(), Error>)
        ensures
            match tab_selected(old(self).deep_view(), id@) {
                Some(state) => result is Ok && final(self).deep_view() == state,
                None => result is Err && result->Err_0.deep_view() == Error::<Seq<char>>::TabGone
                    && final(self).deep_view() == old(self).deep_view(),
            },
    {
        let ghost before = self.deep_view();
        proof {
            crate::search::lemma_first_match(before.closed_tabs, tab_with_id(id@));
        }
        if let Some(index) = find_tab(&self.closed_tabs, id.as_str()) {
            let tab = self.closed_tabs.remove(index);
            self.tabs.push(tab);
            proof {
                let recalled = before.closed_tabs[index as int];
                assert(self.tabs.deep_view() =~= before.tabs.push(recalled));
                assert(self.closed_tabs.deep_view() =~= before.closed_tabs.remove(index as int));
                crate::search::lemma_first_match(self.tabs.deep_view(), tab_with_id(id@));
                assert(tab_with_id(id@)(self.tabs.deep_view()[before.tabs.len() as int]));
            }
        }
        if find_tab(&self.tabs, id.as_str()).is_none() {
            return Err(Error::TabGone);
        }
        self.selected_tab = id;
        self.rebuild_transcript();
        Ok(())
    }

    /// Gives an open tab another name.
    pub fn rename_tab(&mut self, id: &str, name: &str) -> (result: Result<(), Error>)
        ensures
            match first_match(old(self).deep_view().tabs, tab_with_id(id@)) {
                Some(i) => result is Ok && final(self).deep_view() == tab_renamed(
                    old(self).deep_view(),
                    i,
                    name@,
                ),
                None => result is Err && result->Err_0.deep_view() == Error::<Seq<char>>::TabGone
                    && final(self).deep_view() == old(self).deep_view(),
            },
    {
        let ghost tabs = self.tabs.deep_view();
        proof {
            crate::search::lemma_first_match(tabs, tab_with_id(id@));
        }
        match find_tab(&self.tabs, id) {
            Some(index) => {
                self.tabs[index].name = name.trim().to_owned();
                proof {
                    assert(self.tabs.deep_view() =~= tabs.update(
                        index as int,
                        TranscriptTab { name: trimmed(name@), ..tabs[index as int] },
                    ));
                }
                self.message = "Tab renamed.".to_owned();
                Ok(())
            },
            None => Err(Error::TabGone),
        }
    }

    /// The whole text of a tab, open or closed.
    pub fn text_of_tab(&self, id: &str) -> (text: Option<String>)
        ensures
            text.deep_view() == exported_text(self.deep_view(), id@),
    {
        let ghost open = self.tabs.deep_view();
        let ghost closed = self.closed_tabs.deep_view();
        proof {
            crate::search::lemma_first_match(open, tab_with_id(id@));
            crate::search::lemma_first_match(closed, tab_with_id(id@));
        }
        match find_tab(&self.tabs, id) {
            Some(i) => {
                proof {
                    assert((open + closed)[i as int] == open[i as int]);
                    assert forall|j: int| 0 <= j < i implies !tab_with_id(id@)(
                        #[trigger] (open + closed)[j],
                    ) by {
                        assert((open + closed)[j] == open[j]);
                    }
                    crate::search::lemma_is_first(open + closed, tab_with_id(id@), i as int);
                }
                Some(gather(self.tabs[i].prior_transcript.as_str(), &self.chunks, id))
            },
            None => match find_tab(&self.closed_tabs, id) {
                Some(i) => {
                    proof {
                        let k = open.len() + i;
                        assert((open + closed)[k] == closed[i as int]);
                        assert forall|j: int| 0 <= j < k implies !tab_with_id(id@)(
                            #[trigger] (open + closed)[j],
                        ) by {
                            if j < open.len() {
                                assert((open + closed)[j] == open[j]);
                            } else {
                                assert((open + closed)[j] == closed[j - open.len()]);
                            }
                        }
                        crate::search::lemma_is_first(open + closed, tab_with_id(id@), k);
                    }
                    Some(gather(self.closed_tabs[i].prior_transcript.as_str(), &self.chunks, id))
                },
                None => {
                    proof {
                        assert forall|j: int| 0 <= j < (open + closed).len() implies !tab_with_id(
                            id@,
                        )(#[trigger] (open + closed)[j]) by {
                            if j < open.len() {
                                assert((open + closed)[j] == open[j]);
                            } else {
                                assert((open + closed)[j] == closed[j - open.len()]);
                            }
                        }
                        crate::search::lemma_no_first(open + closed, tab_with_id(id@));
                    }
                    None
                },
            },
        }
    }

    /// The words of the latest completed chunk of the selected tab.
    pub fn latest_text(&self) -> (text: Option<String>)
        ensures
            text.deep_view() == match last_match(
                self.deep_view().chunks,
                completed_in(self.selected_tab@),
            ) {
                Some(i) => Some(self.deep_view().chunks[i].text),
                None => None,
            },
    {
        let ghost all = self.chunks.deep_view();
        let ghost asked = completed_in(self.selected_tab@);
        let mut i: usize = self.chunks.len();
        while i > 0
            invariant
                i <= self.chunks.len(),
                all == self.chunks.deep_view(),
                asked == completed_in(self.selected_tab@),
                forall|j: int| i <= j < all.len() ==> !asked(#[trigger] all[j]),
            decreases i,
        {
            i -= 1;
            let chunk = &self.chunks[i];
            proof {
                assert(all[i as int] == chunk.deep_view());
            }
            if same(chunk.tab_id.as_str(), self.selected_tab.as_str()) && chunk.status
                == ChunkStatus::Ready && !chunk.text.as_str().is_empty() {
                proof {
                    crate::search::lemma_is_last(all, asked, i as int);
                }
                return Some(chunk.text.clone());
            }
        }
        proof {
            crate::search::lemma_last_match(all, asked);
        }
        None
    }

    /// Calls off everything that waits for a transcript, and says how much that was.
    pub fn cancel_waiting(&mut self) -> (count: usize)
        ensures
            final(self).deep_view() == (StateModel {
                chunks: canceled_chunks(old(self).deep_view().chunks),
                ..old(self).deep_view()
            }),
            count as nat == awaited_count(old(self).deep_view().chunks),
    {
        let ghost before = self.deep_view();
        let ghost all = self.chunks.deep_view();
        let mut count: usize = 0;
        let mut i: usize = 0;
        proof {
            assert(all.take(0) =~= Seq::empty());
            reveal(Seq::filter);
        }
        while i < self.chunks.len()
            invariant
                i <= self.chunks.len(),
                self.chunks.len() == all.len(),
                all == before.chunks,
                self.deep_view() == (StateModel { chunks: self.chunks.deep_view(), ..before }),
                forall|j: int|
                    0 <= j < i ==> (#[trigger] self.chunks[j]).deep_view() == canceled_chunk(
                        all[j],
                    ),
                forall|j: int|
                    i <= j < all.len() ==> (#[trigger] self.chunks[j]).deep_view() == all[j],
                count <= i,
                count as nat == awaited_count(all.take(i as int)),
            decreases self.chunks.len() - i,
        {
            proof {
                assert(self.chunks[i as int].deep_view() == all[i as int]);
                crate::search::lemma_filter_step(all, i as int, waits());
            }
            let status = self.chunks[i].status;
            if status == ChunkStatus::Queued || status == ChunkStatus::Transcribing {
                self.chunks[i].status = ChunkStatus::Canceled;
                self.chunks[i].error = None;
                count += 1;
            }
            i += 1;
        }
        proof {
            assert(all.take(all.len() as int) =~= all);
            assert(self.chunks.deep_view() =~= canceled_chunks(all));
        }
        count
    }

    /// Adds a chunk to the selected tab, and says where it stands.
    pub fn add_chunk(&mut self, id: String, status: ChunkStatus) -> (index: usize)
        ensures
            final(self).deep_view() == chunk_added(old(self).deep_view(), id@, status),
            index == old(self).chunks.len(),
    {
        let ghost chunks = self.chunks.deep_view();
        let index: usize = self.chunks.len();
        self.chunks.push(
            Chunk {
                tab_id: self.selected_tab.clone(),
                title: String::new(),
                id,
                status,
                text: String::new(),
                error: None,
                seconds: 0,
            },
        );
        proof {
            assert(self.chunks.deep_view() =~= chunks.push(
                new_chunk(self.selected_tab@, id@, status),
            ));
        }
        index
    }

    /// Takes the chunks and the earlier words of the selected tab out.
    pub fn empty_tab(&mut self)
        ensures
            final(self).deep_view() == tab_emptied(old(self).deep_view()),
    {
        let ghost all = self.chunks.deep_view();
        let ghost tabs = self.tabs.deep_view();
        let ghost keep = outside_tab(self.selected_tab@);
        let mut kept: Vec<Chunk> = Vec::new();
        let mut i: usize = 0;
        proof {
            assert(all.take(0) =~= Seq::empty());
            reveal(Seq::filter);
            assert(kept.deep_view() =~= all.take(0).filter(keep));
        }
        while i < self.chunks.len()
            invariant
                i <= self.chunks.len(),
                all == self.chunks.deep_view(),
                keep == outside_tab(self.selected_tab@),
                kept.deep_view() == all.take(i as int).filter(keep),
            decreases self.chunks.len() - i,
        {
            let chunk = &self.chunks[i];
            proof {
                assert(all[i as int] == chunk.deep_view());
                crate::search::lemma_filter_step(all, i as int, keep);
            }
            if !same(chunk.tab_id.as_str(), self.selected_tab.as_str()) {
                let ghost before = kept.deep_view();
                kept.push(chunk.clone());
                proof {
                    assert(kept.deep_view() =~= before.push(all[i as int]));
                }
            }
            i += 1;
        }
        proof {
            assert(all.take(all.len() as int) =~= all);
            crate::search::lemma_first_match(tabs, tab_with_id(self.selected_tab@));
        }
        self.chunks = kept;
        if let Some(index) = find_tab(&self.tabs, self.selected_tab.as_str()) {
            self.tabs[index].prior_transcript = String::new();
            proof {
                assert(self.tabs.deep_view() =~= tabs.update(
                    index as int,
                    TranscriptTab { prior_transcript: Seq::empty(), ..tabs[index as int] },
                ));
            }
        }
    }

    /// The chunk to transcribe again, if there is one.
    pub fn retry_index(&self) -> (found: Option<usize>)
        ensures
            place(found) == retry_place(self.deep_view().chunks),
    {
        match find_status(&self.chunks, ChunkStatus::Failed) {
            Some(index) => Some(index),
            None => find_last_status(&self.chunks, ChunkStatus::Ready),
        }
    }

    /// Puts another status on a chunk.
    pub fn set_status(&mut self, index: usize, status: ChunkStatus)
        requires
            index < old(self).chunks.len(),
        ensures
            final(self).deep_view() == chunk_put(
                old(self).deep_view(),
                index as int,
                Chunk { status, ..old(self).deep_view().chunks[index as int] },
            ),
    {
        let ghost chunks = self.chunks.deep_view();
        self.chunks[index].status = status;
        proof {
            assert(self.chunks.deep_view() =~= chunks.update(
                index as int,
                Chunk { status, ..chunks[index as int] },
            ));
        }
    }

    /// Queues a chunk that was transcribed or failed before.
    pub fn requeue(&mut self, index: usize)
        requires
            index < old(self).chunks.len(),
        ensures
            final(self).deep_view() == chunk_put(
                old(self).deep_view(),
                index as int,
                chunk_requeued(old(self).deep_view().chunks[index as int]),
            ),
    {
        let ghost chunks = self.chunks.deep_view();
        self.chunks[index].status = ChunkStatus::Queued;
        self.chunks[index].error = None;
        proof {
            assert(self.chunks.deep_view() =~= chunks.update(
                index as int,
                chunk_requeued(chunks[index as int]),
            ));
        }
    }

    /// Marks a chunk as failed, with the words for the failure.
    pub fn fail_chunk(&mut self, index: usize, words: String)
        requires
            index < old(self).chunks.len(),
        ensures
            final(self).deep_view() == chunk_put(
                old(self).deep_view(),
                index as int,
                chunk_failed(old(self).deep_view().chunks[index as int], words@),
            ),
    {
        let ghost chunks = self.chunks.deep_view();
        self.chunks[index].status = ChunkStatus::Failed;
        self.chunks[index].error = Some(words);
        proof {
            assert(self.chunks.deep_view() =~= chunks.update(
                index as int,
                chunk_failed(chunks[index as int], words@),
            ));
        }
    }

    /// Gives a chunk its transcript.
    pub fn fill_chunk(&mut self, index: usize, words: String)
        requires
            index < old(self).chunks.len(),
        ensures
            final(self).deep_view() == chunk_put(
                old(self).deep_view(),
                index as int,
                chunk_filled(old(self).deep_view().chunks[index as int], words@),
            ),
    {
        let ghost chunks = self.chunks.deep_view();
        self.chunks[index].text = words;
        self.chunks[index].status = ChunkStatus::Ready;
        self.chunks[index].error = None;
        proof {
            assert(self.chunks.deep_view() =~= chunks.update(
                index as int,
                chunk_filled(chunks[index as int], words@),
            ));
        }
    }

    /// Puts the length of its recording on a chunk.
    pub fn set_length(&mut self, index: usize, seconds: u64)
        requires
            index < old(self).chunks.len(),
        ensures
            final(self).deep_view() == chunk_put(
                old(self).deep_view(),
                index as int,
                Chunk { seconds, ..old(self).deep_view().chunks[index as int] },
            ),
    {
        let ghost chunks = self.chunks.deep_view();
        self.chunks[index].seconds = seconds;
        proof {
            assert(self.chunks.deep_view() =~= chunks.update(
                index as int,
                Chunk { seconds, ..chunks[index as int] },
            ));
        }
    }
}

} // verus!
