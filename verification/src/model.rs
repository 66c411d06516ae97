//! What the recorder shows of itself, and what it can be asked to do.
use crate::config::{Acceleration, Config, ConfigModel, Provider};
use crate::text;
use vstd::arithmetic::div_mod::lemma_div_denominator;
use vstd::arithmetic::mul::lemma_mul_is_commutative;
use vstd::arithmetic::power2::{
    lemma2_to64, lemma_pow2_pos, lemma_pow2_strictly_increases, lemma_pow2_unfold, pow2,
};
use vstd::prelude::*;

verus! {

/// The part of the configuration that is shown and can be edited. The key itself is never in it.
#[derive(Debug)]
#[verifier::ext_equal]
pub struct BackendSettings<S = String> {
    pub provider: Provider,
    pub acceleration: Acceleration,
    pub binary: S,
    pub model: S,
    pub openai_model: S,
    pub api_key_configured: bool,
}

impl DeepView for BackendSettings {
    type V = BackendSettings<Seq<char>>;

    open spec fn deep_view(&self) -> BackendSettings<Seq<char>> {
        BackendSettings {
            provider: self.provider,
            acceleration: self.acceleration,
            binary: self.binary@,
            model: self.model@,
            openai_model: self.openai_model@,
            api_key_configured: self.api_key_configured,
        }
    }
}

impl Clone for BackendSettings {
    fn clone(&self) -> (copy: Self)
        ensures
            copy.deep_view() == self.deep_view(),
    {
        BackendSettings {
            provider: self.provider,
            acceleration: self.acceleration,
            binary: self.binary.clone(),
            model: self.model.clone(),
            openai_model: self.openai_model.clone(),
            api_key_configured: self.api_key_configured,
        }
    }
}

/// Settings with nothing in them.
pub open spec fn blank_backend() -> BackendSettings<Seq<char>> {
    BackendSettings {
        provider: Provider::Local,
        acceleration: Acceleration::Auto,
        binary: Seq::empty(),
        model: Seq::empty(),
        openai_model: Seq::empty(),
        api_key_configured: false,
    }
}

impl Default for BackendSettings {
    fn default() -> (settings: Self)
        ensures
            settings.deep_view() == blank_backend(),
    {
        BackendSettings {
            provider: Provider::Local,
            acceleration: Acceleration::Auto,
            binary: String::new(),
            model: String::new(),
            openai_model: String::new(),
            api_key_configured: false,
        }
    }
}

/// What a configuration shows of itself.
pub open spec fn shown_backend(config: ConfigModel, api_key_configured: bool) -> BackendSettings<
    Seq<char>,
> {
    BackendSettings {
        provider: config.provider,
        acceleration: config.acceleration,
        binary: config.binary,
        model: config.model,
        openai_model: config.openai_model,
        api_key_configured,
    }
}

impl BackendSettings {
    /// What a configuration shows of itself; of the key, only whether there is one.
    pub fn from_config(config: &Config, api_key_configured: bool) -> (settings: Self)
        ensures
            settings.deep_view() == shown_backend(config.deep_view(), api_key_configured),
    {
        BackendSettings {
            provider: config.provider,
            acceleration: config.acceleration,
            binary: config.binary.clone(),
            model: config.model.clone(),
            openai_model: config.openai_model.clone(),
            api_key_configured,
        }
    }
}

/// What the recorder is doing.
#[derive(Clone, Copy, Debug, PartialEq, Eq, Structural)]
pub enum Phase {
    Idle,
    Recording,
    Transcribing,
    Ready,
    Error,
}

impl Default for Phase {
    fn default() -> (phase: Self)
        ensures
            phase == Phase::Idle,
    {
        Phase::Idle
    }
}

/// The words for a phase.
pub open spec fn phase_label(phase: Phase) -> Seq<char> {
    match phase {
        Phase::Idle => "Ready when you are"@,
        Phase::Recording => "Listening"@,
        Phase::Transcribing => "Transcribing"@,
        Phase::Ready => "Ready to copy"@,
        Phase::Error => "Needs attention"@,
    }
}

impl Phase {
    /// Whether work is going on.
    pub fn busy(self) -> (answer: bool)
        ensures
            answer == (self == Phase::Recording || self == Phase::Transcribing),
    {
        matches!(self, Phase::Recording | Phase::Transcribing)
    }

    /// The words for this phase.
    pub fn label(self) -> (words: &'static str)
        ensures
            words@ == phase_label(self),
    {
        match self {
            Phase::Idle => "Ready when you are",
            Phase::Recording => "Listening",
            Phase::Transcribing => "Transcribing",
            Phase::Ready => "Ready to copy",
            Phase::Error => "Needs attention",
        }
    }
}

/// How far a chunk has come.
#[derive(Clone, Copy, Debug, PartialEq, Eq, Structural)]
pub enum ChunkStatus {
    Recording,
    Queued,
    Transcribing,
    Ready,
    Failed,
    Canceled,
}

/// One recording and its transcript. A length of time is kept as the bits of a
/// floating-point number of seconds.
#[derive(Debug)]
#[verifier::ext_equal]
pub struct Chunk<S = String> {
    pub tab_id: S,
    pub title: S,
    pub id: S,
    pub status: ChunkStatus,
    pub text: S,
    pub error: Option<S>,
    pub seconds: u64,
}

impl DeepView for Chunk {
    type V = Chunk<Seq<char>>;

    open spec fn deep_view(&self) -> Chunk<Seq<char>> {
        Chunk {
            tab_id: self.tab_id@,
            title: self.title@,
            id: self.id@,
            status: self.status,
            text: self.text@,
            error: self.error.deep_view(),
            seconds: self.seconds,
        }
    }
}

impl Clone for Chunk {
    fn clone(&self) -> (copy: Self)
        ensures
            copy.deep_view() == self.deep_view(),
    {
        Chunk {
            tab_id: self.tab_id.clone(),
            title: self.title.clone(),
            id: self.id.clone(),
            status: self.status,
            text: self.text.clone(),
            error: text::copied_option(&self.error),
            seconds: self.seconds,
        }
    }
}

/// A named transcript. Chunks name the tab that they belong to.
#[derive(Debug)]
#[verifier::ext_equal]
pub struct TranscriptTab<S = String> {
    pub id: S,
    pub name: S,
    pub prior_transcript: S,
}

impl DeepView for TranscriptTab {
    type V = TranscriptTab<Seq<char>>;

    open spec fn deep_view(&self) -> TranscriptTab<Seq<char>> {
        TranscriptTab {
            id: self.id@,
            name: self.name@,
            prior_transcript: self.prior_transcript@,
        }
    }
}

impl Clone for TranscriptTab {
    fn clone(&self) -> (copy: Self)
        ensures
            copy.deep_view() == self.deep_view(),
    {
        TranscriptTab {
            id: self.id.clone(),
            name: self.name.clone(),
            prior_transcript: self.prior_transcript.clone(),
        }
    }
}

/// The tab that there is at first.
pub open spec fn first_tab() -> TranscriptTab<Seq<char>> {
    TranscriptTab { id: "default"@, name: "Transcript 1"@, prior_transcript: Seq::empty() }
}

impl Default for TranscriptTab {
    fn default() -> (tab: Self)
        ensures
            tab.deep_view() == first_tab(),
    {
        TranscriptTab {
            id: "default".to_owned(),
            name: "Transcript 1".to_owned(),
            prior_transcript: String::new(),
        }
    }
}

/// All that the recorder shows of itself, and all that it keeps between runs.
///
/// `level` is the microphone's peak, as the bits of a single precision number.
#[derive(Debug)]
pub struct State {
    pub tabs: Vec<TranscriptTab>,
    pub closed_tabs: Vec<TranscriptTab>,
    pub selected_tab: String,
    pub transcript_title: String,
    pub backend: BackendSettings,
    pub phase: Phase,
    pub transcript: String,
    pub seconds: u64,
    pub level: u32,
    pub message: String,
    pub device: String,
    pub can_retry: bool,
    pub chunks: Vec<Chunk>,
    pub prior_transcript: String,
    pub queue_depth: usize,
    pub transcribing: bool,
    pub devices: Vec<String>,
    pub selected_device: Option<String>,
}

/// A state as contracts see it.
#[verifier::ext_equal]
pub struct StateModel {
    pub tabs: Seq<TranscriptTab<Seq<char>>>,
    pub closed_tabs: Seq<TranscriptTab<Seq<char>>>,
    pub selected_tab: Seq<char>,
    pub transcript_title: Seq<char>,
    pub backend: BackendSettings<Seq<char>>,
    pub phase: Phase,
    pub transcript: Seq<char>,
    pub seconds: u64,
    pub level: u32,
    pub message: Seq<char>,
    pub device: Seq<char>,
    pub can_retry: bool,
    pub chunks: Seq<Chunk<Seq<char>>>,
    pub prior_transcript: Seq<char>,
    pub queue_depth: nat,
    pub transcribing: bool,
    pub devices: Seq<Seq<char>>,
    pub selected_device: Option<Seq<char>>,
}

impl DeepView for State {
    type V = StateModel;

    open spec fn deep_view(&self) -> StateModel {
        StateModel {
            tabs: self.tabs.deep_view(),
            closed_tabs: self.closed_tabs.deep_view(),
            selected_tab: self.selected_tab@,
            transcript_title: self.transcript_title@,
            backend: self.backend.deep_view(),
            phase: self.phase,
            transcript: self.transcript@,
            seconds: self.seconds,
            level: self.level,
            message: self.message@,
            device: self.device@,
            can_retry: self.can_retry,
            chunks: self.chunks.deep_view(),
            prior_transcript: self.prior_transcript@,
            queue_depth: self.queue_depth as nat,
            transcribing: self.transcribing,
            devices: self.devices.deep_view(),
            selected_device: self.selected_device.deep_view(),
        }
    }
}

fn copied_tabs(tabs: &Vec<TranscriptTab>) -> (copy: Vec<TranscriptTab>)
    ensures
        copy.deep_view() == tabs.deep_view(),
{
    let mut copy: Vec<TranscriptTab> = Vec::new();
    let mut i: usize = 0;
    while i < tabs.len()
        invariant
            i <= tabs.len(),
            copy.len() == i,
            forall|j: int| 0 <= j < i ==> copy[j].deep_view() == tabs[j].deep_view(),
        decreases tabs.len() - i,
    {
        copy.push(tabs[i].clone());
        i += 1;
    }
    proof {
        assert(copy.deep_view() =~= tabs.deep_view());
    }
    copy
}

fn copied_chunks(chunks: &Vec<Chunk>) -> (copy: Vec<Chunk>)
    ensures
        copy.deep_view() == chunks.deep_view(),
{
    let mut copy: Vec<Chunk> = Vec::new();
    let mut i: usize = 0;
    while i < chunks.len()
        invariant
            i <= chunks.len(),
            copy.len() == i,
            forall|j: int| 0 <= j < i ==> copy[j].deep_view() == chunks[j].deep_view(),
        decreases chunks.len() - i,
    {
        copy.push(chunks[i].clone());
        i += 1;
    }
    proof {
        assert(copy.deep_view() =~= chunks.deep_view());
    }
    copy
}

impl Clone for State {
    fn clone(&self) -> (copy: Self)
        ensures
            copy.deep_view() == self.deep_view(),
    {
        State {
            tabs: copied_tabs(&self.tabs),
            closed_tabs: copied_tabs(&self.closed_tabs),
            selected_tab: self.selected_tab.clone(),
            transcript_title: self.transcript_title.clone(),
            backend: self.backend.clone(),
            phase: self.phase,
            transcript: self.transcript.clone(),
            seconds: self.seconds,
            level: self.level,
            message: self.message.clone(),
            device: self.device.clone(),
            can_retry: self.can_retry,
            chunks: copied_chunks(&self.chunks),
            prior_transcript: self.prior_transcript.clone(),
            queue_depth: self.queue_depth,
            transcribing: self.transcribing,
            devices: text::copied(&self.devices),
            selected_device: text::copied_option(&self.selected_device),
        }
    }
}

/// The state of a recorder that was never used.
pub open spec fn fresh_state() -> StateModel {
    StateModel {
        tabs: seq![first_tab()],
        closed_tabs: Seq::empty(),
        selected_tab: "default"@,
        transcript_title: Seq::empty(),
        backend: blank_backend(),
        phase: Phase::Idle,
        transcript: Seq::empty(),
        seconds: 0,
        level: 0,
        message: "Press record. Speak naturally. Make it yours."@,
        device: "System default microphone"@,
        can_retry: false,
        chunks: Seq::empty(),
        prior_transcript: Seq::empty(),
        queue_depth: 0,
        transcribing: false,
        devices: Seq::empty(),
        selected_device: None,
    }
}

impl Default for State {
    fn default() -> (state: Self)
        ensures
            state.deep_view() == fresh_state(),
    {
        let mut tabs: Vec<TranscriptTab> = Vec::new();
        tabs.push(TranscriptTab::default());
        let state = State {
            tabs,
            closed_tabs: Vec::new(),
            selected_tab: "default".to_owned(),
            transcript_title: String::new(),
            backend: BackendSettings::default(),
            phase: Phase::Idle,
            transcript: String::new(),
            seconds: 0,
            level: 0,
            message: "Press record. Speak naturally. Make it yours.".to_owned(),
            device: "System default microphone".to_owned(),
            can_retry: false,
            chunks: Vec::new(),
            prior_transcript: String::new(),
            queue_depth: 0,
            transcribing: false,
            devices: Vec::new(),
            selected_device: None,
        };
        proof {
            assert(state.tabs.deep_view() =~= seq![first_tab()]);
            assert(state.closed_tabs.deep_view() =~= Seq::empty());
            assert(state.chunks.deep_view() =~= Seq::empty());
            assert(state.devices.deep_view() =~= Seq::empty());
        }
        state
    }
}

/// What the recorder can be asked to do.
#[derive(Debug)]
pub enum Action<S = String> {
    Status,
    Start,
    Stop,
    Toggle,
    Copy,
    CopyLatest,
    CopyChunk(S),
    CopyText(S),
    ExportTab { id: S, path: S },
    CreateTab(S),
    SelectTab(S),
    CloseTab(S),
    ReopenTab,
    RenameTab { id: S, name: S },
    Clear,
    Cancel,
    Retry,
    Shutdown,
    Devices,
    SelectDevice(Option<S>),
    ConfigureBackend { settings: BackendSettings<S>, api_key: Option<S> },
}

impl DeepView for Action {
    type V = Action<Seq<char>>;

    open spec fn deep_view(&self) -> Action<Seq<char>> {
        match *self {
            Action::Status => Action::Status,
            Action::Start => Action::Start,
            Action::Stop => Action::Stop,
            Action::Toggle => Action::Toggle,
            Action::Copy => Action::Copy,
            Action::CopyLatest => Action::CopyLatest,
            Action::CopyChunk(id) => Action::CopyChunk(id@),
            Action::CopyText(text) => Action::CopyText(text@),
            Action::ExportTab { id, path } => Action::ExportTab { id: id@, path: path@ },
            Action::CreateTab(name) => Action::CreateTab(name@),
            Action::SelectTab(id) => Action::SelectTab(id@),
            Action::CloseTab(id) => Action::CloseTab(id@),
            Action::ReopenTab => Action::ReopenTab,
            Action::RenameTab { id, name } => Action::RenameTab { id: id@, name: name@ },
            Action::Clear => Action::Clear,
            Action::Cancel => Action::Cancel,
            Action::Retry => Action::Retry,
            Action::Shutdown => Action::Shutdown,
            Action::Devices => Action::Devices,
            Action::SelectDevice(device) => Action::SelectDevice(device.deep_view()),
            Action::ConfigureBackend { settings, api_key } => Action::ConfigureBackend {
                settings: settings.deep_view(),
                api_key: api_key.deep_view(),
            },
        }
    }
}

impl Clone for Action {
    fn clone(&self) -> (copy: Self)
        ensures
            copy.deep_view() == self.deep_view(),
    {
        match self {
            Action::Status => Action::Status,
            Action::Start => Action::Start,
            Action::Stop => Action::Stop,
            Action::Toggle => Action::Toggle,
            Action::Copy => Action::Copy,
            Action::CopyLatest => Action::CopyLatest,
            Action::CopyChunk(id) => Action::CopyChunk(id.clone()),
            Action::CopyText(text) => Action::CopyText(text.clone()),
            Action::ExportTab { id, path } => Action::ExportTab {
                id: id.clone(),
                path: path.clone(),
            },
            Action::CreateTab(name) => Action::CreateTab(name.clone()),
            Action::SelectTab(id) => Action::SelectTab(id.clone()),
            Action::CloseTab(id) => Action::CloseTab(id.clone()),
            Action::ReopenTab => Action::ReopenTab,
            Action::RenameTab { id, name } => Action::RenameTab {
                id: id.clone(),
                name: name.clone(),
            },
            Action::Clear => Action::Clear,
            Action::Cancel => Action::Cancel,
            Action::Retry => Action::Retry,
            Action::Shutdown => Action::Shutdown,
            Action::Devices => Action::Devices,
            Action::SelectDevice(device) => Action::SelectDevice(text::copied_option(device)),
            Action::ConfigureBackend { settings, api_key } => Action::ConfigureBackend {
                settings: settings.clone(),
                api_key: text::copied_option(api_key),
            },
        }
    }
}

/// What the recorder answers: its state, and the words for what went wrong.
#[derive(Debug)]
pub struct Reply {
    pub state: State,
    pub error: Option<String>,
}

/// The whole seconds in a length of time, which is given as the bits of a floating-point number of
/// seconds: a sign, eleven bits of exponent and fifty-two of fraction. What is below one, below
/// zero or no number counts as none; what is too large to be counted, as the most there is.
pub open spec fn whole_seconds(bits: u64) -> nat {
    let exponent = (bits / 0x10_0000_0000_0000) as int;
    let fraction = (bits % 0x10_0000_0000_0000) as nat;
    let significand = 0x10_0000_0000_0000 + fraction;
    if exponent < 1023 {
        0
    } else if exponent <= 1075 {
        significand / pow2((1075 - exponent) as nat)
    } else if exponent <= 1086 {
        significand * pow2((exponent - 1075) as nat)
    } else if exponent < 2047 || (exponent == 2047 && fraction == 0) {
        u64::MAX as nat
    } else {
        0
    }
}

/// Whether a length of time, given as the bits of a floating-point number, is zero.
pub open spec fn is_zero(bits: u64) -> bool {
    bits == 0 || bits == 0x8000_0000_0000_0000
}

/// A length of time as minutes and seconds.
pub open spec fn timestamp_text(bits: u64) -> Seq<char> {
    let seconds = whole_seconds(bits);
    text::two_digits(seconds / 60) + ":"@ + text::two_digits(seconds % 60)
}

fn count_seconds(bits: u64) -> (seconds: u64)
    ensures
        seconds == whole_seconds(bits),
{
    let exponent: u64 = bits / 0x10_0000_0000_0000;
    let fraction: u64 = bits % 0x10_0000_0000_0000;
    let significand: u64 = 0x10_0000_0000_0000 + fraction;
    let mut seconds: u64 = significand;
    let mut times: u64 = 0;
    if exponent < 1023 {
        return 0;
    }
    proof {
        lemma2_to64();
    }
    if exponent <= 1075 {
        while times < 1075 - exponent
            invariant
                1023 <= exponent <= 1075,
                times <= 1075 - exponent,
                seconds == significand as nat / pow2(times as nat),
            decreases 1075 - exponent - times,
        {
            proof {
                lemma_pow2_pos(times as nat);
                lemma_pow2_unfold((times + 1) as nat);
                lemma_div_denominator(significand as int, pow2(times as nat) as int, 2);
                lemma_mul_is_commutative(pow2(times as nat) as int, 2);
            }
            seconds = seconds / 2;
            times += 1;
        }
        return seconds;
    }
    if exponent <= 1086 {
        while times < exponent - 1075
            invariant
                1075 < exponent <= 1086,
                times <= exponent - 1075,
                significand < 0x20_0000_0000_0000,
                seconds == significand * pow2(times as nat),
                pow2(11) == 2048,
            decreases exponent - 1075 - times,
        {
            proof {
                let here: int = pow2(times as nat) as int;
                let next: int = pow2((times + 1) as nat) as int;
                let m: int = significand as int;
                lemma_pow2_pos(times as nat);
                lemma_pow2_unfold((times + 1) as nat);
                if times + 1 < 11 {
                    lemma_pow2_strictly_increases((times + 1) as nat, 11);
                }
                assert(2 * (m * here) == m * next) by (nonlinear_arith)
                    requires
                        next == 2 * here,
                ;
                assert(m * next < 0x20_0000_0000_0000 * 2048) by (nonlinear_arith)
                    requires
                        0 <= m < 0x20_0000_0000_0000,
                        0 < next <= 2048,
                ;
            }
            seconds = seconds * 2;
            times += 1;
        }
        return seconds;
    }
    if exponent < 2047 || (exponent == 2047 && fraction == 0) {
        u64::MAX
    } else {
        0
    }
}

/// A length of time, given as the bits of a floating-point number of seconds, as minutes and
/// seconds.
pub fn timestamp(seconds: u64) -> (words: String)
    ensures
        words@ == timestamp_text(seconds),
{
    let seconds: u64 = count_seconds(seconds);
    let mut words = text::padded((seconds / 60) as u128);
    words.append(":");
    words.append(text::padded((seconds % 60) as u128).as_str());
    words
}

} // verus!
