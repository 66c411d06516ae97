//! The dialog in which settings are edited.
use crate::config::{Acceleration, Provider};
use crate::geometry::{bottom_of, in_rect, least, less, right_of, smaller, whole, Rect};
use crate::input::{pressed, KeyCode, KeyEvent, MouseEvent, MouseKind};
use crate::model::{Action, BackendSettings};
use crate::text;
use crate::text::{byte_len, head_of, visible};
use vstd::prelude::*;

verus! {

/// A line of the dialog that can be chosen.
#[derive(Clone, Copy, Debug, PartialEq, Eq, Structural)]
pub enum Field {
    Provider,
    Acceleration,
    Binary,
    LocalModel,
    OpenAiModel,
    ApiKey,
    Microphone,
    Save,
}

/// The dialog. A key that is entered stays in it until the settings are saved.
#[derive(Debug)]
#[verifier::ext_equal]
pub struct SettingsView<S = String> {
    pub settings: BackendSettings<S>,
    pub selected: usize,
    pub editing: bool,
    pub key: S,
    pub key_changed: bool,
}

impl DeepView for SettingsView {
    type V = SettingsView<Seq<char>>;

    open spec fn deep_view(&self) -> SettingsView<Seq<char>> {
        SettingsView {
            settings: self.settings.deep_view(),
            selected: self.selected,
            editing: self.editing,
            key: self.key@,
            key_changed: self.key_changed,
        }
    }
}

/// The lines that can be chosen, from the top down.
pub open spec fn fields_of(provider: Provider) -> Seq<Field> {
    match provider {
        Provider::Local => seq![
            Field::Provider,
            Field::Acceleration,
            Field::Binary,
            Field::LocalModel,
            Field::Microphone,
            Field::Save,
        ],
        Provider::OpenAi => seq![
            Field::Provider,
            Field::OpenAiModel,
            Field::ApiKey,
            Field::Microphone,
            Field::Save,
        ],
    }
}

/// Whether the chosen line is there.
pub open spec fn in_order(view: SettingsView<Seq<char>>) -> bool {
    view.selected < fields_of(view.settings.provider).len()
}

/// The chosen line.
pub open spec fn chosen(view: SettingsView<Seq<char>>) -> Field {
    fields_of(view.settings.provider)[view.selected as int]
}

/// The text on the chosen line, where it is one to be edited.
pub open spec fn chosen_text(view: SettingsView<Seq<char>>) -> Option<Seq<char>> {
    match chosen(view) {
        Field::Binary => Some(view.settings.binary),
        Field::LocalModel => Some(view.settings.model),
        Field::OpenAiModel => Some(view.settings.openai_model),
        Field::ApiKey => Some(view.key),
        _ => None,
    }
}

/// The dialog with another text on the chosen line.
pub open spec fn with_text(view: SettingsView<Seq<char>>, words: Seq<char>) -> SettingsView<
    Seq<char>,
> {
    match chosen(view) {
        Field::Binary => SettingsView {
            settings: BackendSettings { binary: words, ..view.settings },
            ..view
        },
        Field::LocalModel => SettingsView {
            settings: BackendSettings { model: words, ..view.settings },
            ..view
        },
        Field::OpenAiModel => SettingsView {
            settings: BackendSettings { openai_model: words, ..view.settings },
            ..view
        },
        Field::ApiKey => SettingsView { key: words, key_changed: true, ..view },
        _ => view,
    }
}

/// How long a text may get, in bytes, before nothing is added any more.
pub const LONGEST: usize = 2048;

/// A text with more typed behind it.
pub open spec fn typed(words: Seq<char>, more: Seq<char>) -> Seq<char> {
    words + head_of(visible(more), less(LONGEST as int, byte_len(words) as int))
}

/// The dialog after a text was pasted into it.
pub open spec fn pasted(view: SettingsView<Seq<char>>, more: Seq<char>) -> SettingsView<Seq<char>> {
    if view.editing && chosen_text(view) is Some {
        with_text(view, typed(chosen_text(view)->0, more))
    } else {
        view
    }
}

/// The dialog after a key, while a text is edited.
pub open spec fn edited(view: SettingsView<Seq<char>>, key: KeyEvent) -> SettingsView<Seq<char>> {
    match key.code {
        KeyCode::Enter => SettingsView { editing: false, ..view },
        KeyCode::Esc => SettingsView { editing: false, ..view },
        KeyCode::Backspace => match chosen_text(view) {
            Some(words) => with_text(
                view,
                if words.len() == 0 {
                    words
                } else {
                    words.drop_last()
                },
            ),
            None => view,
        },
        KeyCode::Char(c) => if c == 'u' && key.control {
            with_text(view, Seq::empty())
        } else if !key.control && !key.alt {
            pasted(view, seq![c])
        } else {
            view
        },
        _ => view,
    }
}

/// The provider that comes after one.
pub open spec fn next_provider(provider: Provider) -> Provider {
    match provider {
        Provider::Local => Provider::OpenAi,
        Provider::OpenAi => Provider::Local,
    }
}

/// The acceleration that comes after one.
pub open spec fn next_acceleration(acceleration: Acceleration) -> Acceleration {
    match acceleration {
        Acceleration::Auto => Acceleration::Cpu,
        Acceleration::Cpu => Acceleration::Vulkan,
        Acceleration::Vulkan => Acceleration::Auto,
    }
}

/// What the dialog becomes, whether it closes, and what it asks the recorder for.
pub type Answer = (SettingsView<Seq<char>>, bool, Option<Action<Seq<char>>>);

/// What comes of changing what is on the chosen line.
pub open spec fn activated(view: SettingsView<Seq<char>>) -> Answer {
    match chosen(view) {
        Field::Provider => (
            SettingsView {
                settings: BackendSettings {
                    provider: next_provider(view.settings.provider),
                    ..view.settings
                },
                ..view
            },
            false,
            None,
        ),
        Field::Acceleration => (
            SettingsView {
                settings: BackendSettings {
                    acceleration: next_acceleration(view.settings.acceleration),
                    ..view.settings
                },
                ..view
            },
            false,
            None,
        ),
        Field::Microphone => (view, false, Some(Action::Devices)),
        Field::Save => (
            SettingsView {
                key: if view.key_changed {
                    Seq::empty()
                } else {
                    view.key
                },
                ..view
            },
            true,
            Some(
                Action::ConfigureBackend {
                    settings: view.settings,
                    api_key: if view.key_changed {
                        Some(view.key)
                    } else {
                        None
                    },
                },
            ),
        ),
        _ => (SettingsView { editing: true, ..view }, false, None),
    }
}

/// The dialog with the line above chosen.
pub open spec fn moved_up(view: SettingsView<Seq<char>>) -> SettingsView<Seq<char>> {
    SettingsView { selected: less(view.selected as int, 1) as usize, ..view }
}

/// The dialog with the line below chosen.
pub open spec fn moved_down(view: SettingsView<Seq<char>>) -> SettingsView<Seq<char>> {
    SettingsView {
        selected: least(
            view.selected + 1,
            fields_of(view.settings.provider).len() - 1,
        ) as usize,
        ..view
    }
}

/// What comes of a key.
pub open spec fn keyed(view: SettingsView<Seq<char>>, key: KeyEvent) -> Answer {
    if view.editing {
        (edited(view, key), false, None)
    } else {
        match key.code {
            KeyCode::Esc => (view, true, None),
            KeyCode::Up => (moved_up(view), false, None),
            KeyCode::BackTab => (moved_up(view), false, None),
            KeyCode::Down => (moved_down(view), false, None),
            KeyCode::Tab => (moved_down(view), false, None),
            KeyCode::Left => activated(view),
            KeyCode::Right => activated(view),
            KeyCode::Enter => activated(view),
            KeyCode::Char(c) => if c == ' ' {
                activated(view)
            } else {
                (view, false, None)
            },
            _ => (view, false, None),
        }
    }
}

/// Where the dialog stands on a screen: in the middle.
pub open spec fn dialog_area(provider: Provider, screen: Rect) -> Rect {
    let width = least(less(screen.width as int, 2), 90);
    let height = least(screen.height as int, fields_of(provider).len() as int + 5);
    Rect {
        x: (screen.x + (screen.width - width) / 2) as u16,
        y: (screen.y + (screen.height - height) / 2) as u16,
        width: width as u16,
        height: height as u16,
    }
}

/// What comes of a mouse.
pub open spec fn moused(view: SettingsView<Seq<char>>, mouse: MouseEvent, screen: Rect) -> Answer {
    let area = dialog_area(view.settings.provider, screen);
    let inside = in_rect(area, mouse.column as int, mouse.row as int);
    match mouse.kind {
        MouseKind::LeftDown => if !inside || (mouse.row == area.y && mouse.column >= less(
            right_of(area),
            9,
        )) {
            (view, true, None)
        } else if mouse.row == area.y || mouse.row == bottom_of(area) - 1 {
            (view, false, None)
        } else {
            let index = mouse.row - area.y - 1;
            if index < fields_of(view.settings.provider).len() {
                keyed(
                    SettingsView { editing: false, selected: index as usize, ..view },
                    pressed(KeyCode::Enter),
                )
            } else {
                (view, false, None)
            }
        },
        MouseKind::ScrollUp => (
            if inside && !view.editing {
                moved_up(view)
            } else {
                view
            },
            false,
            None,
        ),
        MouseKind::ScrollDown => (
            if inside && !view.editing {
                moved_down(view)
            } else {
                view
            },
            false,
            None,
        ),
        _ => (view, false, None),
    }
}

/// A dot for each byte, up to a limit.
pub open spec fn dots(count: nat) -> Seq<char> {
    Seq::new(count, |i: int| '•')
}

/// What stands for the key: never the key itself.
pub open spec fn shown_key(view: SettingsView<Seq<char>>) -> Seq<char> {
    if view.key_changed {
        if view.key.len() == 0 {
            "(remove saved key)"@
        } else {
            dots(least(byte_len(view.key) as int, 24) as nat)
        }
    } else if view.settings.api_key_configured {
        "(configured — enter to replace)"@
    } else {
        "(not configured)"@
    }
}

/// The words on a line.
pub open spec fn shown_field(view: SettingsView<Seq<char>>, field: Field, device: Seq<char>) -> Seq<
    char,
> {
    match field {
        Field::Provider => "Provider       ‹ "@ + (match view.settings.provider {
            Provider::Local => "Local Whisper"@,
            Provider::OpenAi => "OpenAI"@,
        }) + " ›"@,
        Field::Acceleration => "Acceleration   ‹ "@ + (match view.settings.acceleration {
            Acceleration::Auto => "Auto"@,
            Acceleration::Cpu => "Cpu"@,
            Acceleration::Vulkan => "Vulkan"@,
        }) + " ›"@,
        Field::Binary => "Whisper binary "@ + view.settings.binary,
        Field::LocalModel => "Whisper model  "@ + view.settings.model,
        Field::OpenAiModel => "Model          "@ + view.settings.openai_model,
        Field::ApiKey => "API key        "@ + shown_key(view),
        Field::Microphone => "Microphone     "@ + device,
        Field::Save => "Save settings"@,
    }
}

/// What stands in front of a line.
pub open spec fn shown_mark(view: SettingsView<Seq<char>>, i: int) -> Seq<char> {
    if i != view.selected {
        "  "@
    } else if view.editing {
        "✎ "@
    } else {
        "› "@
    }
}

/// All lines of the dialog.
pub open spec fn shown_lines(view: SettingsView<Seq<char>>, device: Seq<char>) -> Seq<Seq<char>> {
    let fields = fields_of(view.settings.provider);
    Seq::new(
        fields.len(),
        |i: int| shown_mark(view, i) + shown_field(view, fields[i], device),
    ) + seq![
        Seq::<char>::empty(),
        match view.settings.provider {
            Provider::Local => "Local processing. Vulkan requires a Vulkan-enabled Whisper binary."@,
            Provider::OpenAi => "OpenAI uploads recorded chunks using your API account."@,
        },
        "Changes apply to the next transcription; active work continues."@,
    ]
}

/// What the keys do at the moment.
pub open spec fn shown_hint(editing: bool) -> Seq<char> {
    if editing {
        " Enter done · Ctrl-U erase · paste supported "@
    } else {
        " ↑↓ select · Enter change · Esc close "@
    }
}

/// The dialog as it is drawn: its lines, which of them is chosen, and what the keys do.
#[derive(Debug)]
pub struct SettingsPage {
    pub area: Rect,
    pub lines: Vec<String>,
    pub selected: usize,
    pub hint: String,
}

fn repeated_dot(count: usize) -> (words: String)
    ensures
        words@ == dots(count as nat),
{
    let mut words = String::new();
    let mut i: usize = 0;
    while i < count
        invariant
            i <= count,
            words@ == dots(i as nat),
        decreases count - i,
    {
        words.push('•');
        i += 1;
        proof {
            assert(words@ =~= dots(i as nat));
        }
    }
    words
}

fn two_parts(first: &str, second: &str) -> (words: String)
    ensures
        words@ == first@ + second@,
{
    let mut words = first.to_owned();
    words.append(second);
    words
}

impl SettingsView {
    /// The dialog as it opens.
    pub fn new(settings: BackendSettings) -> (view: Self)
        ensures
            view.deep_view() == (SettingsView {
                settings: settings.deep_view(),
                selected: 0,
                editing: false,
                key: Seq::<char>::empty(),
                key_changed: false,
            }),
            in_order(view.deep_view()),
    {
        SettingsView { settings, selected: 0, editing: false, key: String::new(), key_changed: false }
    }

    /// The lines that can be chosen, from the top down.
    pub fn fields(&self) -> (fields: Vec<Field>)
        ensures
            fields@ == fields_of(self.settings.provider),
    {
        match self.settings.provider {
            Provider::Local => vec![
                Field::Provider,
                Field::Acceleration,
                Field::Binary,
                Field::LocalModel,
                Field::Microphone,
                Field::Save,
            ],
            Provider::OpenAi => vec![
                Field::Provider,
                Field::OpenAiModel,
                Field::ApiKey,
                Field::Microphone,
                Field::Save,
            ],
        }
    }

    fn count(&self) -> (count: usize)
        ensures
            count == fields_of(self.settings.provider).len(),
    {
        match self.settings.provider {
            Provider::Local => 6,
            Provider::OpenAi => 5,
        }
    }

    /// The text on the chosen line, where it is one to be edited.
    pub fn text(&self) -> (words: Option<String>)
        requires
            in_order(self.deep_view()),
        ensures
            words.deep_view() == chosen_text(self.deep_view()),
    {
        match self.fields()[self.selected] {
            Field::Binary => Some(self.settings.binary.clone()),
            Field::LocalModel => Some(self.settings.model.clone()),
            Field::OpenAiModel => Some(self.settings.openai_model.clone()),
            Field::ApiKey => Some(self.key.clone()),
            _ => None,
        }
    }

    fn set_text(&mut self, words: String)
        requires
            in_order(old(self).deep_view()),
        ensures
            final(self).deep_view() == with_text(old(self).deep_view(), words@),
    {
        match self.fields()[self.selected] {
            Field::Binary => {
                self.settings.binary = words;
            },
            Field::LocalModel => {
                self.settings.model = words;
            },
            Field::OpenAiModel => {
                self.settings.openai_model = words;
            },
            Field::ApiKey => {
                self.key_changed = true;
                self.key = words;
            },
            _ => {},
        }
    }

    /// Adds a text to the one that is edited: what can be shown of it, and fits.
    pub fn paste(&mut self, more: &str)
        requires
            in_order(old(self).deep_view()),
        ensures
            final(self).deep_view() == pasted(old(self).deep_view(), more@),
            in_order(final(self).deep_view()),
    {
        if self.editing {
            if let Some(mut words) = self.text() {
                let room: usize = LONGEST.saturating_sub(words.as_str().len());
                text::append_visible(&mut words, more, room);
                self.set_text(words);
            }
        }
    }

    fn edit(&mut self, key: KeyEvent)
        requires
            in_order(old(self).deep_view()),
            old(self).editing,
        ensures
            final(self).deep_view() == edited(old(self).deep_view(), key),
            in_order(final(self).deep_view()),
    {
        match key.code {
            KeyCode::Enter | KeyCode::Esc => {
                self.editing = false;
            },
            KeyCode::Backspace => {
                if let Some(mut words) = self.text() {
                    let _ = words.pop();
                    self.set_text(words);
                }
            },
            KeyCode::Char(c) => {
                if c == 'u' && key.control {
                    if let Some(mut words) = self.text() {
                        words.clear();
                        self.set_text(words);
                    }
                } else if !key.control && !key.alt {
                    let mut words = String::new();
                    words.push(c);
                    proof {
                        assert(words@ =~= seq![c]);
                    }
                    self.paste(words.as_str());
                }
            },
            _ => {},
        }
    }

    fn activate(&mut self) -> (answer: (bool, Option<Action>))
        requires
            in_order(old(self).deep_view()),
        ensures
            (final(self).deep_view(), answer.0, answer.1.deep_view()) == activated(
                old(self).deep_view(),
            ),
            in_order(final(self).deep_view()),
    {
        match self.fields()[self.selected] {
            Field::Provider => {
                self.settings.provider = match self.settings.provider {
                    Provider::Local => Provider::OpenAi,
                    Provider::OpenAi => Provider::Local,
                };
                (false, None)
            },
            Field::Acceleration => {
                self.settings.acceleration = match self.settings.acceleration {
                    Acceleration::Auto => Acceleration::Cpu,
                    Acceleration::Cpu => Acceleration::Vulkan,
                    Acceleration::Vulkan => Acceleration::Auto,
                };
                (false, None)
            },
            Field::Microphone => (false, Some(Action::Devices)),
            Field::Save => {
                let api_key = if self.key_changed {
                    let key = self.key.clone();
                    self.key = String::new();
                    Some(key)
                } else {
                    None
                };
                (true, Some(Action::ConfigureBackend { settings: self.settings.clone(), api_key }))
            },
            _ => {
                self.editing = true;
                (false, None)
            },
        }
    }

    fn move_up(&mut self)
        requires
            in_order(old(self).deep_view()),
        ensures
            final(self).deep_view() == moved_up(old(self).deep_view()),
            in_order(final(self).deep_view()),
    {
        self.selected = self.selected.saturating_sub(1);
    }

    fn move_down(&mut self)
        requires
            in_order(old(self).deep_view()),
        ensures
            final(self).deep_view() == moved_down(old(self).deep_view()),
            in_order(final(self).deep_view()),
    {
        let last: usize = self.count() - 1;
        if self.selected < last {
            self.selected = self.selected + 1;
        }
    }

    /// Takes a key: whether the dialog closes, and what it asks the recorder for. A key that was
    /// entered leaves the dialog only with the settings that are saved.
    pub fn key(&mut self, key: KeyEvent) -> (answer: (bool, Option<Action>))
        requires
            in_order(old(self).deep_view()),
        ensures
            (final(self).deep_view(), answer.0, answer.1.deep_view()) == keyed(
                old(self).deep_view(),
                key,
            ),
            in_order(final(self).deep_view()),
    {
        if self.editing {
            self.edit(key);
            return (false, None);
        }
        match key.code {
            KeyCode::Esc => (true, None),
            KeyCode::Up | KeyCode::BackTab => {
                self.move_up();
                (false, None)
            },
            KeyCode::Down | KeyCode::Tab => {
                self.move_down();
                (false, None)
            },
            KeyCode::Left | KeyCode::Right | KeyCode::Enter => self.activate(),
            KeyCode::Char(c) => {
                if c == ' ' {
                    self.activate()
                } else {
                    (false, None)
                }
            },
            _ => (false, None),
        }
    }

    /// Where the dialog stands on a screen.
    pub fn area(&self, screen: Rect) -> (area: Rect)
        requires
            whole(screen),
        ensures
            area == dialog_area(self.settings.provider, screen),
            whole(area),
    {
        let width: u16 = smaller(screen.width.saturating_sub(2), 90);
        let height: u16 = smaller(screen.height, self.count() as u16 + 5);
        Rect::new(
            screen.x + (screen.width - width) / 2,
            screen.y + (screen.height - height) / 2,
            width,
            height,
        )
    }

    /// Takes a mouse: whether the dialog closes, and what it asks the recorder for.
    pub fn mouse(&mut self, mouse: MouseEvent, screen: Rect) -> (answer: (bool, Option<Action>))
        requires
            in_order(old(self).deep_view()),
            whole(screen),
        ensures
            (final(self).deep_view(), answer.0, answer.1.deep_view()) == moused(
                old(self).deep_view(),
                mouse,
                screen,
            ),
            in_order(final(self).deep_view()),
    {
        let area = self.area(screen);
        let inside = area.contains(mouse.column, mouse.row);
        match mouse.kind {
            MouseKind::LeftDown => {
                if !inside || (mouse.row == area.y && mouse.column >= area.right().saturating_sub(
                    9,
                )) {
                    return (true, None);
                }
                if mouse.row == area.y || mouse.row == area.bottom() - 1 {
                    return (false, None);
                }
                let index: usize = (mouse.row - area.y - 1) as usize;
                if index < self.count() {
                    self.editing = false;
                    self.selected = index;
                    self.key(KeyEvent::plain(KeyCode::Enter))
                } else {
                    (false, None)
                }
            },
            MouseKind::ScrollUp => {
                if inside && !self.editing {
                    self.move_up();
                }
                (false, None)
            },
            MouseKind::ScrollDown => {
                if inside && !self.editing {
                    self.move_down();
                }
                (false, None)
            },
            _ => (false, None),
        }
    }

    fn key_words(&self) -> (words: String)
        ensures
            words@ == shown_key(self.deep_view()),
    {
        if self.key_changed {
            if self.key.as_str().is_empty() {
                "(remove saved key)".to_owned()
            } else {
                let count: usize = self.key.as_str().len();
                repeated_dot(
                    if count <= 24 {
                        count
                    } else {
                        24
                    },
                )
            }
        } else if self.settings.api_key_configured {
            "(configured — enter to replace)".to_owned()
        } else {
            "(not configured)".to_owned()
        }
    }

    fn field_words(&self, field: Field, device: &str) -> (words: String)
        ensures
            words@ == shown_field(self.deep_view(), field, device@),
    {
        match field {
            Field::Provider => {
                let mut words = "Provider       ‹ ".to_owned();
                words.append(
                    match self.settings.provider {
                        Provider::Local => "Local Whisper",
                        Provider::OpenAi => "OpenAI",
                    },
                );
                words.append(" ›");
                words
            },
            Field::Acceleration => {
                let mut words = "Acceleration   ‹ ".to_owned();
                words.append(
                    match self.settings.acceleration {
                        Acceleration::Auto => "Auto",
                        Acceleration::Cpu => "Cpu",
                        Acceleration::Vulkan => "Vulkan",
                    },
                );
                words.append(" ›");
                words
            },
            Field::Binary => two_parts("Whisper binary ", self.settings.binary.as_str()),
            Field::LocalModel => two_parts("Whisper model  ", self.settings.model.as_str()),
            Field::OpenAiModel => two_parts(
                "Model          ",
                self.settings.openai_model.as_str(),
            ),
            Field::ApiKey => two_parts("API key        ", self.key_words().as_str()),
            Field::Microphone => two_parts("Microphone     ", device),
            Field::Save => "Save settings".to_owned(),
        }
    }

    /// The dialog as it is drawn, with the name of the microphone in use.
    pub fn draw(&self, screen: Rect, device: &str) -> (page: SettingsPage)
        requires
            in_order(self.deep_view()),
            whole(screen),
        ensures
            page.area == dialog_area(self.settings.provider, screen),
            page.lines.deep_view() == shown_lines(self.deep_view(), device@),
            page.selected == self.selected,
            page.hint@ == shown_hint(self.editing),
    {
        let fields = self.fields();
        let ghost view = self.deep_view();
        let mut lines: Vec<String> = Vec::new();
        let mut i: usize = 0;
        while i < fields.len()
            invariant
                i <= fields.len(),
                lines.len() == i,
                view == self.deep_view(),
                fields@ == fields_of(self.settings.provider),
                forall|j: int|
                    0 <= j < i ==> (#[trigger] lines[j])@ == shown_mark(view, j) + shown_field(
                        view,
                        fields@[j],
                        device@,
                    ),
            decreases fields.len() - i,
        {
            let mark = if i != self.selected {
                "  "
            } else if self.editing {
                "✎ "
            } else {
                "› "
            };
            lines.push(two_parts(mark, self.field_words(fields[i], device).as_str()));
            i += 1;
        }
        lines.push(String::new());
        lines.push(
            match self.settings.provider {
                Provider::Local => "Local processing. Vulkan requires a Vulkan-enabled Whisper binary.",
                Provider::OpenAi => "OpenAI uploads recorded chunks using your API account.",
            }.to_owned(),
        );
        lines.push("Changes apply to the next transcription; active work continues.".to_owned());
        proof {
            assert(lines.deep_view() =~= shown_lines(view, device@));
        }
        let hint = if self.editing {
            " Enter done · Ctrl-U erase · paste supported "
        } else {
            " ↑↓ select · Enter change · Esc close "
        };
        SettingsPage { area: self.area(screen), lines, selected: self.selected, hint: hint.to_owned() }
    }
}

/// What is drawn tells of an entered key no more than whether there is one and how many bytes it
/// takes, up to the limit.
pub proof fn law_key_is_masked(
    view: SettingsView<Seq<char>>,
    other: Seq<char>,
    device: Seq<char>,
)
    requires
        least(byte_len(view.key) as int, 24) == least(byte_len(other) as int, 24),
        (view.key.len() == 0) == (other.len() == 0),
    ensures
        shown_lines(SettingsView { key: other, ..view }, device) == shown_lines(view, device),
{
    assert(shown_lines(SettingsView { key: other, ..view }, device) =~= shown_lines(view, device));
}

/// A key leaves the dialog only with the settings that are saved, and then the dialog closes.
pub proof fn law_key_leaves_on_save(view: SettingsView<Seq<char>>, key: KeyEvent)
    ensures
        ({
            let (after, close, action) = keyed(view, key);
            action matches Some(action) ==> {
                &&& !view.editing
                &&& action == Action::<Seq<char>>::Devices || (action is ConfigureBackend && chosen(
                    view,
                ) == Field::Save && close)
                &&& action matches Action::ConfigureBackend { settings, api_key } ==> {
                    &&& settings == view.settings
                    &&& api_key == if view.key_changed {
                        Some(view.key)
                    } else {
                        None::<Seq<char>>
                    }
                    &&& view.key_changed ==> after.key.len() == 0
                }
            }
        }),
{
}

/// While a text is edited, every key but the two that end the editing stays a matter of that
/// text: nothing is asked of the recorder, nothing closes, and the chosen line stays.
pub proof fn law_editing_keeps_keys(view: SettingsView<Seq<char>>, key: KeyEvent)
    requires
        view.editing,
    ensures
        ({
            let (after, close, action) = keyed(view, key);
            &&& !close
            &&& action is None
            &&& after.selected == view.selected
            &&& after.settings.provider == view.settings.provider
            &&& after.settings.acceleration == view.settings.acceleration
            &&& after.settings.api_key_configured == view.settings.api_key_configured
            &&& after.editing || key.code == KeyCode::Enter || key.code == KeyCode::Esc
        }),
{
}

/// The chosen line is always there, whatever is done to the dialog.
pub proof fn law_choice_stays(
    view: SettingsView<Seq<char>>,
    key: KeyEvent,
    mouse: MouseEvent,
    text: Seq<char>,
    screen: Rect,
)
    requires
        in_order(view),
    ensures
        in_order(keyed(view, key).0),
        in_order(moused(view, mouse, screen).0),
        in_order(pasted(view, text)),
{
}

} // verus!
