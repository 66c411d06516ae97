//! What a user does at a terminal.
use crate::geometry::Rect;
use vstd::prelude::*;

verus! {

/// A key. `Other` stands for all that nothing is bound to.
#[derive(Clone, Copy, Debug, PartialEq, Eq, Structural)]
pub enum KeyCode {
    Enter,
    Esc,
    Backspace,
    Up,
    Down,
    Left,
    Right,
    Tab,
    BackTab,
    Home,
    F(u8),
    Char(char),
    Other,
}

/// What happens to a key: whether it goes down, and which other keys are held meanwhile.
#[derive(Clone, Copy, Debug, PartialEq, Eq, Structural)]
pub struct KeyEvent {
    pub code: KeyCode,
    pub press: bool,
    pub control: bool,
    pub alt: bool,
}

/// A key that goes down with no other key held.
pub open spec fn pressed(code: KeyCode) -> KeyEvent {
    KeyEvent { code, press: true, control: false, alt: false }
}

impl KeyEvent {
    /// A key that goes down with no other key held.
    pub fn plain(code: KeyCode) -> (key: Self)
        ensures
            key == pressed(code),
    {
        KeyEvent { code, press: true, control: false, alt: false }
    }
}

/// What a mouse does. `Other` stands for all that nothing is bound to.
#[derive(Clone, Copy, Debug, PartialEq, Eq, Structural)]
pub enum MouseKind {
    LeftDown,
    LeftDrag,
    LeftUp,
    RightDown,
    ScrollUp,
    ScrollDown,
    Other,
}

/// What a mouse does, and where.
#[derive(Clone, Copy, Debug, PartialEq, Eq, Structural)]
pub struct MouseEvent {
    pub kind: MouseKind,
    pub column: u16,
    pub row: u16,
}

/// Something a user did.
#[derive(Debug)]
pub enum Event<S = String> {
    Key(KeyEvent),
    Mouse(MouseEvent),
    Paste(S),
    Other,
}

impl DeepView for Event {
    type V = Event<Seq<char>>;

    open spec fn deep_view(&self) -> Event<Seq<char>> {
        match *self {
            Event::Key(key) => Event::Key(key),
            Event::Mouse(mouse) => Event::Mouse(mouse),
            Event::Paste(text) => Event::Paste(text@),
            Event::Other => Event::Other,
        }
    }
}

/// What a click on some place of the screen stands for.
#[derive(Debug)]
pub enum Hit<S = String> {
    Key(KeyEvent),
    Tab(usize),
    SelectTab(S),
    Microphone(usize),
}

impl DeepView for Hit {
    type V = Hit<Seq<char>>;

    open spec fn deep_view(&self) -> Hit<Seq<char>> {
        match *self {
            Hit::Key(key) => Hit::Key(key),
            Hit::Tab(tab) => Hit::Tab(tab),
            Hit::SelectTab(id) => Hit::SelectTab(id@),
            Hit::Microphone(index) => Hit::Microphone(index),
        }
    }
}

impl Clone for Hit {
    fn clone(&self) -> (copy: Self)
        ensures
            copy.deep_view() == self.deep_view(),
    {
        match self {
            Hit::Key(key) => Hit::Key(*key),
            Hit::Tab(tab) => Hit::Tab(*tab),
            Hit::SelectTab(id) => Hit::SelectTab(id.clone()),
            Hit::Microphone(index) => Hit::Microphone(*index),
        }
    }
}

/// Places of the screen, and what a click on each stands for, as contracts see them.
pub type Hits = Seq<(Rect, Hit<Seq<char>>)>;

/// Places of the screen, and what a click on each stands for.
pub open spec fn hits_view(hits: Seq<(Rect, Hit)>) -> Hits {
    Seq::new(hits.len(), |i: int| (hits[i].0, hits[i].1.deep_view()))
}

/// One more place at the end.
pub proof fn lemma_hit_pushed(hits: Seq<(Rect, Hit)>, area: Rect, hit: Hit)
    ensures
        hits_view(hits.push((area, hit))) == hits_view(hits).push((area, hit.deep_view())),
{
    assert(hits_view(hits.push((area, hit))) =~= hits_view(hits).push((area, hit.deep_view())));
}

/// Adds a place.
pub fn add_hit(hits: &mut Vec<(Rect, Hit)>, area: Rect, hit: Hit)
    ensures
        hits_view(final(hits)@) == hits_view(old(hits)@).push((area, hit.deep_view())),
{
    proof {
        lemma_hit_pushed(hits@, area, hit);
    }
    hits.push((area, hit));
}

} // verus!
