//! What is pressed and clicked, and the one-line box that text is typed into.

use vstd::prelude::*;

use crate::text::{chars_of, text_of};

verus! {

/// The keys the program tells apart.
#[derive(Clone, Copy, Debug, PartialEq, Eq, Structural)]
pub enum KeyCode {
    Char(char),
    Enter,
    Esc,
    Tab,
    Backspace,
    Delete,
    Left,
    Right,
    Up,
    Down,
    Home,
    End,
    PageUp,
    PageDown,
    /// Any key nothing is bound to.
    Other,
}

/// One key going down or coming up, and what was held with it.
#[derive(Clone, Copy, Debug, PartialEq, Eq, Structural)]
pub struct KeyEvent {
    pub code: KeyCode,
    pub control: bool,
    pub alt: bool,
    pub shift: bool,
    /// Whether the key went down, rather than repeating or coming up.
    pub pressed: bool,
}

impl KeyEvent {
    /// The key pressed with nothing held.
    #[must_use]
    pub fn plain(code: KeyCode) -> (r: Self)
        ensures
            r == (KeyEvent { code, control: false, alt: false, shift: false, pressed: true }),
    {
        KeyEvent { code, control: false, alt: false, shift: false, pressed: true }
    }
}

#[derive(Clone, Copy, Debug, PartialEq, Eq, Structural)]
pub enum MouseButton {
    Left,
    Right,
    Middle,
}

#[derive(Clone, Copy, Debug, PartialEq, Eq, Structural)]
pub enum MouseEventKind {
    Down(MouseButton),
    ScrollUp,
    ScrollDown,
    /// A move, a drag or a button coming up.
    Other,
}

/// One thing the pointer did, and where.
#[derive(Clone, Copy, Debug, PartialEq, Eq, Structural)]
pub struct MouseEvent {
    pub kind: MouseEventKind,
    pub column: u16,
    pub row: u16,
}

/// What a box holds and which character its caret stands before.
pub struct InputView {
    pub text: Seq<char>,
    pub at: int,
}

/// A character that a line of text can hold.
pub open spec fn printable(c: char) -> bool {
    c as u32 >= 0x20 && c as u32 != 0x7f
}

/// The text with a space for each character that one line cannot hold.
pub open spec fn in_one_line(text: Seq<char>) -> Seq<char> {
    text.map_values(
        |c: char|
            if printable(c) {
                c
            } else {
                ' '
            },
    )
}

impl InputView {
    pub open spec fn empty() -> Self {
        InputView { text: Seq::empty(), at: 0 }
    }

    /// A box holding `text`, the caret behind it.
    pub open spec fn holding(text: Seq<char>) -> Self {
        InputView { text, at: text.len() as int }
    }

    /// The caret, kept on the text.
    pub open spec fn caret(self) -> int {
        if self.at < self.text.len() {
            self.at
        } else {
            self.text.len() as int
        }
    }

    /// The box with `added` put in at the caret, where there is room for it.
    pub open spec fn typed(self, added: Seq<char>) -> Self {
        let at = self.caret();
        if self.text.len() + added.len() > usize::MAX {
            self
        } else {
            InputView {
                text: self.text.take(at) + added + self.text.skip(at),
                at: at + added.len(),
            }
        }
    }

    /// The box once `key` has been pressed in it.
    pub open spec fn pressed(self, key: KeyEvent) -> Self {
        let at = self.caret();
        match key.code {
            KeyCode::Char(c) => if key.control {
                if c == 'u' {
                    Self::empty()
                } else {
                    self
                }
            } else if key.alt || !printable(c) {
                self
            } else {
                self.typed(seq![c])
            },
            KeyCode::Backspace => if at == 0 {
                self
            } else {
                InputView { text: self.text.remove(at - 1), at: at - 1 }
            },
            KeyCode::Delete => if at == self.text.len() {
                self
            } else {
                InputView { text: self.text.remove(at), at }
            },
            KeyCode::Left => if at == 0 {
                self
            } else {
                InputView { at: at - 1, ..self }
            },
            KeyCode::Right => if at == self.text.len() {
                self
            } else {
                InputView { at: at + 1, ..self }
            },
            KeyCode::Home => InputView { at: 0, ..self },
            KeyCode::End => InputView { at: self.text.len() as int, ..self },
            _ => self,
        }
    }

    /// The box once `text` has been pasted into it, at the caret, with a space
    /// for each character that one line cannot hold.
    pub open spec fn pasted(self, text: Seq<char>) -> Self {
        self.typed(in_one_line(text))
    }
}

/// A one-line box that text is typed into.
#[derive(Clone, Debug)]
pub struct TextInput {
    text: String,
    at: usize,
}

impl View for TextInput {
    type V = InputView;

    closed spec fn view(&self) -> InputView {
        InputView { text: self.text@, at: self.at as int }
    }
}

impl Default for TextInput {
    fn default() -> (r: Self)
        ensures
            r@ == InputView::empty(),
    {
        TextInput { text: String::new(), at: 0 }
    }
}

impl TextInput {
    /// A box holding `text`, the caret behind it.
    #[must_use]
    pub fn new(text: &str) -> (r: Self)
        ensures
            r@ == InputView::holding(text@),
    {
        let chars = chars_of(text);
        TextInput { text: text_of(&chars), at: chars.len() }
    }

    /// The same box again.
    #[must_use]
    pub fn copy(&self) -> (r: Self)
        ensures
            r@ == self@,
    {
        TextInput { text: self.text.clone(), at: self.at }
    }

    #[must_use]
    pub fn text(&self) -> (r: &str)
        ensures
            r@ == self@.text,
    {
        self.text.as_str()
    }

    #[must_use]
    pub fn is_empty(&self) -> (r: bool)
        ensures
            r == (self@.text.len() == 0),
    {
        self.text.as_str().is_empty()
    }

    pub fn clear(&mut self)
        ensures
            final(self)@ == InputView::empty(),
    {
        self.text = String::new();
        self.at = 0;
    }

    pub fn set_text(&mut self, text: &str)
        ensures
            final(self)@ == InputView::holding(text@),
    {
        *self = TextInput::new(text);
    }

    fn insert(&mut self, added: &Vec<char>)
        ensures
            final(self)@ == old(self)@.typed(added@),
    {
        let mut head = chars_of(self.text.as_str());
        if added.len() > usize::MAX - head.len() {
            return;
        }
        let at: usize = if self.at < head.len() {
            self.at
        } else {
            head.len()
        };
        let mut tail = head.split_off(at);
        let ghost rest = tail@;
        let mut middle: Vec<char> = Vec::new();
        let mut i: usize = 0;
        while i < added.len()
            invariant
                i <= added@.len(),
                middle@ == added@.take(i as int),
            decreases added@.len() - i,
        {
            middle.push(added[i]);
            proof {
                assert(added@.take(i + 1) =~= added@.take(i as int).push(added@[i as int]));
            }
            i = i + 1;
        }
        proof {
            assert(added@.take(added@.len() as int) =~= added@);
            assert(self@.text.take(at as int) =~= head@);
            assert(self@.text.skip(at as int) =~= rest);
        }
        let length: usize = added.len();
        head.append(&mut middle);
        head.append(&mut tail);
        self.text = text_of(&head);
        self.at = at + length;
    }

    /// One key pressed in the box.
    pub fn handle_key(&mut self, key: KeyEvent)
        ensures
            final(self)@ == old(self)@.pressed(key),
    {
        let mut chars = chars_of(self.text.as_str());
        let at: usize = if self.at < chars.len() {
            self.at
        } else {
            chars.len()
        };
        match key.code {
            KeyCode::Char(c) => {
                if key.control {
                    if c == 'u' {
                        self.clear();
                    }
                } else if !key.alt && c as u32 >= 0x20 && c as u32 != 0x7f {
                    let mut added: Vec<char> = Vec::new();
                    added.push(c);
                    proof {
                        assert(added@ =~= seq![c]);
                    }
                    self.insert(&added);
                }
            },
            KeyCode::Backspace => {
                if at > 0 {
                    chars.remove(at - 1);
                    self.text = text_of(&chars);
                    self.at = at - 1;
                }
            },
            KeyCode::Delete => {
                if at < chars.len() {
                    chars.remove(at);
                    self.text = text_of(&chars);
                    self.at = at;
                }
            },
            KeyCode::Left => {
                if at > 0 {
                    self.at = at - 1;
                }
            },
            KeyCode::Right => {
                if at < chars.len() {
                    self.at = at + 1;
                }
            },
            KeyCode::Home => {
                self.at = 0;
            },
            KeyCode::End => {
                self.at = chars.len();
            },
            _ => {},
        }
    }

    /// A paste. A line break in it becomes a space: the box has one line.
    pub fn paste(&mut self, text: &str)
        ensures
            final(self)@ == old(self)@.pasted(text@),
    {
        let chars = chars_of(text);
        let mut added: Vec<char> = Vec::new();
        let mut i: usize = 0;
        while i < chars.len()
            invariant
                i <= chars@.len(),
                added@.len() == i,
                forall|k: int| 0 <= k < i ==> (#[trigger] added@[k]) == in_one_line(chars@)[k],
            decreases chars@.len() - i,
        {
            let c = chars[i];
            if c as u32 >= 0x20 && c as u32 != 0x7f {
                added.push(c);
            } else {
                added.push(' ');
            }
            i = i + 1;
        }
        proof {
            assert(added@ =~= in_one_line(chars@));
        }
        self.insert(&added);
    }
}

/// Whatever is typed into a box, its caret stays on the text.
pub proof fn law_the_caret_stays_on_the_text(input: InputView, key: KeyEvent, pasted: Seq<char>)
    requires
        0 <= input.at <= input.text.len(),
    ensures
        0 <= input.pressed(key).at <= input.pressed(key).text.len(),
        0 <= input.pasted(pasted).at <= input.pasted(pasted).text.len(),
{
}

/// A character typed and then rubbed out leaves the box as it was.
pub proof fn law_backspace_takes_off_what_was_typed(input: InputView, key: KeyEvent, back: KeyEvent)
    requires
        0 <= input.at <= input.text.len() < usize::MAX,
        key.code matches KeyCode::Char(c) && printable(c),
        !key.control,
        !key.alt,
        back.code == KeyCode::Backspace,
    ensures
        input.pressed(key).pressed(back) == input,
{
    let once = input.pressed(key);
    let twice = once.pressed(back);
    assert(twice.text =~= input.text);
}

} // verus!
