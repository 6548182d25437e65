//! A one-line text field with a cursor that moves by characters.
use vstd::prelude::*;
use vstd::string::StrSliceExecFns;
use crate::text::push_char;

verus! {

/// What a text field made of a key press.
#[derive(Debug)]
pub enum UserInputKeyEvent {
    Nothing,
    Pass,
    Data(String),
}

/// The keys a text field reacts to; every other key is `Other`.
#[derive(Debug, Clone, Copy, PartialEq, Eq)]
pub enum EditKey {
    Enter,
    Char(char),
    Backspace,
    Left,
    Right,
    Other,
}

/// What a text field reports after an edit: its text, unless it waits for Enter.
pub open spec fn report(require_enter: bool, text: Seq<char>, r: UserInputKeyEvent) -> bool {
    if require_enter {
        r is Nothing
    } else {
        r is Data && r->Data_0@ == text
    }
}

/// A line of text being typed, with the cursor at a character position.
#[derive(Debug, PartialEq)]
pub struct UserInput {
    character_index: usize,
    input: String,
    require_enter: bool,
}

impl UserInput {
    /// The text typed so far.
    pub closed spec fn text(&self) -> Seq<char> {
        self.input@
    }

    /// The position of the cursor, in characters from the start.
    pub closed spec fn cursor(&self) -> nat {
        self.character_index as nat
    }

    /// Whether the text is handed over only on Enter.
    pub closed spec fn requires_enter(&self) -> bool {
        self.require_enter
    }

    pub closed spec fn wf(&self) -> bool {
        self.character_index <= self.input@.len()
    }

    /// An empty field with the cursor at the start.
    pub fn new(require_enter: bool) -> (r: Self)
        ensures
            r.wf(),
            r.text() == Seq::<char>::empty(),
            r.cursor() == 0,
            r.requires_enter() == require_enter,
    {
        UserInput { character_index: 0, input: String::new(), require_enter }
    }

    /// `new_cursor_pos`, brought within the text.
    pub fn clamp_cursor(&self, new_cursor_pos: usize) -> (r: usize)
        ensures
            r == if new_cursor_pos <= self.text().len() {
                new_cursor_pos as nat
            } else {
                self.text().len()
            },
    {
        let len = self.input.as_str().unicode_len();
        if new_cursor_pos <= len {
            new_cursor_pos
        } else {
            len
        }
    }

    /// Moves the cursor one character left, unless it is at the start.
    pub fn move_cursor_left(&mut self)
        requires
            old(self).wf(),
        ensures
            final(self).wf(),
            final(self).text() == old(self).text(),
            final(self).requires_enter() == old(self).requires_enter(),
            final(self).cursor() == if old(self).cursor() == 0 {
                0
            } else {
                (old(self).cursor() - 1) as nat
            },
    {
        let moved = if self.character_index > 0 {
            self.character_index - 1
        } else {
            0
        };
        self.character_index = self.clamp_cursor(moved);
    }

    /// Moves the cursor one character right, unless it is at the end.
    pub fn move_cursor_right(&mut self)
        requires
            old(self).wf(),
        ensures
            final(self).wf(),
            final(self).text() == old(self).text(),
            final(self).requires_enter() == old(self).requires_enter(),
            final(self).cursor() == if old(self).cursor() < old(self).text().len() {
                old(self).cursor() + 1
            } else {
                old(self).cursor()
            },
    {
        let len = self.input.as_str().unicode_len();
        if self.character_index < len {
            self.character_index = self.character_index + 1;
        }
    }

    /// Inserts `new_char` at the cursor and moves the cursor past it.
    pub fn enter_char(&mut self, new_char: char)
        requires
            old(self).wf(),
        ensures
            final(self).wf(),
            final(self).text() == old(self).text().insert(old(self).cursor() as int, new_char),
            final(self).cursor() == old(self).cursor() + 1,
            final(self).requires_enter() == old(self).requires_enter(),
    {
        let at = self.character_index;
        let len = self.input.as_str().unicode_len();
        let mut text = String::new();
        let mut pos: usize = 0;
        for c in it: self.input.chars()
            invariant
                it.seq() == self.input@,
                len == self.input@.len(),
                pos == it.index(),
                at <= self.input@.len(),
                text@ == if it.index() <= at {
                    self.input@.take(it.index() as int)
                } else {
                    self.input@.take(at as int).push(new_char) + self.input@.subrange(
                        at as int,
                        it.index() as int,
                    )
                },
        {
            if pos == at {
                push_char(&mut text, new_char);
            }
            push_char(&mut text, c);
            pos = pos + 1;
        }
        if at == len {
            push_char(&mut text, new_char);
        }
        proof {
            assert(text@ =~= self.input@.insert(at as int, new_char));
        }
        self.input = text;
        self.move_cursor_right();
    }

    /// Deletes the character before the cursor, if there is one, and moves the
    /// cursor back over it.
    pub fn delete_char(&mut self)
        requires
            old(self).wf(),
        ensures
            final(self).wf(),
            final(self).requires_enter() == old(self).requires_enter(),
            old(self).cursor() == 0 ==> final(self).text() == old(self).text() && final(self).cursor() == 0,
            old(self).cursor() > 0 ==> final(self).text() == old(self).text().remove(
                old(self).cursor() - 1,
            ) && final(self).cursor() == old(self).cursor() - 1,
    {
        if self.character_index == 0 {
            return;
        }
        let gone = self.character_index - 1;
        let len = self.input.as_str().unicode_len();
        let mut text = String::new();
        let mut pos: usize = 0;
        for c in it: self.input.chars()
            invariant
                it.seq() == self.input@,
                len == self.input@.len(),
                pos == it.index(),
                gone < self.input@.len(),
                text@ == if it.index() <= gone {
                    self.input@.take(it.index() as int)
                } else {
                    self.input@.take(gone as int) + self.input@.subrange(
                        gone + 1,
                        it.index() as int,
                    )
                },
        {
            if pos != gone {
                push_char(&mut text, c);
            }
            pos = pos + 1;
        }
        proof {
            assert(text@ =~= self.input@.remove(gone as int));
        }
        self.character_index = gone;
        self.input = text;
    }

    /// Moves the cursor to the start.
    pub fn reset_cursor(&mut self)
        requires
            old(self).wf(),
        ensures
            final(self).wf(),
            final(self).text() == old(self).text(),
            final(self).requires_enter() == old(self).requires_enter(),
            final(self).cursor() == 0,
    {
        self.character_index = 0;
    }

    /// The text, after an edit, unless the field waits for Enter.
    fn report_edit(&self) -> (r: UserInputKeyEvent)
        ensures
            report(self.requires_enter(), self.text(), r),
    {
        if self.require_enter {
            UserInputKeyEvent::Nothing
        } else {
            UserInputKeyEvent::Data(self.input.clone())
        }
    }

    /// Applies `key`: Enter hands the text over and empties the field, a
    /// character is typed at the cursor, Backspace deletes before it, and the
    /// arrows move it. Other keys are passed on untouched.
    pub fn handle_key_events(&mut self, key: EditKey) -> (r: UserInputKeyEvent)
        requires
            old(self).wf(),
        ensures
            final(self).wf(),
            final(self).requires_enter() == old(self).requires_enter(),
            match key {
                EditKey::Enter => r is Data && r->Data_0@ == old(self).text() && final(self).text()
                    == Seq::<char>::empty() && final(self).cursor() == 0,
                EditKey::Char(c) => final(self).text() == old(self).text().insert(
                    old(self).cursor() as int,
                    c,
                ) && final(self).cursor() == old(self).cursor() + 1 && report(
                    old(self).requires_enter(),
                    final(self).text(),
                    r,
                ),
                EditKey::Backspace => (if old(self).cursor() == 0 {
                    final(self).text() == old(self).text() && final(self).cursor() == 0
                } else {
                    final(self).text() == old(self).text().remove(old(self).cursor() - 1)
                        && final(self).cursor() == old(self).cursor() - 1
                }) && report(old(self).requires_enter(), final(self).text(), r),
                EditKey::Left => r is Nothing && final(self).text() == old(self).text()
                    && final(self).cursor() == if old(self).cursor() == 0 {
                    0
                } else {
                    (old(self).cursor() - 1) as nat
                },
                EditKey::Right => r is Nothing && final(self).text() == old(self).text()
                    && final(self).cursor() == if old(self).cursor() < old(self).text().len() {
                    old(self).cursor() + 1
                } else {
                    old(self).cursor()
                },
                EditKey::Other => r is Pass && final(self).text() == old(self).text()
                    && final(self).cursor() == old(self).cursor(),
            },
    {
        match key {
            EditKey::Enter => UserInputKeyEvent::Data(self.submit_message()),
            EditKey::Char(c) => {
                self.enter_char(c);
                self.report_edit()
            },
            EditKey::Backspace => {
                self.delete_char();
                self.report_edit()
            },
            EditKey::Left => {
                self.move_cursor_left();
                UserInputKeyEvent::Nothing
            },
            EditKey::Right => {
                self.move_cursor_right();
                UserInputKeyEvent::Nothing
            },
            EditKey::Other => UserInputKeyEvent::Pass,
        }
    }

    /// Hands over the text typed so far and empties the field.
    pub fn submit_message(&mut self) -> (r: String)
        requires
            old(self).wf(),
        ensures
            r@ == old(self).text(),
            final(self).wf(),
            final(self).text() == Seq::<char>::empty(),
            final(self).cursor() == 0,
            final(self).requires_enter() == old(self).requires_enter(),
    {
        let text = self.input.clone();
        self.reset_cursor();
        self.input = String::new();
        text
    }
}

} // verus!
