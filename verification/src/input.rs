//! The line editor under the message pane: a character buffer and a
//! cursor, mutated one keystroke at a time.

use vstd::prelude::*;

use crate::text::push_char;

verus! {

/// Abstract state of an `InputField`.
pub struct InputModel {
    pub text: Seq<char>,
    pub cursor: int,
}

/// One line of user input being composed.
#[derive(Debug)]
pub struct InputField {
    chars: Vec<char>,
    cursor: usize,
}

impl View for InputField {
    type V = InputModel;

    closed spec fn view(&self) -> InputModel {
        InputModel { text: self.chars@, cursor: self.cursor as int }
    }
}

impl InputField {
    /// The cursor sits between characters: never past the end.
    pub open spec fn wf(&self) -> bool {
        0 <= self@.cursor <= self@.text.len()
    }

    /// An empty field.
    pub fn new() -> (f: InputField)
        ensures
            f.wf(),
            f@.text == Seq::<char>::empty(),
            f@.cursor == 0,
    {
        InputField { chars: Vec::new(), cursor: 0 }
    }

    /// Inserts a character at the cursor and moves past it.
    pub fn insert(&mut self, c: char)
        requires
            old(self).wf(),
        ensures
            final(self).wf(),
            final(self)@.text == old(self)@.text.insert(old(self)@.cursor, c),
            final(self)@.cursor == old(self)@.cursor + 1,
    {
        self.chars.insert(self.cursor, c);
        let _grown = self.chars.len();
        self.cursor += 1;
    }

    /// Removes the character before the cursor, if any.
    pub fn backspace(&mut self)
        requires
            old(self).wf(),
        ensures
            final(self).wf(),
            if old(self)@.cursor > 0 {
                final(self)@.text == old(self)@.text.remove(old(self)@.cursor - 1)
                    && final(self)@.cursor == old(self)@.cursor - 1
            } else {
                final(self)@ == old(self)@
            },
    {
        if self.cursor > 0 {
            self.cursor -= 1;
            self.chars.remove(self.cursor);
        }
    }

    /// Removes the character under the cursor, if any.
    pub fn delete(&mut self)
        requires
            old(self).wf(),
        ensures
            final(self).wf(),
            if old(self)@.cursor < old(self)@.text.len() {
                final(self)@.text == old(self)@.text.remove(old(self)@.cursor)
                    && final(self)@.cursor == old(self)@.cursor
            } else {
                final(self)@ == old(self)@
            },
    {
        if self.cursor < self.chars.len() {
            self.chars.remove(self.cursor);
        }
    }

    /// Moves the cursor one character left, stopping at the start.
    pub fn move_left(&mut self)
        requires
            old(self).wf(),
        ensures
            final(self).wf(),
            final(self)@.text == old(self)@.text,
            final(self)@.cursor == if old(self)@.cursor > 0 {
                old(self)@.cursor - 1
            } else {
                0
            },
    {
        if self.cursor > 0 {
            self.cursor -= 1;
        }
    }

    /// Moves the cursor one character right, stopping at the end.
    pub fn move_right(&mut self)
        requires
            old(self).wf(),
        ensures
            final(self).wf(),
            final(self)@.text == old(self)@.text,
            final(self)@.cursor == if old(self)@.cursor < old(self)@.text.len() {
                old(self)@.cursor + 1
            } else {
                old(self)@.cursor
            },
    {
        if self.cursor < self.chars.len() {
            self.cursor += 1;
        }
    }

    /// Moves the cursor to the start.
    pub fn move_start(&mut self)
        requires
            old(self).wf(),
        ensures
            final(self).wf(),
            final(self)@.text == old(self)@.text,
            final(self)@.cursor == 0,
    {
        self.cursor = 0;
    }

    /// Moves the cursor to the end.
    pub fn move_end(&mut self)
        requires
            old(self).wf(),
        ensures
            final(self).wf(),
            final(self)@.text == old(self)@.text,
            final(self)@.cursor == old(self)@.text.len(),
    {
        self.cursor = self.chars.len();
    }

    /// Takes the composed line, leaving the field empty.
    pub fn clear(&mut self) -> (r: String)
        requires
            old(self).wf(),
        ensures
            final(self).wf(),
            r@ == old(self)@.text,
            final(self)@.text == Seq::<char>::empty(),
            final(self)@.cursor == 0,
    {
        let mut r = String::new();
        let n = self.chars.len();
        let mut q: usize = 0;
        while q < n
            invariant
                q <= n,
                n == self.chars@.len(),
                self == old(self),
                r@ == self.chars@.subrange(0, q as int),
            decreases n - q,
        {
            push_char(&mut r, self.chars[q]);
            proof {
                assert(self.chars@.subrange(0, q as int + 1) =~= self.chars@.subrange(
                    0,
                    q as int,
                ).push(self.chars@[q as int]));
            }
            q += 1;
        }
        proof {
            assert(self.chars@.subrange(0, n as int) =~= self.chars@);
        }
        self.chars.clear();
        self.cursor = 0;
        proof {
            assert(self@.text =~= Seq::<char>::empty());
        }
        r
    }

    /// Whether nothing has been typed.
    pub fn is_empty(&self) -> (b: bool)
        ensures
            b == (self@.text.len() == 0),
    {
        self.chars.is_empty()
    }

    /// The composed characters, for display.
    pub fn chars(&self) -> (r: &Vec<char>)
        ensures
            r@ == self@.text,
    {
        &self.chars
    }

    /// The cursor position, for display.
    pub fn cursor(&self) -> (r: usize)
        ensures
            r == self@.cursor,
    {
        self.cursor
    }
}

} // verus!
