//! Single-line text input with cursor-aware editing.

use vstd::prelude::*;
use crate::text::{chars_of, string_of};

verus! {

/// A single-line text input: its text and a cursor, counted in characters, that sits
/// between two characters or at either end.
#[derive(Debug)]
pub struct TextInput {
    content: String,
    cursor: usize,
}

impl View for TextInput {
    type V = (Seq<char>, nat);

    /// The text and the cursor position.
    closed spec fn view(&self) -> (Seq<char>, nat) {
        (self.content@, self.cursor as nat)
    }
}

/// The text and cursor after typing `c`: it goes in at the cursor, which moves past it.
pub open spec fn typed(v: (Seq<char>, nat), c: char) -> (Seq<char>, nat) {
    (v.0.insert(v.1 as int, c), v.1 + 1)
}

/// The text and cursor after a backspace: the character before the cursor goes, and the
/// cursor with it; nothing changes at the start.
pub open spec fn backspaced(v: (Seq<char>, nat)) -> (Seq<char>, nat) {
    if v.1 > 0 {
        (v.0.remove(v.1 - 1), (v.1 - 1) as nat)
    } else {
        v
    }
}

/// A backspace right after typing a character takes it out again: text and cursor are as
/// before.
pub proof fn law_backspace_undoes_typing(v: (Seq<char>, nat), c: char)
    requires
        v.1 <= v.0.len(),
    ensures
        backspaced(typed(v, c)) == v,
{
    assert(v.0.insert(v.1 as int, c).remove(v.1 as int) =~= v.0);
}

impl TextInput {
    #[verifier::type_invariant]
    spec fn cursor_in_text(self) -> bool {
        self.cursor <= self.content@.len()
    }

    /// Creates an empty input.
    pub fn new() -> (r: Self)
        ensures
            r@ == (Seq::<char>::empty(), 0nat),
    {
        TextInput { content: String::new(), cursor: 0 }
    }

    /// Creates an input holding `value`, with the cursor at its end.
    pub fn with_value(value: &str) -> (r: Self)
        ensures
            r@ == (value@, value@.len()),
    {
        let chars = chars_of(value);
        TextInput { content: value.to_owned(), cursor: chars.len() }
    }

    /// The text.
    pub fn value(&self) -> (r: &str)
        ensures
            r@ == self@.0,
    {
        self.content.as_str()
    }

    /// The cursor position, in characters from the start.
    pub fn cursor(&self) -> (r: usize)
        ensures
            r == self@.1,
            r <= self@.0.len(),
    {
        proof {
            use_type_invariant(self);
        }
        self.cursor
    }

    /// Inserts a character at the cursor and moves the cursor past it.
    pub fn insert(&mut self, c: char)
        ensures
            final(self)@ == typed(old(self)@, c),
    {
        proof {
            use_type_invariant(&*self);
        }
        let mut chars = chars_of(self.content.as_str());
        chars.insert(self.cursor, c);
        let len = chars.len();
        let content = string_of(chars.as_slice());
        *self = TextInput { content, cursor: self.cursor + 1 };
    }

    /// Deletes the character before the cursor (backspace); nothing at the start.
    pub fn delete_back(&mut self)
        ensures
            final(self)@ == backspaced(old(self)@),
    {
        proof {
            use_type_invariant(&*self);
        }
        if self.cursor > 0 {
            let mut chars = chars_of(self.content.as_str());
            let _ = chars.remove(self.cursor - 1);
            let content = string_of(chars.as_slice());
            *self = TextInput { content, cursor: self.cursor - 1 };
        }
    }

    /// Deletes the character after the cursor (delete); nothing at the end.
    pub fn delete_forward(&mut self)
        ensures
            final(self)@ == if old(self)@.1 < old(self)@.0.len() {
                (old(self)@.0.remove(old(self)@.1 as int), old(self)@.1)
            } else {
                old(self)@
            },
    {
        proof {
            use_type_invariant(&*self);
        }
        let mut chars = chars_of(self.content.as_str());
        if self.cursor < chars.len() {
            let _ = chars.remove(self.cursor);
            let content = string_of(chars.as_slice());
            *self = TextInput { content, cursor: self.cursor };
        }
    }

    /// Moves the cursor one character to the left, if it is not at the start.
    pub fn move_left(&mut self)
        ensures
            final(self)@ == (old(self)@.0, if old(self)@.1 > 0 { (old(self)@.1 - 1) as nat } else { 0nat }),
    {
        proof {
            use_type_invariant(&*self);
        }
        if self.cursor > 0 {
            self.cursor = self.cursor - 1;
        }
    }

    /// Moves the cursor one character to the right, if it is not at the end.
    pub fn move_right(&mut self)
        ensures
            final(self)@ == (old(self)@.0, if old(self)@.1 < old(self)@.0.len() {
                old(self)@.1 + 1
            } else {
                old(self)@.1
            }),
    {
        proof {
            use_type_invariant(&*self);
        }
        let chars = chars_of(self.content.as_str());
        if self.cursor < chars.len() {
            self.cursor = self.cursor + 1;
        }
    }

    /// Moves the cursor to the start.
    pub fn move_home(&mut self)
        ensures
            final(self)@ == (old(self)@.0, 0nat),
    {
        self.cursor = 0;
    }

    /// Moves the cursor to the end.
    pub fn move_end(&mut self)
        ensures
            final(self)@ == (old(self)@.0, old(self)@.0.len()),
    {
        let chars = chars_of(self.content.as_str());
        self.cursor = chars.len();
    }

    /// Empties the text and puts the cursor at the start.
    pub fn clear(&mut self)
        ensures
            final(self)@ == (Seq::<char>::empty(), 0nat),
    {
        *self = TextInput { content: String::new(), cursor: 0 };
    }
}

} // verus!
