//! The per-field text editor: an editable character buffer with a cursor, and
//! the three-field form buffer built from it.
//!
//! Cursor arithmetic is done in character units, never bytes, so editing stays
//! correct under multi-byte text.

use vstd::prelude::*;
use crate::entry::{Data, EntryV, Password};
use crate::text::{chars_of, string_of};

verus! {

/// The mathematical content of one editable field: its text and the cursor,
/// which sits between characters, from `0` to the text length.
pub ghost struct FieldV {
    pub text: Seq<char>,
    pub cursor: nat,
}

/// One editable text field with a character-index cursor.
pub struct InputField {
    chars: Vec<char>,
    cursor: usize,
}

impl View for InputField {
    type V = FieldV;

    closed spec fn view(&self) -> FieldV {
        FieldV { text: self.chars@, cursor: self.cursor as nat }
    }
}

/// Where the visible window of a field starts, as a function of the cursor and
/// the viewport width alone: the leftmost visible character index, chosen so
/// that the cursor stays inside the window.
pub open spec fn visible_offset_spec(cursor: nat, width: nat) -> nat {
    if width == 0 {
        cursor
    } else if cursor < width {
        0
    } else {
        (cursor - width + 1) as nat
    }
}

impl InputField {
    /// The cursor never leaves the text: it is at most the character count.
    pub closed spec fn wf(&self) -> bool {
        self.cursor <= self.chars@.len()
    }

    pub fn new() -> (f: InputField)
        ensures
            f.wf(),
            f@.text == Seq::<char>::empty(),
            f@.cursor == 0,
    {
        let f = InputField { chars: Vec::new(), cursor: 0 };
        assert(f@.text =~= Seq::<char>::empty());
        f
    }

    /// A field holding the characters of `s`, cursor at the end.
    pub fn from_str(s: &str) -> (f: InputField)
        ensures
            f.wf(),
            f@.text == s@,
            f@.cursor == s@.len(),
    {
        let chars = chars_of(s);
        let cursor = chars.len();
        InputField { chars, cursor }
    }

    /// Inserts `c` at the cursor and advances the cursor past it.
    pub fn insert(&mut self, c: char)
        requires
            old(self).wf(),
            old(self)@.text.len() < usize::MAX,
        ensures
            final(self).wf(),
            final(self)@.text == old(self)@.text.insert(old(self)@.cursor as int, c),
            final(self)@.cursor == old(self)@.cursor + 1,
    {
        self.chars.insert(self.cursor, c);
        self.cursor = self.cursor + 1;
    }

    /// Removes the character before the cursor and moves the cursor left;
    /// a no-op when the cursor is at the start.
    pub fn backspace(&mut self)
        requires
            old(self).wf(),
        ensures
            final(self).wf(),
            old(self)@.cursor == 0 ==> final(self)@ == old(self)@,
            old(self)@.cursor > 0 ==> final(self)@.text == old(self)@.text.remove(
                old(self)@.cursor - 1,
            ) && final(self)@.cursor == old(self)@.cursor - 1,
    {
        if self.cursor > 0 {
            self.chars.remove(self.cursor - 1);
            self.cursor = self.cursor - 1;
        }
    }

    /// Moves the cursor one character left, stopping at the start.
    pub fn move_left(&mut self)
        requires
            old(self).wf(),
        ensures
            final(self).wf(),
            final(self)@.text == old(self)@.text,
            final(self)@.cursor == if old(self)@.cursor == 0 {
                0
            } else {
                (old(self)@.cursor - 1) as nat
            },
    {
        if self.cursor > 0 {
            self.cursor = self.cursor - 1;
        }
    }

    /// Moves the cursor one character right, stopping at the end of the text.
    pub fn move_right(&mut self)
        requires
            old(self).wf(),
        ensures
            final(self).wf(),
            final(self)@.text == old(self)@.text,
            final(self)@.cursor == if old(self)@.cursor < old(self)@.text.len() {
                old(self)@.cursor + 1
            } else {
                old(self)@.cursor
            },
    {
        if self.cursor < self.chars.len() {
            self.cursor = self.cursor + 1;
        }
    }

    /// Clears the text and puts the cursor at the start.
    pub fn reset(&mut self)
        ensures
            final(self).wf(),
            final(self)@.text == Seq::<char>::empty(),
            final(self)@.cursor == 0,
    {
        self.chars.clear();
        self.cursor = 0;
        assert(self@.text =~= Seq::<char>::empty());
    }

    /// The field's text.
    pub fn value(&self) -> (r: String)
        ensures
            r@ == self@.text,
    {
        string_of(&self.chars)
    }

    /// The cursor position, in characters.
    pub fn cursor(&self) -> (r: usize)
        ensures
            r == self@.cursor,
    {
        self.cursor
    }

    /// The character count of the text.
    pub fn char_count(&self) -> (r: usize)
        ensures
            r == self@.text.len(),
    {
        self.chars.len()
    }

    /// Whether the field holds no text.
    pub fn is_empty(&self) -> (r: bool)
        ensures
            r == (self@.text.len() == 0),
    {
        self.chars.len() == 0
    }

    /// The leftmost visible character index for a viewport `width` characters
    /// wide. Pure: reads the field, changes nothing.
    pub fn visible_offset(&self, width: usize) -> (r: usize)
        requires
            self.wf(),
        ensures
            r == visible_offset_spec(self@.cursor, width as nat),
            width > 0 ==> r <= self@.cursor < r + width,
    {
        if width == 0 {
            self.cursor
        } else if self.cursor < width {
            0
        } else {
            self.cursor - width + 1
        }
    }
}

/// The mathematical content of the three-field form buffer.
pub ghost struct UserInputV {
    pub service: FieldV,
    pub login: FieldV,
    pub password: FieldV,
}

/// The live form buffer: three independent editable fields, semantically a
/// draft entry that may or may not be bound to a stored record's position.
pub struct UserInput {
    pub service: InputField,
    pub login: InputField,
    pub password: InputField,
}

impl View for UserInput {
    type V = UserInputV;

    open spec fn view(&self) -> UserInputV {
        UserInputV { service: self.service@, login: self.login@, password: self.password@ }
    }
}

impl UserInput {
    pub open spec fn wf(&self) -> bool {
        self.service.wf() && self.login.wf() && self.password.wf()
    }

    /// Whether all three fields are empty.
    pub open spec fn all_empty(&self) -> bool {
        self@.service.text.len() == 0 && self@.login.text.len() == 0 && self@.password.text.len()
            == 0
    }

    pub fn new() -> (u: UserInput)
        ensures
            u.wf(),
            u.all_empty(),
            u@.service.cursor == 0 && u@.login.cursor == 0 && u@.password.cursor == 0,
    {
        UserInput { service: InputField::new(), login: InputField::new(), password: InputField::new() }
    }

    /// Clears all three fields at once, as commit and cancel do.
    pub fn reset_data(&mut self)
        ensures
            final(self).wf(),
            final(self).all_empty(),
            final(self)@.service.cursor == 0,
            final(self)@.login.cursor == 0,
            final(self)@.password.cursor == 0,
    {
        self.login.reset();
        self.password.reset();
        self.service.reset();
    }

    /// The three field texts in display order: service, login, password.
    pub fn ref_array(&self) -> (r: [String; 3])
        ensures
            r@.len() == 3,
            r@[0]@ == self@.service.text,
            r@[1]@ == self@.login.text,
            r@[2]@ == self@.password.text,
    {
        [self.service(), self.login(), self.password()]
    }

    /// A form pre-filled from three texts in display order, cursors at the end.
    pub fn from_array(value: &[&str; 3]) -> (u: UserInput)
        ensures
            u.wf(),
            u@.service.text == value@[0]@,
            u@.login.text == value@[1]@,
            u@.password.text == value@[2]@,
            u@.service.cursor == value@[0]@.len(),
            u@.login.cursor == value@[1]@.len(),
            u@.password.cursor == value@[2]@.len(),
    {
        UserInput {
            service: InputField::from_str(value[0]),
            login: InputField::from_str(value[1]),
            password: InputField::from_str(value[2]),
        }
    }

    /// A form pre-filled from a stored record, as the modify flow opens it,
    /// each cursor at the end of its text.
    pub fn from_entry(value: &Password) -> (u: UserInput)
        ensures
            u.wf(),
            u@.service.text == value@.service,
            u@.login.text == value@.login,
            u@.password.text == value@.password,
            u@.service.cursor == value@.service.len(),
            u@.login.cursor == value@.login.len(),
            u@.password.cursor == value@.password.len(),
    {
        UserInput {
            service: InputField::from_str(value.service.as_str()),
            login: InputField::from_str(value.login.as_str()),
            password: InputField::from_str(value.password.as_str()),
        }
    }

    /// The draft entry this form denotes, under a given id.
    pub open spec fn as_entry(&self, id: u32) -> EntryV {
        EntryV {
            id,
            service: self@.service.text,
            login: self@.login.text,
            password: self@.password.text,
        }
    }
}

impl Data for UserInput {
    open spec fn login_view(&self) -> Seq<char> {
        self.login@.text
    }

    open spec fn password_view(&self) -> Seq<char> {
        self.password@.text
    }

    open spec fn service_view(&self) -> Seq<char> {
        self.service@.text
    }

    fn login(&self) -> (r: String) {
        self.login.value()
    }

    fn password(&self) -> (r: String) {
        self.password.value()
    }

    fn service(&self) -> (r: String) {
        self.service.value()
    }
}

} // verus!
