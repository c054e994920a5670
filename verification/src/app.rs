//! The application model: the entry collection, the live form, the table
//! selection and the current screen, with the operations the screens invoke.

use vstd::prelude::*;
use crate::codec::{entries_view, file_text, parse_file};
use crate::config::Config;
use crate::editor::UserInput;
use crate::entry::{Data, EntryV, Password};
use crate::store::{renumber, reindexed, StoreFiles};
use crate::store;

verus! {

/// Rows are drawn this many terminal lines tall; the scroll offset advances
/// by whole rows.
pub const ITEM_HEIGHT: usize = 3;

/// Which screen has the keyboard: the table, the modal form, or the help
/// page.
#[derive(Debug, Default, PartialEq, Eq, Structural, Clone, Copy)]
pub enum CurrentScreen {
    #[default]
    Main,
    Popup,
    Help,
}

/// Which of the form's three fields is active.
#[derive(Debug, Default, PartialEq, Eq, Structural, Clone, Copy)]
pub enum InputMode {
    #[default]
    Service,
    Login,
    Password,
}

/// The field after `m` in the cycle service, login, password, service.
pub open spec fn next_mode(m: InputMode) -> InputMode {
    match m {
        InputMode::Service => InputMode::Login,
        InputMode::Login => InputMode::Password,
        InputMode::Password => InputMode::Service,
    }
}

/// The field before `m` in the same cycle.
pub open spec fn prev_mode(m: InputMode) -> InputMode {
    match m {
        InputMode::Service => InputMode::Password,
        InputMode::Login => InputMode::Service,
        InputMode::Password => InputMode::Login,
    }
}

/// The row selected after moving down from `cur` over `n` rows: one past the
/// current row, wrapping from the last row (or any stale index) to the
/// first; the first row when nothing was selected. Meaningful only for
/// `n > 0`.
pub open spec fn next_row_index(cur: Option<usize>, n: nat) -> nat {
    match cur {
        Some(i) => if i + 1 >= n {
            0
        } else {
            (i + 1) as nat
        },
        None => 0,
    }
}

/// The row selected after moving up from `cur` over `n` rows: one before the
/// current row, wrapping from the first row to the last; the first row when
/// nothing was selected. Meaningful only for `n > 0`.
pub open spec fn prev_row_index(cur: Option<usize>, n: nat) -> nat {
    match cur {
        Some(i) => if i == 0 {
            (n - 1) as nat
        } else {
            (i - 1) as nat
        },
        None => 0,
    }
}

/// The scroll offset for row `i`: the row index times the fixed row height,
/// saturated at the machine limit.
pub open spec fn scroll_spec(i: nat) -> nat {
    if i * (ITEM_HEIGHT as nat) <= usize::MAX {
        i * (ITEM_HEIGHT as nat)
    } else {
        usize::MAX as nat
    }
}

/// The one-line clipboard text of a record: its three text fields separated
/// by three spaces.
pub open spec fn row_text(e: EntryV) -> Seq<char> {
    e.service + "   "@ + e.login + "   "@ + e.password
}

/// The text of the column `c` of a record: service, login, or — for any
/// other column — password.
pub open spec fn column_text(e: EntryV, c: nat) -> Seq<char> {
    if c == 0 {
        e.service
    } else if c == 1 {
        e.login
    } else {
        e.password
    }
}

/// The whole in-memory model behind the screens.
pub struct App {
    /// The startup configuration.
    pub config: Config,
    /// The live form buffer.
    pub input: UserInput,
    /// The canonical ordered collection of records.
    pub items: Vec<Password>,
    /// The form field that currently takes keys.
    pub input_mode: InputMode,
    /// The selected table row, when any.
    pub selected_row: Option<usize>,
    /// The selected table column, always one of 0, 1, 2.
    pub selected_column: usize,
    /// The vertical scroll position, recomputed from the selected row.
    pub scroll_offset: usize,
    /// The screen that takes keys.
    pub current_screen: CurrentScreen,
    /// Whether the form was pre-filled from a selected record, so that a
    /// commit overwrites in place instead of appending.
    pub is_modify: bool,
}

impl App {
    /// What every operation preserves: ids fit the id type, the column stays
    /// in range, and the form is well formed.
    pub open spec fn wf(&self) -> bool {
        &&& self.items@.len() <= u32::MAX
        &&& self.selected_column < 3
        &&& self.input.wf()
    }

    /// A fresh model over a loaded collection: first row selected, empty
    /// form, main screen.
    pub fn new(config: Config, items: Vec<Password>) -> (app: App)
        requires
            items@.len() <= u32::MAX,
        ensures
            app.wf(),
            app.items == items,
            app.config == config,
            app.input.all_empty(),
            app.input_mode == InputMode::Service,
            app.selected_row == Some(0usize),
            app.selected_column == 0,
            app.scroll_offset == 0,
            app.current_screen == CurrentScreen::Main,
            !app.is_modify,
    {
        App {
            config,
            input: UserInput::new(),
            items,
            input_mode: InputMode::Service,
            selected_row: Some(0),
            selected_column: 0,
            scroll_offset: 0,
            current_screen: CurrentScreen::Main,
            is_modify: false,
        }
    }

    /// The scroll offset for row `i`.
    fn scroll_for(i: usize) -> (r: usize)
        ensures
            r == scroll_spec(i as nat),
    {
        if i <= usize::MAX / ITEM_HEIGHT {
            proof {
                assert(i * (ITEM_HEIGHT as nat) <= usize::MAX) by (nonlinear_arith)
                    requires
                        i <= usize::MAX / ITEM_HEIGHT,
                ;
            }
            i * ITEM_HEIGHT
        } else {
            proof {
                assert(i * (ITEM_HEIGHT as nat) > usize::MAX) by (nonlinear_arith)
                    requires
                        i > usize::MAX / ITEM_HEIGHT,
                ;
            }
            usize::MAX
        }
    }

    /// Selects the next row, wrapping from the last to the first; a no-op on
    /// an empty collection. The scroll offset follows the selection.
    pub fn next_row(&mut self)
        requires
            old(self).wf(),
        ensures
            final(self).wf(),
            old(self).items@.len() == 0 ==> *final(self) == *old(self),
            old(self).items@.len() > 0 ==> ({
                let i = next_row_index(old(self).selected_row, old(self).items@.len());
                &&& final(self).selected_row == Some(i as usize)
                &&& i < old(self).items@.len()
                &&& final(self).scroll_offset == scroll_spec(i)
            }),
            final(self).items == old(self).items,
            final(self).input == old(self).input,
            final(self).input_mode == old(self).input_mode,
            final(self).selected_column == old(self).selected_column,
            final(self).current_screen == old(self).current_screen,
            final(self).is_modify == old(self).is_modify,
            final(self).config == old(self).config,
    {
        if self.items.len() == 0 {
            return ;
        }
        let i: usize = match self.selected_row {
            Some(i) => if i >= self.items.len() - 1 {
                0
            } else {
                i + 1
            },
            None => 0,
        };
        self.selected_row = Some(i);
        self.scroll_offset = Self::scroll_for(i);
    }

    /// Selects the previous row, wrapping from the first to the last; a
    /// no-op on an empty collection. The scroll offset follows the
    /// selection.
    pub fn previous_row(&mut self)
        requires
            old(self).wf(),
        ensures
            final(self).wf(),
            old(self).items@.len() == 0 ==> *final(self) == *old(self),
            old(self).items@.len() > 0 ==> ({
                let i = prev_row_index(old(self).selected_row, old(self).items@.len());
                &&& final(self).selected_row == Some(i as usize)
                &&& final(self).scroll_offset == scroll_spec(i)
            }),
            final(self).items == old(self).items,
            final(self).input == old(self).input,
            final(self).input_mode == old(self).input_mode,
            final(self).selected_column == old(self).selected_column,
            final(self).current_screen == old(self).current_screen,
            final(self).is_modify == old(self).is_modify,
            final(self).config == old(self).config,
    {
        if self.items.len() == 0 {
            return ;
        }
        let i: usize = match self.selected_row {
            Some(i) => if i == 0 {
                self.items.len() - 1
            } else {
                i - 1
            },
            None => 0,
        };
        self.selected_row = Some(i);
        self.scroll_offset = Self::scroll_for(i);
    }

    /// Moves the form to the next field in the cycle.
    pub fn next_input_mode(&mut self)
        ensures
            final(self).input_mode == next_mode(old(self).input_mode),
            final(self).items == old(self).items,
            final(self).input == old(self).input,
            final(self).selected_row == old(self).selected_row,
            final(self).selected_column == old(self).selected_column,
            final(self).scroll_offset == old(self).scroll_offset,
            final(self).current_screen == old(self).current_screen,
            final(self).is_modify == old(self).is_modify,
            final(self).config == old(self).config,
    {
        self.input_mode = match self.input_mode {
            InputMode::Login => InputMode::Password,
            InputMode::Password => InputMode::Service,
            InputMode::Service => InputMode::Login,
        };
    }

    /// Moves the form to the previous field in the cycle.
    pub fn prev_input_mode(&mut self)
        ensures
            final(self).input_mode == prev_mode(old(self).input_mode),
            final(self).items == old(self).items,
            final(self).input == old(self).input,
            final(self).selected_row == old(self).selected_row,
            final(self).selected_column == old(self).selected_column,
            final(self).scroll_offset == old(self).scroll_offset,
            final(self).current_screen == old(self).current_screen,
            final(self).is_modify == old(self).is_modify,
            final(self).config == old(self).config,
    {
        self.input_mode = match self.input_mode {
            InputMode::Login => InputMode::Service,
            InputMode::Password => InputMode::Login,
            InputMode::Service => InputMode::Password,
        };
    }

    /// Selects the next column, cycling over the three columns.
    pub fn nex_column(&mut self)
        requires
            old(self).wf(),
        ensures
            final(self).wf(),
            final(self).selected_column == (old(self).selected_column + 1) % 3,
            final(self).selected_column < 3,
            final(self).items == old(self).items,
            final(self).input == old(self).input,
            final(self).input_mode == old(self).input_mode,
            final(self).selected_row == old(self).selected_row,
            final(self).scroll_offset == old(self).scroll_offset,
            final(self).current_screen == old(self).current_screen,
            final(self).is_modify == old(self).is_modify,
            final(self).config == old(self).config,
    {
        self.selected_column = (self.selected_column + 1) % 3;
    }

    /// Selects the previous column, cycling over the three columns.
    pub fn previous_column(&mut self)
        requires
            old(self).wf(),
        ensures
            final(self).wf(),
            final(self).selected_column == (old(self).selected_column + 2) % 3,
            final(self).selected_column < 3,
            final(self).items == old(self).items,
            final(self).input == old(self).input,
            final(self).input_mode == old(self).input_mode,
            final(self).selected_row == old(self).selected_row,
            final(self).scroll_offset == old(self).scroll_offset,
            final(self).current_screen == old(self).current_screen,
            final(self).is_modify == old(self).is_modify,
            final(self).config == old(self).config,
    {
        self.selected_column = (self.selected_column + 2) % 3;
    }

    /// Commits the form: in the modify flow it overwrites the three text
    /// fields of the selected record in place, the id untouched; otherwise
    /// it appends a new record and reindexes. A modify with no usable
    /// selection changes nothing. The form itself is left as it stands.
    pub fn add_password(&mut self)
        requires
            old(self).wf(),
            old(self).items@.len() < u32::MAX,
        ensures
            final(self).wf(),
            old(self).is_modify ==> match old(self).selected_row {
                Some(i) => if i < old(self).items@.len() {
                    entries_view(final(self).items@) == entries_view(old(self).items@).update(
                        i as int,
                        (EntryV {
                            id: old(self).items@[i as int]@.id,
                            service: old(self).input@.service.text,
                            login: old(self).input@.login.text,
                            password: old(self).input@.password.text,
                        }),
                    )
                } else {
                    final(self).items == old(self).items
                },
                None => final(self).items == old(self).items,
            },
            !old(self).is_modify ==> entries_view(final(self).items@) == renumber(
                entries_view(old(self).items@).push(
                    old(self).input.as_entry(old(self).items@.len() as u32),
                ),
            ) && reindexed(entries_view(final(self).items@)),
            final(self).input == old(self).input,
            final(self).input_mode == old(self).input_mode,
            final(self).selected_row == old(self).selected_row,
            final(self).selected_column == old(self).selected_column,
            final(self).scroll_offset == old(self).scroll_offset,
            final(self).current_screen == old(self).current_screen,
            final(self).is_modify == old(self).is_modify,
            final(self).config == old(self).config,
    {
        if self.is_modify {
            if let Some(index) = self.selected_row {
                if index < self.items.len() {
                    let service = self.input.service();
                    let login = self.input.login();
                    let password = self.input.password();
                    store::update(
                        &mut self.items,
                        index,
                        service.as_str(),
                        login.as_str(),
                        password.as_str(),
                    );
                }
            }
        } else {
            let new_id = self.items.len() as u32;
            let service = self.input.service();
            let login = self.input.login();
            let password = self.input.password();
            let data = Password::new(new_id, service.as_str(), login.as_str(), password.as_str());
            store::add(&mut self.items, data);
        }
    }

    /// Persists the collection: reindexes ids, renders the whole file and
    /// commits it through the temporary file and the rename.
    pub fn write(&mut self, files: &mut StoreFiles)
        requires
            old(self).wf(),
        ensures
            final(self).wf(),
            entries_view(final(self).items@) == renumber(entries_view(old(self).items@)),
            reindexed(entries_view(final(self).items@)),
            final(files).main is Some,
            final(files).main->0@ == file_text(entries_view(final(self).items@)),
            final(files).temp is None,
            final(self).input == old(self).input,
            final(self).input_mode == old(self).input_mode,
            final(self).selected_row == old(self).selected_row,
            final(self).selected_column == old(self).selected_column,
            final(self).scroll_offset == old(self).scroll_offset,
            final(self).current_screen == old(self).current_screen,
            final(self).is_modify == old(self).is_modify,
            final(self).config == old(self).config,
    {
        files.persist(&mut self.items);
    }

    /// Reads a persisted file's text back into a collection; rows that do
    /// not parse are skipped.
    pub fn read(text: &str) -> (r: Vec<Password>)
        ensures
            entries_view(r@) == parse_file(text@),
    {
        crate::codec::parse_file_str(text)
    }

    /// Deletes the selected record and reindexes the rest; a no-op when
    /// nothing usable is selected.
    pub fn delete(&mut self)
        requires
            old(self).wf(),
        ensures
            final(self).wf(),
            match old(self).selected_row {
                Some(i) => if i < old(self).items@.len() {
                    entries_view(final(self).items@) == renumber(
                        entries_view(old(self).items@).remove(i as int),
                    ) && reindexed(entries_view(final(self).items@))
                } else {
                    final(self).items == old(self).items
                },
                None => final(self).items == old(self).items,
            },
            final(self).input == old(self).input,
            final(self).input_mode == old(self).input_mode,
            final(self).selected_row == old(self).selected_row,
            final(self).selected_column == old(self).selected_column,
            final(self).scroll_offset == old(self).scroll_offset,
            final(self).current_screen == old(self).current_screen,
            final(self).is_modify == old(self).is_modify,
            final(self).config == old(self).config,
    {
        if let Some(index) = self.selected_row {
            if index < self.items.len() {
                store::remove(&mut self.items, index);
            }
        }
    }

    /// Opens the modify flow: pre-fills the form from the selected record,
    /// cursors at the end, and marks the form as bound to it. With no usable
    /// selection this is a full silent no-op: nothing changes, the mode flag
    /// included.
    pub fn modify(&mut self)
        requires
            old(self).wf(),
        ensures
            final(self).wf(),
            match old(self).selected_row {
                Some(i) => if i < old(self).items@.len() {
                    &&& final(self).input@.service.text == old(self).items@[i as int]@.service
                    &&& final(self).input@.login.text == old(self).items@[i as int]@.login
                    &&& final(self).input@.password.text == old(self).items@[i as int]@.password
                    &&& final(self).input@.service.cursor == old(
                        self,
                    ).items@[i as int]@.service.len()
                    &&& final(self).input@.login.cursor == old(self).items@[i as int]@.login.len()
                    &&& final(self).input@.password.cursor == old(
                        self,
                    ).items@[i as int]@.password.len()
                    &&& final(self).is_modify
                } else {
                    *final(self) == *old(self)
                },
                None => *final(self) == *old(self),
            },
            final(self).items == old(self).items,
            final(self).input_mode == old(self).input_mode,
            final(self).selected_row == old(self).selected_row,
            final(self).selected_column == old(self).selected_column,
            final(self).scroll_offset == old(self).scroll_offset,
            final(self).current_screen == old(self).current_screen,
            final(self).config == old(self).config,
    {
        if let Some(index) = self.selected_row {
            if index < self.items.len() {
                self.input = UserInput::from_entry(&self.items[index]);
                self.is_modify = true;
            }
        }
    }

    /// The text for the whole-row clipboard export: the selected record's
    /// three fields separated by three spaces; `None` when nothing usable is
    /// selected, a silent no-op for the caller.
    pub fn clip_row(&self) -> (r: Option<String>)
        ensures
            match self.selected_row {
                Some(i) => if i < self.items@.len() {
                    r is Some && r->0@ == row_text(self.items@[i as int]@)
                } else {
                    r is None
                },
                None => r is None,
            },
    {
        if let Some(index) = self.selected_row {
            if index < self.items.len() {
                return Some(self.items[index].to_text());
            }
        }
        None
    }

    /// The text for the password-only clipboard export; `None` when nothing
    /// usable is selected.
    pub fn clip_password(&self) -> (r: Option<String>)
        ensures
            match self.selected_row {
                Some(i) => if i < self.items@.len() {
                    r is Some && r->0@ == self.items@[i as int]@.password
                } else {
                    r is None
                },
                None => r is None,
            },
    {
        if let Some(index) = self.selected_row {
            if index < self.items.len() {
                return Some(self.items[index].password());
            }
        }
        None
    }

    /// The text for the selected-column clipboard export: the field of the
    /// selected record that the selected column shows; `None` when nothing
    /// usable is selected.
    pub fn clip_column(&self) -> (r: Option<String>)
        ensures
            match self.selected_row {
                Some(i) => if i < self.items@.len() {
                    r is Some && r->0@ == column_text(
                        self.items@[i as int]@,
                        self.selected_column as nat,
                    )
                } else {
                    r is None
                },
                None => r is None,
            },
    {
        if let Some(index) = self.selected_row {
            if index < self.items.len() {
                let data = if self.selected_column == 0 {
                    self.items[index].service()
                } else if self.selected_column == 1 {
                    self.items[index].login()
                } else {
                    self.items[index].password()
                };
                return Some(data);
            }
        }
        None
    }
}

} // verus!
