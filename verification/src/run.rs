//! The screen-level state machine: one key event goes in, the model steps
//! once, and the surrounding event loop is told which outside action — quit,
//! persist, clipboard — to take. The loop itself, the terminal and the real
//! files live outside; every decision is made here.

use vstd::prelude::*;
use crate::app::{
    next_mode, next_row_index, prev_mode, prev_row_index, row_text, column_text, scroll_spec, App,
    CurrentScreen, InputMode,
};
use crate::codec::{entries_view, file_text};
use crate::editor::{FieldV, UserInputV};
use crate::entry::EntryV;
use crate::store::{
    lemma_renumber_idempotent, reindexed, renumber, StoreFiles,
};

verus! {

/// One key event, as the surrounding event loop hands it in.
#[derive(Debug, PartialEq, Eq, Structural, Clone, Copy)]
pub enum KeyInput {
    Esc,
    Enter,
    Tab,
    Up,
    Down,
    Left,
    Right,
    Backspace,
    Char(char),
}

/// What the surrounding event loop does after a step: nothing, leave the
/// loop, mirror the freshly persisted model onto the real files (write the
/// rendering to the temporary path, then rename it over the visible path),
/// or put text on the system clipboard.
#[derive(Debug)]
pub enum Action {
    Idle,
    Quit,
    Persist,
    Clip(String),
}

/// The table selection and scroll may change; everything else stands.
pub open spec fn same_but_selection(pre: App, post: App) -> bool {
    &&& post.config == pre.config
    &&& post.input == pre.input
    &&& post.items == pre.items
    &&& post.input_mode == pre.input_mode
    &&& post.current_screen == pre.current_screen
    &&& post.is_modify == pre.is_modify
}

/// The selection moved one row down, wrapping, or nothing moved on an empty
/// collection.
pub open spec fn stepped_next_row(pre: App, post: App) -> bool {
    &&& same_but_selection(pre, post)
    &&& if pre.items@.len() == 0 {
        post == pre
    } else {
        let i = next_row_index(pre.selected_row, pre.items@.len());
        &&& post.selected_row == Some(i as usize)
        &&& post.scroll_offset == scroll_spec(i)
        &&& post.selected_column == pre.selected_column
    }
}

/// The selection moved one row up, wrapping, or nothing moved on an empty
/// collection.
pub open spec fn stepped_prev_row(pre: App, post: App) -> bool {
    &&& same_but_selection(pre, post)
    &&& if pre.items@.len() == 0 {
        post == pre
    } else {
        let i = prev_row_index(pre.selected_row, pre.items@.len());
        &&& post.selected_row == Some(i as usize)
        &&& post.scroll_offset == scroll_spec(i)
        &&& post.selected_column == pre.selected_column
    }
}

/// The selection moved one column right, cycling over the three columns.
pub open spec fn stepped_next_column(pre: App, post: App) -> bool {
    &&& same_but_selection(pre, post)
    &&& post.selected_row == pre.selected_row
    &&& post.scroll_offset == pre.scroll_offset
    &&& post.selected_column == (pre.selected_column + 1) % 3
}

/// The selection moved one column left, cycling over the three columns.
pub open spec fn stepped_prev_column(pre: App, post: App) -> bool {
    &&& same_but_selection(pre, post)
    &&& post.selected_row == pre.selected_row
    &&& post.scroll_offset == pre.scroll_offset
    &&& post.selected_column == (pre.selected_column + 2) % 3
}

/// The action carries the given text, or nothing when no row is usable:
/// a selection miss is a silent no-op.
pub open spec fn clip_row_action(pre: App, act: Action) -> bool {
    match pre.selected_row {
        Some(i) => if i < pre.items@.len() {
            act matches Action::Clip(t) && t@ == row_text(pre.items@[i as int]@)
        } else {
            act is Idle
        },
        None => act is Idle,
    }
}

pub open spec fn clip_password_action(pre: App, act: Action) -> bool {
    match pre.selected_row {
        Some(i) => if i < pre.items@.len() {
            act matches Action::Clip(t) && t@ == pre.items@[i as int]@.password
        } else {
            act is Idle
        },
        None => act is Idle,
    }
}

pub open spec fn clip_column_action(pre: App, act: Action) -> bool {
    match pre.selected_row {
        Some(i) => if i < pre.items@.len() {
            act matches Action::Clip(t) && t@ == column_text(
                pre.items@[i as int]@,
                pre.selected_column as nat,
            )
        } else {
            act is Idle
        },
        None => act is Idle,
    }
}

/// The collection after the delete key: the selected record is gone, or
/// nothing when no row is usable.
pub open spec fn deleted_items(pre: App) -> Seq<EntryV> {
    match pre.selected_row {
        Some(i) => if i < pre.items@.len() {
            entries_view(pre.items@).remove(i as int)
        } else {
            entries_view(pre.items@)
        },
        None => entries_view(pre.items@),
    }
}

/// The collection after the popup commit: in the modify flow the selected
/// record's text fields are overwritten in place (nothing on a selection
/// miss); otherwise the draft is appended.
pub open spec fn committed_items(pre: App) -> Seq<EntryV> {
    if pre.is_modify {
        match pre.selected_row {
            Some(i) => if i < pre.items@.len() {
                entries_view(pre.items@).update(
                    i as int,
                    (EntryV {
                        id: pre.items@[i as int]@.id,
                        service: pre.input@.service.text,
                        login: pre.input@.login.text,
                        password: pre.input@.password.text,
                    }),
                )
            } else {
                entries_view(pre.items@)
            },
            None => entries_view(pre.items@),
        }
    } else {
        entries_view(pre.items@).push(
            (EntryV {
                id: pre.items@.len() as u32,
                service: pre.input@.service.text,
                login: pre.input@.login.text,
                password: pre.input@.password.text,
            }),
        )
    }
}

/// The model holds `expect` renumbered, and the visible file holds exactly
/// its rendering, the temporary file gone: the state after a persist.
pub open spec fn persisted(post: App, fpost: StoreFiles, expect: Seq<EntryV>) -> bool {
    &&& entries_view(post.items@) == renumber(expect)
    &&& reindexed(entries_view(post.items@))
    &&& fpost.main is Some
    &&& fpost.main->0@ == file_text(entries_view(post.items@))
    &&& fpost.temp is None
}

/// The modify key: with a usable row, the popup opens bound to it and the
/// form is pre-filled from it, cursors at the end; with no usable row, a
/// full silent no-op.
pub open spec fn opened_modify(pre: App, post: App) -> bool {
    match pre.selected_row {
        Some(i) => if i < pre.items@.len() {
            &&& post.current_screen == CurrentScreen::Popup
            &&& post.is_modify
            &&& post.config == pre.config
            &&& post.items == pre.items
            &&& post.input_mode == pre.input_mode
            &&& post.selected_row == pre.selected_row
            &&& post.selected_column == pre.selected_column
            &&& post.scroll_offset == pre.scroll_offset
            &&& post.input@.service.text == pre.items@[i as int]@.service
            &&& post.input@.login.text == pre.items@[i as int]@.login
            &&& post.input@.password.text == pre.items@[i as int]@.password
            &&& post.input@.service.cursor == pre.items@[i as int]@.service.len()
            &&& post.input@.login.cursor == pre.items@[i as int]@.login.len()
            &&& post.input@.password.cursor == pre.items@[i as int]@.password.len()
        } else {
            post == pre
        },
        None => post == pre,
    }
}

/// The form field that `m` names.
pub open spec fn active_field(u: UserInputV, m: InputMode) -> FieldV {
    match m {
        InputMode::Service => u.service,
        InputMode::Login => u.login,
        InputMode::Password => u.password,
    }
}

/// `u` with the field that `m` names replaced by `f`.
pub open spec fn with_active(u: UserInputV, m: InputMode, f: FieldV) -> UserInputV {
    match m {
        InputMode::Service => UserInputV { service: f, login: u.login, password: u.password },
        InputMode::Login => UserInputV { service: u.service, login: f, password: u.password },
        InputMode::Password => UserInputV { service: u.service, login: u.login, password: f },
    }
}

/// What one editing key does to a field: insert at the cursor, remove
/// before it, or move it, each clamped to the text.
pub open spec fn edited_field(f: FieldV, key: KeyInput) -> FieldV {
    match key {
        KeyInput::Char(c) => FieldV { text: f.text.insert(f.cursor as int, c), cursor: f.cursor + 1 },
        KeyInput::Backspace => if f.cursor == 0 {
            f
        } else {
            FieldV { text: f.text.remove(f.cursor - 1), cursor: (f.cursor - 1) as nat }
        },
        KeyInput::Left => FieldV {
            text: f.text,
            cursor: if f.cursor == 0 {
                0
            } else {
                (f.cursor - 1) as nat
            },
        },
        KeyInput::Right => FieldV {
            text: f.text,
            cursor: if f.cursor < f.text.len() {
                f.cursor + 1
            } else {
                f.cursor
            },
        },
        _ => f,
    }
}

/// The key went to the editor: only the active field changed, and exactly
/// as `edited_field` says.
pub open spec fn edited(pre: App, post: App, key: KeyInput) -> bool {
    &&& post.config == pre.config
    &&& post.items == pre.items
    &&& post.input_mode == pre.input_mode
    &&& post.selected_row == pre.selected_row
    &&& post.selected_column == pre.selected_column
    &&& post.scroll_offset == pre.scroll_offset
    &&& post.current_screen == pre.current_screen
    &&& post.is_modify == pre.is_modify
    &&& post.input@ == with_active(
        pre.input@,
        pre.input_mode,
        edited_field(active_field(pre.input@, pre.input_mode), key),
    )
}

/// The transition table of the main screen.
pub open spec fn main_step(
    pre: App,
    post: App,
    fpre: StoreFiles,
    fpost: StoreFiles,
    key: KeyInput,
    act: Action,
) -> bool {
    match key {
        KeyInput::Esc => post == pre && fpost == fpre && act is Quit,
        KeyInput::Down => stepped_next_row(pre, post) && fpost == fpre && act is Idle,
        KeyInput::Up => stepped_prev_row(pre, post) && fpost == fpre && act is Idle,
        KeyInput::Right => stepped_next_column(pre, post) && fpost == fpre && act is Idle,
        KeyInput::Left => stepped_prev_column(pre, post) && fpost == fpre && act is Idle,
        KeyInput::Char(c) => if c == 'j' {
            stepped_next_row(pre, post) && fpost == fpre && act is Idle
        } else if c == 'k' {
            stepped_prev_row(pre, post) && fpost == fpre && act is Idle
        } else if c == 'l' {
            stepped_next_column(pre, post) && fpost == fpre && act is Idle
        } else if c == 'h' {
            stepped_prev_column(pre, post) && fpost == fpre && act is Idle
        } else if c == 'P' {
            post == pre && fpost == fpre && clip_row_action(pre, act)
        } else if c == 'p' {
            post == pre && fpost == fpre && clip_password_action(pre, act)
        } else if c == 'c' {
            post == pre && fpost == fpre && clip_column_action(pre, act)
        } else if c == 'd' || c == 'D' {
            &&& persisted(post, fpost, deleted_items(pre))
            &&& act is Persist
            &&& post.config == pre.config
            &&& post.input == pre.input
            &&& post.input_mode == pre.input_mode
            &&& post.selected_row == pre.selected_row
            &&& post.selected_column == pre.selected_column
            &&& post.scroll_offset == pre.scroll_offset
            &&& post.current_screen == pre.current_screen
            &&& post.is_modify == pre.is_modify
        } else if c == '?' {
            &&& post == (App { current_screen: CurrentScreen::Help, ..pre })
            &&& fpost == fpre
            &&& act is Idle
        } else if c == 'n' || c == 'N' {
            &&& post == (App { current_screen: CurrentScreen::Popup, is_modify: false, ..pre })
            &&& fpost == fpre
            &&& act is Idle
        } else if c == 'm' || c == 'M' {
            opened_modify(pre, post) && fpost == fpre && act is Idle
        } else {
            post == pre && fpost == fpre && act is Idle
        },
        _ => post == pre && fpost == fpre && act is Idle,
    }
}

/// The transition table of the modal form.
pub open spec fn popup_step(
    pre: App,
    post: App,
    fpre: StoreFiles,
    fpost: StoreFiles,
    key: KeyInput,
    act: Action,
) -> bool {
    match key {
        KeyInput::Esc => {
            &&& post.items == pre.items
            &&& fpost == fpre
            &&& act is Idle
            &&& post.input.all_empty()
            &&& !post.is_modify
            &&& post.current_screen == CurrentScreen::Main
            &&& post.config == pre.config
            &&& post.input_mode == pre.input_mode
            &&& post.selected_row == pre.selected_row
            &&& post.selected_column == pre.selected_column
            &&& post.scroll_offset == pre.scroll_offset
        },
        KeyInput::Enter => if pre.input.all_empty() {
            post == pre && fpost == fpre && act is Idle
        } else {
            &&& persisted(post, fpost, committed_items(pre))
            &&& act is Persist
            &&& post.input.all_empty()
            &&& post.input_mode == InputMode::Service
            &&& post.current_screen == CurrentScreen::Main
            &&& post.config == pre.config
            &&& post.is_modify == pre.is_modify
            &&& post.selected_row == pre.selected_row
            &&& post.selected_column == pre.selected_column
            &&& post.scroll_offset == pre.scroll_offset
        },
        KeyInput::Down => {
            &&& post == (App { input_mode: next_mode(pre.input_mode), ..pre })
            &&& fpost == fpre
            &&& act is Idle
        },
        KeyInput::Tab => {
            &&& post == (App { input_mode: next_mode(pre.input_mode), ..pre })
            &&& fpost == fpre
            &&& act is Idle
        },
        KeyInput::Up => {
            &&& post == (App { input_mode: prev_mode(pre.input_mode), ..pre })
            &&& fpost == fpre
            &&& act is Idle
        },
        _ => edited(pre, post, key) && fpost == fpre && act is Idle,
    }
}

/// The transition table of the help screen: Esc returns to the table, every
/// other key is inert.
pub open spec fn help_step(
    pre: App,
    post: App,
    fpre: StoreFiles,
    fpost: StoreFiles,
    key: KeyInput,
    act: Action,
) -> bool {
    match key {
        KeyInput::Esc => {
            &&& post == (App { current_screen: CurrentScreen::Main, ..pre })
            &&& fpost == fpre
            &&& act is Idle
        },
        _ => post == pre && fpost == fpre && act is Idle,
    }
}

/// Routes one key event by the current screen and steps the model, exactly
/// as the per-screen transition tables say.
pub fn handle_key(app: &mut App, files: &mut StoreFiles, key: KeyInput) -> (act: Action)
    requires
        old(app).wf(),
        old(app).items@.len() < u32::MAX,
        old(app).input@.service.text.len() < usize::MAX,
        old(app).input@.login.text.len() < usize::MAX,
        old(app).input@.password.text.len() < usize::MAX,
    ensures
        final(app).wf(),
        match old(app).current_screen {
            CurrentScreen::Main => main_step(
                *old(app),
                *final(app),
                *old(files),
                *final(files),
                key,
                act,
            ),
            CurrentScreen::Popup => popup_step(
                *old(app),
                *final(app),
                *old(files),
                *final(files),
                key,
                act,
            ),
            CurrentScreen::Help => help_step(
                *old(app),
                *final(app),
                *old(files),
                *final(files),
                key,
                act,
            ),
        },
{
    match app.current_screen {
        CurrentScreen::Main => match key {
            KeyInput::Esc => Action::Quit,
            KeyInput::Down => {
                app.next_row();
                Action::Idle
            },
            KeyInput::Up => {
                app.previous_row();
                Action::Idle
            },
            KeyInput::Right => {
                app.nex_column();
                Action::Idle
            },
            KeyInput::Left => {
                app.previous_column();
                Action::Idle
            },
            KeyInput::Char(c) => {
                if c == 'j' {
                    app.next_row();
                    Action::Idle
                } else if c == 'k' {
                    app.previous_row();
                    Action::Idle
                } else if c == 'l' {
                    app.nex_column();
                    Action::Idle
                } else if c == 'h' {
                    app.previous_column();
                    Action::Idle
                } else if c == 'P' {
                    match app.clip_row() {
                        Some(t) => Action::Clip(t),
                        None => Action::Idle,
                    }
                } else if c == 'p' {
                    match app.clip_password() {
                        Some(t) => Action::Clip(t),
                        None => Action::Idle,
                    }
                } else if c == 'c' {
                    match app.clip_column() {
                        Some(t) => Action::Clip(t),
                        None => Action::Idle,
                    }
                } else if c == 'd' || c == 'D' {
                    app.delete();
                    app.write(files);
                    proof {
                        lemma_renumber_idempotent(deleted_items(*old(app)));
                    }
                    Action::Persist
                } else if c == '?' {
                    app.current_screen = CurrentScreen::Help;
                    Action::Idle
                } else if c == 'n' || c == 'N' {
                    app.current_screen = CurrentScreen::Popup;
                    app.is_modify = false;
                    Action::Idle
                } else if c == 'm' || c == 'M' {
                    let usable = match app.selected_row {
                        Some(i) => i < app.items.len(),
                        None => false,
                    };
                    if usable {
                        app.modify();
                        app.current_screen = CurrentScreen::Popup;
                    }
                    Action::Idle
                } else {
                    Action::Idle
                }
            },
            _ => Action::Idle,
        },
        CurrentScreen::Popup => match key {
            KeyInput::Esc => {
                app.input.reset_data();
                app.is_modify = false;
                app.current_screen = CurrentScreen::Main;
                Action::Idle
            },
            KeyInput::Enter => {
                if app.input.service.is_empty() && app.input.login.is_empty()
                    && app.input.password.is_empty() {
                    return Action::Idle;
                }
                app.add_password();
                app.write(files);
                proof {
                    lemma_renumber_idempotent(committed_items(*old(app)));
                }
                app.input.reset_data();
                app.input_mode = InputMode::Service;
                app.current_screen = CurrentScreen::Main;
                Action::Persist
            },
            KeyInput::Down => {
                app.next_input_mode();
                Action::Idle
            },
            KeyInput::Tab => {
                app.next_input_mode();
                Action::Idle
            },
            KeyInput::Up => {
                app.prev_input_mode();
                Action::Idle
            },
            KeyInput::Left => {
                match app.input_mode {
                    InputMode::Service => app.input.service.move_left(),
                    InputMode::Login => app.input.login.move_left(),
                    InputMode::Password => app.input.password.move_left(),
                }
                Action::Idle
            },
            KeyInput::Right => {
                match app.input_mode {
                    InputMode::Service => app.input.service.move_right(),
                    InputMode::Login => app.input.login.move_right(),
                    InputMode::Password => app.input.password.move_right(),
                }
                Action::Idle
            },
            KeyInput::Backspace => {
                match app.input_mode {
                    InputMode::Service => app.input.service.backspace(),
                    InputMode::Login => app.input.login.backspace(),
                    InputMode::Password => app.input.password.backspace(),
                }
                Action::Idle
            },
            KeyInput::Char(c) => {
                match app.input_mode {
                    InputMode::Service => app.input.service.insert(c),
                    InputMode::Login => app.input.login.insert(c),
                    InputMode::Password => app.input.password.insert(c),
                }
                Action::Idle
            },
        },
        CurrentScreen::Help => match key {
            KeyInput::Esc => {
                app.current_screen = CurrentScreen::Main;
                Action::Idle
            },
            _ => Action::Idle,
        },
    }
}

/// Cancel–discard: Esc on the popup leaves every stored record exactly as
/// it was, whatever was typed into the form, and no persist happens.
pub proof fn lemma_cancel_discard(
    pre: App,
    post: App,
    fpre: StoreFiles,
    fpost: StoreFiles,
    act: Action,
)
    requires
        popup_step(pre, post, fpre, fpost, KeyInput::Esc, act),
    ensures
        post.items == pre.items,
        fpost == fpre,
        !(act is Persist),
{
}

/// Commit-empty no-op: Enter on the popup with all three fields empty
/// mutates nothing and no persist happens.
pub proof fn lemma_commit_empty_noop(
    pre: App,
    post: App,
    fpre: StoreFiles,
    fpost: StoreFiles,
    act: Action,
)
    requires
        pre.input.all_empty(),
        popup_step(pre, post, fpre, fpost, KeyInput::Enter, act),
    ensures
        post == pre,
        fpost == fpre,
        !(act is Persist),
{
}

} // verus!
