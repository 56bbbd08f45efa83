//! The decisions of the main loop: what a key press or a mouse click does
//! to the UI state and which outside action it asks for, which pickups
//! open the add dialog, how the torrent lists are refreshed, and which files
//! of the download folder are offered on Home.
//!
//! The application runs the loop: it reads events, performs the actions
//! returned here (engine calls, clipboard reads, saving settings, quitting)
//! and hands the results back.

use vstd::prelude::*;
use crate::config::{
    Settings, SettingsView, ascii_digit, limit_after_backspace, limit_after_digit, default_watch_folder,
    digit_value, speed_limit_after_backspace, speed_limit_after_digit, watch_dir_under,
};
use crate::engine::{TorrentInfo, TorrentView};
use crate::input::Key;
use crate::modal::{AddModal, ModalFocus, ModalState, moves_focus};
use crate::pickup::{Pickup, PickupView, is_torrent_file, is_torrent_source, torrent_path, torrent_source};
use crate::text::{chars_of, concat_str, has_prefix, has_suffix, push_char, pop_char, same_text, string_of, trim_whitespace, trimmed};
use crate::paths::{path_extension, path_extension_of, path_starts_with, path_within};
use crate::ui::{App, AppState, Focus, SidebarMode, texts_of, torrent_views};

verus! {

/// A source waiting for the add dialog.
#[derive(Debug)]
pub enum Pending {
    Url(String),
    File(String),
}

/// A pending source as plain values.
pub enum PendingView {
    Url(Seq<char>),
    File(Seq<char>),
}

impl View for Pending {
    type V = PendingView;

    open spec fn view(&self) -> PendingView {
        match self {
            Pending::Url(u) => PendingView::Url(u@),
            Pending::File(f) => PendingView::File(f@),
        }
    }
}

/// What the application has to do after a key press.
#[derive(Debug)]
pub enum AppAction {
    /// Nothing outside the UI state.
    Nothing,
    /// Leave the program.
    Quit,
    /// Read the clipboard and hand the text to `pending_from_link`.
    ReadClipboard,
    /// Remove torrent `id` from the engine, with or without its files.
    Delete { id: usize, delete_files: bool },
    /// Persist the settings.
    SaveSettings,
    /// Mark file `file_index` of torrent `id` for download (`selected`) or
    /// not.
    SelectFile { id: usize, file_index: usize, selected: bool },
    /// Open the add dialog for a source.
    Open(Pending),
}

/// An action as plain values.
pub enum ActionView {
    Nothing,
    Quit,
    ReadClipboard,
    Delete { id: usize, delete_files: bool },
    SaveSettings,
    SelectFile { id: usize, file_index: usize, selected: bool },
    Open(PendingView),
}

impl View for AppAction {
    type V = ActionView;

    open spec fn view(&self) -> ActionView {
        match self {
            AppAction::Nothing => ActionView::Nothing,
            AppAction::Quit => ActionView::Quit,
            AppAction::ReadClipboard => ActionView::ReadClipboard,
            AppAction::Delete { id, delete_files } => ActionView::Delete { id: *id, delete_files: *delete_files },
            AppAction::SaveSettings => ActionView::SaveSettings,
            AppAction::SelectFile { id, file_index, selected } => ActionView::SelectFile {
                id: *id,
                file_index: *file_index,
                selected: *selected,
            },
            AppAction::Open(p) => ActionView::Open(p@),
        }
    }
}

/// Length of the list shown for the mode (Home and Settings show none).
pub open spec fn list_len(s: AppState) -> nat {
    match s.sidebar_mode {
        SidebarMode::Active => s.active.len(),
        SidebarMode::Finished => s.finished.len(),
        _ => 0,
    }
}

/// Id of the selected torrent of the shown list, if the cursor is on one.
pub open spec fn selected_id(s: AppState) -> Option<usize> {
    match s.sidebar_mode {
        SidebarMode::Active => if s.selected < s.active.len() {
            Some(s.active[s.selected as int])
        } else {
            None
        },
        SidebarMode::Finished => if s.selected < s.finished.len() {
            Some(s.finished[s.selected as int])
        } else {
            None
        },
        _ => None,
    }
}

/// The sidebar mode above `m` (cyclic).
pub open spec fn mode_up(m: SidebarMode) -> SidebarMode {
    match m {
        SidebarMode::Home => SidebarMode::Settings,
        SidebarMode::Active => SidebarMode::Home,
        SidebarMode::Finished => SidebarMode::Active,
        SidebarMode::Settings => SidebarMode::Finished,
    }
}

/// The sidebar mode below `m` (cyclic).
pub open spec fn mode_down(m: SidebarMode) -> SidebarMode {
    match m {
        SidebarMode::Home => SidebarMode::Active,
        SidebarMode::Active => SidebarMode::Finished,
        SidebarMode::Finished => SidebarMode::Settings,
        SidebarMode::Settings => SidebarMode::Home,
    }
}

/// The selection that Space gives file `i` of torrent `id`: the opposite of
/// what the detail pane shows for it, or selected when the pane does not
/// show that file.
pub open spec fn toggled_selection(flags: Option<(usize, Seq<bool>)>, id: usize, i: usize) -> bool {
    match flags {
        Some((did, f)) => if did == id && i < f.len() {
            !f[i as int]
        } else {
            true
        },
        None => true,
    }
}

/// Removing the selected torrent, if there is one.
pub open spec fn delete_selected(s: AppState, delete_files: bool) -> ActionView {
    match selected_id(s) {
        Some(id) => ActionView::Delete { id, delete_files },
        None => ActionView::Nothing,
    }
}

/// A character typed into the settings field being edited: row 0 is the
/// download folder, row 1 the watch folder (only while it is on), row 3 the
/// speed limit (digits only).
pub open spec fn settings_typed(st: SettingsView, row: usize, c: char) -> SettingsView {
    if row == 0 {
        SettingsView { download_dir: st.download_dir.push(c), ..st }
    } else if row == 1 {
        SettingsView {
            watch_folder: match st.watch_folder {
                Some(w) => Some(w.push(c)),
                None => None,
            },
            ..st
        }
    } else if row == 3 {
        match ascii_digit(c) {
            Some(d) => SettingsView { global_speed_limit: limit_after_digit(st.global_speed_limit, d), ..st },
            None => st,
        }
    } else {
        st
    }
}

/// Drops the last character of a text, if any.
pub open spec fn drop_last_char(s: Seq<char>) -> Seq<char> {
    if s.len() > 0 {
        s.drop_last()
    } else {
        s
    }
}

/// Backspace in the settings field being edited.
pub open spec fn settings_erased(st: SettingsView, row: usize) -> SettingsView {
    if row == 0 {
        SettingsView { download_dir: drop_last_char(st.download_dir), ..st }
    } else if row == 1 {
        SettingsView {
            watch_folder: match st.watch_folder {
                Some(w) => Some(drop_last_char(w)),
                None => None,
            },
            ..st
        }
    } else if row == 3 {
        SettingsView { global_speed_limit: limit_after_backspace(st.global_speed_limit), ..st }
    } else {
        st
    }
}

/// The effect of a character key that no settings edit takes.
pub open spec fn char_effect(s: AppState, c: char, home: Seq<char>) -> (AppState, ActionView) {
    let settings_right_idle = s.sidebar_mode == SidebarMode::Settings && s.focus == Focus::Right
        && s.settings_editing is None;
    if c == 'q' {
        (s, ActionView::Quit)
    } else if c == '1' {
        (AppState { sidebar_mode: SidebarMode::Home, selected: 0, ..s }, ActionView::Nothing)
    } else if c == '2' {
        (AppState { sidebar_mode: SidebarMode::Active, selected: 0, ..s }, ActionView::Nothing)
    } else if c == '3' {
        (AppState { sidebar_mode: SidebarMode::Finished, selected: 0, ..s }, ActionView::Nothing)
    } else if c == '4' {
        (AppState { sidebar_mode: SidebarMode::Settings, ..s }, ActionView::Nothing)
    } else if (c == 'p' || c == 'P' || c == 'n' || c == 'N') && s.sidebar_mode == SidebarMode::Home {
        (s, ActionView::ReadClipboard)
    } else if c == 'r' && s.sidebar_mode == SidebarMode::Active {
        (s, delete_selected(s, false))
    } else if c == 'd' && (s.sidebar_mode == SidebarMode::Active || s.sidebar_mode
        == SidebarMode::Finished) {
        (s, delete_selected(s, true))
    } else if c == 't' && s.sidebar_mode == SidebarMode::Finished {
        (s, delete_selected(s, false))
    } else if c == ' ' && settings_right_idle {
        if s.settings_focus == 2 {
            (
                AppState {
                    settings: SettingsView { clipboard_watch: !s.settings.clipboard_watch, ..s.settings },
                    ..s
                },
                ActionView::SaveSettings,
            )
        } else if s.settings_focus == 1 {
            (
                AppState {
                    settings: SettingsView {
                        watch_folder: match s.settings.watch_folder {
                            Some(_) => None,
                            None => Some(watch_dir_under(home)),
                        },
                        ..s.settings
                    },
                    ..s
                },
                ActionView::SaveSettings,
            )
        } else {
            (s, ActionView::Nothing)
        }
    } else if c == 'e' && settings_right_idle {
        if s.settings_focus != 2 {
            (AppState { settings_editing: Some(s.settings_focus), ..s }, ActionView::Nothing)
        } else {
            (s, ActionView::Nothing)
        }
    } else if c == ' ' && s.sidebar_mode == SidebarMode::Active {
        match selected_id(s) {
            Some(id) => (
                s,
                ActionView::SelectFile {
                    id,
                    file_index: s.detail_file_focus,
                    selected: toggled_selection(s.detail_flags, id, s.detail_file_focus),
                },
            ),
            None => (s, ActionView::Nothing),
        }
    } else {
        (s, ActionView::Nothing)
    }
}

/// What a key press does to the UI state, and the action it asks for.
/// `home` is the user's home folder, where the watch folder is created when
/// it is switched on.
///
/// While a settings field is being edited in Settings mode, characters and
/// Backspace edit that field; with the right pane focused and no edit under
/// way, Up and Down move between the four settings rows.
pub open spec fn key_effect(s: AppState, key: Key, home: Seq<char>) -> (AppState, ActionView) {
    let in_settings = s.sidebar_mode == SidebarMode::Settings;
    let right = s.focus == Focus::Right;
    let home_files = s.sidebar_mode == SidebarMode::Home && s.found.len() > 0;
    match s.settings_editing {
        Some(row) if in_settings && key is Char => (
            AppState { settings: settings_typed(s.settings, row, key->Char_0), ..s },
            ActionView::Nothing,
        ),
        Some(row) if in_settings && key == Key::Backspace => (
            AppState { settings: settings_erased(s.settings, row), ..s },
            ActionView::Nothing,
        ),
        None if in_settings && right && key == Key::Up => (
            AppState {
                settings_focus: if s.settings_focus > 0 {
                    (s.settings_focus - 1) as usize
                } else {
                    s.settings_focus
                },
                ..s
            },
            ActionView::Nothing,
        ),
        None if in_settings && right && key == Key::Down => (
            AppState {
                settings_focus: if s.settings_focus + 1 < 4 {
                    (s.settings_focus + 1) as usize
                } else {
                    s.settings_focus
                },
                ..s
            },
            ActionView::Nothing,
        ),
        _ => match key {
            Key::Char(c) => char_effect(s, c, home),
            Key::Tab => (
                AppState {
                    focus: match s.focus {
                        Focus::Sidebar => Focus::Right,
                        Focus::Right => Focus::Sidebar,
                    },
                    ..s
                },
                ActionView::Nothing,
            ),
            Key::Up => if !right {
                (AppState { sidebar_mode: mode_up(s.sidebar_mode), ..s }, ActionView::Nothing)
            } else if home_files {
                (
                    AppState {
                        home_file_focus: if s.home_file_focus > 0 {
                            (s.home_file_focus - 1) as usize
                        } else {
                            s.home_file_focus
                        },
                        ..s
                    },
                    ActionView::Nothing,
                )
            } else {
                (
                    AppState {
                        selected: if s.selected > 0 {
                            (s.selected - 1) as usize
                        } else {
                            s.selected
                        },
                        ..s
                    },
                    ActionView::Nothing,
                )
            },
            Key::Down => if !right {
                (AppState { sidebar_mode: mode_down(s.sidebar_mode), ..s }, ActionView::Nothing)
            } else if home_files {
                (
                    AppState {
                        home_file_focus: if s.home_file_focus + 1 < s.found.len() {
                            (s.home_file_focus + 1) as usize
                        } else {
                            s.home_file_focus
                        },
                        ..s
                    },
                    ActionView::Nothing,
                )
            } else {
                (
                    AppState {
                        selected: if s.selected + 1 < list_len(s) {
                            (s.selected + 1) as usize
                        } else {
                            s.selected
                        },
                        ..s
                    },
                    ActionView::Nothing,
                )
            },
            Key::Enter => if home_files {
                (
                    s,
                    ActionView::Open(
                        PendingView::File(s.settings.download_dir + "/"@ + s.found[s.home_file_focus as int]),
                    ),
                )
            } else if in_settings && right {
                (AppState { settings_editing: None, ..s }, ActionView::SaveSettings)
            } else {
                (s, ActionView::Nothing)
            },
            Key::Esc => if in_settings {
                (AppState { settings_editing: None, ..s }, ActionView::Nothing)
            } else {
                (s, ActionView::Nothing)
            },
            _ => (s, ActionView::Nothing),
        },
    }
}

/// The key handler's demands on the state it is given: the found-files
/// cursor points into the list when Enter opens a found file, and the one
/// cursor that Down advances (the settings row, the found-files cursor or
/// the list cursor, by the branch Down takes) is below the largest `usize`.
pub open spec fn key_ready(s: AppState, key: Key) -> bool {
    let in_settings = s.sidebar_mode == SidebarMode::Settings;
    let right = s.focus == Focus::Right;
    let home_files = s.sidebar_mode == SidebarMode::Home && s.found.len() > 0;
    &&& (key == Key::Enter && home_files) ==> s.home_file_focus < s.found.len()
    &&& key == Key::Down ==> (if in_settings && right && s.settings_editing is None {
        s.settings_focus < usize::MAX
    } else if right && home_files {
        s.home_file_focus < usize::MAX
    } else if right {
        s.selected < usize::MAX
    } else {
        true
    })
}

/// Length of the list shown for the mode.
pub fn current_list_len(app: &App) -> (res: usize)
    ensures
        res == list_len(app@),
{
    match app.sidebar_mode {
        SidebarMode::Active => app.torrents.len(),
        SidebarMode::Finished => app.finished.len(),
        SidebarMode::Settings => 0,
        SidebarMode::Home => 0,
    }
}

/// The selected torrent of the shown list, if the cursor is on one.
pub fn current_selected(app: &App) -> (res: Option<&TorrentInfo>)
    ensures
        match selected_id(app@) {
            Some(id) => res matches Some(t) && t.id == id && (app.sidebar_mode == SidebarMode::Active
                ==> *t == app.torrents@[app.selected as int]) && (app.sidebar_mode
                == SidebarMode::Finished ==> *t == app.finished@[app.selected as int]),
            None => res is None,
        },
{
    let list = match app.sidebar_mode {
        SidebarMode::Home => {
            return None;
        },
        SidebarMode::Active => &app.torrents,
        SidebarMode::Finished => &app.finished,
        SidebarMode::Settings => {
            return None;
        },
    };
    if app.selected < list.len() {
        Some(&list[app.selected])
    } else {
        None
    }
}

/// The delete action for the selected torrent, if any.
fn delete_action(app: &App, delete_files: bool) -> (res: AppAction)
    ensures
        res@ == delete_selected(app@, delete_files),
{
    match current_selected(app) {
        Some(t) => AppAction::Delete { id: t.id, delete_files },
        None => AppAction::Nothing,
    }
}

/// Applies a typed character to the settings field `row`.
fn type_into_settings(settings: &mut Settings, row: usize, c: char)
    ensures
        final(settings)@ == settings_typed(old(settings)@, row, c),
{
    if row == 0 {
        push_char(&mut settings.download_dir, c);
    } else if row == 1 {
        if let Some(w) = &mut settings.watch_folder {
            push_char(w, c);
        }
    } else if row == 3 {
        if let Some(d) = digit_value(c) {
            settings.global_speed_limit = speed_limit_after_digit(settings.global_speed_limit, d);
        }
    }
}

/// Applies Backspace to the settings field `row`.
fn erase_in_settings(settings: &mut Settings, row: usize)
    ensures
        final(settings)@ == settings_erased(old(settings)@, row),
{
    if row == 0 {
        pop_char(&mut settings.download_dir);
    } else if row == 1 {
        if let Some(w) = &mut settings.watch_folder {
            pop_char(w);
        }
    } else if row == 3 {
        settings.global_speed_limit = speed_limit_after_backspace(settings.global_speed_limit);
    }
}

/// The selection Space gives the detail pane's focused file of torrent `id`.
fn file_toggle(app: &App, id: usize) -> (res: bool)
    ensures
        res == toggled_selection(app@.detail_flags, id, app.detail_file_focus),
{
    match &app.details {
        Some(d) => if d.id == id && app.detail_file_focus < d.files.len() {
            !d.files[app.detail_file_focus].selected
        } else {
            true
        },
        None => true,
    }
}

/// Character keys that no settings edit takes.
fn handle_char(app: &mut App, c: char, home: &str) -> (res: AppAction)
    ensures
        (final(app)@, res@) == char_effect(old(app)@, c, home@),
        final(app).torrents == old(app).torrents,
        final(app).finished == old(app).finished,
        final(app).details == old(app).details,
        final(app).status == old(app).status,
        final(app).home_found_files == old(app).home_found_files,
{
    let settings_right_idle = app.sidebar_mode == SidebarMode::Settings && app.focus == Focus::Right
        && app.settings_editing.is_none();
    if c == 'q' {
        AppAction::Quit
    } else if c == '1' {
        app.sidebar_mode = SidebarMode::Home;
        app.selected = 0;
        AppAction::Nothing
    } else if c == '2' {
        app.sidebar_mode = SidebarMode::Active;
        app.selected = 0;
        AppAction::Nothing
    } else if c == '3' {
        app.sidebar_mode = SidebarMode::Finished;
        app.selected = 0;
        AppAction::Nothing
    } else if c == '4' {
        app.sidebar_mode = SidebarMode::Settings;
        AppAction::Nothing
    } else if (c == 'p' || c == 'P' || c == 'n' || c == 'N') && app.sidebar_mode == SidebarMode::Home {
        AppAction::ReadClipboard
    } else if c == 'r' && app.sidebar_mode == SidebarMode::Active {
        delete_action(app, false)
    } else if c == 'd' && (app.sidebar_mode == SidebarMode::Active || app.sidebar_mode
        == SidebarMode::Finished) {
        delete_action(app, true)
    } else if c == 't' && app.sidebar_mode == SidebarMode::Finished {
        delete_action(app, false)
    } else if c == ' ' && settings_right_idle {
        if app.settings_focus == 2 {
            app.settings.clipboard_watch = !app.settings.clipboard_watch;
            AppAction::SaveSettings
        } else if app.settings_focus == 1 {
            if app.settings.watch_folder.is_some() {
                app.settings.watch_folder = None;
            } else {
                app.settings.watch_folder = Some(default_watch_folder(home));
            }
            AppAction::SaveSettings
        } else {
            AppAction::Nothing
        }
    } else if c == 'e' && settings_right_idle {
        if app.settings_focus != 2 {
            app.settings_editing = Some(app.settings_focus);
        }
        AppAction::Nothing
    } else if c == ' ' && app.sidebar_mode == SidebarMode::Active {
        match current_selected(app) {
            Some(t) => AppAction::SelectFile {
                id: t.id,
                file_index: app.detail_file_focus,
                selected: file_toggle(app, t.id),
            },
            None => AppAction::Nothing,
        }
    } else {
        AppAction::Nothing
    }
}

/// Routes one key press: updates the UI state and returns the action the
/// application must carry out.
pub fn handle_app_key(app: &mut App, key: Key, home: &str) -> (res: AppAction)
    requires
        key_ready(old(app)@, key),
    ensures
        (final(app)@, res@) == key_effect(old(app)@, key, home@),
        final(app).torrents == old(app).torrents,
        final(app).finished == old(app).finished,
        final(app).details == old(app).details,
        final(app).status == old(app).status,
        final(app).home_found_files == old(app).home_found_files,
{
    let in_settings = app.sidebar_mode == SidebarMode::Settings;
    let right = app.focus == Focus::Right;
    if in_settings && app.settings_editing.is_some() {
        let row = app.settings_editing.unwrap();
        if let Key::Char(c) = key {
            type_into_settings(&mut app.settings, row, c);
            return AppAction::Nothing;
        }
        if key == Key::Backspace {
            erase_in_settings(&mut app.settings, row);
            return AppAction::Nothing;
        }
    }
    if in_settings && right && app.settings_editing.is_none() {
        if key == Key::Up {
            if app.settings_focus > 0 {
                app.settings_focus = app.settings_focus - 1;
            }
            return AppAction::Nothing;
        }
        if key == Key::Down {
            if app.settings_focus + 1 < 4 {
                app.settings_focus = app.settings_focus + 1;
            }
            return AppAction::Nothing;
        }
    }
    let home_files = app.sidebar_mode == SidebarMode::Home && app.home_found_files.len() > 0;
    match key {
        Key::Char(c) => handle_char(app, c, home),
        Key::Tab => {
            app.focus = match app.focus {
                Focus::Sidebar => Focus::Right,
                Focus::Right => Focus::Sidebar,
            };
            AppAction::Nothing
        },
        Key::Up => {
            if !right {
                app.sidebar_mode = match app.sidebar_mode {
                    SidebarMode::Home => SidebarMode::Settings,
                    SidebarMode::Active => SidebarMode::Home,
                    SidebarMode::Finished => SidebarMode::Active,
                    SidebarMode::Settings => SidebarMode::Finished,
                };
            } else if home_files {
                if app.home_file_focus > 0 {
                    app.home_file_focus = app.home_file_focus - 1;
                }
            } else if app.selected > 0 {
                app.selected = app.selected - 1;
            }
            AppAction::Nothing
        },
        Key::Down => {
            if !right {
                app.sidebar_mode = match app.sidebar_mode {
                    SidebarMode::Home => SidebarMode::Active,
                    SidebarMode::Active => SidebarMode::Finished,
                    SidebarMode::Finished => SidebarMode::Settings,
                    SidebarMode::Settings => SidebarMode::Home,
                };
            } else if home_files {
                if app.home_file_focus + 1 < app.home_found_files.len() {
                    app.home_file_focus = app.home_file_focus + 1;
                }
            } else if app.selected + 1 < current_list_len(app) {
                app.selected = app.selected + 1;
            }
            AppAction::Nothing
        },
        Key::Enter => {
            if home_files {
                let name = &app.home_found_files[app.home_file_focus];
                let dir = concat_str(app.settings.download_dir.as_str(), "/");
                let path = concat_str(dir.as_str(), name.as_str());
                AppAction::Open(Pending::File(path))
            } else if in_settings && right {
                app.settings_editing = None;
                AppAction::SaveSettings
            } else {
                AppAction::Nothing
            }
        },
        Key::Esc => {
            if in_settings {
                app.settings_editing = None;
            }
            AppAction::Nothing
        },
        _ => AppAction::Nothing,
    }
}

/// What a mouse press at (`column`, `row`) does: the sidebar column picks a
/// mode by row band (above row 6 Active, above row 11 Finished, else
/// Settings); elsewhere the right pane takes focus and the list row under
/// the pointer (4 rows below the top) is selected if it exists.
pub open spec fn click_effect(s: AppState, column: u16, row: u16) -> AppState {
    if column < 20 {
        AppState {
            focus: Focus::Sidebar,
            sidebar_mode: if row < 6 {
                SidebarMode::Active
            } else if row < 11 {
                SidebarMode::Finished
            } else {
                SidebarMode::Settings
            },
            ..s
        }
    } else {
        let r: int = if row >= 4 {
            row - 4
        } else {
            0
        };
        let t = AppState { focus: Focus::Right, ..s };
        if r < list_len(t) {
            AppState { selected: r as usize, ..t }
        } else {
            t
        }
    }
}

/// Handles a mouse press.
pub fn handle_click(app: &mut App, column: u16, row: u16)
    ensures
        final(app)@ == click_effect(old(app)@, column, row),
        final(app).torrents == old(app).torrents,
        final(app).finished == old(app).finished,
        final(app).details == old(app).details,
        final(app).status == old(app).status,
        final(app).home_found_files == old(app).home_found_files,
        final(app).settings == old(app).settings,
{
    if column < 20 {
        app.focus = Focus::Sidebar;
        app.sidebar_mode = if row < 6 {
            SidebarMode::Active
        } else if row < 11 {
            SidebarMode::Finished
        } else {
            SidebarMode::Settings
        };
    } else {
        app.focus = Focus::Right;
        let r: usize = if row >= 4 {
            (row - 4) as usize
        } else {
            0
        };
        if r < current_list_len(app) {
            app.selected = r;
        }
    }
}

/// The add-dialog source a pickup opens, if any: a torrent link while
/// clipboard watching is on (trimmed), or a .torrent file inside the watch
/// folder while one is set. Status messages open nothing.
pub open spec fn pickup_pending(st: SettingsView, p: PickupView) -> Option<PendingView> {
    match p {
        PickupView::Url(u) => if torrent_source(u) && st.clipboard_watch {
            Some(PendingView::Url(trimmed(u)))
        } else {
            None
        },
        PickupView::File(f) => match st.watch_folder {
            Some(wf) => if path_within(f, wf) {
                Some(PendingView::File(f))
            } else {
                None
            },
            None => None,
        },
        PickupView::Status(_) => None,
    }
}

/// Optional pending source as plain values.
pub open spec fn pending_opt_view(p: Option<Pending>) -> Option<PendingView> {
    match p {
        Some(x) => Some(x@),
        None => None,
    }
}

/// Decides whether a pickup from the background watchers opens the add
/// dialog.
pub fn accept_pickup(settings: &Settings, p: &Pickup) -> (res: Option<Pending>)
    ensures
        pending_opt_view(res) == pickup_pending(settings@, p@),
{
    match p {
        Pickup::Url(u) => {
            if is_torrent_source(u.as_str()) && settings.clipboard_watch {
                Some(Pending::Url(trim_whitespace(u.as_str())))
            } else {
                None
            }
        },
        Pickup::File(f) => match &settings.watch_folder {
            Some(wf) => if path_starts_with(f.as_str(), wf.as_str()) {
                Some(Pending::File(string_of(&chars_of(f.as_str()))))
            } else {
                None
            },
            None => None,
        },
        Pickup::Status(_) => None,
    }
}

/// The source that a clipboard text opens: the trimmed text, when it is a
/// torrent link.
pub open spec fn link_pending(link: Option<Seq<char>>) -> Option<PendingView> {
    match link {
        Some(l) => if torrent_source(l) {
            Some(PendingView::Url(trimmed(l)))
        } else {
            None
        },
        None => None,
    }
}

/// What a clipboard read (`None`: no text available) opens.
pub fn pending_from_link(link: Option<String>) -> (res: Option<Pending>)
    ensures
        pending_opt_view(res) == link_pending(
            match link {
                Some(l) => Some(l@),
                None => None,
            },
        ),
{
    match link {
        Some(l) => if is_torrent_source(l.as_str()) {
            Some(Pending::Url(trim_whitespace(l.as_str())))
        } else {
            None
        },
        None => None,
    }
}

/// What a path given on the command line opens: the path, when it names a
/// .torrent file.
pub fn pending_from_arg(arg: Option<String>) -> (res: Option<Pending>)
    ensures
        pending_opt_view(res) == (match arg {
            Some(a) => if torrent_path(a@) {
                Some(PendingView::File(a@))
            } else {
                None
            },
            None => None,
        }),
{
    match arg {
        Some(a) => if is_torrent_file(a.as_str()) {
            Some(Pending::File(a))
        } else {
            None
        },
        None => None,
    }
}

/// Torrents of `all` (the first `k`) that stay in the queue: not done and
/// not in the engine's "Finished" state, in order.
pub open spec fn active_upto(all: Seq<TorrentView>, done: Seq<bool>, k: nat) -> Seq<TorrentView>
    decreases k,
{
    if k == 0 {
        seq![]
    } else {
        let prev = active_upto(all, done, (k - 1) as nat);
        if !done[k - 1] && all[k - 1].state != "Finished"@ {
            prev.push(all[k - 1])
        } else {
            prev
        }
    }
}

/// Torrents of `all` (the first `k`) that are done, in order.
pub open spec fn finished_upto(all: Seq<TorrentView>, done: Seq<bool>, k: nat) -> Seq<TorrentView>
    decreases k,
{
    if k == 0 {
        seq![]
    } else {
        let prev = finished_upto(all, done, (k - 1) as nat);
        if done[k - 1] {
            prev.push(all[k - 1])
        } else {
            prev
        }
    }
}

/// Refreshes the two lists from the engine's snapshot `all`; `done[i]`
/// tells whether torrent `i` has all its bytes.
pub fn refresh_lists(app: &mut App, all: Vec<TorrentInfo>, done: &Vec<bool>)
    requires
        all.len() == done.len(),
    ensures
        torrent_views(final(app).torrents@) == active_upto(torrent_views(all@), done@, all@.len()),
        torrent_views(final(app).finished@) == finished_upto(torrent_views(all@), done@, all@.len()),
        final(app).settings == old(app).settings,
        final(app).selected == old(app).selected,
        final(app).sidebar_mode == old(app).sidebar_mode,
        final(app).focus == old(app).focus,
        final(app).details == old(app).details,
        final(app).status == old(app).status,
        final(app).home_found_files == old(app).home_found_files,
        final(app).home_file_focus == old(app).home_file_focus,
        final(app).settings_focus == old(app).settings_focus,
        final(app).settings_editing == old(app).settings_editing,
        final(app).detail_file_focus == old(app).detail_file_focus,
{
    let ghost views = torrent_views(all@);
    let n = all.len();
    let mut rest = all;
    let mut active: Vec<TorrentInfo> = Vec::new();
    let mut finished: Vec<TorrentInfo> = Vec::new();
    let mut i: usize = 0;
    while i < n
        invariant
            n == done.len(),
            views.len() == n,
            i <= n,
            torrent_views(rest@) == views.skip(i as int),
            torrent_views(active@) == active_upto(views, done@, i as nat),
            torrent_views(finished@) == finished_upto(views, done@, i as nat),
        decreases n - i,
    {
        proof {
            assert(torrent_views(rest@).len() == n - i);
        }
        let ghost before_rest = rest@;
        let t = rest.remove(0);
        proof {
            assert(t@ == torrent_views(before_rest)[0]);
            assert(views.skip(i as int)[0] == views[i as int]);
            assert(rest@ =~= before_rest.subrange(1, before_rest.len() as int));
            assert(torrent_views(rest@) =~= torrent_views(before_rest).skip(1));
            assert(views.skip(i as int).skip(1) =~= views.skip(i + 1));
        }
        if done[i] {
            let ghost before = finished@;
            finished.push(t);
            proof {
                assert(torrent_views(finished@) =~= torrent_views(before).push(views[i as int]));
            }
        } else if !same_text(t.state.as_str(), "Finished") {
            let ghost before = active@;
            active.push(t);
            proof {
                assert(torrent_views(active@) =~= torrent_views(before).push(views[i as int]));
            }
        }
        i = i + 1;
    }
    app.torrents = active;
    app.finished = finished;
}

/// After a refresh every done torrent is in the finished list, every torrent
/// that is neither done nor in the engine's "Finished" state is in the
/// queue; the finished list holds only done torrents and the queue only
/// torrents that are neither, each taken from the snapshot.
pub proof fn lemma_refresh_sorts_torrents(all: Seq<TorrentView>, done: Seq<bool>, k: nat)
    requires
        k <= all.len(),
        k <= done.len(),
    ensures
        forall|i: int| 0 <= i < k && done[i] ==> #[trigger] finished_upto(all, done, k).contains(all[i]),
        forall|i: int|
            0 <= i < k && !done[i] && all[i].state != "Finished"@ ==> #[trigger] active_upto(all, done, k).contains(
                all[i],
            ),
        forall|x: TorrentView|
            #[trigger] finished_upto(all, done, k).contains(x) ==> exists|i: int| 0 <= i < k && done[i] && all[i] == x,
        forall|x: TorrentView|
            #[trigger] active_upto(all, done, k).contains(x) ==> exists|i: int|
                0 <= i < k && !done[i] && all[i].state != "Finished"@ && all[i] == x,
    decreases k,
{
    if k > 0 {
        lemma_refresh_sorts_torrents(all, done, (k - 1) as nat);
        let fp = finished_upto(all, done, (k - 1) as nat);
        let ap = active_upto(all, done, (k - 1) as nat);
        let fc = finished_upto(all, done, k);
        let ac = active_upto(all, done, k);
        assert forall|i: int| 0 <= i < k && done[i] implies #[trigger] fc.contains(all[i]) by {
            if i == k - 1 {
                assert(fc[fc.len() - 1] == all[i]);
            } else {
                assert(fp.contains(all[i]));
                let j = choose|j: int| 0 <= j < fp.len() && fp[j] == all[i];
                assert(fc[j] == all[i]);
            }
        }
        assert forall|i: int| 0 <= i < k && !done[i] && all[i].state != "Finished"@ implies #[trigger] ac.contains(
            all[i],
        ) by {
            if i == k - 1 {
                assert(ac[ac.len() - 1] == all[i]);
            } else {
                assert(ap.contains(all[i]));
                let j = choose|j: int| 0 <= j < ap.len() && ap[j] == all[i];
                assert(ac[j] == all[i]);
            }
        }
        assert forall|x: TorrentView| #[trigger] fc.contains(x) implies exists|i: int|
            0 <= i < k && done[i] && all[i] == x by {
            let j = choose|j: int| 0 <= j < fc.len() && fc[j] == x;
            if j < fp.len() {
                assert(fp[j] == x);
                assert(fp.contains(x));
            } else {
                assert(all[k - 1] == x);
            }
        }
        assert forall|x: TorrentView| #[trigger] ac.contains(x) implies exists|i: int|
            0 <= i < k && !done[i] && all[i].state != "Finished"@ && all[i] == x by {
            let j = choose|j: int| 0 <= j < ac.len() && ac[j] == x;
            if j < ap.len() {
                assert(ap[j] == x);
                assert(ap.contains(x));
            } else {
                assert(all[k - 1] == x);
            }
        }
    }
}

/// Lexicographic order of texts by code point, which is the order of
/// `String`'s comparison (UTF-8 byte order follows code point order).
pub open spec fn text_le(a: Seq<char>, b: Seq<char>) -> bool
    decreases a.len(),
{
    if a.len() == 0 {
        true
    } else if b.len() == 0 {
        false
    } else if a[0] != b[0] {
        a[0] < b[0]
    } else {
        text_le(a.drop_first(), b.drop_first())
    }
}

/// The texts are in ascending order.
pub open spec fn sorted_texts(s: Seq<Seq<char>>) -> bool {
    forall|i: int, j: int| 0 <= i < j < s.len() ==> text_le(#[trigger] s[i], #[trigger] s[j])
}

/// Any two texts are ordered one way or the other.
pub proof fn lemma_text_le_total(a: Seq<char>, b: Seq<char>)
    ensures
        text_le(a, b) || text_le(b, a),
    decreases a.len(),
{
    if a.len() > 0 && b.len() > 0 && a[0] == b[0] {
        lemma_text_le_total(a.drop_first(), b.drop_first());
    }
}

/// The order is transitive.
pub proof fn lemma_text_le_transitive(a: Seq<char>, b: Seq<char>, c: Seq<char>)
    requires
        text_le(a, b),
        text_le(b, c),
    ensures
        text_le(a, c),
    decreases a.len(),
{
    if a.len() > 0 && b.len() > 0 && c.len() > 0 && a[0] == b[0] && b[0] == c[0] {
        lemma_text_le_transitive(a.drop_first(), b.drop_first(), c.drop_first());
    }
}

/// The order is that of a dictionary by code point: a text comes before
/// every text it is a prefix of, and where two texts first differ, the one
/// with the smaller character there comes first and the other does not.
pub proof fn lemma_text_le_dictionary(a: Seq<char>, b: Seq<char>, i: int)
    requires
        0 <= i <= a.len(),
        i <= b.len(),
        a.take(i) == b.take(i),
    ensures
        i == a.len() ==> text_le(a, b),
        (i < a.len() && i < b.len() && a[i] < b[i]) ==> text_le(a, b) && !text_le(b, a),
    decreases i,
{
    if i > 0 {
        assert(a[0] == a.take(i)[0] && b[0] == b.take(i)[0]);
        assert(a.drop_first().take(i - 1) =~= a.take(i).drop_first());
        assert(b.drop_first().take(i - 1) =~= b.take(i).drop_first());
        lemma_text_le_dictionary(a.drop_first(), b.drop_first(), i - 1);
    }
}

/// Whether `a` comes no later than `b`.
fn text_le_exec(a: &Vec<char>, b: &Vec<char>) -> (res: bool)
    ensures
        res == text_le(a@, b@),
{
    let mut i: usize = 0;
    assert(a@.skip(0) =~= a@);
    assert(b@.skip(0) =~= b@);
    while i < a.len()
        invariant
            i <= a.len(),
            i <= b.len(),
            forall|j: int| 0 <= j < i ==> a@[j] == b@[j],
            text_le(a@, b@) == text_le(a@.skip(i as int), b@.skip(i as int)),
        decreases a.len() - i,
    {
        if i >= b.len() {
            return false;
        }
        let x = a[i];
        let y = b[i];
        proof {
            assert(a@.skip(i as int)[0] == x);
            assert(b@.skip(i as int)[0] == y);
            assert(a@.skip(i as int).drop_first() =~= a@.skip(i + 1));
            assert(b@.skip(i as int).drop_first() =~= b@.skip(i + 1));
        }
        if x != y {
            return x < y;
        }
        i = i + 1;
    }
    true
}

/// Sorts texts in ascending order; the result holds the same texts.
pub fn sort_texts(v: Vec<String>) -> (res: Vec<String>)
    ensures
        sorted_texts(texts_of(res@)),
        texts_of(res@).to_multiset() == texts_of(v@).to_multiset(),
{
    let mut out: Vec<String> = Vec::new();
    let mut i: usize = 0;
    assert(texts_of(v@.take(0)) =~= texts_of(out@));
    while i < v.len()
        invariant
            i <= v.len(),
            sorted_texts(texts_of(out@)),
            texts_of(out@).to_multiset() == texts_of(v@.take(i as int)).to_multiset(),
        decreases v.len() - i,
    {
        let x = v[i].clone();
        let xc = chars_of(x.as_str());
        // first position holding a text that comes after x
        let mut pos: usize = 0;
        while pos < out.len()
            invariant
                pos <= out.len(),
                xc@ == x@,
                forall|k: int| 0 <= k < pos ==> text_le(#[trigger] texts_of(out@)[k], x@),
            ensures
                pos <= out.len(),
                forall|k: int| 0 <= k < pos ==> text_le(#[trigger] texts_of(out@)[k], x@),
                pos < out.len() ==> !text_le(texts_of(out@)[pos as int], x@),
            decreases out.len() - pos,
        {
            let oc = chars_of(out[pos].as_str());
            if !text_le_exec(&oc, &xc) {
                break;
            }
            pos = pos + 1;
        }
        let ghost before = texts_of(out@);
        proof {
            if pos < out.len() {
                lemma_text_le_total(before[pos as int], x@);
            }
        }
        out.insert(pos, x);
        proof {
            let now = texts_of(out@);
            assert(now =~= before.insert(pos as int, x@));
            vstd::seq_lib::to_multiset_insert(before, pos as int, x@);
            vstd::seq_lib::to_multiset_build(texts_of(v@.take(i as int)), x@);
            assert forall|a: int, b: int| 0 <= a < b < now.len() implies text_le(#[trigger] now[a], #[trigger] now[b]) by {
                if b < pos {
                    assert(now[a] == before[a] && now[b] == before[b]);
                } else if b == pos {
                    assert(now[a] == before[a]);
                } else if a == pos {
                    assert(now[b] == before[b - 1]);
                    if pos < before.len() && b - 1 > pos {
                        lemma_text_le_transitive(x@, before[pos as int], before[b - 1]);
                    }
                } else if a < pos {
                    assert(now[a] == before[a] && now[b] == before[b - 1]);
                } else {
                    assert(now[a] == before[a - 1] && now[b] == before[b - 1]);
                }
            }
            assert(texts_of(v@.take((i + 1) as int)) =~= texts_of(v@.take(i as int)).push(x@));
        }
        i = i + 1;
    }
    assert(v@.take(v@.len() as int) =~= v@);
    out
}

/// Names (the first `k`) whose extension is exactly "torrent", in order.
pub open spec fn torrent_names_upto(names: Seq<Seq<char>>, k: nat) -> Seq<Seq<char>>
    decreases k,
{
    if k == 0 {
        seq![]
    } else {
        let prev = torrent_names_upto(names, (k - 1) as nat);
        if path_extension_of(names[k - 1]) == Some("torrent"@) {
            prev.push(names[k - 1])
        } else {
            prev
        }
    }
}

/// The names kept by `torrent_names_upto` are exactly the names among the
/// first `k` whose extension is "torrent".
pub proof fn lemma_torrent_names_members(names: Seq<Seq<char>>, k: nat)
    requires
        k <= names.len(),
    ensures
        forall|i: int|
            0 <= i < k && path_extension_of(#[trigger] names[i]) == Some("torrent"@)
                ==> torrent_names_upto(names, k).contains(names[i]),
        forall|x: Seq<char>|
            #[trigger] torrent_names_upto(names, k).contains(x) ==> exists|i: int|
                0 <= i < k && names[i] == x && path_extension_of(x) == Some("torrent"@),
    decreases k,
{
    if k > 0 {
        lemma_torrent_names_members(names, (k - 1) as nat);
        let prev = torrent_names_upto(names, (k - 1) as nat);
        let cur = torrent_names_upto(names, k);
        assert forall|i: int|
            0 <= i < k && path_extension_of(#[trigger] names[i]) == Some("torrent"@) implies cur.contains(
            names[i],
        ) by {
            if i == k - 1 {
                assert(cur[cur.len() - 1] == names[i]);
            } else {
                assert(prev.contains(names[i]));
                let j = choose|j: int| 0 <= j < prev.len() && prev[j] == names[i];
                assert(cur[j] == names[i]);
            }
        }
        assert forall|x: Seq<char>| #[trigger] cur.contains(x) implies exists|i: int|
            0 <= i < k && names[i] == x && path_extension_of(x) == Some("torrent"@) by {
            let j = choose|j: int| 0 <= j < cur.len() && cur[j] == x;
            if j < prev.len() {
                assert(prev[j] == x);
                assert(prev.contains(x));
            } else {
                assert(names[k - 1] == x);
            }
        }
    }
}

/// The `.torrent` files among the entry names of the download folder,
/// sorted, as the Home screen offers them: every name whose extension is
/// exactly "torrent" is offered, wherever it stands, and only such names.
pub fn torrent_file_names(names: Vec<String>) -> (res: Vec<String>)
    ensures
        sorted_texts(texts_of(res@)),
        texts_of(res@).to_multiset() == torrent_names_upto(texts_of(names@), names@.len()).to_multiset(),
        forall|i: int|
            0 <= i < names@.len() && path_extension_of(#[trigger] names@[i]@) == Some("torrent"@)
                ==> texts_of(res@).contains(names@[i]@),
        forall|x: Seq<char>|
            #[trigger] texts_of(res@).contains(x) ==> exists|i: int|
                0 <= i < names@.len() && names@[i]@ == x && path_extension_of(x) == Some("torrent"@),
{
    let mut kept: Vec<String> = Vec::new();
    let mut i: usize = 0;
    let torrent = chars_of("torrent");
    while i < names.len()
        invariant
            i <= names.len(),
            torrent@ == "torrent"@,
            texts_of(kept@) == torrent_names_upto(texts_of(names@), i as nat),
        decreases names.len() - i,
    {
        let ext = path_extension(names[i].as_str());
        let keep = match &ext {
            Some(e) => same_text(e.as_str(), "torrent"),
            None => false,
        };
        let ghost before = kept@;
        if keep {
            kept.push(names[i].clone());
            proof {
                assert(texts_of(kept@) =~= texts_of(before).push(names@[i as int]@));
            }
        }
        i = i + 1;
    }
    let res = sort_texts(kept);
    proof {
        let tv = texts_of(names@);
        let up = torrent_names_upto(tv, names@.len());
        lemma_torrent_names_members(tv, names@.len());
        assert forall|x: Seq<char>| texts_of(res@).contains(x) <==> up.contains(x) by {
            vstd::seq_lib::to_multiset_contains(texts_of(res@), x);
            vstd::seq_lib::to_multiset_contains(up, x);
        }
        assert forall|i: int|
            0 <= i < names@.len() && path_extension_of(#[trigger] names@[i]@) == Some("torrent"@)
                implies texts_of(res@).contains(names@[i]@) by {
            assert(tv[i] == names@[i]@);
        }
        assert forall|x: Seq<char>| #[trigger] texts_of(res@).contains(x) implies exists|i: int|
            0 <= i < names@.len() && names@[i]@ == x && path_extension_of(x) == Some("torrent"@) by {
            assert(up.contains(x));
            let i = choose|i: int| 0 <= i < names@.len() && tv[i] == x && path_extension_of(x) == Some("torrent"@);
            assert(names@[i]@ == x);
        }
    }
    res
}

/// What the detail pane needs after the lists are refreshed.
#[derive(Debug, Clone, Copy, PartialEq, Eq, Structural)]
pub enum DetailRequest {
    /// Settings mode: the pane is not shown and keeps what it had.
    Keep,
    /// No torrent under the cursor: the pane shows none.
    Clear,
    /// Fetch the details of this torrent.
    Fetch(usize),
}

/// Which details the pane should show: none in Settings mode (kept as they
/// are), else those of the selected torrent of the shown list, if any.
pub fn detail_request(app: &App) -> (res: DetailRequest)
    ensures
        app.sidebar_mode == SidebarMode::Settings ==> res == DetailRequest::Keep,
        app.sidebar_mode != SidebarMode::Settings ==> res == (match selected_id(app@) {
            Some(id) => DetailRequest::Fetch(id),
            None => DetailRequest::Clear,
        }),
{
    if app.sidebar_mode == SidebarMode::Settings {
        DetailRequest::Keep
    } else {
        match current_selected(app) {
            Some(t) => DetailRequest::Fetch(t.id),
            None => DetailRequest::Clear,
        }
    }
}

/// `q` quits from every screen, except while a settings field is being
/// typed into, where it is typed.
pub proof fn lemma_q_quits(s: AppState, home: Seq<char>)
    ensures
        !(s.sidebar_mode == SidebarMode::Settings && s.settings_editing is Some) ==> key_effect(
            s,
            Key::Char('q'),
            home,
        ) == (s, ActionView::Quit),
{
}

/// The add flow of the main loop: a source waiting for the add dialog, and
/// the open dialog with the source it is for.
pub struct AddFlow {
    pub pending: Option<Pending>,
    pub dialog: Option<(AddModal, Pending)>,
}

/// The add flow as plain values.
pub struct AddFlowView {
    pub pending: Option<PendingView>,
    pub dialog: Option<(ModalState, PendingView)>,
}

impl View for AddFlow {
    type V = AddFlowView;

    open spec fn view(&self) -> AddFlowView {
        AddFlowView {
            pending: pending_opt_view(self.pending),
            dialog: match self.dialog {
                Some((m, p)) => Some((m@, p@)),
                None => None,
            },
        }
    }
}

/// A freshly opened add dialog over the download folder `dir`: no files,
/// limit off at 5, focus on the path.
pub open spec fn fresh_dialog(dir: Seq<char>) -> ModalState {
    ModalState {
        path: dir,
        limit_enabled: false,
        limit_value: 5,
        files: seq![],
        file_focus: 0,
        focus: ModalFocus::Path,
        confirmed: false,
        cancelled: false,
    }
}

/// Where a key went.
#[derive(Debug)]
pub enum DialogStep {
    /// No dialog is open: the key is for the main screen.
    ToScreen,
    /// The open dialog took the key.
    Handled,
    /// The dialog was confirmed: start downloading this source.
    Start(Pending),
}

/// A dialog step as plain values.
pub enum DialogStepView {
    ToScreen,
    Handled,
    Start(PendingView),
}

impl View for DialogStep {
    type V = DialogStepView;

    open spec fn view(&self) -> DialogStepView {
        match self {
            DialogStep::ToScreen => DialogStepView::ToScreen,
            DialogStep::Handled => DialogStepView::Handled,
            DialogStep::Start(p) => DialogStepView::Start(p@),
        }
    }
}

/// What a key does to the add flow: with no dialog open it goes to the
/// screen; otherwise the dialog takes it, and a confirmed dialog closes and
/// starts its source, a cancelled one closes, any other stays open.
pub open spec fn flow_key(f: AddFlowView, key: Key) -> (AddFlowView, DialogStepView) {
    match f.dialog {
        None => (f, DialogStepView::ToScreen),
        Some((m, src)) => {
            let m2 = m.on_key(key);
            if m2.confirmed {
                (AddFlowView { dialog: None, ..f }, DialogStepView::Start(src))
            } else if m2.cancelled {
                (AddFlowView { dialog: None, ..f }, DialogStepView::Handled)
            } else {
                (AddFlowView { dialog: Some((m2, src)), ..f }, DialogStepView::Handled)
            }
        },
    }
}

impl AddFlow {
    /// A flow with `pending` waiting and no dialog open.
    pub fn new(pending: Option<Pending>) -> (res: AddFlow)
        ensures
            res@.pending == pending_opt_view(pending),
            res@.dialog is None,
    {
        AddFlow { pending, dialog: None }
    }

    /// Opens the dialog over `download_dir` for the waiting source, when a
    /// source waits and no dialog is open; otherwise changes nothing.
    pub fn open_waiting(&mut self, download_dir: &str)
        ensures
            (old(self)@.dialog is None && old(self)@.pending is Some) ==> final(self)@ == (AddFlowView {
                pending: None,
                dialog: Some((fresh_dialog(download_dir@), old(self)@.pending->0)),
            }),
            !(old(self)@.dialog is None && old(self)@.pending is Some) ==> final(self)@ == old(self)@,
    {
        if self.dialog.is_none() {
            if let Some(p) = self.pending.take() {
                let m = AddModal::new(download_dir, Vec::new());
                proof {
                    assert(m@.files =~= Seq::<(Seq<char>, bool)>::empty());
                }
                self.dialog = Some((m, p));
            }
        }
    }

    /// Whether the main screen takes pickups and mouse presses: only while
    /// no dialog is open.
    pub fn screen_has_input(&self) -> (res: bool)
        ensures
            res == (self@.dialog is None),
    {
        self.dialog.is_none()
    }

    /// Offers one pickup from the background watchers. While no dialog is
    /// open, a pickup that opens a source (`pickup_pending`) becomes the
    /// waiting source and draining stops (`true`); anything else changes
    /// nothing and draining goes on (`false`). With a dialog open nothing is
    /// taken.
    pub fn offer_pickup(&mut self, settings: &Settings, p: &Pickup) -> (stop: bool)
        ensures
            old(self)@.dialog is Some ==> (final(self)@ == old(self)@ && !stop),
            old(self)@.dialog is None ==> match pickup_pending(settings@, p@) {
                Some(src) => final(self)@ == (AddFlowView { pending: Some(src), ..old(self)@ }) && stop,
                None => final(self)@ == old(self)@ && !stop,
            },
    {
        if self.dialog.is_some() {
            return false;
        }
        match accept_pickup(settings, p) {
            Some(src) => {
                self.pending = Some(src);
                true
            },
            None => false,
        }
    }

    /// Routes a key press through the add flow.
    pub fn dialog_key(&mut self, key: Key) -> (res: DialogStep)
        requires
            old(self)@.dialog is Some && moves_focus(key) ==> (old(self)@.dialog->0).0.files.len() + 6
                <= i32::MAX,
        ensures
            (final(self)@, res@) == flow_key(old(self)@, key),
    {
        match self.dialog.take() {
            None => DialogStep::ToScreen,
            Some((m, src)) => {
                let mut m = m;
                m.handle_key(key);
                match m.outcome() {
                    crate::modal::ModalOutcome::Confirmed => DialogStep::Start(src),
                    crate::modal::ModalOutcome::Cancelled => DialogStep::Handled,
                    crate::modal::ModalOutcome::Open => {
                        self.dialog = Some((m, src));
                        DialogStep::Handled
                    },
                }
            },
        }
    }
}

/// Nothing starts downloading without the dialog's confirmation: a key
/// starts a source only when a dialog is open for it and the key confirms
/// that dialog, and it starts exactly that dialog's source.
pub proof fn lemma_start_needs_confirm(f: AddFlowView, key: Key)
    ensures
        flow_key(f, key).1 is Start ==> (f.dialog is Some && (f.dialog->0).0.on_key(key).confirmed
            && flow_key(f, key).1 == DialogStepView::Start((f.dialog->0).1)),
        flow_key(f, key).0.pending == f.pending,
{
}

/// With no dialog open a key goes to the main screen and the flow stays as
/// it is. With a dialog open the dialog takes the key: when that confirms
/// it, the dialog closes and its source starts; when it cancels it, the
/// dialog closes and nothing starts; otherwise the dialog stays open, moved
/// on by the key, for the same source. The waiting source is never touched.
pub proof fn lemma_flow_routes_keys(f: AddFlowView, key: Key)
    ensures
        f.dialog is None ==> flow_key(f, key) == (f, DialogStepView::ToScreen),
        (f.dialog is Some && (f.dialog->0).0.on_key(key).confirmed) ==> flow_key(f, key) == (
            AddFlowView { pending: f.pending, dialog: None },
            DialogStepView::Start((f.dialog->0).1),
        ),
        (f.dialog is Some && !(f.dialog->0).0.on_key(key).confirmed && (f.dialog->0).0.on_key(key).cancelled)
            ==> flow_key(f, key) == (AddFlowView { pending: f.pending, dialog: None }, DialogStepView::Handled),
        (f.dialog is Some && !(f.dialog->0).0.on_key(key).confirmed && !(f.dialog->0).0.on_key(key).cancelled)
            ==> flow_key(f, key) == (
            AddFlowView { pending: f.pending, dialog: Some(((f.dialog->0).0.on_key(key), (f.dialog->0).1)) },
            DialogStepView::Handled,
        ),
{
}

/// On Home, the paste and new-download keys ('p', 'P', 'n', 'N') leave the
/// screen as it is and ask for the clipboard to be read.
pub proof fn lemma_home_clipboard_keys(s: AppState, c: char, home: Seq<char>)
    requires
        s.sidebar_mode == SidebarMode::Home,
        c == 'p' || c == 'P' || c == 'n' || c == 'N',
    ensures
        key_effect(s, Key::Char(c), home) == (s, ActionView::ReadClipboard),
{
}

/// Outside a settings edit, '1', '2' and '3' switch to Home, Active and
/// Finished with the list cursor on the first row, and '4' switches to
/// Settings; nothing else changes and nothing is asked for.
pub proof fn lemma_mode_keys(s: AppState, home: Seq<char>)
    requires
        !(s.sidebar_mode == SidebarMode::Settings && s.settings_editing is Some),
    ensures
        key_effect(s, Key::Char('1'), home) == (
            AppState { sidebar_mode: SidebarMode::Home, selected: 0, ..s },
            ActionView::Nothing,
        ),
        key_effect(s, Key::Char('2'), home) == (
            AppState { sidebar_mode: SidebarMode::Active, selected: 0, ..s },
            ActionView::Nothing,
        ),
        key_effect(s, Key::Char('3'), home) == (
            AppState { sidebar_mode: SidebarMode::Finished, selected: 0, ..s },
            ActionView::Nothing,
        ),
        key_effect(s, Key::Char('4'), home) == (
            AppState { sidebar_mode: SidebarMode::Settings, ..s },
            ActionView::Nothing,
        ),
{
}

/// The row actions name the torrent under the cursor: in Active, 'r'
/// removes it keeping its files and 'd' deletes it with its files; in
/// Finished, 'd' deletes it with its files and 't' removes it keeping them.
/// With the cursor past the end of the list they ask for nothing. The screen
/// itself does not change.
pub proof fn lemma_row_actions(s: AppState, home: Seq<char>)
    ensures
        s.sidebar_mode == SidebarMode::Active && s.selected < s.active.len() ==> key_effect(s, Key::Char('r'), home)
            == (s, ActionView::Delete { id: s.active[s.selected as int], delete_files: false }),
        s.sidebar_mode == SidebarMode::Active && s.selected < s.active.len() ==> key_effect(s, Key::Char('d'), home)
            == (s, ActionView::Delete { id: s.active[s.selected as int], delete_files: true }),
        s.sidebar_mode == SidebarMode::Finished && s.selected < s.finished.len() ==> key_effect(
            s,
            Key::Char('d'),
            home,
        ) == (s, ActionView::Delete { id: s.finished[s.selected as int], delete_files: true }),
        s.sidebar_mode == SidebarMode::Finished && s.selected < s.finished.len() ==> key_effect(
            s,
            Key::Char('t'),
            home,
        ) == (s, ActionView::Delete { id: s.finished[s.selected as int], delete_files: false }),
        s.sidebar_mode == SidebarMode::Active && s.selected >= s.active.len() ==> key_effect(s, Key::Char('r'), home)
            == (s, ActionView::Nothing) && key_effect(s, Key::Char('d'), home) == (s, ActionView::Nothing),
        s.sidebar_mode == SidebarMode::Finished && s.selected >= s.finished.len() ==> key_effect(
            s,
            Key::Char('d'),
            home,
        ) == (s, ActionView::Nothing) && key_effect(s, Key::Char('t'), home) == (s, ActionView::Nothing),
{
}

/// On Home with files found, Enter opens the one under the cursor, joined
/// to the download folder with a '/'.
pub proof fn lemma_enter_opens_found_file(s: AppState, home: Seq<char>)
    requires
        s.sidebar_mode == SidebarMode::Home,
        s.found.len() > 0,
    ensures
        key_effect(s, Key::Enter, home) == (
            s,
            ActionView::Open(
                PendingView::File(s.settings.download_dir + "/"@ + s.found[s.home_file_focus as int]),
            ),
        ),
{
}

/// In Settings with the right pane focused and no edit under way, Space on
/// the clipboard row flips clipboard watching and on the watch-folder row
/// switches the watch folder off, or on at `{home}/Downloads/tordln-watch`;
/// either asks for the settings to be saved.
pub proof fn lemma_settings_space(s: AppState, home: Seq<char>)
    requires
        s.sidebar_mode == SidebarMode::Settings,
        s.focus == Focus::Right,
        s.settings_editing is None,
    ensures
        s.settings_focus == 2 ==> key_effect(s, Key::Char(' '), home) == (
            AppState {
                settings: SettingsView { clipboard_watch: !s.settings.clipboard_watch, ..s.settings },
                ..s
            },
            ActionView::SaveSettings,
        ),
        s.settings_focus == 1 && s.settings.watch_folder is Some ==> key_effect(s, Key::Char(' '), home) == (
            AppState { settings: SettingsView { watch_folder: None, ..s.settings }, ..s },
            ActionView::SaveSettings,
        ),
        s.settings_focus == 1 && s.settings.watch_folder is None ==> key_effect(s, Key::Char(' '), home) == (
            AppState {
                settings: SettingsView {
                    watch_folder: Some(home + "/Downloads/tordln-watch"@),
                    ..s.settings
                },
                ..s
            },
            ActionView::SaveSettings,
        ),
{
}

/// While a settings field is edited, a typed character goes into it: the
/// download folder (row 0) and a switched-on watch folder (row 1) get it
/// appended; a digit typed into the speed limit (row 3) sets the limit to
/// the number it forms when that lies in 1..=10. Nothing is asked for.
pub proof fn lemma_settings_typing(s: AppState, c: char, home: Seq<char>)
    requires
        s.sidebar_mode == SidebarMode::Settings,
    ensures
        s.settings_editing == Some(0usize) ==> key_effect(s, Key::Char(c), home) == (
            AppState {
                settings: SettingsView { download_dir: s.settings.download_dir.push(c), ..s.settings },
                ..s
            },
            ActionView::Nothing,
        ),
        (s.settings_editing == Some(1usize) && s.settings.watch_folder is Some) ==> key_effect(
            s,
            Key::Char(c),
            home,
        ).0.settings.watch_folder == Some(s.settings.watch_folder->0.push(c)),
        ({
            let v: int = match s.settings.global_speed_limit {
                Some(x) => 10 * x + (c as u32 - '0' as u32),
                None => c as u32 - '0' as u32,
            };
            s.settings_editing == Some(3usize) && '0' <= c <= '9' && 1 <= v <= 10 ==> key_effect(
                s,
                Key::Char(c),
                home,
            ).0.settings.global_speed_limit == Some(v as u32)
        }),
        s.settings_editing is Some ==> key_effect(s, Key::Char(c), home).1 == ActionView::Nothing,
{
}

/// Esc in Settings ends an edit; Enter there with the right pane focused
/// ends it too and asks for the settings to be saved.
pub proof fn lemma_settings_esc_enter(s: AppState, home: Seq<char>)
    requires
        s.sidebar_mode == SidebarMode::Settings,
    ensures
        key_effect(s, Key::Esc, home) == (AppState { settings_editing: None, ..s }, ActionView::Nothing),
        s.focus == Focus::Right ==> key_effect(s, Key::Enter, home) == (
            AppState { settings_editing: None, ..s },
            ActionView::SaveSettings,
        ),
{
}

/// A press in the sidebar column (left of column 20) focuses the sidebar and
/// picks Active above row 6, Finished above row 11, else Settings. A press in
/// the right pane on an existing row of the shown list (rows start 4 lines
/// down) focuses the right pane and selects that row, in every list mode; a
/// press below the list only focuses the right pane.
pub proof fn lemma_click_picks(s: AppState, column: u16, row: u16)
    ensures
        column < 20 && row < 6 ==> click_effect(s, column, row) == (AppState {
            focus: Focus::Sidebar,
            sidebar_mode: SidebarMode::Active,
            ..s
        }),
        column < 20 && 6 <= row < 11 ==> click_effect(s, column, row) == (AppState {
            focus: Focus::Sidebar,
            sidebar_mode: SidebarMode::Finished,
            ..s
        }),
        column < 20 && row >= 11 ==> click_effect(s, column, row) == (AppState {
            focus: Focus::Sidebar,
            sidebar_mode: SidebarMode::Settings,
            ..s
        }),
        column >= 20 && row >= 4 && s.sidebar_mode == SidebarMode::Active && row - 4 < s.active.len()
            ==> click_effect(s, column, row) == (AppState {
            focus: Focus::Right,
            selected: (row - 4) as usize,
            ..s
        }),
        column >= 20 && row >= 4 && s.sidebar_mode == SidebarMode::Finished && row - 4 < s.finished.len()
            ==> click_effect(s, column, row) == (AppState {
            focus: Focus::Right,
            selected: (row - 4) as usize,
            ..s
        }),
        column >= 20 && (s.sidebar_mode == SidebarMode::Home || s.sidebar_mode == SidebarMode::Settings)
            ==> click_effect(s, column, row) == (AppState { focus: Focus::Right, ..s }),
        column >= 20 && row >= 4 && row - 4 < list_len(s) ==> click_effect(s, column, row).selected == row - 4
            && click_effect(s, column, row).focus == Focus::Right,
{
}

/// Every clipboard text that is a magnet link, or an http(s) link to a
/// .torrent file, once trimmed, opens the add dialog for its trimmed text;
/// any other text opens nothing, and so does an empty clipboard.
pub proof fn lemma_links_open(l: Seq<char>)
    ensures
        has_prefix(trimmed(l), "magnet:?"@) ==> link_pending(Some(l)) == Some(PendingView::Url(trimmed(l))),
        ((has_prefix(trimmed(l), "http://"@) || has_prefix(trimmed(l), "https://"@)) && has_suffix(
            trimmed(l),
            ".torrent"@,
        )) ==> link_pending(Some(l)) == Some(PendingView::Url(trimmed(l))),
        !has_prefix(trimmed(l), "magnet:?"@) && !((has_prefix(trimmed(l), "http://"@) || has_prefix(
            trimmed(l),
            "https://"@,
        )) && has_suffix(trimmed(l), ".torrent"@)) ==> link_pending(Some(l)) is None,
        link_pending(None) is None,
{
}

/// A link pickup opens the dialog for its trimmed text exactly when
/// clipboard watching is on and the text is a magnet link or an http(s)
/// link to a .torrent file; a file pickup opens the dialog for its path
/// exactly when it lies within the watch folder.
pub proof fn lemma_pickups_open(st: SettingsView, u: Seq<char>)
    ensures
        (st.clipboard_watch && has_prefix(trimmed(u), "magnet:?"@)) ==> pickup_pending(st, PickupView::Url(u))
            == Some(PendingView::Url(trimmed(u))),
        (st.clipboard_watch && (has_prefix(trimmed(u), "http://"@) || has_prefix(trimmed(u), "https://"@))
            && has_suffix(trimmed(u), ".torrent"@)) ==> pickup_pending(st, PickupView::Url(u)) == Some(
            PendingView::Url(trimmed(u)),
        ),
        (st.watch_folder is Some && path_within(u, st.watch_folder->0)) ==> pickup_pending(
            st,
            PickupView::File(u),
        ) == Some(PendingView::File(u)),
        (st.watch_folder is Some && !path_within(u, st.watch_folder->0)) ==> pickup_pending(
            st,
            PickupView::File(u),
        ) is None,
{
}

/// Tab twice gives the keyboard back to the pane that had it, and changes
/// nothing else.
pub proof fn lemma_tab_twice(s: AppState, home: Seq<char>)
    ensures
        key_effect(key_effect(s, Key::Tab, home).0, Key::Tab, home).0 == s,
        key_effect(s, Key::Tab, home).1 == ActionView::Nothing,
{
}

/// With the sidebar focused, Down and Up may always be pressed; Down moves
/// to the next mode (Settings wraps to Home) and Up to the previous one
/// (Home wraps to Settings), changing nothing else and asking for nothing;
/// Down then Up returns to the same mode, and four Downs go round all modes
/// back to the first.
pub proof fn lemma_sidebar_cycle(s: AppState, home: Seq<char>)
    requires
        s.focus == Focus::Sidebar,
    ensures
        key_ready(s, Key::Down),
        key_ready(s, Key::Up),
        key_effect(s, Key::Down, home) == (
            AppState { sidebar_mode: mode_down(s.sidebar_mode), ..s },
            ActionView::Nothing,
        ),
        key_effect(s, Key::Up, home) == (
            AppState { sidebar_mode: mode_up(s.sidebar_mode), ..s },
            ActionView::Nothing,
        ),
        mode_down(SidebarMode::Settings) == SidebarMode::Home,
        mode_up(SidebarMode::Home) == SidebarMode::Settings,
        key_effect(key_effect(s, Key::Down, home).0, Key::Up, home).0 == s,
        key_effect(key_effect(s, Key::Up, home).0, Key::Down, home).0 == s,
        key_effect(
            key_effect(key_effect(key_effect(s, Key::Down, home).0, Key::Down, home).0, Key::Down, home).0,
            Key::Down,
            home,
        ).0 == s,
{
}

/// Tab hands the keyboard from the sidebar to the right pane and back,
/// changes nothing else and asks for nothing, whatever else is going on.
pub proof fn lemma_tab_switches_pane(s: AppState, home: Seq<char>)
    ensures
        s.focus == Focus::Sidebar ==> key_effect(s, Key::Tab, home) == (
            AppState { focus: Focus::Right, ..s },
            ActionView::Nothing,
        ),
        s.focus == Focus::Right ==> key_effect(s, Key::Tab, home) == (
            AppState { focus: Focus::Sidebar, ..s },
            ActionView::Nothing,
        ),
{
}

/// In the right pane of Active or Finished, Down moves the list cursor one
/// row down unless it is on the last row, and Up one row up unless it is on
/// the first; nothing else changes and nothing is asked for.
pub proof fn lemma_list_cursor_moves(s: AppState, home: Seq<char>)
    requires
        s.focus == Focus::Right,
        s.sidebar_mode == SidebarMode::Active || s.sidebar_mode == SidebarMode::Finished,
    ensures
        ({
            let n: int = if s.sidebar_mode == SidebarMode::Active {
                s.active.len() as int
            } else {
                s.finished.len() as int
            };
            &&& s.selected + 1 < n ==> key_effect(s, Key::Down, home) == (
                AppState { selected: (s.selected + 1) as usize, ..s },
                ActionView::Nothing,
            )
            &&& s.selected + 1 >= n ==> key_effect(s, Key::Down, home) == (s, ActionView::Nothing)
        }),
        s.selected > 0 ==> key_effect(s, Key::Up, home) == (
            AppState { selected: (s.selected - 1) as usize, ..s },
            ActionView::Nothing,
        ),
        s.selected == 0 ==> key_effect(s, Key::Up, home) == (s, ActionView::Nothing),
{
}

/// On Home with files found and the right pane focused, Down and Up move
/// the found-files cursor within the list of found files.
pub proof fn lemma_found_cursor_moves(s: AppState, home: Seq<char>)
    requires
        s.focus == Focus::Right,
        s.sidebar_mode == SidebarMode::Home,
        s.found.len() > 0,
    ensures
        s.home_file_focus + 1 < s.found.len() ==> key_effect(s, Key::Down, home) == (
            AppState { home_file_focus: (s.home_file_focus + 1) as usize, ..s },
            ActionView::Nothing,
        ),
        s.home_file_focus + 1 >= s.found.len() ==> key_effect(s, Key::Down, home) == (s, ActionView::Nothing),
        s.home_file_focus > 0 ==> key_effect(s, Key::Up, home) == (
            AppState { home_file_focus: (s.home_file_focus - 1) as usize, ..s },
            ActionView::Nothing,
        ),
        s.home_file_focus == 0 ==> key_effect(s, Key::Up, home) == (s, ActionView::Nothing),
{
}

/// In Settings with the right pane focused and no edit under way, Down and
/// Up move between the four settings rows, stopping at the first and last.
pub proof fn lemma_settings_cursor_moves(s: AppState, home: Seq<char>)
    requires
        s.focus == Focus::Right,
        s.sidebar_mode == SidebarMode::Settings,
        s.settings_editing is None,
    ensures
        s.settings_focus < 3 ==> key_effect(s, Key::Down, home) == (
            AppState { settings_focus: (s.settings_focus + 1) as usize, ..s },
            ActionView::Nothing,
        ),
        s.settings_focus == 3 ==> key_effect(s, Key::Down, home) == (s, ActionView::Nothing),
        s.settings_focus > 0 ==> key_effect(s, Key::Up, home) == (
            AppState { settings_focus: (s.settings_focus - 1) as usize, ..s },
            ActionView::Nothing,
        ),
        s.settings_focus == 0 ==> key_effect(s, Key::Up, home) == (s, ActionView::Nothing),
{
}

/// In Active, Space asks to flip the download mark of the detail pane's
/// focused file of the torrent under the cursor: it asks to deselect it when
/// the pane shows that file selected, and to select it otherwise. With no
/// torrent under the cursor it asks for nothing. The screen does not change.
pub proof fn lemma_space_marks_file(s: AppState, home: Seq<char>)
    requires
        s.sidebar_mode == SidebarMode::Active,
    ensures
        s.selected < s.active.len() ==> key_effect(s, Key::Char(' '), home) == (
            s,
            ActionView::SelectFile {
                id: s.active[s.selected as int],
                file_index: s.detail_file_focus,
                selected: !(s.detail_flags is Some && (s.detail_flags->0).0 == s.active[s.selected as int]
                    && s.detail_file_focus < (s.detail_flags->0).1.len()
                    && (s.detail_flags->0).1[s.detail_file_focus as int]),
            },
        ),
        s.selected >= s.active.len() ==> key_effect(s, Key::Char(' '), home) == (s, ActionView::Nothing),
{
}

/// In Settings with the right pane focused and no edit under way, 'e'
/// starts editing the row under the cursor, except the clipboard row, which
/// is switched with Space only.
pub proof fn lemma_settings_edit_starts(s: AppState, home: Seq<char>)
    requires
        s.focus == Focus::Right,
        s.sidebar_mode == SidebarMode::Settings,
        s.settings_editing is None,
    ensures
        s.settings_focus != 2 ==> key_effect(s, Key::Char('e'), home) == (
            AppState { settings_editing: Some(s.settings_focus), ..s },
            ActionView::Nothing,
        ),
        s.settings_focus == 2 ==> key_effect(s, Key::Char('e'), home) == (s, ActionView::Nothing),
{
}

/// While a settings field is edited, Backspace drops the last character of
/// the download folder (row 0) or of a switched-on watch folder (row 1), and
/// the last digit of the speed limit (row 3), leaving it unlimited when one
/// digit was left. Nothing is asked for.
pub proof fn lemma_settings_erasing(s: AppState, home: Seq<char>)
    requires
        s.sidebar_mode == SidebarMode::Settings,
    ensures
        s.settings_editing == Some(0usize) && s.settings.download_dir.len() > 0 ==> key_effect(
            s,
            Key::Backspace,
            home,
        ) == (
            AppState {
                settings: SettingsView { download_dir: s.settings.download_dir.drop_last(), ..s.settings },
                ..s
            },
            ActionView::Nothing,
        ),
        (s.settings_editing == Some(1usize) && s.settings.watch_folder is Some
            && s.settings.watch_folder->0.len() > 0) ==> key_effect(s, Key::Backspace, home).0.settings.watch_folder
            == Some(s.settings.watch_folder->0.drop_last()),
        (s.settings_editing == Some(3usize) && s.settings.global_speed_limit is Some
            && s.settings.global_speed_limit->0 < 10) ==> key_effect(
            s,
            Key::Backspace,
            home,
        ).0.settings.global_speed_limit is None,
        s.settings_editing is Some ==> key_effect(s, Key::Backspace, home).1 == ActionView::Nothing,
{
}

/// Keys with no meaning where they are pressed change nothing and ask for
/// nothing: an unknown key; Esc outside Settings; Backspace, BackTab, Left
/// and Right outside a settings edit; a character that is no command; the
/// paste keys outside Home; 'r' outside Active; 'd' outside the torrent
/// lists; 't' outside Finished; and Space on Home or Finished.
pub proof fn lemma_inert_keys(s: AppState, c: char, home: Seq<char>)
    requires
        !(s.sidebar_mode == SidebarMode::Settings && s.settings_editing is Some),
    ensures
        key_effect(s, Key::Other, home) == (s, ActionView::Nothing),
        key_effect(s, Key::BackTab, home) == (s, ActionView::Nothing),
        key_effect(s, Key::Left, home) == (s, ActionView::Nothing),
        key_effect(s, Key::Right, home) == (s, ActionView::Nothing),
        key_effect(s, Key::Backspace, home) == (s, ActionView::Nothing),
        s.sidebar_mode != SidebarMode::Settings ==> key_effect(s, Key::Esc, home) == (s, ActionView::Nothing),
        (c != 'q' && c != '1' && c != '2' && c != '3' && c != '4' && c != 'p' && c != 'P' && c != 'n'
            && c != 'N' && c != 'r' && c != 'd' && c != 't' && c != ' ' && c != 'e') ==> key_effect(
            s,
            Key::Char(c),
            home,
        ) == (s, ActionView::Nothing),
        (s.sidebar_mode != SidebarMode::Home && (c == 'p' || c == 'P' || c == 'n' || c == 'N')) ==> key_effect(
            s,
            Key::Char(c),
            home,
        ) == (s, ActionView::Nothing),
        s.sidebar_mode != SidebarMode::Active ==> key_effect(s, Key::Char('r'), home) == (s, ActionView::Nothing),
        (s.sidebar_mode == SidebarMode::Home || s.sidebar_mode == SidebarMode::Settings) ==> key_effect(
            s,
            Key::Char('d'),
            home,
        ) == (s, ActionView::Nothing),
        s.sidebar_mode != SidebarMode::Finished ==> key_effect(s, Key::Char('t'), home) == (s, ActionView::Nothing),
        (s.sidebar_mode == SidebarMode::Home || s.sidebar_mode == SidebarMode::Finished) ==> key_effect(
            s,
            Key::Char(' '),
            home,
        ) == (s, ActionView::Nothing),
        s.sidebar_mode != SidebarMode::Settings ==> key_effect(s, Key::Char('e'), home) == (s, ActionView::Nothing),
{
}

/// The cursors that the key handler keeps in range: the found-files cursor
/// on the list of found files, the settings cursor on the four rows, and a
/// speed limit that is unlimited or 1..=10.
pub open spec fn cursors_in_range(s: AppState) -> bool {
    &&& s.found.len() > 0 ==> s.home_file_focus < s.found.len()
    &&& s.settings_focus < 4
    &&& crate::config::limit_in_range(s.settings.global_speed_limit)
}

/// Every key keeps the cursors in range.
pub proof fn lemma_keys_keep_cursors(s: AppState, key: Key, home: Seq<char>)
    requires
        cursors_in_range(s),
    ensures
        cursors_in_range(key_effect(s, key, home).0),
{
    match s.settings_editing {
        Some(row) => {
            if key is Char {
                match ascii_digit(key->Char_0) {
                    Some(d) => crate::config::lemma_digit_keeps_limit_in_range(s.settings.global_speed_limit, d),
                    None => {},
                }
            }
        },
        None => {},
    }
}

/// In the right pane, Down never moves the list cursor past the last row of
/// the shown list, and Up never below the first.
pub proof fn lemma_list_cursor_bounded(s: AppState, home: Seq<char>)
    requires
        s.focus == Focus::Right,
        s.sidebar_mode == SidebarMode::Active || s.sidebar_mode == SidebarMode::Finished,
        s.selected < list_len(s),
    ensures
        key_effect(s, Key::Down, home).0.selected < list_len(s),
        key_effect(s, Key::Up, home).0.selected < list_len(s),
        key_effect(s, Key::Down, home).0.sidebar_mode == s.sidebar_mode,
{
}

/// A pickup never opens a source while its watcher is switched off: links
/// need clipboard watching, files need a watch folder.
pub proof fn lemma_pickups_respect_switches(st: SettingsView, p: PickupView)
    ensures
        (p is Url && !st.clipboard_watch) ==> pickup_pending(st, p) is None,
        (p is File && st.watch_folder is None) ==> pickup_pending(st, p) is None,
        p is Status ==> pickup_pending(st, p) is None,
{
}

} // verus!
