//! The screen's state: which mode the sidebar shows, which pane has the
//! keyboard, what is selected, and the torrent lists on display. The
//! texts that the drawing code shows are computed in `view`.

use vstd::prelude::*;
use crate::config::{Settings, SettingsView};
use crate::engine::{TorrentInfo, TorrentDetails, TorrentView};

verus! {

/// Which sidebar mode is active.
#[derive(Debug, Clone, Copy, PartialEq, Eq, Structural)]
pub enum SidebarMode {
    Home,
    Active,
    Finished,
    Settings,
}

/// Which pane currently holds keyboard focus.
#[derive(Debug, Clone, Copy, PartialEq, Eq, Structural)]
pub enum Focus {
    Sidebar,
    Right,
}

/// All UI state.
pub struct App {
    pub settings: Settings,
    pub torrents: Vec<TorrentInfo>,
    pub finished: Vec<TorrentInfo>,
    pub selected: usize,
    pub sidebar_mode: SidebarMode,
    pub focus: Focus,
    pub status: String,
    pub details: Option<TorrentDetails>,
    pub detail_file_focus: usize,
    pub settings_focus: usize,
    pub settings_editing: Option<usize>,
    /// .torrent files discovered in download_dir (shown as a popup on Home).
    pub home_found_files: Vec<String>,
    /// Selected index within `home_found_files` popup.
    pub home_file_focus: usize,
}

/// What the key and mouse handling reads and changes of the UI state, as
/// plain values: the settings, the ids of the listed torrents, and the
/// cursors.
pub struct AppState {
    pub settings: SettingsView,
    pub active: Seq<usize>,
    pub finished: Seq<usize>,
    pub selected: usize,
    pub sidebar_mode: SidebarMode,
    pub focus: Focus,
    pub detail_file_focus: usize,
    /// The torrent id of the detail pane and its files' selection marks.
    pub detail_flags: Option<(usize, Seq<bool>)>,
    pub settings_focus: usize,
    pub settings_editing: Option<usize>,
    pub found: Seq<Seq<char>>,
    pub home_file_focus: usize,
}

/// The ids of a list of torrents.
pub open spec fn ids_of(v: Seq<TorrentInfo>) -> Seq<usize> {
    v.map_values(|t: TorrentInfo| t.id)
}

/// The texts of a list of strings.
pub open spec fn texts_of(v: Seq<String>) -> Seq<Seq<char>> {
    v.map_values(|s: String| s@)
}

/// The views of a list of torrents.
pub open spec fn torrent_views(v: Seq<TorrentInfo>) -> Seq<TorrentView> {
    v.map_values(|t: TorrentInfo| t@)
}

impl View for App {
    type V = AppState;

    open spec fn view(&self) -> AppState {
        AppState {
            settings: self.settings@,
            active: ids_of(self.torrents@),
            finished: ids_of(self.finished@),
            selected: self.selected,
            sidebar_mode: self.sidebar_mode,
            focus: self.focus,
            detail_file_focus: self.detail_file_focus,
            detail_flags: match self.details {
                Some(d) => Some((d.id, d.files@.map_values(|f: crate::engine::FileInfo| f.selected))),
                None => None,
            },
            settings_focus: self.settings_focus,
            settings_editing: self.settings_editing,
            found: texts_of(self.home_found_files@),
            home_file_focus: self.home_file_focus,
        }
    }
}

impl App {
    /// The torrents shown for the current mode.
    pub open spec fn shown_list(&self) -> Seq<TorrentInfo> {
        if self.sidebar_mode == SidebarMode::Finished {
            self.finished@
        } else {
            self.torrents@
        }
    }

    /// The starting screen: Home, right pane focused, nothing listed,
    /// status "ready".
    pub fn new(settings: Settings) -> (res: App)
        ensures
            res.settings == settings,
            res.torrents@.len() == 0,
            res.finished@.len() == 0,
            res.selected == 0,
            res.sidebar_mode == SidebarMode::Home,
            res.focus == Focus::Right,
            res.status@ == "ready"@,
            res.details is None,
            res.detail_file_focus == 0,
            res.settings_focus == 0,
            res.settings_editing is None,
            res.home_found_files@.len() == 0,
            res.home_file_focus == 0,
    {
        App {
            settings,
            torrents: Vec::new(),
            finished: Vec::new(),
            selected: 0,
            sidebar_mode: SidebarMode::Home,
            focus: Focus::Right,
            status: crate::text::string_of(&crate::text::chars_of("ready")),
            details: None,
            detail_file_focus: 0,
            settings_focus: 0,
            settings_editing: None,
            home_found_files: Vec::new(),
            home_file_focus: 0,
        }
    }

    /// The torrent list shown for the current mode: finished ones in
    /// Finished mode, the queue otherwise.
    pub fn current_list(&self) -> (res: &Vec<TorrentInfo>)
        ensures
            res@ == self.shown_list(),
            self.sidebar_mode == SidebarMode::Finished ==> res == &self.finished,
            self.sidebar_mode != SidebarMode::Finished ==> res == &self.torrents,
    {
        match self.sidebar_mode {
            SidebarMode::Home => &self.torrents,
            SidebarMode::Active => &self.torrents,
            SidebarMode::Finished => &self.finished,
            SidebarMode::Settings => &self.torrents,
        }
    }
}

} // verus!
