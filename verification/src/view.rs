//! The texts and highlights that the screen shows, computed from the UI
//! state. The application lays them out and paints them.

use vstd::prelude::*;
use crate::config::Settings;
use crate::engine::{TorrentDetails, decimal_usize};
use crate::text::{
    chars_of, concat_str, decimal, decimal_u32, pad_left, pad_left_str, string_of, trim, trim_to,
};
use crate::ui::{App, Focus, SidebarMode};

verus! {

/// A fixed text as a `String`.
fn owned(s: &str) -> (res: String)
    ensures
        res@ == s@,
{
    string_of(&chars_of(s))
}

/// "on" or "off".
pub open spec fn on_off(b: bool) -> Seq<char> {
    if b {
        "on"@
    } else {
        "off"@
    }
}

/// How the settings screen shows the watch folder.
pub open spec fn watch_text(w: Option<Seq<char>>) -> Seq<char> {
    match w {
        Some(p) => "on ("@ + p + ")"@,
        None => "off"@,
    }
}

/// How the settings screen shows the speed limit.
pub open spec fn limit_text(l: Option<u32>) -> Seq<char> {
    match l {
        Some(v) => decimal(v as nat) + " MB/s"@,
        None => "off"@,
    }
}

/// The four rows of the settings screen, as (label, value) pairs: download
/// folder, watch folder, clipboard watching, speed limit.
pub fn settings_rows(s: &Settings) -> (res: Vec<(String, String)>)
    ensures
        res@.len() == 4,
        res@[0].0@ == "download_dir"@ && res@[0].1@ == s.download_dir@,
        res@[1].0@ == "watch_folder"@ && res@[1].1@ == watch_text(s@.watch_folder),
        res@[2].0@ == "clipboard_watch"@ && res@[2].1@ == on_off(s.clipboard_watch),
        res@[3].0@ == "speed_limit"@ && res@[3].1@ == limit_text(s.global_speed_limit),
{
    let watch = match &s.watch_folder {
        Some(w) => {
            let head = concat_str("on (", w.as_str());
            concat_str(head.as_str(), ")")
        },
        None => owned("off"),
    };
    let lim = match s.global_speed_limit {
        Some(v) => concat_str(decimal_u32(v).as_str(), " MB/s"),
        None => owned("off"),
    };
    let clip = if s.clipboard_watch {
        owned("on")
    } else {
        owned("off")
    };
    let mut rows: Vec<(String, String)> = Vec::new();
    rows.push((owned("download_dir"), string_of(&chars_of(s.download_dir.as_str()))));
    rows.push((owned("watch_folder"), watch));
    rows.push((owned("clipboard_watch"), clip));
    rows.push((owned("speed_limit"), lim));
    rows
}

/// The bottom legend: the global keys, then the keys of the mode.
pub open spec fn legend_text(mode: SidebarMode) -> Seq<char> {
    "1 Home  2 Active  3 Finished  4 Settings  ↑/↓ nav  Tab focus  q quit | "@ + match mode {
        SidebarMode::Home => "p paste  n new  enter start"@,
        SidebarMode::Active => "r remove  d delete  space file"@,
        SidebarMode::Finished => "d delete  t remove .torrent"@,
        SidebarMode::Settings => "space=toggle  type=edit  enter=save"@,
    }
}

/// The bottom legend for `mode`.
pub fn legend(mode: SidebarMode) -> (res: String)
    ensures
        res@ == legend_text(mode),
{
    let tail = match mode {
        SidebarMode::Home => "p paste  n new  enter start",
        SidebarMode::Active => "r remove  d delete  space file",
        SidebarMode::Finished => "d delete  t remove .torrent",
        SidebarMode::Settings => "space=toggle  type=edit  enter=save",
    };
    concat_str("1 Home  2 Active  3 Finished  4 Settings  ↑/↓ nav  Tab focus  q quit | ", tail)
}

/// Which panes the screen shows.
#[derive(Debug, Clone, Copy, PartialEq, Eq, Structural)]
pub struct Panes {
    /// The Home banner and quick actions.
    pub home: bool,
    /// The torrent list or, in Settings mode, the settings rows.
    pub top: bool,
    /// The detail pane under the list.
    pub detail: bool,
    /// The sidebar of modes.
    pub sidebar: bool,
    /// The popup of .torrent files found in the download folder.
    pub found_popup: bool,
}

/// The panes of each mode: Home shows its banner (and the found-files popup
/// when there are any) without the sidebar; Settings shows the settings rows
/// and the sidebar; the list modes show list, detail and sidebar.
pub open spec fn panes_of(mode: SidebarMode, found: nat) -> Panes {
    Panes {
        home: mode == SidebarMode::Home,
        top: mode != SidebarMode::Home,
        detail: mode == SidebarMode::Active || mode == SidebarMode::Finished,
        sidebar: mode != SidebarMode::Home,
        found_popup: mode == SidebarMode::Home && found > 0,
    }
}

/// A row of the torrent list.
pub struct QueueRow {
    /// 1-based position, right-aligned in two columns, then a space.
    pub number: String,
    /// The torrent's name cut to 24 characters.
    pub name: String,
    /// Whether the list cursor is on this row.
    pub selected: bool,
    /// "done" in Finished mode, "live" otherwise.
    pub state_label: &'static str,
    /// The row actions of the mode.
    pub hint: &'static str,
}

/// The label of a list row's state.
pub open spec fn state_label_text(mode: SidebarMode) -> Seq<char> {
    if mode == SidebarMode::Finished {
        "done"@
    } else {
        "live"@
    }
}

/// The row actions shown in a list row.
pub open spec fn hint_text(mode: SidebarMode) -> Seq<char> {
    if mode == SidebarMode::Finished {
        "[Remove|Del|.torrent]"@
    } else {
        "[Remove|Del]"@
    }
}

/// Sidebar entry `i`: its mode and label.
pub open spec fn sidebar_entry(i: int) -> (SidebarMode, Seq<char>) {
    if i == 0 {
        (SidebarMode::Home, "Home"@)
    } else if i == 1 {
        (SidebarMode::Active, "Active"@)
    } else if i == 2 {
        (SidebarMode::Finished, "Finished"@)
    } else {
        (SidebarMode::Settings, "Settings"@)
    }
}

/// Position of a mode in the sidebar.
pub open spec fn mode_index(m: SidebarMode) -> usize {
    match m {
        SidebarMode::Home => 0,
        SidebarMode::Active => 1,
        SidebarMode::Finished => 2,
        SidebarMode::Settings => 3,
    }
}

/// Splits `map` into rows of `width` cells; the last row holds the rest.
pub open spec fn chunk_rows(map: Seq<bool>, width: nat) -> Seq<Seq<bool>>
    decreases map.len(),
{
    if map.len() == 0 || width == 0 {
        seq![]
    } else if map.len() <= width {
        seq![map]
    } else {
        seq![map.take(width as int)] + chunk_rows(map.skip(width as int), width)
    }
}

/// The rows of the piece map put back together give the map, in order;
/// every row holds between one and `width` cells, and every row but the
/// last holds exactly `width`.
pub proof fn lemma_chunk_rows(map: Seq<bool>, width: nat)
    requires
        width > 0,
    ensures
        chunk_rows(map, width).flatten() == map,
        forall|r: int|
            0 <= r < chunk_rows(map, width).len() ==> 1 <= (#[trigger] chunk_rows(map, width)[r]).len() <= width,
        forall|r: int|
            0 <= r < chunk_rows(map, width).len() - 1 ==> (#[trigger] chunk_rows(map, width)[r]).len() == width,
    decreases map.len(),
{
    let rows = chunk_rows(map, width);
    if map.len() == 0 {
        assert(rows.flatten() =~= map);
    } else if map.len() <= width {
        assert(rows.drop_first() =~= Seq::<Seq<bool>>::empty());
        assert(rows.drop_first().flatten() =~= Seq::<bool>::empty());
        assert(rows.first() == map);
        assert(map + Seq::<bool>::empty() =~= map);
    } else {
        let rest = map.skip(width as int);
        lemma_chunk_rows(rest, width);
        assert(rows.drop_first() =~= chunk_rows(rest, width));
        assert(rows.first() == map.take(width as int));
        assert(map.take(width as int) + rest =~= map);
        assert forall|r: int| 0 <= r < rows.len() implies 1 <= (#[trigger] rows[r]).len() <= width by {
            if r > 0 {
                assert(rows[r] == chunk_rows(rest, width)[r - 1]);
            }
        }
        assert forall|r: int| 0 <= r < rows.len() - 1 implies (#[trigger] rows[r]).len() == width by {
            if r > 0 {
                assert(rows[r] == chunk_rows(rest, width)[r - 1]);
            }
        }
    }
}

impl App {
    /// Which panes are drawn for the current mode.
    pub fn panes(&self) -> (res: Panes)
        ensures
            res == panes_of(self.sidebar_mode, self.home_found_files@.len()),
    {
        let mode = self.sidebar_mode;
        Panes {
            home: mode == SidebarMode::Home,
            top: mode != SidebarMode::Home,
            detail: mode == SidebarMode::Active || mode == SidebarMode::Finished,
            sidebar: mode != SidebarMode::Home,
            found_popup: mode == SidebarMode::Home && self.home_found_files.len() > 0,
        }
    }

    /// Title of the list pane.
    pub fn list_title(&self) -> (res: &'static str)
        ensures
            res@ == (if self.sidebar_mode == SidebarMode::Finished {
                " finished "@
            } else {
                " queue "@
            }),
    {
        if self.sidebar_mode == SidebarMode::Finished {
            " finished "
        } else {
            " queue "
        }
    }

    /// Row `i` of the shown torrent list.
    pub fn queue_row(&self, i: usize) -> (res: QueueRow)
        requires
            i < self.shown_list().len(),
            i < usize::MAX,
        ensures
            res.number@ == pad_left(decimal((i + 1) as nat), 2) + " "@,
            res.name@ == trim_to(self.shown_list()[i as int].name@, 24),
            res.selected == (i == self.selected),
            res.state_label@ == state_label_text(self.sidebar_mode),
            res.hint@ == hint_text(self.sidebar_mode),
    {
        let list = self.current_list();
        let n = decimal_usize(i + 1);
        let padded = pad_left_str(n.as_str(), 2);
        let number = concat_str(padded.as_str(), " ");
        let finished = self.sidebar_mode == SidebarMode::Finished;
        QueueRow {
            number,
            name: trim(list[i].name.as_str(), 24),
            selected: i == self.selected,
            state_label: if finished {
                "done"
            } else {
                "live"
            },
            hint: if finished {
                "[Remove|Del|.torrent]"
            } else {
                "[Remove|Del]"
            },
        }
    }

    /// Whether settings row `i` carries the cursor.
    pub fn settings_row_focused(&self, i: usize) -> (res: bool)
        ensures
            res == (self.focus == Focus::Right && i == self.settings_focus),
    {
        self.focus == Focus::Right && i == self.settings_focus
    }

    /// The sidebar: for each mode its text ("> " before the current mode,
    /// "  " before the others) and whether it is the current one.
    pub fn sidebar_items(&self) -> (res: Vec<(String, bool)>)
        ensures
            res@.len() == 4,
            forall|i: int|
                0 <= i < 4 ==> (#[trigger] res@[i]).1 == (sidebar_entry(i).0 == self.sidebar_mode)
                    && res@[i].0@ == (if sidebar_entry(i).0 == self.sidebar_mode {
                    ">"@
                } else {
                    " "@
                }) + " "@ + sidebar_entry(i).1,
    {
        let mut out: Vec<(String, bool)> = Vec::new();
        let mut i: usize = 0;
        while i < 4
            invariant
                i <= 4,
                out@.len() == i,
                forall|j: int|
                    0 <= j < i ==> (#[trigger] out@[j]).1 == (sidebar_entry(j).0 == self.sidebar_mode)
                        && out@[j].0@ == (if sidebar_entry(j).0 == self.sidebar_mode {
                        ">"@
                    } else {
                        " "@
                    }) + " "@ + sidebar_entry(j).1,
            decreases 4 - i,
        {
            let (mode, label) = if i == 0 {
                (SidebarMode::Home, "Home")
            } else if i == 1 {
                (SidebarMode::Active, "Active")
            } else if i == 2 {
                (SidebarMode::Finished, "Finished")
            } else {
                (SidebarMode::Settings, "Settings")
            };
            let current = mode == self.sidebar_mode;
            let prefix = if current {
                "> "
            } else {
                "  "
            };
            proof {
                reveal_strlit("> ");
                reveal_strlit(">");
                reveal_strlit("  ");
                reveal_strlit(" ");
                assert(">"@ + " "@ =~= "> "@);
                assert(" "@ + " "@ =~= "  "@);
            }
            out.push((concat_str(prefix, label), current));
            i = i + 1;
        }
        out
    }

    /// Position of the current mode in the sidebar.
    pub fn sidebar_index(&self) -> (res: usize)
        ensures
            res == mode_index(self.sidebar_mode),
    {
        match self.sidebar_mode {
            SidebarMode::Home => 0,
            SidebarMode::Active => 1,
            SidebarMode::Finished => 2,
            SidebarMode::Settings => 3,
        }
    }

    /// Rows of the found-files popup: a marker (">" on the cursor's row),
    /// the file name, and whether the cursor is on it.
    pub fn found_rows(&self) -> (res: Vec<(&'static str, String, bool)>)
        ensures
            res@.len() == self.home_found_files@.len(),
            forall|i: int|
                0 <= i < res@.len() ==> (#[trigger] res@[i]).2 == (i == self.home_file_focus)
                    && res@[i].1 == self.home_found_files@[i] && res@[i].0@ == (if i
                    == self.home_file_focus {
                    "> "@
                } else {
                    "  "@
                }),
    {
        let mut out: Vec<(&'static str, String, bool)> = Vec::new();
        let mut i: usize = 0;
        while i < self.home_found_files.len()
            invariant
                i <= self.home_found_files@.len(),
                out@.len() == i,
                forall|j: int|
                    0 <= j < i ==> (#[trigger] out@[j]).2 == (j == self.home_file_focus) && out@[j].1
                        == self.home_found_files@[j] && out@[j].0@ == (if j == self.home_file_focus {
                        "> "@
                    } else {
                        "  "@
                    }),
            decreases self.home_found_files@.len() - i,
        {
            let focused = i == self.home_file_focus;
            let mark = if focused {
                "> "
            } else {
                "  "
            };
            out.push((mark, self.home_found_files[i].clone(), focused));
            i = i + 1;
        }
        out
    }
}

/// Lines of the detail pane's file checklist: "[x] " or "[ ] ", the name cut
/// to 46 characters, and whether the file cursor is on it (only while the
/// right pane has the keyboard).
pub fn detail_file_lines(app: &App, details: &TorrentDetails) -> (res: Vec<(&'static str, String, bool)>)
    ensures
        res@.len() == details.files@.len(),
        forall|i: int|
            0 <= i < res@.len() ==> (#[trigger] res@[i]).0@ == (if details.files@[i].selected {
                "[x] "@
            } else {
                "[ ] "@
            }) && res@[i].1@ == trim_to(details.files@[i].name@, 46) && res@[i].2 == (app.focus
                == Focus::Right && i == app.detail_file_focus),
{
    let mut out: Vec<(&'static str, String, bool)> = Vec::new();
    let mut i: usize = 0;
    while i < details.files.len()
        invariant
            i <= details.files@.len(),
            out@.len() == i,
            forall|j: int|
                0 <= j < i ==> (#[trigger] out@[j]).0@ == (if details.files@[j].selected {
                    "[x] "@
                } else {
                    "[ ] "@
                }) && out@[j].1@ == trim_to(details.files@[j].name@, 46) && out@[j].2 == (app.focus
                    == Focus::Right && j == app.detail_file_focus),
        decreases details.files@.len() - i,
    {
        let f = &details.files[i];
        let mark = if f.selected {
            "[x] "
        } else {
            "[ ] "
        };
        out.push((mark, trim(f.name.as_str(), 46), app.focus == Focus::Right && i == app.detail_file_focus));
        i = i + 1;
    }
    out
}

/// The piece map cut into rows of `width` cells for the detail pane.
pub fn piece_rows(map: &Vec<bool>, width: usize) -> (res: Vec<Vec<bool>>)
    requires
        width > 0,
    ensures
        res@.map_values(|r: Vec<bool>| r@) == chunk_rows(map@, width as nat),
{
    let mut out: Vec<Vec<bool>> = Vec::new();
    let mut start: usize = 0;
    let n = map.len();
    assert(map@.skip(0) =~= map@);
    assert(out@.map_values(|r: Vec<bool>| r@) =~= Seq::<Seq<bool>>::empty());
    while start < n
        invariant
            width > 0,
            n == map@.len(),
            start <= n,
            out@.map_values(|r: Vec<bool>| r@) + chunk_rows(map@.skip(start as int), width as nat)
                == chunk_rows(map@, width as nat),
        decreases n - start,
    {
        let end: usize = if n - start <= width {
            n
        } else {
            start + width
        };
        let mut row: Vec<bool> = Vec::new();
        let mut k: usize = start;
        while k < end
            invariant
                start <= k <= end,
                end <= n,
                n == map@.len(),
                row@ =~= map@.subrange(start as int, k as int),
            decreases end - k,
        {
            row.push(map[k]);
            k = k + 1;
        }
        let ghost rest = map@.skip(start as int);
        proof {
            if n - start <= width {
                assert(chunk_rows(rest, width as nat) == seq![rest]);
                assert(row@ =~= rest);
                assert(map@.skip(n as int) =~= Seq::<bool>::empty());
            } else {
                assert(chunk_rows(rest, width as nat) == seq![rest.take(width as int)] + chunk_rows(
                    rest.skip(width as int),
                    width as nat,
                ));
                assert(row@ =~= rest.take(width as int));
                assert(rest.skip(width as int) =~= map@.skip(end as int));
            }
        }
        let ghost before = out@.map_values(|r: Vec<bool>| r@);
        out.push(row);
        proof {
            assert(out@.map_values(|r: Vec<bool>| r@) =~= before.push(row@));
            if n - start <= width {
                assert(chunk_rows(map@.skip(end as int), width as nat) =~= Seq::<Seq<bool>>::empty());
                assert(before.push(row@) =~= before + seq![rest]);
            } else {
                assert(before.push(row@) + chunk_rows(map@.skip(end as int), width as nat) =~= before + (
                seq![rest.take(width as int)] + chunk_rows(rest.skip(width as int), width as nat)));
            }
        }
        start = end;
    }
    proof {
        assert(chunk_rows(map@.skip(n as int), width as nat) =~= Seq::<Seq<bool>>::empty()) by {
            assert(map@.skip(n as int).len() == 0);
        }
        assert(out@.map_values(|r: Vec<bool>| r@) + Seq::<Seq<bool>>::empty() =~= out@.map_values(
            |r: Vec<bool>| r@,
        ));
    }
    out
}

/// The header lines of the detail pane: the name cut to 40 characters and
/// the seeder and leecher counts.
pub fn detail_header(details: &TorrentDetails) -> (res: (String, String, String))
    ensures
        res.0@ == trim_to(details.name@, 40),
        res.1@ == decimal(details.seeders as nat),
        res.2@ == decimal(details.leechers as nat),
{
    (trim(details.name.as_str(), 40), decimal_u32(details.seeders), decimal_u32(details.leechers))
}

} // verus!
