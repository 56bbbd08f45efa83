//! User settings and the rules for editing the speed limit.
//!
//! Reading and writing the TOML file is done by the application around the
//! library; here stand the settings themselves, their defaults and the
//! arithmetic of the digit-by-digit speed-limit editor.

use vstd::prelude::*;
use crate::text::concat_str;

verus! {

/// Persisted user settings.
#[derive(Debug, Clone)]
pub struct Settings {
    /// Folder watched for .torrent files (auto-add).
    pub watch_folder: Option<String>,
    /// Download destination for new torrents.
    pub download_dir: String,
    /// Enable clipboard link pickup.
    pub clipboard_watch: bool,
    /// Default speed limit in MB/s applied to new torrents. None = unlimited.
    pub global_speed_limit: Option<u32>,
}

/// Settings as plain values.
pub struct SettingsView {
    pub watch_folder: Option<Seq<char>>,
    pub download_dir: Seq<char>,
    pub clipboard_watch: bool,
    pub global_speed_limit: Option<u32>,
}

impl View for Settings {
    type V = SettingsView;

    open spec fn view(&self) -> SettingsView {
        SettingsView {
            watch_folder: match self.watch_folder {
                Some(w) => Some(w@),
                None => None,
            },
            download_dir: self.download_dir@,
            clipboard_watch: self.clipboard_watch,
            global_speed_limit: self.global_speed_limit,
        }
    }
}

/// The default download folder under the home folder `home`.
pub open spec fn download_dir_under(home: Seq<char>) -> Seq<char> {
    home + "/Downloads/tordln"@
}

/// The watch folder that the settings screen switches on under `home`.
pub open spec fn watch_dir_under(home: Seq<char>) -> Seq<char> {
    home + "/Downloads/tordln-watch"@
}

/// Default download destination: `{home}/Downloads/tordln`.
pub fn default_download_dir(home: &str) -> (res: String)
    ensures
        res@ == download_dir_under(home@),
{
    concat_str(home, "/Downloads/tordln")
}

/// The watch folder switched on from the settings screen:
/// `{home}/Downloads/tordln-watch`.
pub fn default_watch_folder(home: &str) -> (res: String)
    ensures
        res@ == watch_dir_under(home@),
{
    concat_str(home, "/Downloads/tordln-watch")
}

impl Settings {
    /// The settings used when none are stored: no watch folder, downloads
    /// under `{home}/Downloads/tordln`, clipboard watching on, no limit.
    pub fn defaults(home: &str) -> (res: Settings)
        ensures
            res.watch_folder is None,
            res.download_dir@ == download_dir_under(home@),
            res.clipboard_watch,
            res.global_speed_limit is None,
    {
        Settings {
            watch_folder: None,
            download_dir: default_download_dir(home),
            clipboard_watch: true,
            global_speed_limit: None,
        }
    }
}

/// The digit that `c` stands for, if it is an ASCII digit.
pub open spec fn ascii_digit(c: char) -> Option<nat> {
    if '0' <= c && c <= '9' {
        Some((c as u32 - '0' as u32) as nat)
    } else {
        None
    }
}

/// The value that typing the digit `d` after the decimal text of `cur`
/// parses to (the empty text when `cur` is `None`).
pub open spec fn appended_value(cur: Option<u32>, d: nat) -> int {
    match cur {
        Some(v) => 10 * v + d,
        None => d as int,
    }
}

/// Speed limit after typing the digit `d`: the appended value if it lies in
/// 1..=10, 1 if it is 0, and otherwise (too large, or not a `u32`) unchanged.
pub open spec fn limit_after_digit(cur: Option<u32>, d: nat) -> Option<u32> {
    let v = appended_value(cur, d);
    if v > u32::MAX {
        cur
    } else if 1 <= v <= 10 {
        Some(v as u32)
    } else if v == 0 {
        Some(1)
    } else {
        cur
    }
}

/// Speed limit after deleting its last digit: unlimited when a single digit
/// (or nothing) was left, else the shortened number if it lies in 1..=10,
/// else unlimited.
pub open spec fn limit_after_backspace(cur: Option<u32>) -> Option<u32> {
    match cur {
        None => None,
        Some(v) => if v < 10 {
            None
        } else if v / 10 <= 10 {
            Some((v / 10) as u32)
        } else {
            None
        },
    }
}

/// A speed limit that the editor keeps: unlimited or 1..=10 MB/s.
pub open spec fn limit_in_range(l: Option<u32>) -> bool {
    match l {
        None => true,
        Some(v) => 1 <= v <= 10,
    }
}

/// The digit value of `c`, if `c` is an ASCII digit.
pub fn digit_value(c: char) -> (res: Option<u32>)
    ensures
        match ascii_digit(c) {
            Some(d) => res == Some(d as u32),
            None => res is None,
        },
{
    if '0' <= c && c <= '9' {
        Some((c as u32) - ('0' as u32))
    } else {
        None
    }
}

/// Applies one typed digit to the global speed limit.
pub fn speed_limit_after_digit(cur: Option<u32>, d: u32) -> (res: Option<u32>)
    requires
        d < 10,
    ensures
        res == limit_after_digit(cur, d as nat),
{
    let v: u64 = match cur {
        Some(x) => 10 * (x as u64) + (d as u64),
        None => d as u64,
    };
    if v > 0xffff_ffffu64 {
        cur
    } else if 1 <= v && v <= 10 {
        Some(v as u32)
    } else if v == 0 {
        Some(1)
    } else {
        cur
    }
}

/// Deletes the last digit of the global speed limit.
pub fn speed_limit_after_backspace(cur: Option<u32>) -> (res: Option<u32>)
    ensures
        res == limit_after_backspace(cur),
        limit_in_range(res),
{
    match cur {
        None => None,
        Some(v) => if v < 10 {
            None
        } else if v / 10 <= 10 {
            Some(v / 10)
        } else {
            None
        },
    }
}

/// Editing the speed limit digit by digit: from unlimited, a digit 1..=9
/// sets that limit and 0 sets 1; after a 1, a 0 gives 10; a digit that
/// would take the limit past 10 is ignored. Backspace on a single digit
/// leaves it unlimited, on 10 leaves 1, and on unlimited does nothing.
pub proof fn lemma_speed_limit_editing(cur: Option<u32>, d: nat)
    requires
        d < 10,
    ensures
        (cur is None && d >= 1) ==> limit_after_digit(cur, d) == Some(d as u32),
        (cur is None && d == 0) ==> limit_after_digit(cur, d) == Some(1u32),
        (cur == Some(1u32) && d == 0) ==> limit_after_digit(cur, d) == Some(10u32),
        (cur is Some && 10 * cur->0 + d > 10) ==> limit_after_digit(cur, d) == cur,
        (cur is Some && cur->0 < 10) ==> limit_after_backspace(cur) is None,
        limit_after_backspace(Some(10u32)) == Some(1u32),
        limit_after_backspace(None) is None,
{
}

/// Typing a digit keeps a speed limit that was unlimited or in 1..=10 in that
/// range.
pub proof fn lemma_digit_keeps_limit_in_range(cur: Option<u32>, d: nat)
    requires
        limit_in_range(cur),
        d < 10,
    ensures
        limit_in_range(limit_after_digit(cur, d)),
{
}

} // verus!
