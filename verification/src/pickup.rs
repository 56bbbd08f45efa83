//! Source detection for the background pickups: which texts are torrent
//! links, which paths are .torrent files, and the decisions of the clipboard
//! poller and the folder watcher. The pollers themselves (timers, the
//! clipboard, file-system notifications, channels) run in the application.

use vstd::prelude::*;
use crate::text::{
    chars_of, concat_str, ends_with_chars, eq_ignore_ascii_case, eq_ignore_case_chars, has_prefix,
    has_suffix, starts_with_chars, trim_whitespace, trimmed,
};
use crate::paths::{path_extension, path_extension_of};

verus! {

/// Messages from the background pickup watchers to the main loop.
#[derive(Debug)]
pub enum Pickup {
    Url(String),
    File(String),
    Status(String),
}

/// A pickup message as plain values.
pub enum PickupView {
    Url(Seq<char>),
    File(Seq<char>),
    Status(Seq<char>),
}

impl View for Pickup {
    type V = PickupView;

    open spec fn view(&self) -> PickupView {
        match self {
            Pickup::Url(u) => PickupView::Url(u@),
            Pickup::File(f) => PickupView::File(f@),
            Pickup::Status(s) => PickupView::Status(s@),
        }
    }
}

/// A magnet link, or an http(s) link to a .torrent file, once surrounding
/// whitespace is removed.
pub open spec fn torrent_source(text: Seq<char>) -> bool {
    let t = trimmed(text);
    has_prefix(t, "magnet:?"@) || ((has_prefix(t, "http://"@) || has_prefix(t, "https://"@))
        && has_suffix(t, ".torrent"@))
}

/// An extension that marks a .torrent file (any ASCII case).
pub open spec fn torrent_extension(ext: Option<Seq<char>>) -> bool {
    match ext {
        Some(e) => eq_ignore_ascii_case(e, "torrent"@),
        None => false,
    }
}

/// A path whose extension marks a .torrent file.
pub open spec fn torrent_path(path: Seq<char>) -> bool {
    torrent_extension(path_extension_of(path))
}

/// Whether `text` is a magnet link or a link to a .torrent file.
pub fn is_torrent_source(text: &str) -> (res: bool)
    ensures
        res == torrent_source(text@),
{
    let t = chars_of(trim_whitespace(text).as_str());
    starts_with_chars(&t, &chars_of("magnet:?")) || ((starts_with_chars(&t, &chars_of("http://"))
        || starts_with_chars(&t, &chars_of("https://"))) && ends_with_chars(
        &t,
        &chars_of(".torrent"),
    ))
}

/// Whether an extension marks a .torrent file.
pub fn is_torrent_extension(ext: Option<&str>) -> (res: bool)
    ensures
        res == torrent_extension(
            match ext {
                Some(e) => Some(e@),
                None => None,
            },
        ),
{
    match ext {
        Some(e) => eq_ignore_case_chars(&chars_of(e), &chars_of("torrent")),
        None => false,
    }
}

/// Whether `path` names a .torrent file.
pub fn is_torrent_file(path: &str) -> (res: bool)
    ensures
        res == torrent_path(path@),
{
    let ext = path_extension(path);
    match ext {
        Some(e) => is_torrent_extension(Some(e.as_str())),
        None => is_torrent_extension(None),
    }
}

/// The clipboard poller's memory: the text it saw last.
pub struct ClipboardWatch {
    pub last: String,
}

impl ClipboardWatch {
    /// A poller that has seen nothing yet.
    pub fn new() -> (res: ClipboardWatch)
        ensures
            res.last@ == Seq::<char>::empty(),
    {
        ClipboardWatch { last: String::new() }
    }

    /// One poll: a changed text is remembered, and reported (trimmed) when it
    /// is a torrent source.
    pub fn observe(&mut self, text: String) -> (res: Option<Pickup>)
        ensures
            final(self).last@ == text@,
            (text@ != old(self).last@ && torrent_source(text@)) ==> (res matches Some(p) && p@
                == PickupView::Url(trimmed(text@))),
            !(text@ != old(self).last@ && torrent_source(text@)) ==> res is None,
    {
        if text != self.last {
            let hit = is_torrent_source(text.as_str());
            let out = if hit {
                Some(Pickup::Url(trim_whitespace(text.as_str())))
            } else {
                None
            };
            self.last = text;
            out
        } else {
            None
        }
    }
}

/// The .torrent paths among `paths`, in order.
pub open spec fn torrent_paths(paths: Seq<Seq<char>>) -> Seq<Seq<char>>
    decreases paths.len(),
{
    if paths.len() == 0 {
        seq![]
    } else {
        let prev = torrent_paths(paths.drop_last());
        if torrent_path(paths.last()) {
            prev.push(paths.last())
        } else {
            prev
        }
    }
}

/// Texts of a sequence of strings.
pub open spec fn texts(v: Seq<String>) -> Seq<Seq<char>> {
    v.map_values(|s: String| s@)
}

/// Views of a sequence of pickups.
pub open spec fn pickup_views(v: Seq<Pickup>) -> Seq<PickupView> {
    v.map_values(|p: Pickup| p@)
}

/// The kind of a file-system event in the watched folder.
#[derive(Debug, Clone, Copy, PartialEq, Eq, Structural)]
pub enum FsChange {
    /// Files were created.
    Created,
    /// Anything else: access, modification, removal, unknown.
    Other,
}

/// The folder watcher's reaction to one file-system event: for an event
/// that creates files, a `File` pickup for each .torrent path it names, in
/// order; for any other event, nothing.
pub fn torrent_pickups(change: FsChange, paths: Vec<String>) -> (res: Vec<Pickup>)
    ensures
        change == FsChange::Created ==> pickup_views(res@) == torrent_paths(texts(paths@)).map_values(
            |p: Seq<char>| PickupView::File(p),
        ),
        change != FsChange::Created ==> res@.len() == 0,
        change == FsChange::Created ==> forall|i: int|
            0 <= i < paths@.len() && torrent_path(#[trigger] paths@[i]@) ==> pickup_views(res@).contains(
                PickupView::File(paths@[i]@),
            ),
        forall|j: int|
            0 <= j < res@.len() ==> (#[trigger] res@[j]@) is File && torrent_path(res@[j]@->File_0) && exists|
                i: int,
            | 0 <= i < paths@.len() && paths@[i]@ == res@[j]@->File_0,
{
    if change != FsChange::Created {
        return Vec::new();
    }
    let mut out: Vec<Pickup> = Vec::new();
    let mut i: usize = 0;
    while i < paths.len()
        invariant
            i <= paths.len(),
            pickup_views(out@) =~= torrent_paths(texts(paths@).take(i as int)).map_values(
                |p: Seq<char>| PickupView::File(p),
            ),
        decreases paths.len() - i,
    {
        let p = &paths[i];
        let ghost before = out@;
        proof {
            assert(texts(paths@).take((i + 1) as int).drop_last() =~= texts(paths@).take(i as int));
            assert(texts(paths@).take((i + 1) as int).last() == p@);
        }
        if is_torrent_file(p.as_str()) {
            out.push(Pickup::File(p.clone()));
            assert(pickup_views(out@) =~= pickup_views(before).push(PickupView::File(p@)));
        }
        i = i + 1;
    }
    assert(texts(paths@).take(paths@.len() as int) =~= texts(paths@));
    proof {
        let tp = torrent_paths(texts(paths@));
        lemma_torrent_paths_members(texts(paths@));
        assert(pickup_views(out@).len() == tp.len());
        assert forall|i: int|
            0 <= i < paths@.len() && torrent_path(#[trigger] paths@[i]@) implies pickup_views(out@).contains(
            PickupView::File(paths@[i]@),
        ) by {
            assert(texts(paths@)[i] == paths@[i]@);
            assert(tp.contains(paths@[i]@));
            let k = choose|k: int| 0 <= k < tp.len() && tp[k] == paths@[i]@;
            assert(pickup_views(out@)[k] == PickupView::File(paths@[i]@));
        }
        assert forall|j: int| 0 <= j < out@.len() implies (#[trigger] out@[j]@) is File && torrent_path(
            out@[j]@->File_0,
        ) && exists|i: int| 0 <= i < paths@.len() && paths@[i]@ == out@[j]@->File_0 by {
            assert(pickup_views(out@)[j] == out@[j]@);
            assert(tp.contains(tp[j]));
            let i = choose|i: int| 0 <= i < texts(paths@).len() && texts(paths@)[i] == tp[j];
            assert(paths@[i]@ == texts(paths@)[i]);
        }
    }
    out
}

/// The .torrent paths kept by `torrent_paths` are exactly the .torrent
/// paths among its argument.
pub proof fn lemma_torrent_paths_members(ps: Seq<Seq<char>>)
    ensures
        forall|i: int| 0 <= i < ps.len() && torrent_path(#[trigger] ps[i]) ==> torrent_paths(ps).contains(ps[i]),
        forall|x: Seq<char>|
            #[trigger] torrent_paths(ps).contains(x) ==> torrent_path(x) && exists|i: int|
                0 <= i < ps.len() && ps[i] == x,
    decreases ps.len(),
{
    if ps.len() > 0 {
        let init = ps.drop_last();
        lemma_torrent_paths_members(init);
        let prev = torrent_paths(init);
        let cur = torrent_paths(ps);
        assert forall|i: int| 0 <= i < ps.len() && torrent_path(#[trigger] ps[i]) implies cur.contains(ps[i]) by {
            if i == ps.len() - 1 {
                assert(cur[cur.len() - 1] == ps[i]);
            } else {
                assert(init[i] == ps[i]);
                assert(prev.contains(ps[i]));
                let j = choose|j: int| 0 <= j < prev.len() && prev[j] == ps[i];
                assert(cur[j] == ps[i]);
            }
        }
        assert forall|x: Seq<char>| #[trigger] cur.contains(x) implies torrent_path(x) && exists|i: int|
            0 <= i < ps.len() && ps[i] == x by {
            let j = choose|j: int| 0 <= j < cur.len() && cur[j] == x;
            if j < prev.len() {
                assert(prev[j] == x);
                assert(prev.contains(x));
                let i = choose|i: int| 0 <= i < init.len() && init[i] == x;
                assert(ps[i] == x);
            } else {
                assert(ps[ps.len() - 1] == x);
            }
        }
    }
}

/// A .torrent file is recognised by its extension "torrent" in any mix of
/// ASCII cases; an extension of another length, or none, is no .torrent.
pub proof fn lemma_torrent_extension_cases(e: Seq<char>)
    ensures
        (e.len() == 7 && forall|i: int| 0 <= i < 7 ==> (#[trigger] e[i] == "torrent"@[i] || e[i] == "TORRENT"@[i]))
            ==> torrent_extension(Some(e)),
        e.len() != 7 ==> !torrent_extension(Some(e)),
        !torrent_extension(None),
{
    reveal_strlit("torrent");
    reveal_strlit("TORRENT");
    assert(crate::text::ascii_lower('T') == 't');
    assert(crate::text::ascii_lower('O') == 'o');
    assert(crate::text::ascii_lower('R') == 'r');
    assert(crate::text::ascii_lower('E') == 'e');
    assert(crate::text::ascii_lower('N') == 'n');
}

/// The status line reported for a pickup once the engine has tried to add
/// it: "added url: …" / "url error: …" for links, "added file: …" /
/// "file error: …" for files. A status message is passed on unchanged.
pub open spec fn add_report(p: PickupView, outcome: Result<(), Seq<char>>) -> PickupView {
    match p {
        PickupView::Url(u) => match outcome {
            Ok(_) => PickupView::Status("added url: "@ + u),
            Err(e) => PickupView::Status("url error: "@ + e),
        },
        PickupView::File(f) => match outcome {
            Ok(_) => PickupView::Status("added file: "@ + f),
            Err(e) => PickupView::Status("file error: "@ + e),
        },
        PickupView::Status(s) => PickupView::Status(s),
    }
}

/// The status message for a pickup after the engine's attempt to add it
/// (`outcome` carries the engine's error text).
pub fn report_add(p: Pickup, outcome: Result<(), String>) -> (res: Pickup)
    ensures
        res@ == add_report(
            p@,
            match outcome {
                Ok(u) => Ok(u),
                Err(e) => Err(e@),
            },
        ),
{
    match p {
        Pickup::Url(u) => match outcome {
            Ok(()) => Pickup::Status(concat_str("added url: ", u.as_str())),
            Err(e) => Pickup::Status(concat_str("url error: ", e.as_str())),
        },
        Pickup::File(f) => match outcome {
            Ok(()) => Pickup::Status(concat_str("added file: ", f.as_str())),
            Err(e) => Pickup::Status(concat_str("file error: ", e.as_str())),
        },
        Pickup::Status(s) => Pickup::Status(s),
    }
}

/// A torrent source stays one once trimmed: trimming is idempotent.
pub proof fn lemma_trim_idempotent(s: Seq<char>)
    ensures
        trimmed(trimmed(s)) == trimmed(s),
    decreases s.len(),
{
    if s.len() > 0 && crate::text::is_unicode_whitespace(s[0]) {
        lemma_trim_idempotent(s.drop_first());
    } else if s.len() > 0 && crate::text::is_unicode_whitespace(s.last()) {
        lemma_trim_idempotent(s.drop_last());
    }
}

/// Whether a text is a torrent source does not change by trimming it, so the
/// trimmed link that a pickup carries is itself a torrent source.
pub proof fn lemma_source_survives_trim(text: Seq<char>)
    ensures
        torrent_source(trimmed(text)) == torrent_source(text),
{
    lemma_trim_idempotent(text);
}

} // verus!
