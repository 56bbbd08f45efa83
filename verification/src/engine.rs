//! What the library knows of the torrent engine: the snapshots it shows
//! (torrents, files, peers, pieces) and the computations that turn the
//! engine's raw numbers into them. The engine session itself (network,
//! disk, async calls) is driven by the application, which reads the raw
//! values out of it and hands them here.

use vstd::prelude::*;
use crate::text::{concat_str, decimal, decimal_u32};

verus! {

/// One torrent as listed in the queue. Progress is carried as the byte
/// counts that the engine reports; the share done is their ratio.
#[derive(Debug, Clone)]
pub struct TorrentInfo {
    pub id: usize,
    pub name: String,
    pub progress_bytes: u64,
    pub total_bytes: u64,
    pub state: String,
}

/// Per-file info for the detail pane.
#[derive(Debug, Clone)]
pub struct FileInfo {
    pub name: String,
    pub size: u64,
    pub selected: bool,
    /// Bytes of this file downloaded so far (never more than `size`).
    pub downloaded: u64,
}

/// Rich detail view for a single torrent.
#[derive(Debug, Clone)]
pub struct TorrentDetails {
    pub id: usize,
    pub name: String,
    pub progress_bytes: u64,
    pub total_bytes: u64,
    pub state: String,
    pub seeders: u32,
    pub leechers: u32,
    pub files: Vec<FileInfo>,
    pub piece_map: Vec<bool>,
}

/// A listed torrent as plain values.
pub struct TorrentView {
    pub id: usize,
    pub name: Seq<char>,
    pub progress_bytes: u64,
    pub total_bytes: u64,
    pub state: Seq<char>,
}

impl View for TorrentInfo {
    type V = TorrentView;

    open spec fn view(&self) -> TorrentView {
        TorrentView {
            id: self.id,
            name: self.name@,
            progress_bytes: self.progress_bytes,
            total_bytes: self.total_bytes,
            state: self.state@,
        }
    }
}

/// A file of the detail pane as plain values.
pub struct FileView {
    pub name: Seq<char>,
    pub size: u64,
    pub selected: bool,
    pub downloaded: u64,
}

impl View for FileInfo {
    type V = FileView;

    open spec fn view(&self) -> FileView {
        FileView { name: self.name@, size: self.size, selected: self.selected, downloaded: self.downloaded }
    }
}

/// The name shown for torrent `id` when the engine has none: "torrent#{id}".
pub open spec fn placeholder_name(id: usize) -> Seq<char> {
    "torrent#"@ + decimal(id as nat)
}

/// The name shown for a torrent: its own name when it has a non-empty one,
/// else the placeholder.
pub open spec fn shown_name(id: usize, name: Option<Seq<char>>) -> Seq<char> {
    match name {
        Some(n) => if n.len() > 0 {
            n
        } else {
            placeholder_name(id)
        },
        None => placeholder_name(id),
    }
}

/// Decimal rendering of a `usize`.
pub fn decimal_usize(n: usize) -> (res: String)
    ensures
        res@ == decimal(n as nat),
    decreases n,
{
    if n < 10 {
        decimal_u32(n as u32)
    } else {
        let mut head = decimal_usize(n / 10);
        let d = crate::text::digit_to_char((n % 10) as u32);
        crate::text::push_char(&mut head, d);
        head
    }
}

/// The name shown for torrent `id`, given the name the engine reports.
pub fn display_name(id: usize, name: Option<String>) -> (res: String)
    ensures
        res@ == shown_name(
            id,
            match name {
                Some(n) => Some(n@),
                None => None,
            },
        ),
{
    match name {
        Some(n) => if !n.as_str().is_empty() {
            n
        } else {
            concat_str("torrent#", decimal_usize(id).as_str())
        },
        None => concat_str("torrent#", decimal_usize(id).as_str()),
    }
}

/// The file entry at `i`: its name and size, whether the engine's file
/// selection (`None`: everything) includes it, and its downloaded bytes
/// (0 when the engine reports none), capped at the file's size.
pub open spec fn file_entry(
    names: Seq<Seq<char>>,
    sizes: Seq<u64>,
    only_files: Option<Seq<usize>>,
    progress: Seq<u64>,
    i: int,
) -> FileView {
    let got: u64 = if i < progress.len() {
        progress[i]
    } else {
        0
    };
    FileView {
        name: names[i],
        size: sizes[i],
        selected: match only_files {
            Some(o) => o.contains(i as usize),
            None => true,
        },
        downloaded: if got < sizes[i] {
            got
        } else {
            sizes[i]
        },
    }
}

/// Whether `v` holds `x`.
pub fn contains_index(v: &Vec<usize>, x: usize) -> (res: bool)
    ensures
        res == v@.contains(x),
{
    let mut i: usize = 0;
    while i < v.len()
        invariant
            i <= v.len(),
            forall|j: int| 0 <= j < i ==> v@[j] != x,
        decreases v.len() - i,
    {
        if v[i] == x {
            return true;
        }
        i = i + 1;
    }
    false
}

/// Builds the detail pane's file list from the engine's per-file names and
/// sizes, its file selection and its per-file downloaded bytes.
pub fn file_infos(
    names: Vec<String>,
    sizes: &Vec<u64>,
    only_files: &Option<Vec<usize>>,
    progress: &Vec<u64>,
) -> (res: Vec<FileInfo>)
    requires
        names.len() == sizes.len(),
    ensures
        res.len() == names.len(),
        forall|i: int|
            0 <= i < res.len() ==> #[trigger] res@[i]@ == file_entry(
                names@.map_values(|n: String| n@),
                sizes@,
                match only_files {
                    Some(o) => Some(o@),
                    None => None,
                },
                progress@,
                i,
            ),
{
    let ghost nv = names@.map_values(|n: String| n@);
    let ghost ov = match only_files {
        Some(o) => Some(o@),
        None => None,
    };
    let mut out: Vec<FileInfo> = Vec::new();
    let mut i: usize = 0;
    while i < names.len()
        invariant
            names.len() == sizes.len(),
            i <= names.len(),
            out.len() == i,
            nv == names@.map_values(|n: String| n@),
            ov == (match only_files {
                Some(o) => Some(o@),
                None => None,
            }),
            forall|j: int| 0 <= j < i ==> #[trigger] out@[j]@ == file_entry(nv, sizes@, ov, progress@, j),
        decreases names.len() - i,
    {
        let size = sizes[i];
        let selected = match only_files {
            Some(o) => contains_index(o, i),
            None => true,
        };
        let got: u64 = if i < progress.len() {
            progress[i]
        } else {
            0
        };
        let downloaded = if got < size {
            got
        } else {
            size
        };
        let name = names[i].clone();
        out.push(FileInfo { name, size, selected, downloaded });
        i = i + 1;
    }
    out
}

/// Whether file `x` is selected, given the engine's file selection
/// (`None`: all `count` files) .
pub open spec fn selected_in(current: Option<Seq<usize>>, count: nat, x: usize) -> bool {
    match current {
        Some(c) => c.contains(x),
        None => x < count,
    }
}

/// The file selection after marking `file_index` selected or not, given the
/// engine's selection (`None`: all of the torrent's `file_count` files):
/// every other file keeps its selection, `file_index` is in it exactly when
/// `selected`, and nothing occurs twice.
pub fn selection_after(
    current: &Option<Vec<usize>>,
    file_count: usize,
    file_index: usize,
    selected: bool,
) -> (res: Vec<usize>)
    ensures
        res@.no_duplicates(),
        forall|x: usize|
            #[trigger] res@.contains(x) <==> (if x == file_index {
                selected
            } else {
                selected_in(
                    match current {
                        Some(c) => Some(c@),
                        None => None,
                    },
                    file_count as nat,
                    x,
                )
            }),
{
    match current {
        Some(c) => selection_from(c, file_index, selected),
        None => {
            let mut all: Vec<usize> = Vec::new();
            let mut i: usize = 0;
            while i < file_count
                invariant
                    i <= file_count,
                    all@ =~= Seq::new(i as nat, |k: int| k as usize),
                decreases file_count - i,
            {
                all.push(i);
                i = i + 1;
            }
            let res = selection_from(&all, file_index, selected);
            proof {
                assert forall|x: usize| all@.contains(x) <==> x < file_count by {
                    if x < file_count {
                        assert(all@[x as int] == x);
                    }
                }
            }
            res
        },
    }
}

/// The selection `current` with `file_index` set to `selected`, without
/// duplicates.
fn selection_from(current: &Vec<usize>, file_index: usize, selected: bool) -> (res: Vec<usize>)
    ensures
        res@.no_duplicates(),
        forall|x: usize|
            res@.contains(x) <==> (if x == file_index {
                selected
            } else {
                current@.contains(x)
            }),
{
    let mut out: Vec<usize> = Vec::new();
    let mut i: usize = 0;
    while i < current.len()
        invariant
            i <= current.len(),
            out@.no_duplicates(),
            forall|x: usize|
                #[trigger] out@.contains(x) <==> (x != file_index && current@.take(i as int).contains(x)),
        decreases current.len() - i,
    {
        let x = current[i];
        let ghost t0 = current@.take(i as int);
        let ghost before = out@;
        proof {
            assert(current@.take((i + 1) as int) =~= t0.push(x));
            lemma_push_contains(t0, x);
        }
        if x != file_index && !contains_index(&out, x) {
            out.push(x);
            proof {
                lemma_push_fresh(before, x);
                lemma_push_contains(before, x);
            }
        }
        i = i + 1;
        proof {
            assert forall|y: usize| #[trigger] out@.contains(y) <==> (y != file_index && current@.take(i as int).contains(y)) by {
                assert(before.contains(y) <==> (y != file_index && t0.contains(y)));
            }
        }
    }
    assert(current@.take(current@.len() as int) =~= current@);
    let ghost before = out@;
    if selected {
        out.push(file_index);
        proof {
            lemma_push_fresh(before, file_index);
        }
    }
    proof {
        assert forall|x: usize|
            #[trigger] out@.contains(x) <==> (if x == file_index {
                selected
            } else {
                current@.contains(x)
            }) by {
            assert(before.contains(x) <==> (x != file_index && current@.contains(x)));
        }
    }
    out
}

/// What a sequence holds after a push.
proof fn lemma_push_contains(s: Seq<usize>, x: usize)
    ensures
        forall|y: usize| s.push(x).contains(y) <==> (s.contains(y) || y == x),
{
    let t = s.push(x);
    assert(t[s.len() as int] == x);
    assert forall|y: usize| t.contains(y) <==> (s.contains(y) || y == x) by {
        if t.contains(y) {
            let k = choose|k: int| 0 <= k < t.len() && #[trigger] t[k] == y;
            if k < s.len() {
                assert(s[k] == y);
            }
        }
        if s.contains(y) {
            let k = choose|k: int| 0 <= k < s.len() && #[trigger] s[k] == y;
            assert(t[k] == y);
        }
    }
}

/// Pushing a value that is not yet in a sequence keeps it free of
/// duplicates, and adds exactly that value to its contents.
proof fn lemma_push_fresh(s: Seq<usize>, x: usize)
    requires
        s.no_duplicates(),
        !s.contains(x),
    ensures
        s.push(x).no_duplicates(),
        forall|y: usize| s.push(x).contains(y) <==> (s.contains(y) || y == x),
{
    let t = s.push(x);
    assert(t[s.len() as int] == x);
    assert forall|y: usize| t.contains(y) <==> (s.contains(y) || y == x) by {
        if t.contains(y) {
            let k = choose|k: int| 0 <= k < t.len() && #[trigger] t[k] == y;
            if k < s.len() {
                assert(s[k] == y);
            }
        }
        if s.contains(y) {
            let k = choose|k: int| 0 <= k < s.len() && #[trigger] s[k] == y;
            assert(t[k] == y);
        }
    }
    assert forall|a: int, b: int| 0 <= a < t.len() && 0 <= b < t.len() && a != b implies t[a] != t[b] by {
        if a < s.len() && b < s.len() {
            assert(t[a] == s[a] && t[b] == s[b]);
        } else if a < s.len() {
            assert(t[a] == s[a]);
        } else if b < s.len() {
            assert(t[b] == s[b]);
        }
    }
}

/// A torrent with a non-empty name is shown by that name; one with an empty
/// name or none is shown as "torrent#" followed by its id in decimal, the
/// same whichever of the two it is.
pub proof fn lemma_shown_name(id: usize, n: Seq<char>)
    ensures
        n.len() > 0 ==> shown_name(id, Some(n)) == n,
        shown_name(id, Some(Seq::<char>::empty())) == shown_name(id, None),
        shown_name(id, None).len() == 8 + decimal(id as nat).len(),
        shown_name(id, None).subrange(0, 8) == seq!['t', 'o', 'r', 'r', 'e', 'n', 't', '#'],
        shown_name(id, None).subrange(8, shown_name(id, None).len() as int) == decimal(id as nat),
{
    reveal_strlit("torrent#");
    let p = shown_name(id, None);
    assert(p.subrange(0, 8) =~= seq!['t', 'o', 'r', 'r', 'e', 'n', 't', '#']);
    assert(p.subrange(8, p.len() as int) =~= decimal(id as nat));
}

/// Each file entry keeps the engine's name and size, is marked for download
/// exactly when the engine's selection holds its index (every file when the
/// engine selects all), and shows the engine's downloaded bytes when they
/// do not exceed the size, the size when they do, and 0 when the engine
/// reports none for it; so it never shows more than the file's size.
pub proof fn lemma_file_entry(
    names: Seq<Seq<char>>,
    sizes: Seq<u64>,
    only_files: Option<Seq<usize>>,
    progress: Seq<u64>,
    i: int,
)
    requires
        0 <= i < names.len(),
        i <= usize::MAX,
        names.len() == sizes.len(),
    ensures
        file_entry(names, sizes, only_files, progress, i).name == names[i],
        file_entry(names, sizes, only_files, progress, i).size == sizes[i],
        file_entry(names, sizes, only_files, progress, i).downloaded <= sizes[i],
        (i < progress.len() && progress[i] <= sizes[i]) ==> file_entry(names, sizes, only_files, progress, i).downloaded
            == progress[i],
        (i < progress.len() && progress[i] > sizes[i]) ==> file_entry(names, sizes, only_files, progress, i).downloaded
            == sizes[i],
        i >= progress.len() ==> file_entry(names, sizes, only_files, progress, i).downloaded == 0,
        only_files is None ==> file_entry(names, sizes, only_files, progress, i).selected,
        only_files is Some ==> (file_entry(names, sizes, only_files, progress, i).selected <==> exists|k: int|
            0 <= k < only_files->0.len() && only_files->0[k] == i),
{
    if only_files is Some {
        let o = only_files->0;
        assert((i as usize) as int == i);
        if o.contains(i as usize) {
            let k = choose|k: int| 0 <= k < o.len() && o[k] == i as usize;
            assert(o[k] == i);
        }
    }
}

/// Selecting a file and then deselecting it leaves every other file with
/// the selection it had before, and that file unselected.
pub proof fn lemma_select_then_deselect(
    current: Option<Seq<usize>>,
    count: nat,
    mid: Seq<usize>,
    after: Seq<usize>,
    i: usize,
)
    requires
        forall|x: usize| #[trigger] mid.contains(x) <==> (if x == i { true } else { selected_in(current, count, x) }),
        forall|x: usize|
            #[trigger] after.contains(x) <==> (if x == i { false } else { selected_in(Some(mid), count, x) }),
    ensures
        forall|x: usize| #[trigger] after.contains(x) <==> (x != i && selected_in(current, count, x)),
{
    assert forall|x: usize| #[trigger] after.contains(x) <==> (x != i && selected_in(current, count, x)) by {
        assert(mid.contains(x) <==> (if x == i { true } else { selected_in(current, count, x) }));
    }
}

} // verus!
