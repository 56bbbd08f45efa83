//! Add-flow modal: state and input handling.
//!
//! Pops before a torrent starts. Lets the user edit the download path,
//! toggle + tune a speed limit (checkbox + slider + free numeric box),
//! and pick which files to fetch. Confirm / Cancel to finish.
//!
//! Drawing is done by the application; the texts it shows (checkbox marks,
//! the slider bar, the numeric box) are computed here.

use vstd::prelude::*;
use vstd::arithmetic::div_mod::{lemma_add_mod_noop, lemma_fundamental_div_mod, lemma_fundamental_div_mod_converse, lemma_small_mod};
use crate::input::Key;
use crate::config::{ascii_digit, digit_value};
use crate::text::{push_char, pop_char, decimal, decimal_u32, repeat, string_of};

verus! {

/// Which control inside the modal currently has focus.
#[derive(Debug, Clone, Copy, PartialEq, Eq, Structural)]
pub enum ModalFocus {
    Path,
    LimitToggle,
    Slider,
    LimitValue,
    File(usize),
    Confirm,
    Cancel,
}

/// Where the add dialog stands.
#[derive(Debug, Clone, Copy, PartialEq, Eq, Structural)]
pub enum ModalOutcome {
    Open,
    Confirmed,
    Cancelled,
}

/// State + input handling for the add-flow modal.
pub struct AddModal {
    pub path: String,
    pub limit_enabled: bool,
    pub limit_value: u32,
    pub files: Vec<(String, bool)>,
    pub file_focus: usize,
    pub focus: ModalFocus,
    pub confirmed: bool,
    pub cancelled: bool,
}

/// The modal's state as plain values.
pub struct ModalState {
    pub path: Seq<char>,
    pub limit_enabled: bool,
    pub limit_value: u32,
    pub files: Seq<(Seq<char>, bool)>,
    pub file_focus: usize,
    pub focus: ModalFocus,
    pub confirmed: bool,
    pub cancelled: bool,
}

/// File entries with each name taken by its characters.
pub open spec fn entries_view(files: Seq<(String, bool)>) -> Seq<(Seq<char>, bool)> {
    files.map_values(|e: (String, bool)| (e.0@, e.1))
}

impl View for AddModal {
    type V = ModalState;

    open spec fn view(&self) -> ModalState {
        ModalState {
            path: self.path@,
            limit_enabled: self.limit_enabled,
            limit_value: self.limit_value,
            files: entries_view(self.files@),
            file_focus: self.file_focus,
            focus: self.focus,
            confirmed: self.confirmed,
            cancelled: self.cancelled,
        }
    }
}

/// The order in which focus travels: path, limit toggle, slider, limit value,
/// each of the `n` files, confirm, cancel.
pub open spec fn focus_order(n: nat) -> Seq<ModalFocus> {
    seq![ModalFocus::Path, ModalFocus::LimitToggle, ModalFocus::Slider, ModalFocus::LimitValue]
        + Seq::new(n, |i: int| ModalFocus::File(i as usize)) + seq![
        ModalFocus::Confirm,
        ModalFocus::Cancel,
    ]
}

/// Whether `f` is one of the controls of a modal with `n` files.
pub open spec fn focus_listed(f: ModalFocus, n: nat) -> bool {
    match f {
        ModalFocus::File(i) => i < n,
        _ => true,
    }
}

/// Position of `f` in `focus_order(n)`; a control that is not listed counts
/// as the first one.
pub open spec fn focus_position(f: ModalFocus, n: nat) -> int {
    match f {
        ModalFocus::Path => 0,
        ModalFocus::LimitToggle => 1,
        ModalFocus::Slider => 2,
        ModalFocus::LimitValue => 3,
        ModalFocus::File(i) => if i < n {
            4 + i
        } else {
            0
        },
        ModalFocus::Confirm => n + 4int,
        ModalFocus::Cancel => n + 5int,
    }
}

/// The control reached from `f` by moving `dir` steps (cyclically) through
/// `focus_order(n)`.
pub open spec fn focus_after(f: ModalFocus, n: nat, dir: int) -> ModalFocus {
    focus_order(n)[(focus_position(f, n) + dir) % ((n + 6) as int)]
}

/// Limit value after typing the digit `d`: the appended number if it lies in
/// 1..=10, 1 if it is 0, otherwise unchanged.
pub open spec fn value_after_digit(v: u32, d: nat) -> u32 {
    let w = 10 * v + d;
    if w > u32::MAX {
        v
    } else if 1 <= w <= 10 {
        w as u32
    } else if w == 0 {
        1
    } else {
        v
    }
}

/// Limit value after deleting its last digit, clamped to 1..=10.
pub open spec fn value_after_backspace(v: u32) -> u32 {
    if v < 10 {
        1
    } else if v / 10 > 10 {
        10
    } else {
        (v / 10) as u32
    }
}

/// Indices `< k` of the selected files, in increasing order.
pub open spec fn selected_upto(files: Seq<(Seq<char>, bool)>, k: nat) -> Seq<usize>
    decreases k,
{
    if k == 0 {
        seq![]
    } else {
        let prev = selected_upto(files, (k - 1) as nat);
        if files[k - 1].1 {
            prev.push((k - 1) as usize)
        } else {
            prev
        }
    }
}

/// The selected file indices, in increasing order.
pub open spec fn selected_indices(files: Seq<(Seq<char>, bool)>) -> Seq<usize> {
    selected_upto(files, files.len())
}

impl ModalState {
    /// Focus moved `dir` steps; landing on a file also moves the file cursor.
    pub open spec fn advanced(self, dir: int) -> ModalState {
        let next = focus_after(self.focus, self.files.len(), dir);
        ModalState {
            focus: next,
            file_focus: match next {
                ModalFocus::File(i) => i,
                _ => self.file_focus,
            },
            ..self
        }
    }

    /// Space: flips the limit checkbox or the focused file's checkbox.
    pub open spec fn toggled(self) -> ModalState {
        match self.focus {
            ModalFocus::LimitToggle => ModalState { limit_enabled: !self.limit_enabled, ..self },
            ModalFocus::File(i) => if i < self.files.len() {
                ModalState {
                    files: self.files.update(i as int, (self.files[i as int].0, !self.files[i as int].1)),
                    ..self
                }
            } else {
                self
            },
            _ => self,
        }
    }

    /// A typed character: appended to the path, or a digit fed to the limit.
    pub open spec fn typed(self, c: char) -> ModalState {
        match self.focus {
            ModalFocus::Path => ModalState { path: self.path.push(c), ..self },
            ModalFocus::LimitValue => match ascii_digit(c) {
                Some(d) => ModalState { limit_value: value_after_digit(self.limit_value, d), ..self },
                None => self,
            },
            _ => self,
        }
    }

    /// Backspace: drops the path's last character, or the limit's last digit.
    pub open spec fn erased(self) -> ModalState {
        match self.focus {
            ModalFocus::Path => ModalState {
                path: if self.path.len() > 0 {
                    self.path.drop_last()
                } else {
                    self.path
                },
                ..self
            },
            ModalFocus::LimitValue => ModalState {
                limit_value: value_after_backspace(self.limit_value),
                ..self
            },
            _ => self,
        }
    }

    /// The modal after one key press.
    pub open spec fn on_key(self, key: Key) -> ModalState {
        match key {
            Key::Tab | Key::Down | Key::Right => self.advanced(1),
            Key::BackTab | Key::Up | Key::Left => self.advanced(-1),
            Key::Char(c) => if c == ' ' {
                self.toggled()
            } else {
                self.typed(c)
            },
            Key::Enter => match self.focus {
                ModalFocus::Confirm => ModalState { confirmed: true, ..self },
                ModalFocus::Cancel => ModalState { cancelled: true, ..self },
                _ => self,
            },
            Key::Esc => ModalState { cancelled: true, ..self },
            Key::Backspace => self.erased(),
            _ => self,
        }
    }
}

/// Keys that move the focus.
pub open spec fn moves_focus(key: Key) -> bool {
    match key {
        Key::Tab | Key::Down | Key::Right | Key::BackTab | Key::Up | Key::Left => true,
        _ => false,
    }
}

/// `x` modulo `m`, always in `0..m`.
fn euclid_mod(t: i64, m: i64) -> (res: i64)
    requires
        m > 0,
    ensures
        res == t % m,
        0 <= res < m,
{
    if t >= 0 {
        let r: u64 = (t as u64) % (m as u64);
        proof {
            lemma_fundamental_div_mod(t as int, m as int);
            lemma_fundamental_div_mod(t as u64 as int, m as u64 as int);
        }
        r as i64
    } else {
        let k: u64 = (-(t + 1)) as u64;
        let a: u64 = k % (m as u64);
        let q: u64 = k / (m as u64);
        proof {
            lemma_fundamental_div_mod(k as int, m as int);
            assert(k as int == (m as int) * (q as int) + a as int);
            assert(t as int == (-(q as int) - 1) * (m as int) + ((m as int) - 1 - a as int)) by (nonlinear_arith)
                requires
                    k as int == (m as int) * (q as int) + a as int,
                    k as int == -(t as int + 1),
            ;
            lemma_fundamental_div_mod_converse(
                t as int,
                m as int,
                -(q as int) - 1,
                (m as int) - 1 - a as int,
            );
        }
        m - 1 - (a as i64)
    }
}

/// The control at position `r` of `focus_order(n)`.
fn focus_at(r: usize, n: usize) -> (res: ModalFocus)
    requires
        r < n + 6,
    ensures
        res == focus_order(n as nat)[r as int],
{
    proof {
        lemma_focus_order_positions(n as nat, r as int);
    }
    if r == 0 {
        ModalFocus::Path
    } else if r == 1 {
        ModalFocus::LimitToggle
    } else if r == 2 {
        ModalFocus::Slider
    } else if r == 3 {
        ModalFocus::LimitValue
    } else if r - 4 < n {
        ModalFocus::File(r - 4)
    } else if r - 4 == n {
        ModalFocus::Confirm
    } else {
        ModalFocus::Cancel
    }
}

/// Every position of `focus_order(n)` holds a listed control whose position
/// is that position, and the controls at the fixed places are the ones named.
pub proof fn lemma_focus_order_positions(n: nat, k: int)
    requires
        n <= usize::MAX,
        0 <= k < n + 6,
    ensures
        focus_listed(focus_order(n)[k], n),
        focus_position(focus_order(n)[k], n) == k,
        k == 0 ==> focus_order(n)[k] == ModalFocus::Path,
        k == 1 ==> focus_order(n)[k] == ModalFocus::LimitToggle,
        k == 2 ==> focus_order(n)[k] == ModalFocus::Slider,
        k == 3 ==> focus_order(n)[k] == ModalFocus::LimitValue,
        4 <= k < n + 4 ==> focus_order(n)[k] == ModalFocus::File((k - 4) as usize),
        k == n + 4 ==> focus_order(n)[k] == ModalFocus::Confirm,
        k == n + 5 ==> focus_order(n)[k] == ModalFocus::Cancel,
{
    let head = seq![ModalFocus::Path, ModalFocus::LimitToggle, ModalFocus::Slider, ModalFocus::LimitValue];
    let mid = Seq::new(n, |i: int| ModalFocus::File(i as usize));
    let tail = seq![ModalFocus::Confirm, ModalFocus::Cancel];
    assert(focus_order(n) == head + mid + tail);
    if k < 4 {
        assert(focus_order(n)[k] == head[k]);
    } else if k < n + 4 {
        assert(focus_order(n)[k] == mid[k - 4]);
        assert((k - 4) as usize as int == k - 4);
    } else {
        assert(focus_order(n)[k] == tail[k - n - 4]);
    }
}

/// A listed control stands at its position in `focus_order(n)`.
pub proof fn lemma_focus_listed_position(f: ModalFocus, n: nat)
    requires
        n <= usize::MAX,
    ensures
        0 <= focus_position(f, n) < n + 6,
        focus_listed(f, n) ==> focus_order(n)[focus_position(f, n)] == f,
        !focus_listed(f, n) ==> !focus_order(n).contains(f),
{
    if !focus_listed(f, n) {
        if focus_order(n).contains(f) {
            let k = choose|k: int| 0 <= k < focus_order(n).len() && focus_order(n)[k] == f;
            lemma_focus_order_positions(n, k);
        }
    }
}

/// Moving the focus one step forward and then one step back returns to the
/// control that had it, for every control of the modal.
pub proof fn lemma_focus_forward_back(f: ModalFocus, n: nat)
    requires
        n <= usize::MAX,
        focus_listed(f, n),
    ensures
        focus_after(focus_after(f, n, 1), n, -1) == f,
        focus_after(focus_after(f, n, -1), n, 1) == f,
{
    let len: int = n + 6int;
    let p = focus_position(f, n);
    lemma_focus_listed_position(f, n);
    // forward then back
    let a = (p + 1) % len;
    if p + 1 < len {
        lemma_small_mod((p + 1) as nat, len as nat);
    } else {
        lemma_fundamental_div_mod_converse(p + 1, len as int, 1, 0);
    }
    lemma_focus_order_positions(n, a);
    if a == 0 {
        lemma_fundamental_div_mod_converse(a - 1, len as int, -1, len - 1);
    } else {
        lemma_small_mod((a - 1) as nat, len as nat);
    }
    // back then forward
    let b = (p - 1) % len;
    if p >= 1 {
        lemma_small_mod((p - 1) as nat, len as nat);
    } else {
        lemma_fundamental_div_mod_converse(p - 1, len as int, -1, len - 1);
    }
    lemma_focus_order_positions(n, b);
    if b + 1 < len {
        lemma_small_mod((b + 1) as nat, len as nat);
    } else {
        lemma_fundamental_div_mod_converse(b + 1, len as int, 1, 0);
    }
}

/// The control reached from `f` by `k` single steps forward.
pub open spec fn focus_steps(f: ModalFocus, n: nat, k: nat) -> ModalFocus
    decreases k,
{
    if k == 0 {
        f
    } else {
        focus_after(focus_steps(f, n, (k - 1) as nat), n, 1)
    }
}

/// `k` single steps forward from a control land `k` places further along the
/// (cyclic) control order.
pub proof fn lemma_focus_steps(f: ModalFocus, n: nat, k: nat)
    requires
        n <= usize::MAX,
        focus_listed(f, n),
    ensures
        focus_steps(f, n, k) == focus_order(n)[(focus_position(f, n) + k) % ((n + 6) as int)],
    decreases k,
{
    let len: int = n + 6int;
    let p = focus_position(f, n);
    lemma_focus_listed_position(f, n);
    if k == 0 {
        lemma_small_mod(p as nat, len as nat);
    } else {
        lemma_focus_steps(f, n, (k - 1) as nat);
        let a = (p + k - 1) % len;
        vstd::arithmetic::div_mod::lemma_mod_bound(p + k - 1, len);
        lemma_focus_order_positions(n, a);
        lemma_add_mod_noop(p + k - 1, 1, len);
        lemma_small_mod(1, len as nat);
    }
}

/// The control order is a cycle: as many single steps forward as there are
/// controls come back to the control that had the focus.
pub proof fn lemma_focus_full_cycle(f: ModalFocus, n: nat)
    requires
        n <= usize::MAX,
        focus_listed(f, n),
    ensures
        focus_steps(f, n, n + 6) == f,
{
    lemma_focus_steps(f, n, n + 6);
    let p = focus_position(f, n);
    lemma_focus_listed_position(f, n);
    lemma_fundamental_div_mod_converse(p + n + 6, (n + 6) as int, 1, p);
}

/// What a key press can and cannot do to the dialog: it confirms only by
/// Enter on Confirm, cancels only by Esc or Enter on Cancel, never takes a
/// confirmation or cancellation back, keeps the number of files and their
/// names, flips at most one file's mark, and keeps the focus on a control of
/// the dialog.
pub proof fn lemma_key_effects(m: ModalState, key: Key)
    requires
        m.files.len() <= usize::MAX,
    ensures
        m.on_key(key).confirmed ==> (m.confirmed || (key == Key::Enter && m.focus == ModalFocus::Confirm)),
        m.on_key(key).cancelled ==> (m.cancelled || key == Key::Esc || (key == Key::Enter && m.focus
            == ModalFocus::Cancel)),
        m.confirmed ==> m.on_key(key).confirmed,
        m.cancelled ==> m.on_key(key).cancelled,
        m.on_key(key).files.len() == m.files.len(),
        forall|i: int| 0 <= i < m.files.len() ==> (#[trigger] m.on_key(key).files[i]).0 == m.files[i].0,
        forall|i: int, j: int|
            0 <= i < j < m.files.len() ==> (#[trigger] m.on_key(key).files[i]).1 == m.files[i].1
                || (#[trigger] m.on_key(key).files[j]).1 == m.files[j].1,
        focus_listed(m.focus, m.files.len()) ==> focus_listed(m.on_key(key).focus, m.files.len()),
{
    lemma_focus_after_listed(m.focus, m.files.len(), 1);
    lemma_focus_after_listed(m.focus, m.files.len(), -1);
}

/// Moving the focus always lands on a control of the modal.
pub proof fn lemma_focus_after_listed(f: ModalFocus, n: nat, dir: int)
    requires
        n <= usize::MAX,
    ensures
        focus_listed(focus_after(f, n, dir), n),
{
    let len: int = n + 6int;
    let k = (focus_position(f, n) + dir) % len;
    vstd::arithmetic::div_mod::lemma_mod_bound(focus_position(f, n) + dir, len as int);
    lemma_focus_order_positions(n, k);
}

/// The limit value stays within 1..=10 under every key, once it is there.
pub proof fn lemma_limit_stays_in_range(m: ModalState, key: Key)
    requires
        1 <= m.limit_value <= 10,
    ensures
        1 <= m.on_key(key).limit_value <= 10,
{
}

/// Nothing is confirmed without the user's say: a key press confirms the
/// dialog only when it is Enter on the Confirm button, and Esc cancels it
/// from anywhere.
pub proof fn lemma_confirm_needs_enter_on_confirm(m: ModalState, key: Key)
    ensures
        (m.on_key(key).confirmed && !m.confirmed) ==> (key == Key::Enter && m.focus == ModalFocus::Confirm),
        m.on_key(Key::Esc).cancelled,
        m.on_key(key).confirmed == (m.confirmed || (key == Key::Enter && m.focus == ModalFocus::Confirm)),
{
}

/// With the focus on the path, every typed character other than a space is
/// appended to the path and nothing else changes; Backspace removes the
/// path's last character.
pub proof fn lemma_path_editing(m: ModalState, c: char)
    requires
        m.focus == ModalFocus::Path,
    ensures
        c != ' ' ==> m.on_key(Key::Char(c)) == (ModalState { path: m.path.push(c), ..m }),
        m.path.len() > 0 ==> m.on_key(Key::Backspace) == (ModalState { path: m.path.drop_last(), ..m }),
        m.path.len() == 0 ==> m.on_key(Key::Backspace) == m,
        m.on_key(Key::Char(' ')) == m,
{
}

/// Space on the limit checkbox flips it; Space on a file row flips that
/// file's mark only; nothing else changes.
pub proof fn lemma_space_flips(m: ModalState, i: usize)
    ensures
        m.focus == ModalFocus::LimitToggle ==> m.on_key(Key::Char(' ')) == (ModalState {
            limit_enabled: !m.limit_enabled,
            ..m
        }),
        m.focus == ModalFocus::File(i) && i < m.files.len() ==> m.on_key(Key::Char(' ')) == (ModalState {
            files: m.files.update(i as int, (m.files[i as int].0, !m.files[i as int].1)),
            ..m
        }),
{
}

/// A digit typed into the limit box sets the limit to the number it forms
/// (the old value's digits followed by it) when that lies in 1..=10, to 1
/// when it is 0, and otherwise leaves the limit; other characters are
/// ignored there. Backspace leaves 1 for a single digit and otherwise the
/// number without its last digit, at most 10.
pub proof fn lemma_limit_editing(m: ModalState, c: char)
    requires
        m.focus == ModalFocus::LimitValue,
    ensures
        ({
            let w: int = 10 * m.limit_value + (c as u32 - '0' as u32);
            &&& ('0' <= c <= '9' && 1 <= w <= 10) ==> m.on_key(Key::Char(c)) == (ModalState {
                limit_value: w as u32,
                ..m
            })
            &&& ('0' <= c <= '9' && w == 0) ==> m.on_key(Key::Char(c)) == (ModalState { limit_value: 1, ..m })
            &&& ('0' <= c <= '9' && w > 10) ==> m.on_key(Key::Char(c)) == m
        }),
        !('0' <= c <= '9') ==> m.on_key(Key::Char(c)) == m,
        m.limit_value < 10 ==> m.on_key(Key::Backspace) == (ModalState { limit_value: 1, ..m }),
        10 <= m.limit_value <= 109 ==> m.on_key(Key::Backspace) == (ModalState {
            limit_value: (m.limit_value / 10) as u32,
            ..m
        }),
{
}

/// Enter on Confirm confirms, Enter on Cancel cancels, Esc cancels from
/// anywhere, and Enter elsewhere does nothing.
pub proof fn lemma_enter_and_esc(m: ModalState)
    ensures
        m.focus == ModalFocus::Confirm ==> m.on_key(Key::Enter) == (ModalState { confirmed: true, ..m }),
        m.focus == ModalFocus::Cancel ==> m.on_key(Key::Enter) == (ModalState { cancelled: true, ..m }),
        m.focus != ModalFocus::Confirm && m.focus != ModalFocus::Cancel ==> m.on_key(Key::Enter) == m,
        m.on_key(Key::Esc) == (ModalState { cancelled: true, ..m }),
{
}

/// Tab (and Down, Right) walks path, limit checkbox, slider, limit box, the
/// files in order, Confirm, Cancel, and back to the path; BackTab (and Up,
/// Left) walks the other way.
pub proof fn lemma_tab_order(n: nat)
    requires
        n <= usize::MAX,
    ensures
        focus_after(ModalFocus::Path, n, 1) == ModalFocus::LimitToggle,
        focus_after(ModalFocus::LimitToggle, n, 1) == ModalFocus::Slider,
        focus_after(ModalFocus::Slider, n, 1) == ModalFocus::LimitValue,
        n > 0 ==> focus_after(ModalFocus::LimitValue, n, 1) == ModalFocus::File(0),
        n == 0 ==> focus_after(ModalFocus::LimitValue, n, 1) == ModalFocus::Confirm,
        forall|i: usize| i + 1 < n ==> #[trigger] focus_after(ModalFocus::File(i), n, 1) == ModalFocus::File(
            (i + 1) as usize,
        ),
        n > 0 ==> focus_after(ModalFocus::File((n - 1) as usize), n, 1) == ModalFocus::Confirm,
        focus_after(ModalFocus::Confirm, n, 1) == ModalFocus::Cancel,
        focus_after(ModalFocus::Cancel, n, 1) == ModalFocus::Path,
        focus_after(ModalFocus::Path, n, -1) == ModalFocus::Cancel,
{
    let len: int = n + 6int;
    lemma_small_mod(1, len as nat);
    lemma_small_mod(2, len as nat);
    lemma_small_mod(3, len as nat);
    lemma_small_mod(4, len as nat);
    lemma_focus_order_positions(n, 1);
    lemma_focus_order_positions(n, 2);
    lemma_focus_order_positions(n, 3);
    lemma_focus_order_positions(n, 4);
    lemma_small_mod((n + 5) as nat, len as nat);
    lemma_focus_order_positions(n, n + 4int);
    lemma_focus_order_positions(n, n + 5int);
    lemma_fundamental_div_mod_converse(n + 6int, len, 1, 0);
    lemma_focus_order_positions(n, 0);
    lemma_fundamental_div_mod_converse(-1, len, -1, len - 1);
    assert forall|i: usize| i + 1 < n implies #[trigger] focus_after(ModalFocus::File(i), n, 1) == ModalFocus::File(
        (i + 1) as usize,
    ) by {
        lemma_small_mod((i + 5) as nat, len as nat);
        lemma_focus_order_positions(n, i + 5);
    }
    if n > 0 {
        lemma_small_mod((n + 4) as nat, len as nat);
    }
}

/// Tab, Down and Right move the focus one control forward, BackTab, Up and
/// Left one control back; landing on a file row also puts the file cursor
/// there. Nothing else changes.
pub proof fn lemma_focus_keys(m: ModalState)
    ensures
        ({
            let f = focus_after(m.focus, m.files.len(), 1);
            let moved = ModalState {
                focus: f,
                file_focus: match f {
                    ModalFocus::File(i) => i,
                    _ => m.file_focus,
                },
                ..m
            };
            &&& m.on_key(Key::Tab) == moved
            &&& m.on_key(Key::Down) == moved
            &&& m.on_key(Key::Right) == moved
        }),
        ({
            let f = focus_after(m.focus, m.files.len(), -1);
            let moved = ModalState {
                focus: f,
                file_focus: match f {
                    ModalFocus::File(i) => i,
                    _ => m.file_focus,
                },
                ..m
            };
            &&& m.on_key(Key::BackTab) == moved
            &&& m.on_key(Key::Up) == moved
            &&& m.on_key(Key::Left) == moved
        }),
{
}

/// Keys with no meaning where the focus is leave the dialog as it was: an
/// unknown key anywhere; a character other than Space, and Backspace, away
/// from the path and the limit box; Space away from the limit checkbox and
/// the file rows; Enter away from the two buttons.
pub proof fn lemma_modal_inert_keys(m: ModalState, c: char)
    ensures
        m.on_key(Key::Other) == m,
        (m.focus != ModalFocus::Path && m.focus != ModalFocus::LimitValue && c != ' ') ==> m.on_key(Key::Char(c))
            == m,
        (m.focus != ModalFocus::Path && m.focus != ModalFocus::LimitValue) ==> m.on_key(Key::Backspace) == m,
        (m.focus != ModalFocus::LimitToggle && !(m.focus is File)) ==> m.on_key(Key::Char(' ')) == m,
{
}

/// Space twice leaves the modal as it was.
pub proof fn lemma_toggle_twice(m: ModalState)
    ensures
        m.toggled().toggled() == m,
{
    match m.focus {
        ModalFocus::File(i) => {
            if i < m.files.len() {
                assert(m.toggled().toggled().files =~= m.files);
            }
        },
        _ => {},
    }
}

/// The selected indices are exactly the indices of checked files, in
/// increasing order.
pub proof fn lemma_selected_indices(files: Seq<(Seq<char>, bool)>, k: nat)
    requires
        files.len() <= usize::MAX,
        k <= files.len(),
    ensures
        forall|x: usize| selected_upto(files, k).contains(x) <==> (x < k && files[x as int].1),
        forall|a: int, b: int|
            0 <= a < b < selected_upto(files, k).len() ==> selected_upto(files, k)[a]
                < selected_upto(files, k)[b],
        forall|a: int| 0 <= a < selected_upto(files, k).len() ==> selected_upto(files, k)[a] < k,
    decreases k,
{
    if k > 0 {
        lemma_selected_indices(files, (k - 1) as nat);
        let prev = selected_upto(files, (k - 1) as nat);
        let cur = selected_upto(files, k);
        if files[k - 1].1 {
            assert(cur == prev.push((k - 1) as usize));
            assert forall|x: usize| cur.contains(x) <==> (x < k && files[x as int].1) by {
                if x == k - 1 {
                    assert(cur[prev.len() as int] == x);
                } else if prev.contains(x) {
                    let j = choose|j: int| 0 <= j < prev.len() && prev[j] == x;
                    assert(cur[j] == x);
                } else if cur.contains(x) {
                    let j = choose|j: int| 0 <= j < cur.len() && cur[j] == x;
                    if j < prev.len() {
                        assert(prev[j] == x);
                    }
                }
            }
            assert forall|a: int, b: int| 0 <= a < b < cur.len() implies cur[a] < cur[b] by {
                if b < prev.len() {
                    assert(cur[a] == prev[a] && cur[b] == prev[b]);
                } else {
                    assert(cur[a] == prev[a]);
                }
            }
            assert forall|a: int| 0 <= a < cur.len() implies cur[a] < k by {
                if a < prev.len() {
                    assert(cur[a] == prev[a]);
                }
            }
        }
    }
}

/// "[x]" for a checked box, "[ ]" otherwise.
pub open spec fn check_mark(checked: bool) -> Seq<char> {
    if checked {
        "[x]"@
    } else {
        "[ ]"@
    }
}

/// The slider text for `v`: `min(v, 10)` full cells, the rest light cells,
/// in brackets.
pub open spec fn slider_text(v: u32) -> Seq<char> {
    let filled: nat = if v > 10 {
        10
    } else {
        v as nat
    };
    seq!['['] + repeat('█', filled) + repeat('░', (10 - filled) as nat) + seq![']']
}

/// The slider is always twelve characters: brackets around ten cells, of
/// which the first `v` (all ten for a larger `v`) are full and the rest
/// light.
pub proof fn lemma_slider_shape(v: u32)
    ensures
        slider_text(v).len() == 12,
        slider_text(v)[0] == '[',
        slider_text(v)[11] == ']',
        forall|k: int| 1 <= k <= 10 ==> (#[trigger] slider_text(v)[k] == '█' <==> k <= v),
        forall|k: int| 1 <= k <= 10 ==> (#[trigger] slider_text(v)[k] == '░' <==> k > v),
{
    let filled: nat = if v > 10 {
        10
    } else {
        v as nat
    };
    let t = slider_text(v);
    assert forall|k: int| 1 <= k <= 10 implies (#[trigger] t[k] == '█' <==> k <= v) && (t[k] == '░' <==> k > v) by {
        if k <= filled {
            assert(t[k] == repeat('█', filled)[k - 1]);
        } else {
            assert(t[k] == repeat('░', (10 - filled) as nat)[k - 1 - filled]);
        }
    }
}

/// "[x]" for a checked box, "[ ]" otherwise.
pub fn checkbox(checked: bool) -> (res: &'static str)
    ensures
        res@ == check_mark(checked),
{
    if checked {
        "[x]"
    } else {
        "[ ]"
    }
}

/// The slider shown beside the limit checkbox.
pub fn slider_bar(v: u32) -> (res: String)
    ensures
        res@ == slider_text(v),
{
    let filled: usize = if v > 10 {
        10
    } else {
        v as usize
    };
    let mut out: Vec<char> = Vec::new();
    out.push('[');
    let mut i: usize = 0;
    while i < 10
        invariant
            filled <= 10,
            filled == (if v > 10 {
                10nat
            } else {
                v as nat
            }),
            i <= 10,
            out@ =~= seq!['['] + repeat('█', if i < filled {
                i as nat
            } else {
                filled as nat
            }) + repeat('░', if i < filled {
                0nat
            } else {
                (i - filled) as nat
            }),
        decreases 10 - i,
    {
        if i < filled {
            out.push('█');
        } else {
            out.push('░');
        }
        i = i + 1;
    }
    out.push(']');
    string_of(&out)
}

impl AddModal {
    /// Build a fresh modal. All files pre-selected, limit off, value 5.
    pub fn new(default_path: &str, file_names: Vec<String>) -> (res: AddModal)
        ensures
            res@.path == default_path@,
            !res@.limit_enabled,
            res@.limit_value == 5,
            res@.files == file_names@.map_values(|n: String| (n@, true)),
            res@.file_focus == 0,
            res@.focus == ModalFocus::Path,
            !res@.confirmed,
            !res@.cancelled,
    {
        let mut files: Vec<(String, bool)> = Vec::new();
        let mut i: usize = 0;
        while i < file_names.len()
            invariant
                i <= file_names.len(),
                entries_view(files@) =~= file_names@.take(i as int).map_values(|n: String| (n@, true)),
            decreases file_names.len() - i,
        {
            let name = file_names[i].clone();
            let ghost before = files@;
            files.push((name, true));
            proof {
                assert(entries_view(files@) =~= entries_view(before).push((file_names@[i as int]@, true)));
                assert(file_names@.take((i + 1) as int) =~= file_names@.take(i as int).push(file_names@[i as int]));
            }
            i = i + 1;
        }
        assert(file_names@.take(file_names@.len() as int) =~= file_names@);
        AddModal {
            path: string_of(&crate::text::chars_of(default_path)),
            limit_enabled: false,
            limit_value: 5,
            files,
            file_focus: 0,
            focus: ModalFocus::Path,
            confirmed: false,
            cancelled: false,
        }
    }

    /// Indices of files the user chose to download.
    pub fn selected_files(&self) -> (res: Vec<usize>)
        ensures
            res@ == selected_indices(self@.files),
    {
        let mut out: Vec<usize> = Vec::new();
        let mut i: usize = 0;
        while i < self.files.len()
            invariant
                i <= self.files.len(),
                out@ == selected_upto(self@.files, i as nat),
            decreases self.files.len() - i,
        {
            if self.files[i].1 {
                out.push(i);
            }
            i = i + 1;
        }
        out
    }

    /// Move focus forward/back through the control order.
    pub fn advance_focus(&mut self, dir: i32)
        requires
            old(self).files.len() + 6 <= i32::MAX,
            i32::MIN <= focus_position(old(self).focus, old(self).files.len() as nat) + dir <= i32::MAX,
        ensures
            final(self)@ == old(self)@.advanced(dir as int),
    {
        let n: usize = self.files.len();
        let len: i64 = n as i64 + 6;
        let cur: i64 = match self.focus {
            ModalFocus::Path => 0,
            ModalFocus::LimitToggle => 1,
            ModalFocus::Slider => 2,
            ModalFocus::LimitValue => 3,
            ModalFocus::File(i) => if i < n {
                4 + i as i64
            } else {
                0
            },
            ModalFocus::Confirm => n as i64 + 4,
            ModalFocus::Cancel => n as i64 + 5,
        };
        let r: i64 = euclid_mod(cur + dir as i64, len);
        let next = focus_at(r as usize, n);
        self.focus = next;
        if let ModalFocus::File(i) = next {
            self.file_focus = i;
        }
    }

    /// Space toggles the active checkbox/toggle.
    pub fn toggle(&mut self)
        ensures
            final(self)@ == old(self)@.toggled(),
    {
        match self.focus {
            ModalFocus::LimitToggle => self.limit_enabled = !self.limit_enabled,
            ModalFocus::File(i) => {
                if i < self.files.len() {
                    let ghost before = self.files@;
                    let sel = self.files[i].1;
                    self.files[i].1 = !sel;
                    assert(entries_view(self.files@) =~= entries_view(before).update(
                        i as int,
                        (entries_view(before)[i as int].0, !sel),
                    ));
                }
            },
            _ => {},
        }
    }

    /// Insert a typed char into the focused text field.
    pub fn type_char(&mut self, c: char)
        ensures
            final(self)@ == old(self)@.typed(c),
    {
        match self.focus {
            ModalFocus::Path => push_char(&mut self.path, c),
            ModalFocus::LimitValue => {
                if let Some(d) = digit_value(c) {
                    let w: u64 = 10 * (self.limit_value as u64) + d as u64;
                    if w > 0xffff_ffffu64 {
                    } else if 1 <= w && w <= 10 {
                        self.limit_value = w as u32;
                    } else if w == 0 {
                        self.limit_value = 1;
                    }
                }
            },
            _ => {},
        }
    }

    /// Delete the last character of the focused text field.
    pub fn backspace(&mut self)
        ensures
            final(self)@ == old(self)@.erased(),
    {
        match self.focus {
            ModalFocus::Path => {
                pop_char(&mut self.path);
            },
            ModalFocus::LimitValue => {
                let v = self.limit_value;
                self.limit_value = if v < 10 {
                    1
                } else if v / 10 > 10 {
                    10
                } else {
                    v / 10
                };
            },
            _ => {},
        }
    }

    /// Keyboard handling. Returns nothing; inspect `confirmed`/`cancelled`.
    pub fn handle_key(&mut self, key: Key)
        requires
            moves_focus(key) ==> old(self).files.len() + 6 <= i32::MAX,
        ensures
            final(self)@ == old(self)@.on_key(key),
    {
        proof {
            lemma_focus_listed_position(self.focus, self.files.len() as nat);
        }
        match key {
            Key::Tab | Key::Down | Key::Right => self.advance_focus(1),
            Key::BackTab | Key::Up | Key::Left => self.advance_focus(-1),
            Key::Char(c) => if c == ' ' {
                self.toggle()
            } else {
                self.type_char(c)
            },
            Key::Enter => match self.focus {
                ModalFocus::Confirm => self.confirmed = true,
                ModalFocus::Cancel => self.cancelled = true,
                _ => {},
            },
            Key::Esc => self.cancelled = true,
            Key::Backspace => self.backspace(),
            _ => {},
        }
    }

    /// Where the dialog stands after a key: confirmed (start the download),
    /// cancelled (close it), or still open. Confirmation wins over
    /// cancellation.
    pub fn outcome(&self) -> (res: ModalOutcome)
        ensures
            res == (if self.confirmed {
                ModalOutcome::Confirmed
            } else if self.cancelled {
                ModalOutcome::Cancelled
            } else {
                ModalOutcome::Open
            }),
    {
        if self.confirmed {
            ModalOutcome::Confirmed
        } else if self.cancelled {
            ModalOutcome::Cancelled
        } else {
            ModalOutcome::Open
        }
    }

    /// The text of the numeric limit box.
    pub fn limit_text(&self) -> (res: String)
        ensures
            res@ == decimal(self.limit_value as nat),
    {
        decimal_u32(self.limit_value)
    }

    /// Whether the `i`-th file row has the focus.
    pub fn file_row_focused(&self, i: usize) -> (res: bool)
        ensures
            res == (self.focus == ModalFocus::File(i)),
    {
        match self.focus {
            ModalFocus::File(n) => n == i,
            _ => false,
        }
    }
}

/// The names of file entries, in order.
pub open spec fn entries_names(files: Seq<(String, bool)>) -> Seq<String> {
    files.map_values(|e: (String, bool)| e.0)
}

} // verus!
