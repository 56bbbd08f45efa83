//! Character-level helpers shared by the rest of the crate: the whitespace
//! rule that `str::trim` follows, prefix/suffix tests, ASCII case folding,
//! decimal rendering of integers, padding and truncation for display.

use vstd::prelude::*;

verus! {

/// The Unicode `White_Space` property, which `char::is_whitespace` (and so
/// `str::trim`) tests for.
pub open spec fn is_unicode_whitespace(c: char) -> bool {
    let u = c as u32;
    ||| 0x09 <= u <= 0x0D
    ||| u == 0x20
    ||| u == 0x85
    ||| u == 0xA0
    ||| u == 0x1680
    ||| 0x2000 <= u <= 0x200A
    ||| u == 0x2028
    ||| u == 0x2029
    ||| u == 0x202F
    ||| u == 0x205F
    ||| u == 0x3000
}

/// `s` with all leading and trailing whitespace removed.
pub open spec fn trimmed(s: Seq<char>) -> Seq<char>
    decreases s.len(),
{
    if s.len() > 0 && is_unicode_whitespace(s[0]) {
        trimmed(s.drop_first())
    } else if s.len() > 0 && is_unicode_whitespace(s.last()) {
        trimmed(s.drop_last())
    } else {
        s
    }
}

/// `p` is a prefix of `s`.
pub open spec fn has_prefix(s: Seq<char>, p: Seq<char>) -> bool {
    p.len() <= s.len() && s.subrange(0, p.len() as int) == p
}

/// `p` is a suffix of `s`.
pub open spec fn has_suffix(s: Seq<char>, p: Seq<char>) -> bool {
    p.len() <= s.len() && s.subrange(s.len() - p.len(), s.len() as int) == p
}

/// ASCII lower-casing of one character; other characters are unchanged.
pub open spec fn ascii_lower(c: char) -> char {
    if 'A' <= c && c <= 'Z' {
        ((c as u32) + 32) as char
    } else {
        c
    }
}

/// Equality of two strings up to ASCII case.
pub open spec fn eq_ignore_ascii_case(a: Seq<char>, b: Seq<char>) -> bool {
    a.len() == b.len() && forall|i: int| 0 <= i < a.len() ==> ascii_lower(#[trigger] a[i]) == ascii_lower(b[i])
}

/// The ASCII digit for `d < 10`.
pub open spec fn digit_char(d: nat) -> char {
    ((d + 48) as u32) as char
}

/// Decimal digits of `n`, most significant first, without leading zeros.
pub open spec fn decimal(n: nat) -> Seq<char>
    decreases n,
{
    if n < 10 {
        seq![digit_char(n)]
    } else {
        decimal(n / 10).push(digit_char(n % 10))
    }
}

/// `n` repetitions of `c`.
pub open spec fn repeat(c: char, n: nat) -> Seq<char> {
    Seq::new(n, |i: int| c)
}

/// `s` truncated to `max` characters, the last of which becomes '…' when
/// anything is cut off.
pub open spec fn trim_to(s: Seq<char>, max: nat) -> Seq<char> {
    if s.len() <= max {
        s
    } else {
        s.take((if max >= 1 { max - 1 } else { 0 }) as int).push('…')
    }
}

/// `s` right-aligned in a field of `width` characters.
pub open spec fn pad_left(s: Seq<char>, width: nat) -> Seq<char> {
    if s.len() >= width {
        s
    } else {
        repeat(' ', (width - s.len()) as nat) + s
    }
}

/// `s` left-aligned in a field of `width` characters.
pub open spec fn pad_right(s: Seq<char>, width: nat) -> Seq<char> {
    if s.len() >= width {
        s
    } else {
        s + repeat(' ', (width - s.len()) as nat)
    }
}

/// Wraps `str::chars` collected into a vector: the characters of `s` in
/// order. The contract claims only that the vector holds exactly the
/// characters that make up `s`.
#[verifier::external_body]
pub fn chars_of(s: &str) -> (res: Vec<char>)
    ensures
        res@ == s@,
{
    s.chars().collect()
}

/// Wraps `FromIterator<char> for String`: the string made of `v`'s
/// characters, in order.
#[verifier::external_body]
pub fn string_of(v: &Vec<char>) -> (res: String)
    ensures
        res@ == v@,
{
    v.iter().collect()
}

/// Wraps `String::push`: appends one character.
#[verifier::external_body]
pub fn push_char(s: &mut String, c: char)
    ensures
        final(s)@ == old(s)@.push(c),
{
    s.push(c)
}

/// Wraps `String::pop`: removes and returns the last character, if any.
#[verifier::external_body]
pub fn pop_char(s: &mut String) -> (res: Option<char>)
    ensures
        old(s)@.len() == 0 ==> res is None && final(s)@ == old(s)@,
        old(s)@.len() > 0 ==> res == Some(old(s)@.last()) && final(s)@ == old(s)@.drop_last(),
{
    s.pop()
}

/// Whether `c` has the Unicode `White_Space` property.
pub fn is_whitespace_char(c: char) -> (res: bool)
    ensures
        res == is_unicode_whitespace(c),
{
    let u = c as u32;
    (0x09 <= u && u <= 0x0D) || u == 0x20 || u == 0x85 || u == 0xA0 || u == 0x1680 || (0x2000 <= u
        && u <= 0x200A) || u == 0x2028 || u == 0x2029 || u == 0x202F || u == 0x205F || u == 0x3000
}

/// `trimmed(s)` is the part of `s` between a whitespace prefix `[0, a)` and
/// a whitespace suffix `[b, len)` whose ends are not whitespace.
proof fn lemma_trimmed_is_middle(s: Seq<char>, a: int, b: int)
    requires
        0 <= a <= b <= s.len(),
        forall|k: int| 0 <= k < a ==> is_unicode_whitespace(#[trigger] s[k]),
        forall|k: int| b <= k < s.len() ==> is_unicode_whitespace(#[trigger] s[k]),
        a < b ==> !is_unicode_whitespace(s[a]) && !is_unicode_whitespace(s[b - 1]),
    ensures
        trimmed(s) == s.subrange(a, b),
    decreases s.len(),
{
    if s.len() > 0 && is_unicode_whitespace(s[0]) {
        let t = s.drop_first();
        let a2 = if a > 0 { a - 1 } else { 0 };
        let b2 = if b > 0 { b - 1 } else { 0 };
        assert(a == 0 ==> b == 0);
        assert forall|k: int| 0 <= k < a2 implies is_unicode_whitespace(#[trigger] t[k]) by {
            assert(t[k] == s[k + 1]);
        }
        assert forall|k: int| b2 <= k < t.len() implies is_unicode_whitespace(#[trigger] t[k]) by {
            assert(t[k] == s[k + 1]);
        }
        if a2 < b2 {
            assert(t[a2] == s[a2 + 1]);
            assert(t[b2 - 1] == s[b2]);
        }
        lemma_trimmed_is_middle(t, a2, b2);
        assert(t.subrange(a2, b2) =~= s.subrange(a, b));
    } else if s.len() > 0 && is_unicode_whitespace(s.last()) {
        let t = s.drop_last();
        assert(b < s.len() || a == b) by {
            if b == s.len() && a < b {
                assert(s[b - 1] == s.last());
            }
        }
        let b2 = if b < s.len() { b } else { b - 1 };
        let a2 = if a <= b2 { a } else { b2 };
        assert forall|k: int| 0 <= k < a2 implies is_unicode_whitespace(#[trigger] t[k]) by {
            assert(t[k] == s[k]);
        }
        assert forall|k: int| b2 <= k < t.len() implies is_unicode_whitespace(#[trigger] t[k]) by {
            assert(t[k] == s[k]);
        }
        if a2 < b2 {
            assert(t[a2] == s[a2]);
            assert(t[b2 - 1] == s[b2 - 1]);
        }
        lemma_trimmed_is_middle(t, a2, b2);
        assert(t.subrange(a2, b2) =~= s.subrange(a, b));
    } else {
        if s.len() > 0 {
            assert(a == 0) by {
                if a > 0 {
                    assert(is_unicode_whitespace(s[0]));
                }
            }
            assert(b == s.len()) by {
                if b < s.len() {
                    assert(is_unicode_whitespace(s[s.len() - 1]));
                }
            }
        }
        assert(s.subrange(a, b) =~= s);
    }
}

/// `s` without its leading and trailing whitespace (characters with the
/// Unicode `White_Space` property), as `str::trim` gives it.
pub fn trim_whitespace(s: &str) -> (res: String)
    ensures
        res@ == trimmed(s@),
{
    let cs = chars_of(s);
    let n = cs.len();
    let mut a: usize = 0;
    while a < n && is_whitespace_char(cs[a])
        invariant
            n == cs@.len(),
            a <= n,
            forall|k: int| 0 <= k < a ==> is_unicode_whitespace(#[trigger] cs@[k]),
        decreases n - a,
    {
        a = a + 1;
    }
    let mut b: usize = n;
    while b > a && is_whitespace_char(cs[b - 1])
        invariant
            n == cs@.len(),
            a <= b <= n,
            forall|k: int| b <= k < n ==> is_unicode_whitespace(#[trigger] cs@[k]),
        decreases b - a,
    {
        b = b - 1;
    }
    let mut out: Vec<char> = Vec::new();
    let mut i: usize = a;
    while i < b
        invariant
            a <= i <= b,
            b <= n,
            n == cs@.len(),
            out@ =~= cs@.subrange(a as int, i as int),
        decreases b - i,
    {
        out.push(cs[i]);
        i = i + 1;
    }
    proof {
        lemma_trimmed_is_middle(cs@, a as int, b as int);
    }
    string_of(&out)
}

/// `a` followed by `b`.
pub fn concat_str(a: &str, b: &str) -> (res: String)
    ensures
        res@ == a@ + b@,
{
    let mut x = chars_of(a);
    let y = chars_of(b);
    let mut i: usize = 0;
    let ghost x0 = x@;
    while i < y.len()
        invariant
            i <= y.len(),
            x@ =~= x0 + y@.take(i as int),
        decreases y.len() - i,
    {
        x.push(y[i]);
        i = i + 1;
    }
    assert(y@.take(y@.len() as int) =~= y@);
    string_of(&x)
}

/// Whether two texts are equal.
pub fn same_text(a: &str, b: &str) -> (res: bool)
    ensures
        res == (a@ == b@),
{
    let x = chars_of(a);
    let y = chars_of(b);
    if x.len() != y.len() {
        return false;
    }
    let mut i: usize = 0;
    while i < x.len()
        invariant
            x@ == a@,
            y@ == b@,
            x.len() == y.len(),
            i <= x.len(),
            forall|j: int| 0 <= j < i ==> x@[j] == y@[j],
        decreases x.len() - i,
    {
        if x[i] != y[i] {
            assert(x@[i as int] != y@[i as int]);
            assert(a@[i as int] != b@[i as int]);
            assert(a@ != b@);
            return false;
        }
        i = i + 1;
    }
    assert(x@ =~= y@);
    true
}

/// Whether `p` is a prefix of `s`.
pub fn starts_with_chars(s: &Vec<char>, p: &Vec<char>) -> (res: bool)
    ensures
        res == has_prefix(s@, p@),
{
    if p.len() > s.len() {
        return false;
    }
    let mut i: usize = 0;
    while i < p.len()
        invariant
            p.len() <= s.len(),
            i <= p.len(),
            forall|j: int| 0 <= j < i ==> s@[j] == p@[j],
        decreases p.len() - i,
    {
        if s[i] != p[i] {
            assert(s@.subrange(0, p@.len() as int)[i as int] != p@[i as int]);
            return false;
        }
        i = i + 1;
    }
    assert(s@.subrange(0, p@.len() as int) =~= p@);
    true
}

/// Whether `p` is a suffix of `s`.
pub fn ends_with_chars(s: &Vec<char>, p: &Vec<char>) -> (res: bool)
    ensures
        res == has_suffix(s@, p@),
{
    if p.len() > s.len() {
        return false;
    }
    let off: usize = s.len() - p.len();
    let mut i: usize = 0;
    while i < p.len()
        invariant
            p.len() <= s.len(),
            off == s.len() - p.len(),
            i <= p.len(),
            forall|j: int| 0 <= j < i ==> s@[off + j] == p@[j],
        decreases p.len() - i,
    {
        if s[off + i] != p[i] {
            assert(s@.subrange(off as int, s@.len() as int)[i as int] != p@[i as int]);
            return false;
        }
        i = i + 1;
    }
    assert(s@.subrange(off as int, s@.len() as int) =~= p@);
    true
}

/// ASCII lower-casing of one character.
pub fn lower_ascii(c: char) -> (res: char)
    ensures
        res == ascii_lower(c),
{
    if 'A' <= c && c <= 'Z' {
        let u: u32 = (c as u32) + 32;
        assert(0x61 <= u <= 0x7A);
        char_from_ascii(u)
    } else {
        c
    }
}

/// The character with code point `u`, for an ASCII letter code.
fn char_from_ascii(u: u32) -> (res: char)
    requires
        u < 128,
    ensures
        res == u as char,
{
    let b: u8 = u as u8;
    b as char
}

/// Equality up to ASCII case.
pub fn eq_ignore_case_chars(a: &Vec<char>, b: &Vec<char>) -> (res: bool)
    ensures
        res == eq_ignore_ascii_case(a@, b@),
{
    if a.len() != b.len() {
        return false;
    }
    let mut i: usize = 0;
    while i < a.len()
        invariant
            a.len() == b.len(),
            i <= a.len(),
            forall|j: int| 0 <= j < i ==> ascii_lower(#[trigger] a@[j]) == ascii_lower(b@[j]),
        decreases a.len() - i,
    {
        if lower_ascii(a[i]) != lower_ascii(b[i]) {
            return false;
        }
        i = i + 1;
    }
    true
}

/// The ASCII digit for `d`.
pub fn digit_to_char(d: u32) -> (res: char)
    requires
        d < 10,
    ensures
        res == digit_char(d as nat),
{
    char_from_ascii(d + 48)
}

/// Decimal rendering of `n`, as `u32::to_string` gives it.
pub fn decimal_u32(n: u32) -> (res: String)
    ensures
        res@ == decimal(n as nat),
{
    let mut digits: Vec<char> = Vec::new();
    let mut m: u32 = n;
    // collect least significant digit first
    while m >= 10
        invariant
            decimal(n as nat) == decimal(m as nat) + digits@.reverse(),
        decreases m,
    {
        let d: u32 = m % 10;
        let c = digit_to_char(d);
        proof {
            assert(decimal(m as nat) == decimal((m / 10) as nat).push(digit_char((m % 10) as nat)));
            assert(digits@.push(c).reverse() =~= seq![c] + digits@.reverse());
        }
        digits.push(c);
        m = m / 10;
    }
    let c0 = digit_to_char(m);
    digits.push(c0);
    assert(digits@.reverse() =~= seq![c0] + digits@.drop_last().reverse());
    let mut out: Vec<char> = Vec::new();
    let mut k: usize = digits.len();
    while k > 0
        invariant
            k <= digits.len(),
            out@ =~= digits@.subrange(k as int, digits@.len() as int).reverse(),
        decreases k,
    {
        k = k - 1;
        proof {
            assert(digits@.subrange(k as int, digits@.len() as int).reverse() =~= digits@.subrange(
                (k + 1) as int,
                digits@.len() as int,
            ).reverse().push(digits@[k as int]));
        }
        out.push(digits[k]);
    }
    assert(digits@.subrange(0, digits@.len() as int) =~= digits@);
    string_of(&out)
}

/// `s` truncated to `max` characters with a trailing '…' when cut.
pub fn trim(s: &str, max: usize) -> (res: String)
    ensures
        res@ == trim_to(s@, max as nat),
{
    let cs = chars_of(s);
    if cs.len() <= max {
        return string_of(&cs);
    }
    let keep: usize = if max >= 1 { max - 1 } else { 0 };
    let mut out: Vec<char> = Vec::new();
    let mut i: usize = 0;
    while i < keep
        invariant
            keep < cs.len(),
            i <= keep,
            out@ =~= cs@.take(i as int),
        decreases keep - i,
    {
        out.push(cs[i]);
        i = i + 1;
    }
    out.push('…');
    string_of(&out)
}

/// Appends `n` copies of `c` to `v`.
fn push_repeat(v: &mut Vec<char>, c: char, n: usize)
    ensures
        final(v)@ =~= old(v)@ + repeat(c, n as nat),
{
    let mut i: usize = 0;
    while i < n
        invariant
            i <= n,
            v@ =~= old(v)@ + repeat(c, i as nat),
        decreases n - i,
    {
        v.push(c);
        i = i + 1;
    }
}

/// `s` right-aligned in a field of `width` characters.
pub fn pad_left_str(s: &str, width: usize) -> (res: String)
    ensures
        res@ == pad_left(s@, width as nat),
{
    let cs = chars_of(s);
    if cs.len() >= width {
        return string_of(&cs);
    }
    let mut out: Vec<char> = Vec::new();
    push_repeat(&mut out, ' ', width - cs.len());
    let mut i: usize = 0;
    let ghost head = out@;
    while i < cs.len()
        invariant
            i <= cs.len(),
            out@ =~= head + cs@.take(i as int),
        decreases cs.len() - i,
    {
        out.push(cs[i]);
        i = i + 1;
    }
    assert(cs@.take(cs@.len() as int) =~= cs@);
    string_of(&out)
}

/// `s` left-aligned in a field of `width` characters.
pub fn pad_right_str(s: &str, width: usize) -> (res: String)
    ensures
        res@ == pad_right(s@, width as nat),
{
    let mut cs = chars_of(s);
    if cs.len() >= width {
        return string_of(&cs);
    }
    let n: usize = width - cs.len();
    push_repeat(&mut cs, ' ', n);
    string_of(&cs)
}

/// `s` is whitespace before position `a` and from position `b` on.
pub open spec fn blank_outside(s: Seq<char>, a: int, b: int) -> bool {
    &&& 0 <= a <= b <= s.len()
    &&& forall|k: int| 0 <= k < a ==> is_unicode_whitespace(#[trigger] s[k])
    &&& forall|k: int| b <= k < s.len() ==> is_unicode_whitespace(#[trigger] s[k])
}

/// Trimming removes whitespace from the two ends only: the result is a
/// contiguous part of the text, everything before and after it is
/// whitespace, and it neither starts nor ends with whitespace.
pub proof fn lemma_trimmed_shape(s: Seq<char>)
    ensures
        exists|a: int, b: int| #[trigger] blank_outside(s, a, b) && trimmed(s) == s.subrange(a, b),
        trimmed(s).len() > 0 ==> !is_unicode_whitespace(trimmed(s)[0]) && !is_unicode_whitespace(
            trimmed(s).last(),
        ),
    decreases s.len(),
{
    if s.len() > 0 && is_unicode_whitespace(s[0]) {
        let t = s.drop_first();
        lemma_trimmed_shape(t);
        let (a, b) = choose|a: int, b: int| #[trigger] blank_outside(t, a, b) && trimmed(t) == t.subrange(a, b);
        lemma_blank_outside_front(s, a, b);
    } else if s.len() > 0 && is_unicode_whitespace(s.last()) {
        let t = s.drop_last();
        lemma_trimmed_shape(t);
        let (a, b) = choose|a: int, b: int| #[trigger] blank_outside(t, a, b) && trimmed(t) == t.subrange(a, b);
        lemma_blank_outside_back(s, a, b);
    } else {
        assert(s.subrange(0, s.len() as int) =~= s);
        assert(blank_outside(s, 0, s.len() as int));
    }
}

/// One whitespace character put in front shifts the bounds by one.
proof fn lemma_blank_outside_front(s: Seq<char>, a: int, b: int)
    requires
        s.len() > 0,
        is_unicode_whitespace(s[0]),
        blank_outside(s.drop_first(), a, b),
    ensures
        blank_outside(s, a + 1, b + 1),
        s.drop_first().subrange(a, b) == s.subrange(a + 1, b + 1),
{
    let t = s.drop_first();
    assert(t.subrange(a, b) =~= s.subrange(a + 1, b + 1));
    assert forall|k: int| 0 <= k < a + 1 implies is_unicode_whitespace(#[trigger] s[k]) by {
        if k > 0 {
            assert(s[k] == t[k - 1]);
        }
    }
    assert forall|k: int| b + 1 <= k < s.len() implies is_unicode_whitespace(#[trigger] s[k]) by {
        assert(s[k] == t[k - 1]);
    }
}

/// One whitespace character put at the end keeps the bounds.
proof fn lemma_blank_outside_back(s: Seq<char>, a: int, b: int)
    requires
        s.len() > 0,
        is_unicode_whitespace(s.last()),
        blank_outside(s.drop_last(), a, b),
    ensures
        blank_outside(s, a, b),
        s.drop_last().subrange(a, b) == s.subrange(a, b),
{
    let t = s.drop_last();
    assert(t.subrange(a, b) =~= s.subrange(a, b));
    assert forall|k: int| 0 <= k < a implies is_unicode_whitespace(#[trigger] s[k]) by {
        assert(s[k] == t[k]);
    }
    assert forall|k: int| b <= k < s.len() implies is_unicode_whitespace(#[trigger] s[k]) by {
        if k < t.len() {
            assert(s[k] == t[k]);
        }
    }
}

/// A truncated text fits its width (for a width of at least one) and an
/// untruncated one is unchanged.
pub proof fn lemma_trim_fits(s: Seq<char>, max: nat)
    ensures
        max >= 1 ==> trim_to(s, max).len() <= max,
        s.len() <= max ==> trim_to(s, max) == s,
        s.len() > max ==> trim_to(s, max).last() == '…',
{
}

} // verus!
