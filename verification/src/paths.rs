//! File-system path questions answered by `std::path`.

use vstd::prelude::*;

verus! {

/// The extension of the last component of `path`, as `Path::extension`
/// determines it for this platform.
pub uninterp spec fn path_extension_of(path: Seq<char>) -> Option<Seq<char>>;

/// Whether `base` is a component-wise prefix of `path`, as
/// `Path::starts_with` determines it for this platform.
pub uninterp spec fn path_within(path: Seq<char>, base: Seq<char>) -> bool;

/// Wraps `Path::extension` (with the conversion of the extension back to
/// text, which cannot fail for a path given as text). The contract claims only
/// that the result is the one `path_extension_of` names for `path`.
#[verifier::external_body]
pub fn path_extension(path: &str) -> (res: Option<String>)
    ensures
        match res {
            Some(e) => path_extension_of(path@) == Some(e@),
            None => path_extension_of(path@) is None,
        },
{
    std::path::Path::new(path).extension().and_then(|e| e.to_str()).map(|e| e.to_string())
}

/// Wraps `Path::starts_with`. The contract claims only that the result is
/// the one `path_within` names for `path` and `base`.
#[verifier::external_body]
pub fn path_starts_with(path: &str, base: &str) -> (res: bool)
    ensures
        res == path_within(path@, base@),
{
    std::path::Path::new(path).starts_with(base)
}

} // verus!
