//! Small operations on strings and paths that the planners share.

use vstd::prelude::*;

verus! {

/// What joining `rel` onto the path `base` gives: the joined path as text, or
/// `None` when the joined path cannot be written as text.
pub uninterp spec fn joined_path(base: Seq<char>, rel: Seq<char>) -> Option<Seq<char>>;

/// Whether `text` begins with `prefix`.
pub(crate) fn starts_with(text: &str, prefix: &str) -> (found: bool)
    ensures
        found == prefix@.is_prefix_of(text@),
{
    let length = prefix.unicode_len();
    if length > text.unicode_len() {
        return false;
    }
    let mut i: usize = 0;
    while i < length
        invariant
            i <= length,
            length == prefix@.len(),
            length <= text@.len(),
            forall|k: int| 0 <= k < i ==> prefix@[k] == text@[k],
        decreases length - i,
    {
        if prefix.get_char(i) != text.get_char(i) {
            assert(text@.subrange(0, length as int)[i as int] == text@[i as int]);
            return false;
        }
        i += 1;
    }
    assert(prefix@ =~= text@.subrange(0, length as int));
    true
}

/// Joins `rel` onto `base` as the platform's path type does.
///
/// Trusted: calls `std::path::PathBuf::push` on a path made from `base` and
/// reads the result back with `Path::to_str`. The contract only names the
/// result, as a function of the two texts.
#[verifier::external_body]
pub(crate) fn join_path(base: &str, rel: &str) -> (joined: Option<String>)
    ensures
        (match joined {
            Some(path) => Some(path@),
            None => None,
        }) == joined_path(base@, rel@),
{
    let mut path = std::path::PathBuf::from(base);
    path.push(rel);
    path.to_str().map(str::to_owned)
}

/// An owned copy of `text`.
pub(crate) fn owned(text: &str) -> (copy: String)
    ensures
        copy@ == text@,
{
    text.to_owned()
}

} // verus!
