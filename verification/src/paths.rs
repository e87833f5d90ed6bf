//! Filesystem paths, held as strings. Joining, parents and extensions are
//! those of `std::path`, called through the trusted items below.
use vstd::prelude::*;

verus! {

/// The path that `std::path::Path::join` makes of `base` and `part`.
pub uninterp spec fn path_join(base: Seq<char>, part: Seq<char>) -> Seq<char>;

/// The parent that `std::path::Path::parent` gives for `path`, if any.
pub uninterp spec fn path_parent(path: Seq<char>) -> Option<Seq<char>>;

/// The extension that `std::path::Path::extension` gives for `path`, if any.
pub uninterp spec fn path_extension(path: Seq<char>) -> Option<Seq<char>>;

/// `part` is one plain path component: not empty, not `.` or `..`, and free
/// of separators (`/`, `\`) and of `:` (which can start a Windows prefix).
pub open spec fn plain_component(part: Seq<char>) -> bool {
    &&& part.len() > 0
    &&& !(part.len() == 1 && part[0] == '.')
    &&& !(part.len() == 2 && part[0] == '.' && part[1] == '.')
    &&& forall|i: int|
        0 <= i < part.len() ==> #[trigger] part[i] != '/' && part[i] != '\\' && part[i] != ':'
}

/// Calls `std::path::Path::join`. Claims that the result is
/// `path_join(base, part)`, a function of the two arguments; joining two UTF-8
/// paths gives a UTF-8 path, so the lossy conversion loses nothing. For a plain
/// component, it also claims what the documentation of `Path::join`,
/// `PathBuf::push` ("extends self with path") and `Path::parent` ("the path
/// without its final component") say: the component is appended after a
/// separator that depends on `base` alone, so the result ends with the
/// component and joining another plain component differs only there; and when
/// `base` itself ends in a plain component that a join appended, the parent of
/// the result is `base`.
#[verifier::external_body]
pub(crate) fn join_path(base: &str, part: &str) -> (r: String)
    ensures
        r@ == path_join(base@, part@),
        plain_component(part@) ==> part@.len() <= r@.len(),
        plain_component(part@) ==> forall|other: Seq<char>|
            plain_component(other) ==> #[trigger] path_join(base@, other) == r@.take(
                r@.len() - part@.len(),
            ) + other,
        plain_component(part@) && (exists|x: Seq<char>, y: Seq<char>|
            plain_component(y) && base@ == #[trigger] path_join(x, y)) ==> path_parent(r@) == Some(
            base@,
        ),
{
    std::path::Path::new(base).join(part).to_string_lossy().into_owned()
}

/// Calls `std::path::Path::parent`. Claims only that the result is
/// `path_parent(path)`.
#[verifier::external_body]
pub(crate) fn parent_path(path: &str) -> (r: Option<String>)
    ensures
        match r {
            Some(p) => path_parent(path@) == Some(p@),
            None => path_parent(path@) == None::<Seq<char>>,
        },
{
    match std::path::Path::new(path).parent() {
        Some(p) => Some(p.to_string_lossy().into_owned()),
        None => None,
    }
}

/// Calls `std::path::Path::extension` (and `OsStr::to_str`). Claims only that
/// the result is `path_extension(path)`.
#[verifier::external_body]
pub(crate) fn extension_of(path: &str) -> (r: Option<String>)
    ensures
        match r {
            Some(e) => path_extension(path@) == Some(e@),
            None => path_extension(path@) == None::<Seq<char>>,
        },
{
    match std::path::Path::new(path).extension() {
        Some(e) => match e.to_str() {
            Some(s) => Some(s.to_string()),
            None => None,
        },
        None => None,
    }
}

/// `base` joined with each of `parts` in turn.
pub open spec fn join_all(base: Seq<char>, parts: Seq<Seq<char>>) -> Seq<char>
    decreases parts.len(),
{
    if parts.len() == 0 {
        base
    } else {
        path_join(join_all(base, parts.drop_last()), parts.last())
    }
}

} // verus!
