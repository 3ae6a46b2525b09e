//! Standard library types that the library carries through unchanged.

use vstd::prelude::*;

verus! {

/// An owned filesystem path, carried through opaquely.
#[verifier::external_type_specification]
#[verifier::external_body]
pub struct ExPathBuf(std::path::PathBuf);

/// A wall-clock timestamp, carried through opaquely.
#[verifier::external_type_specification]
#[verifier::external_body]
pub struct ExSystemTime(std::time::SystemTime);

/// A monotonic timestamp, carried through opaquely.
#[verifier::external_type_specification]
#[verifier::external_body]
pub struct ExInstant(std::time::Instant);

} // verus!

verus! {

/// `PathBuf::clone` returns an equal path.
pub assume_specification[ <std::path::PathBuf as Clone>::clone ](p: &std::path::PathBuf) -> (r: std::path::PathBuf)
    ensures
        r == *p,
;

/// `SystemTime::clone` returns the same timestamp (the type is `Copy`).
pub assume_specification[ <std::time::SystemTime as Clone>::clone ](t: &std::time::SystemTime) -> (r: std::time::SystemTime)
    ensures
        r == *t,
;

/// `Duration::clone` returns the same duration (the type is `Copy`).
pub assume_specification[ <std::time::Duration as Clone>::clone ](d: &std::time::Duration) -> (r: std::time::Duration)
    ensures
        r == *d,
;

/// `Instant::clone` returns the same instant (the type is `Copy`).
pub assume_specification[ <std::time::Instant as Clone>::clone ](t: &std::time::Instant) -> (r: std::time::Instant)
    ensures
        r == *t,
;

} // verus!

verus! {

/// `SystemTime::now`: the current wall-clock time. Nothing is stated of the value,
/// which depends on the clock.
#[verifier::external_body]
pub(crate) fn system_time_now() -> (t: std::time::SystemTime) {
    std::time::SystemTime::now()
}

/// What `PathBuf::from` makes of a string.
pub uninterp spec fn path_from_string(s: Seq<char>) -> std::path::PathBuf;

/// `PathBuf::from(String)`: the path with the string's contents; the result
/// depends on the string alone.
#[verifier::external_body]
pub(crate) fn path_from(s: String) -> (p: std::path::PathBuf)
    ensures
        p == path_from_string(s@),
{
    std::path::PathBuf::from(s)
}

/// What `Path::join` makes of a directory and a relative name.
pub uninterp spec fn joined_path(dir: std::path::PathBuf, name: Seq<char>) -> std::path::PathBuf;

/// `Path::join`: the path of `name` within `dir`; the result depends on the
/// arguments alone.
#[verifier::external_body]
pub(crate) fn path_join(dir: &std::path::PathBuf, name: &str) -> (p: std::path::PathBuf)
    ensures
        p == joined_path(*dir, name@),
{
    dir.join(name)
}

/// What `Path::to_string_lossy` gives for a path.
pub uninterp spec fn path_text(p: std::path::PathBuf) -> Seq<char>;

/// `Path::to_string_lossy`, as an owned string; the result depends on the path
/// alone.
#[verifier::external_body]
pub(crate) fn path_to_text(p: &std::path::PathBuf) -> (s: String)
    ensures
        s@ == path_text(*p),
{
    p.to_string_lossy().to_string()
}

} // verus!
