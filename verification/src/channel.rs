//! The model id guessed from the path of a progress report.

use vstd::prelude::*;
use crate::text::{has_substring, has_suffix, contains_str, ends_with, push_char};

verus! {

/// The parts of `s` between slashes (`str::split('/')`): one part more than there
/// are slashes, empty parts included.
pub open spec fn slash_parts(s: Seq<char>) -> Seq<Seq<char>>
    decreases s.len(),
{
    if s.len() == 0 {
        seq![Seq::empty()]
    } else {
        let p = slash_parts(s.drop_last());
        if s.last() == '/' {
            p.push(Seq::empty())
        } else {
            p.update(p.len() - 1, p.last().push(s.last()))
        }
    }
}

/// A path part that names a model: it holds a dash and is not a ".bin" or
/// ".json" file.
pub open spec fn names_model(part: Seq<char>) -> bool {
    has_substring(part, "-"@) && !has_suffix(part, ".bin"@) && !has_suffix(part, ".json"@)
}

/// The first part that names a model, if any.
pub open spec fn first_model_part(parts: Seq<Seq<char>>) -> Option<Seq<char>>
    decreases parts.len(),
{
    if parts.len() == 0 {
        None
    } else {
        match first_model_part(parts.drop_last()) {
            Some(p) => Some(p),
            None => if names_model(parts.last()) {
                Some(parts.last())
            } else {
                None
            },
        }
    }
}

/// The model id guessed from a progress path: its first part (between slashes)
/// that holds a dash and is not a ".bin" or ".json" file, else "unknown".
pub open spec fn model_id_guess(path: Seq<char>) -> Seq<char> {
    match first_model_part(slash_parts(path)) {
        Some(p) => p,
        None => "unknown"@,
    }
}

proof fn lemma_slash_parts_nonempty(s: Seq<char>)
    ensures
        slash_parts(s).len() >= 1,
    decreases s.len(),
{
    if s.len() > 0 {
        lemma_slash_parts_nonempty(s.drop_last());
    }
}

/// Guess the model id of a progress report from its path.
pub fn model_id_from_path(path: &str) -> (id: String)
    ensures
        id@ == model_id_guess(path@),
{
    let len = path.unicode_len();
    let mut current = String::new();
    let mut found: Option<String> = None;
    let ghost mut done: Seq<Seq<char>> = Seq::empty();
    let mut i: usize = 0;
    while i < len
        invariant
            i <= len,
            len == path@.len(),
            slash_parts(path@.take(i as int)) == done.push(current@),
            match found {
                Some(f) => first_model_part(done) == Some(f@),
                None => first_model_part(done) is None,
            },
        decreases len - i,
    {
        let c = path.get_char(i);
        proof {
            assert(path@.take(i + 1).drop_last() =~= path@.take(i as int));
            assert(path@.take(i + 1).last() == c);
            lemma_slash_parts_nonempty(path@.take(i as int));
        }
        if c == '/' {
            let part = current;
            current = String::new();
            proof {
                assert(done.push(part@).drop_last() =~= done);
                done = done.push(part@);
            }
            if found.is_none() && contains_str(part.as_str(), "-") && !ends_with(part.as_str(), ".bin")
                && !ends_with(part.as_str(), ".json") {
                found = Some(part);
            }
            assert(slash_parts(path@.take(i + 1)) =~= done.push(current@));
        } else {
            let ghost before = current@;
            push_char(&mut current, c);
            assert(slash_parts(path@.take(i + 1)) =~= done.push(current@));
        }
        i = i + 1;
    }
    assert(path@.take(len as int) =~= path@);
    let parts = Ghost(done.push(current@));
    assert(parts@.drop_last() =~= done);
    match found {
        Some(f) => f,
        None => {
            if contains_str(current.as_str(), "-") && !ends_with(current.as_str(), ".bin") && !ends_with(
                current.as_str(),
                ".json",
            ) {
                current
            } else {
                String::from_str("unknown")
            }
        },
    }
}

} // verus!
