//! The word source and selector: validating a loaded word list and picking a
//! random word whose length lies in the configured range. The list is
//! filtered first and sampled once, so selection always terminates, and fails
//! exactly when no word qualifies.

use vstd::prelude::*;
use crate::config::LengthRange;

verus! {

/// Errors of the word source and the selector.
#[derive(Clone, Copy, Debug, PartialEq, Eq, Structural)]
pub enum WordsError {
    /// The loaded word list holds no words at all.
    EmptySource,
    /// No word of the list has a length inside the configured range.
    NoMatch,
}

/// Relies on rand::Rng::gen_range over a thread-local generator: on a
/// non-empty range `0..len` it returns a uniformly distributed value of that
/// range, so the result is always below `len`.
#[verifier::external_body]
fn random_index(len: usize) -> (r: usize)
    requires
        len > 0,
    ensures
        r < len,
{
    rand::Rng::gen_range(&mut rand::thread_rng(), 0..len)
}

/// Some word of the list has a length inside the range.
pub open spec fn has_match(words: Seq<String>, range: LengthRange) -> bool {
    exists|i: int| 0 <= i < words.len() && range.contains_len(#[trigger] words[i]@.len() as int)
}

/// Checks a freshly loaded word list: fails exactly when it is empty.
pub fn validate_word_list(words: &Vec<String>) -> (r: Result<(), WordsError>)
    ensures
        r is Ok <==> words@.len() > 0,
        r is Err ==> r == Err::<(), WordsError>(WordsError::EmptySource),
{
    if words.len() == 0 {
        Err(WordsError::EmptySource)
    } else {
        Ok(())
    }
}

/// Picks one word at random among those whose character count lies in the
/// inclusive range: filter first, then sample once. Succeeds exactly when
/// some word of the list qualifies, and the chosen word is a qualifying word
/// of the list; fails with `NoMatch` otherwise.
pub fn select(words: &Vec<String>, range: &LengthRange) -> (r: Result<String, WordsError>)
    ensures
        r is Ok <==> has_match(words@, *range),
        r matches Ok(w) ==> range.contains_len(w@.len() as int) && (exists|i: int|
            0 <= i < words@.len() && #[trigger] words@[i]@ == w@),
        r is Err ==> r == Err::<String, WordsError>(WordsError::NoMatch),
{
    let mut candidates: Vec<String> = Vec::new();
    let mut i: usize = 0;
    while i < words.len()
        invariant
            0 <= i <= words@.len(),
            forall|j: int|
                0 <= j < candidates@.len() ==> range.contains_len(
                    #[trigger] candidates@[j]@.len() as int,
                ),
            forall|j: int|
                0 <= j < candidates@.len() ==> exists|k: int|
                    0 <= k < words@.len() && #[trigger] words@[k]@ == #[trigger] candidates@[j]@,
            (exists|k: int|
                0 <= k < i && range.contains_len(#[trigger] words@[k]@.len() as int))
                <==> candidates@.len() > 0,
        decreases words@.len() - i,
    {
        let len = words[i].as_str().unicode_len();
        if range.contains(len) {
            candidates.push(words[i].clone());
        }
        i = i + 1;
    }
    if candidates.len() == 0 {
        return Err(WordsError::NoMatch);
    }
    let idx = random_index(candidates.len());
    let w = candidates[idx].clone();
    Ok(w)
}

} // verus!
