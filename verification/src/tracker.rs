//! The guess tracker: the disjoint sets of correct and wrong guessed
//! characters, guess validation, and the derived counts the game state is
//! computed from.

use vstd::prelude::*;
use crate::chars::{contains_char, lower_char, to_lower};

verus! {

/// The verdict on one accepted guess.
#[derive(Clone, Copy, Debug, PartialEq, Eq, Structural)]
pub enum Outcome {
    /// The guessed character occurs in the word.
    Hit,
    /// The guessed character does not occur in the word.
    Miss,
}

/// Why a guess was rejected; rejected guesses never change any state.
#[derive(Clone, Copy, Debug, PartialEq, Eq, Structural)]
pub enum GuessError {
    /// The input is not exactly one character.
    Malformed,
    /// The character was guessed before, correctly or not.
    Duplicate,
    /// The game has already been won or lost.
    GameOver,
}

/// The number of positions of `word` whose character occurs in `correct`.
/// One correct guess reveals every position of that letter at once.
pub open spec fn revealed_count(word: Seq<char>, correct: Seq<char>) -> nat
    decreases word.len(),
{
    if word.len() == 0 {
        0
    } else {
        revealed_count(word.drop_last(), correct) + (if correct.contains(word.last()) {
            1 as nat
        } else {
            0 as nat
        })
    }
}

/// Membership in a pushed sequence is membership in the original or equality
/// with the new element.
pub proof fn lemma_push_contains(s: Seq<char>, c: char, x: char)
    ensures
        s.push(c).contains(x) <==> (s.contains(x) || x == c),
{
    if s.contains(x) {
        let i = choose|i: int| 0 <= i < s.len() && s[i] == x;
        assert(s.push(c)[i] == x);
    }
    if x == c {
        assert(s.push(c)[s.len() as int] == x);
    }
    if s.push(c).contains(x) {
        let i = choose|i: int| 0 <= i < s.push(c).len() && s.push(c)[i] == x;
        if i < s.len() {
            assert(s[i] == x);
        }
    }
}

/// Guess accounting: a fresh correct guess reveals at least one new position,
/// and a fresh wrong guess reveals none.
pub proof fn lemma_guess_accounting(word: Seq<char>, correct: Seq<char>, c: char)
    requires
        !correct.contains(c),
    ensures
        word.contains(c) ==> revealed_count(word, correct.push(c)) > revealed_count(word, correct),
        !word.contains(c) ==> revealed_count(word, correct.push(c)) == revealed_count(
            word,
            correct,
        ),
    decreases word.len(),
{
    if word.len() == 0 {
    } else {
        let prefix = word.drop_last();
        let last = word.last();
        lemma_guess_accounting(prefix, correct, c);
        lemma_push_contains(correct, c, last);
        if word.contains(c) && last != c {
            let i = choose|i: int| 0 <= i < word.len() && word[i] == c;
            assert(prefix[i] == c);
            assert(prefix.contains(c));
        }
        if prefix.contains(c) {
            let i = choose|i: int| 0 <= i < prefix.len() && prefix[i] == c;
            assert(word[i] == c);
            assert(word.contains(c));
        }
        if last == c {
            assert(word[word.len() - 1] == c);
            assert(word.contains(c));
        }
    }
}

/// The two sets of guessed characters: letters found in the word, and letters
/// absent from it, each in the order they were guessed.
#[derive(Clone, Debug)]
pub struct GuessSet {
    correct: Vec<char>,
    wrong: Vec<char>,
}

impl GuessSet {
    /// The correctly guessed characters, in guess order.
    pub closed spec fn correct_guesses(self) -> Seq<char> {
        self.correct@
    }

    /// The wrongly guessed characters, in guess order.
    pub closed spec fn wrong_guesses(self) -> Seq<char> {
        self.wrong@
    }

    /// Whether a character was guessed before, correctly or not.
    pub open spec fn already_guessed(self, c: char) -> bool {
        self.correct_guesses().contains(c) || self.wrong_guesses().contains(c)
    }

    /// Well-formedness: no character occurs twice, within a set or across the
    /// two sets.
    pub open spec fn wf(self) -> bool {
        &&& self.correct_guesses().no_duplicates()
        &&& self.wrong_guesses().no_duplicates()
        &&& self.correct_guesses().disjoint(self.wrong_guesses())
    }

    /// An empty tracker: nothing guessed yet.
    pub fn new() -> (r: GuessSet)
        ensures
            r.correct_guesses() == Seq::<char>::empty(),
            r.wrong_guesses() == Seq::<char>::empty(),
            r.wf(),
    {
        GuessSet { correct: Vec::new(), wrong: Vec::new() }
    }

    /// The correctly guessed characters, for display.
    pub fn correct_chars(&self) -> (r: &Vec<char>)
        ensures
            r@ == self.correct_guesses(),
    {
        &self.correct
    }

    /// The wrongly guessed characters, for display.
    pub fn wrong_chars(&self) -> (r: &Vec<char>)
        ensures
            r@ == self.wrong_guesses(),
    {
        &self.wrong
    }

    /// How many wrong guesses were made.
    pub fn wrong_count(&self) -> (r: usize)
        ensures
            r == self.wrong_guesses().len(),
    {
        self.wrong.len()
    }

    /// How many positions of `word` are revealed by the correct guesses.
    pub fn correct_letters_revealed_count(&self, word: &str) -> (r: usize)
        ensures
            r == revealed_count(word@, self.correct_guesses()),
    {
        let n = word.unicode_len();
        let mut count: usize = 0;
        let mut i: usize = 0;
        while i < n
            invariant
                0 <= i <= n,
                n == word@.len(),
                count <= i,
                count == revealed_count(word@.take(i as int), self.correct_guesses()),
            decreases n - i,
        {
            let c = word.get_char(i);
            assert(word@.take(i + 1).drop_last() =~= word@.take(i as int));
            assert(word@.take(i + 1).last() == word@[i as int]);
            if contains_char(self.correct.as_slice(), c) {
                count = count + 1;
            }
            i = i + 1;
        }
        assert(word@.take(n as int) =~= word@);
        count
    }

    /// Validates raw input before it is submitted: the input must be exactly
    /// one character and, lower-cased, not guessed before. Returns the
    /// normalized character on success and changes nothing either way.
    pub fn validate(&self, input: &str) -> (r: Result<char, GuessError>)
        ensures
            input@.len() != 1 ==> r == Err::<char, GuessError>(GuessError::Malformed),
            input@.len() == 1 && self.already_guessed(lower_char(input@[0])) ==> r == Err::<
                char,
                GuessError,
            >(GuessError::Duplicate),
            input@.len() == 1 && !self.already_guessed(lower_char(input@[0])) ==> r == Ok::<
                char,
                GuessError,
            >(lower_char(input@[0])),
    {
        let n = input.unicode_len();
        if n != 1 {
            return Err(GuessError::Malformed);
        }
        let c = to_lower(input.get_char(0));
        if contains_char(self.correct.as_slice(), c) || contains_char(self.wrong.as_slice(), c) {
            return Err(GuessError::Duplicate);
        }
        Ok(c)
    }

    /// Submits one guess against `word`. The guess is lower-cased first; a
    /// character guessed before is rejected with `Duplicate` and nothing
    /// changes; otherwise the character joins exactly one set, `correct` when
    /// the word contains it (`Hit`), `wrong` when it does not (`Miss`).
    pub fn submit(&mut self, word: &str, guess: char) -> (r: Result<Outcome, GuessError>)
        requires
            old(self).wf(),
        ensures
            final(self).wf(),
            ({
                let lc = lower_char(guess);
                &&& old(self).already_guessed(lc) ==> r == Err::<Outcome, GuessError>(
                    GuessError::Duplicate,
                ) && final(self).correct_guesses() == old(self).correct_guesses()
                    && final(self).wrong_guesses() == old(self).wrong_guesses()
                &&& !old(self).already_guessed(lc) && word@.contains(lc) ==> r == Ok::<
                    Outcome,
                    GuessError,
                >(Outcome::Hit) && final(self).correct_guesses() == old(
                    self,
                ).correct_guesses().push(lc) && final(self).wrong_guesses() == old(
                    self,
                ).wrong_guesses()
                &&& !old(self).already_guessed(lc) && !word@.contains(lc) ==> r == Ok::<
                    Outcome,
                    GuessError,
                >(Outcome::Miss) && final(self).wrong_guesses() == old(
                    self,
                ).wrong_guesses().push(lc) && final(self).correct_guesses() == old(
                    self,
                ).correct_guesses()
            }),
    {
        let lc = to_lower(guess);
        if contains_char(self.correct.as_slice(), lc) || contains_char(
            self.wrong.as_slice(),
            lc,
        ) {
            return Err(GuessError::Duplicate);
        }
        if contains_str_char(word, lc) {
            self.correct.push(lc);
            proof {
                lemma_push_preserves_wf(
                    old(self).correct_guesses(),
                    old(self).wrong_guesses(),
                    lc,
                );
            }
            Ok(Outcome::Hit)
        } else {
            self.wrong.push(lc);
            proof {
                lemma_push_preserves_wf(
                    old(self).wrong_guesses(),
                    old(self).correct_guesses(),
                    lc,
                );
                assert(self.wf());
            }
            Ok(Outcome::Miss)
        }
    }
}

/// Pushing a fresh character onto one of two disjoint duplicate-free
/// sequences keeps them duplicate-free and disjoint.
proof fn lemma_push_preserves_wf(grown: Seq<char>, other: Seq<char>, c: char)
    requires
        grown.no_duplicates(),
        other.no_duplicates(),
        grown.disjoint(other),
        other.disjoint(grown),
        !grown.contains(c),
        !other.contains(c),
    ensures
        grown.push(c).no_duplicates(),
        grown.push(c).disjoint(other),
        other.disjoint(grown.push(c)),
{
    assert forall|i: int, j: int|
        0 <= i < grown.push(c).len() && 0 <= j < grown.push(c).len() && i != j implies grown.push(
        c,
    )[i] != grown.push(c)[j] by {
        if i < grown.len() && j < grown.len() {
        } else if i < grown.len() {
            assert(grown[i] != c);
        } else if j < grown.len() {
            assert(grown[j] != c);
        }
    }
    assert forall|i: int, j: int|
        0 <= i < grown.push(c).len() && 0 <= j < other.len() implies grown.push(c)[i]
        != other[j] by {
        if i < grown.len() {
        } else {
            assert(!other.contains(c));
            assert(other[j] != c);
        }
    }
}

/// Whether `c` occurs among the characters of `s`.
pub fn contains_str_char(s: &str, c: char) -> (r: bool)
    ensures
        r == s@.contains(c),
{
    let n = s.unicode_len();
    let mut i: usize = 0;
    while i < n
        invariant
            0 <= i <= n,
            n == s@.len(),
            forall|j: int| 0 <= j < i ==> s@[j] != c,
        decreases n - i,
    {
        if s.get_char(i) == c {
            return true;
        }
        i = i + 1;
    }
    false
}

/// Pre-validation of raw input for the interactive prompt: the input must be
/// one character, not guessed before (after lower-casing). Returns the
/// rejection message to show, and changes nothing.
pub fn validate_input(input: &str, wrong_guesses: &[char], correct_guesses: &[char]) -> (r: Result<
    (),
    &'static str,
>)
    ensures
        input@.len() != 1 ==> (r matches Err(m) && m@ == "Input must be one character"@),
        input@.len() == 1 && (wrong_guesses@.contains(lower_char(input@[0]))
            || correct_guesses@.contains(lower_char(input@[0]))) ==> (r matches Err(m) && m@
            == "You gave a previously revealed answer, ya dunce!"@),
        input@.len() == 1 && !wrong_guesses@.contains(lower_char(input@[0]))
            && !correct_guesses@.contains(lower_char(input@[0])) ==> r == Ok::<(), &'static str>(
            (),
        ),
{
    let n = input.unicode_len();
    if n != 1 {
        return Err("Input must be one character");
    }
    let c = to_lower(input.get_char(0));
    if contains_char(wrong_guesses, c) || contains_char(correct_guesses, c) {
        return Err("You gave a previously revealed answer, ya dunce!");
    }
    Ok(())
}

} // verus!
