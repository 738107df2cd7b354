//! The game state machine: the derived Playing/Won/Lost state and the guarded
//! guess transition that drives one game.

use vstd::prelude::*;
use crate::chars::{contains_char, lower_char};
use crate::config::GameConfig;
use crate::tracker::{lemma_push_contains, GuessError, GuessSet, Outcome};

verus! {

/// The derived state of a game; `Won` and `Lost` are terminal.
#[derive(Clone, Copy, Debug, PartialEq, Eq, Structural)]
pub enum GameState {
    Playing,
    Won,
    Lost,
}

/// Every position of the word is covered by a correct guess.
pub open spec fn is_won(word: Seq<char>, correct: Seq<char>) -> bool {
    forall|i: int| 0 <= i < word.len() ==> correct.contains(#[trigger] word[i])
}

/// The state derived from the word, the guess sets and the budget, in this
/// precedence: fully revealed wins, an exhausted budget loses, anything else
/// is still playing.
pub open spec fn spec_state(
    word: Seq<char>,
    correct: Seq<char>,
    wrong: Seq<char>,
    max_wrong: nat,
) -> GameState {
    if is_won(word, correct) {
        GameState::Won
    } else if wrong.len() >= max_wrong {
        GameState::Lost
    } else {
        GameState::Playing
    }
}

/// Whether every character of `word` occurs among `correct`.
fn all_revealed(word: &str, correct: &Vec<char>) -> (r: bool)
    ensures
        r == is_won(word@, correct@),
{
    let n = word.unicode_len();
    let mut i: usize = 0;
    while i < n
        invariant
            0 <= i <= n,
            n == word@.len(),
            forall|j: int| 0 <= j < i ==> correct@.contains(#[trigger] word@[j]),
        decreases n - i,
    {
        if !contains_char(correct.as_slice(), word.get_char(i)) {
            assert(!is_won(word@, correct@));
            return false;
        }
        i = i + 1;
    }
    true
}

/// Computes the current state from the tracker and the budget.
pub fn compute_state(word: &str, guesses: &GuessSet, max_wrong: usize) -> (s: GameState)
    ensures
        s == spec_state(
            word@,
            guesses.correct_guesses(),
            guesses.wrong_guesses(),
            max_wrong as nat,
        ),
{
    if all_revealed(word, guesses.correct_chars()) {
        GameState::Won
    } else if guesses.wrong_count() >= max_wrong {
        GameState::Lost
    } else {
        GameState::Playing
    }
}

/// The guess sets agree with the word: every correct guess occurs in it,
/// no wrong guess does.
pub open spec fn consistent(word: Seq<char>, gs: GuessSet) -> bool {
    &&& forall|c: char| #[trigger] gs.correct_guesses().contains(c) ==> word.contains(c)
    &&& forall|c: char| #[trigger] gs.wrong_guesses().contains(c) ==> !word.contains(c)
}

/// One running game: the hidden word, the guesses made so far, and the
/// immutable configuration.
#[derive(Clone, Debug)]
pub struct Game {
    word: String,
    guesses: GuessSet,
    config: GameConfig,
}

/// The full relation between a game before a guess, the guess, the returned
/// verdict, and the game after it. A finished game rejects every guess
/// unchanged; a duplicate is rejected unchanged; a fresh guess joins exactly
/// one set according to whether the word contains its lower-cased form.
pub open spec fn guess_transition(
    pre: Game,
    guess: char,
    r: Result<Outcome, GuessError>,
    post: Game,
) -> bool {
    let lc = lower_char(guess);
    &&& post.word_view() == pre.word_view()
    &&& post.config_spec() == pre.config_spec()
    &&& (pre.state_spec() != GameState::Playing ==> r == Err::<Outcome, GuessError>(
        GuessError::GameOver,
    ) && post.guess_set().correct_guesses() == pre.guess_set().correct_guesses()
        && post.guess_set().wrong_guesses() == pre.guess_set().wrong_guesses())
    &&& (pre.state_spec() == GameState::Playing && pre.guess_set().already_guessed(lc) ==> r
        == Err::<Outcome, GuessError>(GuessError::Duplicate) && post.guess_set().correct_guesses()
        == pre.guess_set().correct_guesses() && post.guess_set().wrong_guesses()
        == pre.guess_set().wrong_guesses())
    &&& (pre.state_spec() == GameState::Playing && !pre.guess_set().already_guessed(lc)
        && pre.word_view().contains(lc) ==> r == Ok::<Outcome, GuessError>(Outcome::Hit)
        && post.guess_set().correct_guesses() == pre.guess_set().correct_guesses().push(lc)
        && post.guess_set().wrong_guesses() == pre.guess_set().wrong_guesses())
    &&& (pre.state_spec() == GameState::Playing && !pre.guess_set().already_guessed(lc)
        && !pre.word_view().contains(lc) ==> r == Ok::<Outcome, GuessError>(Outcome::Miss)
        && post.guess_set().wrong_guesses() == pre.guess_set().wrong_guesses().push(lc)
        && post.guess_set().correct_guesses() == pre.guess_set().correct_guesses())
}

impl Game {
    /// The hidden word, as a sequence of characters.
    pub closed spec fn word_view(self) -> Seq<char> {
        self.word@
    }

    /// The tracker holding both guess sets.
    pub closed spec fn guess_set(self) -> GuessSet {
        self.guesses
    }

    /// The per-game configuration.
    pub closed spec fn config_spec(self) -> GameConfig {
        self.config
    }

    /// Well-formedness: valid configuration, a non-empty word whose length
    /// lies in the configured range, duplicate-free disjoint guess sets that
    /// agree with the word.
    pub open spec fn wf(self) -> bool {
        &&& self.config_spec().wf()
        &&& self.word_view().len() > 0
        &&& self.config_spec().range.contains_len(self.word_view().len() as int)
        &&& self.guess_set().wf()
        &&& consistent(self.word_view(), self.guess_set())
    }

    /// The current state, as a function of the stored data.
    pub open spec fn state_spec(self) -> GameState {
        spec_state(
            self.word_view(),
            self.guess_set().correct_guesses(),
            self.guess_set().wrong_guesses(),
            self.config_spec().max_wrong as nat,
        )
    }

    /// Wrong guesses still allowed before the game is lost.
    pub open spec fn remaining_spec(self) -> nat {
        if self.guess_set().wrong_guesses().len() <= self.config_spec().max_wrong {
            (self.config_spec().max_wrong - self.guess_set().wrong_guesses().len()) as nat
        } else {
            0
        }
    }

    /// Starts a game on a selected word: nothing guessed, state `Playing`.
    pub fn new(word: String, config: GameConfig) -> (g: Game)
        requires
            config.wf(),
            word@.len() > 0,
            config.range.contains_len(word@.len() as int),
        ensures
            g.wf(),
            g.word_view() == word@,
            g.config_spec() == config,
            g.guess_set().correct_guesses() == Seq::<char>::empty(),
            g.guess_set().wrong_guesses() == Seq::<char>::empty(),
            g.state_spec() == GameState::Playing,
    {
        let g = Game { word, guesses: GuessSet::new(), config };
        proof {
            assert(!g.guess_set().correct_guesses().contains(g.word_view()[0]));
            assert(!is_won(g.word_view(), g.guess_set().correct_guesses()));
        }
        g
    }

    /// The hidden word, for the final messages.
    pub fn word(&self) -> (r: &str)
        ensures
            r@ == self.word_view(),
    {
        self.word.as_str()
    }

    /// The configuration the game was started with.
    pub fn config(&self) -> (r: GameConfig)
        ensures
            r == self.config_spec(),
    {
        self.config
    }

    /// The tracker, for display and validation.
    pub fn guesses(&self) -> (r: &GuessSet)
        ensures
            *r == self.guess_set(),
    {
        &self.guesses
    }

    /// The current state, recomputed from the stored data.
    pub fn state(&self) -> (s: GameState)
        ensures
            s == self.state_spec(),
    {
        compute_state(self.word.as_str(), &self.guesses, self.config.max_wrong)
    }

    /// Wrong guesses still allowed before the game is lost.
    pub fn remaining(&self) -> (r: usize)
        ensures
            r == self.remaining_spec(),
    {
        let used = self.guesses.wrong_count();
        if used <= self.config.max_wrong {
            self.config.max_wrong - used
        } else {
            0
        }
    }

    /// Makes one guess. A game already won or lost rejects it with `GameOver`
    /// and stays exactly as it is; otherwise the guess is forwarded to the
    /// tracker, which rejects duplicates unchanged and records fresh guesses
    /// as a hit or a miss.
    pub fn guess(&mut self, guess: char) -> (r: Result<Outcome, GuessError>)
        requires
            old(self).wf(),
        ensures
            final(self).wf(),
            guess_transition(*old(self), guess, r, *final(self)),
    {
        let st = compute_state(self.word.as_str(), &self.guesses, self.config.max_wrong);
        match st {
            GameState::Playing => {},
            _ => {
                return Err(GuessError::GameOver);
            },
        }
        let r = self.guesses.submit(self.word.as_str(), guess);
        proof {
            let lc = lower_char(guess);
            let pre = *old(self);
            if !pre.guess_set().already_guessed(lc) {
                if pre.word_view().contains(lc) {
                    assert forall|c: char| #[trigger]
                        self.guesses.correct_guesses().contains(c) implies self.word@.contains(
                        c,
                    ) by {
                        lemma_push_contains(pre.guess_set().correct_guesses(), lc, c);
                    }
                } else {
                    assert forall|c: char| #[trigger]
                        self.guesses.wrong_guesses().contains(c) implies !self.word@.contains(
                        c,
                    ) by {
                        lemma_push_contains(pre.guess_set().wrong_guesses(), lc, c);
                    }
                }
            }
        }
        r
    }
}

/// Terminal states are absorbing: a guess made after the game is won or lost
/// is rejected with `GameOver`, the guess sets stay exactly as they were, and
/// so the state itself never changes.
pub proof fn lemma_terminal_state_stable(
    pre: Game,
    guess: char,
    r: Result<Outcome, GuessError>,
    post: Game,
)
    requires
        guess_transition(pre, guess, r, post),
        pre.state_spec() != GameState::Playing,
    ensures
        r == Err::<Outcome, GuessError>(GuessError::GameOver),
        post.state_spec() == pre.state_spec(),
{
}

} // verus!
