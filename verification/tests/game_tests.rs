use hangman::config::{parse_range, ConfigError, GameConfig, LengthRange, ParseRangeError};
use hangman::display::{character_list_display, handman_display, suffix};
use hangman::game::{Game, GameState};
use hangman::tracker::{validate_input, GuessError, GuessSet, Outcome};
use hangman::words::{select, validate_word_list, WordsError};

fn config(max_wrong: usize, start: usize, end: usize) -> GameConfig {
    GameConfig::new(max_wrong, LengthRange { start, end }).unwrap()
}

#[test]
fn win_on_cat_with_reveal_progression() {
    let mut game = Game::new(String::from("cat"), config(8, 3, 8));
    assert_eq!(game.state(), GameState::Playing);
    assert_eq!(
        handman_display(game.guesses().correct_chars(), game.word()),
        "_ _ _ "
    );

    assert_eq!(game.guess('c'), Ok(Outcome::Hit));
    assert_eq!(
        handman_display(game.guesses().correct_chars(), "cat"),
        "c _ _ "
    );
    assert_eq!(game.state(), GameState::Playing);

    assert_eq!(game.guess('a'), Ok(Outcome::Hit));
    assert_eq!(
        handman_display(game.guesses().correct_chars(), "cat"),
        "c a _ "
    );
    assert_eq!(game.state(), GameState::Playing);

    assert_eq!(game.guess('t'), Ok(Outcome::Hit));
    assert_eq!(
        handman_display(game.guesses().correct_chars(), "cat"),
        "c a t "
    );
    assert_eq!(game.state(), GameState::Won);
}

#[test]
fn lose_on_cat_with_budget_one() {
    let mut game = Game::new(String::from("cat"), config(1, 3, 8));
    assert_eq!(game.guess('z'), Ok(Outcome::Miss));
    assert_eq!(game.guesses().wrong_count(), 1);
    assert_eq!(game.state(), GameState::Lost);
}

#[test]
fn one_hit_reveals_every_position_of_the_letter() {
    let mut game = Game::new(String::from("dad"), config(8, 3, 8));
    assert_eq!(game.guess('d'), Ok(Outcome::Hit));
    assert_eq!(game.guesses().correct_letters_revealed_count("dad"), 2);
}

#[test]
fn duplicate_guess_is_rejected_without_state_change() {
    let mut game = Game::new(String::from("cat"), config(8, 3, 8));
    assert_eq!(game.guess('a'), Ok(Outcome::Hit));
    let revealed = game.guesses().correct_letters_revealed_count("cat");
    assert_eq!(game.guess('a'), Err(GuessError::Duplicate));
    assert_eq!(game.guesses().wrong_count(), 0);
    assert_eq!(game.guesses().correct_letters_revealed_count("cat"), revealed);
    assert_eq!(game.state(), GameState::Playing);
}

#[test]
fn select_fails_when_no_length_matches() {
    let words = vec![String::from("by"), String::from("dictionary")];
    let range = LengthRange { start: 3, end: 8 };
    assert_eq!(select(&words, &range), Err(WordsError::NoMatch));
}

#[test]
fn select_returns_a_qualifying_word() {
    let words = vec![
        String::from("by"),
        String::from("cat"),
        String::from("banana"),
        String::from("dictionary"),
    ];
    let range = LengthRange { start: 3, end: 8 };
    for _ in 0..50 {
        let word = select(&words, &range).unwrap();
        assert!(word == "cat" || word == "banana");
        assert!((3..=8).contains(&word.chars().count()));
    }
}

#[test]
fn select_on_empty_list_fails() {
    let words: Vec<String> = Vec::new();
    let range = LengthRange { start: 3, end: 8 };
    assert_eq!(select(&words, &range), Err(WordsError::NoMatch));
}

#[test]
fn finished_game_rejects_further_guesses() {
    let mut game = Game::new(String::from("cat"), config(8, 3, 8));
    assert_eq!(game.guess('c'), Ok(Outcome::Hit));
    assert_eq!(game.guess('a'), Ok(Outcome::Hit));
    assert_eq!(game.guess('t'), Ok(Outcome::Hit));
    assert_eq!(game.state(), GameState::Won);
    assert_eq!(game.guess('z'), Err(GuessError::GameOver));
    assert_eq!(game.state(), GameState::Won);
    assert_eq!(game.guesses().wrong_count(), 0);

    let mut lost = Game::new(String::from("cat"), config(1, 3, 8));
    assert_eq!(lost.guess('z'), Ok(Outcome::Miss));
    assert_eq!(lost.state(), GameState::Lost);
    assert_eq!(lost.guess('c'), Err(GuessError::GameOver));
    assert_eq!(lost.state(), GameState::Lost);
}

#[test]
fn guesses_are_case_insensitive() {
    let mut game = Game::new(String::from("cat"), config(8, 3, 8));
    assert_eq!(game.guess('C'), Ok(Outcome::Hit));
    assert_eq!(game.guess('c'), Err(GuessError::Duplicate));
    assert_eq!(
        handman_display(game.guesses().correct_chars(), "cat"),
        "c _ _ "
    );
}

#[test]
fn parse_range_accepts_well_formed_input() {
    assert_eq!(
        parse_range("3:8"),
        Ok(LengthRange { start: 3, end: 8 })
    );
    assert_eq!(
        parse_range("0:0"),
        Ok(LengthRange { start: 0, end: 0 })
    );
    assert_eq!(
        parse_range("10:245"),
        Ok(LengthRange { start: 10, end: 245 })
    );
}

#[test]
fn parse_range_rejects_bad_shapes() {
    assert_eq!(
        parse_range("38"),
        Err(ParseRangeError::Format {
            value: String::from("38")
        })
    );
    assert_eq!(
        parse_range(""),
        Err(ParseRangeError::Format {
            value: String::from("")
        })
    );
    assert_eq!(
        parse_range(":5"),
        Err(ParseRangeError::Format {
            value: String::from(":5")
        })
    );
    assert_eq!(
        parse_range("5:"),
        Err(ParseRangeError::Format {
            value: String::from("5:")
        })
    );
    assert_eq!(
        parse_range("1:2:3"),
        Err(ParseRangeError::Format {
            value: String::from("1:2:3")
        })
    );
}

#[test]
fn parse_range_rejects_non_numeric_parts() {
    assert_eq!(
        parse_range("a:5"),
        Err(ParseRangeError::Parse {
            value: String::from("a")
        })
    );
    assert_eq!(
        parse_range("5:b"),
        Err(ParseRangeError::Parse {
            value: String::from("b")
        })
    );
    assert_eq!(
        parse_range("99999999999999999999999:5"),
        Err(ParseRangeError::Parse {
            value: String::from("99999999999999999999999")
        })
    );
}

#[test]
fn parse_range_rejects_reversed_bounds() {
    assert_eq!(
        parse_range("8:3"),
        Err(ParseRangeError::StartOutOfBounds { value: [8, 3] })
    );
}

#[test]
fn config_rejects_zero_budget_and_reversed_range() {
    assert_eq!(
        GameConfig::new(0, LengthRange { start: 3, end: 8 }),
        Err(ConfigError::ZeroMaxWrong)
    );
    assert_eq!(
        GameConfig::new(8, LengthRange { start: 9, end: 8 }),
        Err(ConfigError::InvalidRange)
    );
    assert!(GameConfig::new(1, LengthRange { start: 3, end: 3 }).is_ok());
}

#[test]
fn validate_word_list_rejects_empty_lists() {
    assert_eq!(
        validate_word_list(&Vec::new()),
        Err(WordsError::EmptySource)
    );
    assert_eq!(validate_word_list(&vec![String::from("cat")]), Ok(()));
}

#[test]
fn handman_display_shows_only_guessed_letters() {
    assert_eq!(handman_display(&['h', 'l'], "hello"), "h _ l l _ ");
    assert_eq!(handman_display(&[], "hello"), "_ _ _ _ _ ");
    assert_eq!(
        handman_display(&['h', 'e', 'l', 'o'], "hello"),
        "h e l l o "
    );
    assert_eq!(handman_display(&['x'], ""), "");
}

#[test]
fn character_list_display_joins_in_guess_order() {
    assert_eq!(character_list_display(&[]), "");
    assert_eq!(character_list_display(&['a']), "a");
    assert_eq!(character_list_display(&['c', 'a', 'b']), "c, a, b");
}

#[test]
fn display_is_deterministic() {
    let first = handman_display(&['h', 'l'], "hello");
    let second = handman_display(&['h', 'l'], "hello");
    assert_eq!(first, second);
    let list_first = character_list_display(&['a', 'b']);
    let list_second = character_list_display(&['a', 'b']);
    assert_eq!(list_first, list_second);
}

#[test]
fn suffix_pluralizes_everything_but_one() {
    assert_eq!(suffix(1), "");
    assert_eq!(suffix(0), "es");
    assert_eq!(suffix(2), "es");
}

#[test]
fn validate_input_rejects_bad_or_repeated_input() {
    assert_eq!(
        validate_input("", &[], &[]),
        Err("Input must be one character")
    );
    assert_eq!(
        validate_input("ab", &[], &[]),
        Err("Input must be one character")
    );
    assert_eq!(
        validate_input("a", &[], &['a']),
        Err("You gave a previously revealed answer, ya dunce!")
    );
    assert_eq!(
        validate_input("A", &['a'], &[]),
        Err("You gave a previously revealed answer, ya dunce!")
    );
    assert_eq!(validate_input("b", &['z'], &['a']), Ok(()));
}

#[test]
fn tracker_records_each_accepted_guess_once() {
    let mut set = GuessSet::new();
    assert_eq!(set.submit("cat", 'c'), Ok(Outcome::Hit));
    assert_eq!(set.submit("cat", 'z'), Ok(Outcome::Miss));
    assert_eq!(set.submit("cat", 'Z'), Err(GuessError::Duplicate));
    assert_eq!(set.correct_chars().as_slice(), &['c']);
    assert_eq!(set.wrong_chars().as_slice(), &['z']);
    assert_eq!(set.wrong_count(), 1);
    assert_eq!(set.correct_letters_revealed_count("cat"), 1);
}

#[test]
fn remaining_counts_down_with_wrong_guesses() {
    let mut game = Game::new(String::from("cat"), config(3, 3, 8));
    assert_eq!(game.remaining(), 3);
    assert_eq!(game.guess('x'), Ok(Outcome::Miss));
    assert_eq!(game.remaining(), 2);
    assert_eq!(game.guess('y'), Ok(Outcome::Miss));
    assert_eq!(game.remaining(), 1);
}

#[test]
fn tracker_validate_normalizes_and_rejects() {
    let mut set = GuessSet::new();
    assert_eq!(set.validate(""), Err(GuessError::Malformed));
    assert_eq!(set.validate("ab"), Err(GuessError::Malformed));
    assert_eq!(set.validate("A"), Ok('a'));
    assert_eq!(set.submit("cat", 'a'), Ok(Outcome::Hit));
    assert_eq!(set.validate("A"), Err(GuessError::Duplicate));
    assert_eq!(set.validate("b"), Ok('b'));
}

#[test]
fn game_exposes_its_configuration_and_word() {
    let game = Game::new(String::from("cat"), config(8, 3, 8));
    assert_eq!(game.config(), config(8, 3, 8));
    assert_eq!(game.word(), "cat");
}
