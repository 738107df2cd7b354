//! Pure display formatting: the partially revealed word, the comma-separated
//! list of guessed characters, and the pluralization suffix for the status
//! messages.

use vstd::prelude::*;
use crate::chars::contains_char;

verus! {

/// The revealed rendering of `word` under `correct`: each position shows its
/// own character when that character was guessed correctly, '_' otherwise,
/// and every position is followed by one space.
pub open spec fn reveal_spec(word: Seq<char>, correct: Seq<char>) -> Seq<char> {
    Seq::new(
        2 * word.len(),
        |i: int|
            if i % 2 == 0 {
                if correct.contains(word[i / 2]) {
                    word[i / 2]
                } else {
                    '_'
                }
            } else {
                ' '
            },
    )
}

/// The comma-and-space-joined rendering of the characters, in the order
/// given.
pub open spec fn list_spec(chars: Seq<char>) -> Seq<char>
    decreases chars.len(),
{
    if chars.len() == 0 {
        Seq::empty()
    } else if chars.len() == 1 {
        seq![chars[0]]
    } else {
        list_spec(chars.drop_last()) + seq![',', ' ', chars.last()]
    }
}

/// Relies on std's `FromIterator` impl for `String`: collecting an iterator
/// of characters yields the string of exactly those characters in order.
#[verifier::external_body]
fn chars_to_string(chars: &Vec<char>) -> (r: String)
    ensures
        r@ == chars@,
{
    chars.iter().collect()
}

/// Renders the word with only the correctly guessed characters shown, e.g.
/// word "hello" with guesses ['h', 'l'] gives "h _ l l _ ".
pub fn handman_display(correct_guesses: &[char], word: &str) -> (r: String)
    ensures
        r@ == reveal_spec(word@, correct_guesses@),
{
    let n = word.unicode_len();
    let mut out: Vec<char> = Vec::new();
    let mut i: usize = 0;
    while i < n
        invariant
            0 <= i <= n,
            n == word@.len(),
            out@ =~= reveal_spec(word@.take(i as int), correct_guesses@),
        decreases n - i,
    {
        let c = word.get_char(i);
        if contains_char(correct_guesses, c) {
            out.push(c);
        } else {
            out.push('_');
        }
        out.push(' ');
        assert(out@ =~= reveal_spec(word@.take(i + 1), correct_guesses@));
        i = i + 1;
    }
    assert(word@.take(n as int) =~= word@);
    chars_to_string(&out)
}

/// Renders the characters as a comma-separated list, e.g. ['a', 'b', 'c']
/// gives "a, b, c".
pub fn character_list_display(characters: &[char]) -> (r: String)
    ensures
        r@ == list_spec(characters@),
{
    let n = characters.len();
    let mut out: Vec<char> = Vec::new();
    let mut i: usize = 0;
    while i < n
        invariant
            0 <= i <= n,
            n == characters@.len(),
            out@ == list_spec(characters@.take(i as int)),
        decreases n - i,
    {
        if i == 0 {
            out.push(characters[0]);
            assert(characters@.take(1) =~= seq![characters@[0]]);
            assert(out@ =~= list_spec(characters@.take(1)));
        } else {
            out.push(',');
            out.push(' ');
            out.push(characters[i]);
            assert(characters@.take(i + 1).drop_last() =~= characters@.take(i as int));
            assert(characters@.take(i + 1).last() == characters@[i as int]);
            assert(out@ =~= list_spec(characters@.take(i as int)) + seq![
                ',',
                ' ',
                characters@[i as int],
            ]);
        }
        i = i + 1;
    }
    assert(characters@.take(n as int) =~= characters@);
    chars_to_string(&out)
}

/// The grammatical suffix for "guess": empty for exactly one, "es" otherwise.
pub open spec fn suffix_spec(number: usize) -> Seq<char> {
    if number == 1 {
        ""@
    } else {
        "es"@
    }
}

/// Pluralization helper for the word "guess" in status messages.
pub fn suffix(number: usize) -> (r: String)
    ensures
        r@ == suffix_spec(number),
{
    if number == 1 {
        String::from_str("")
    } else {
        String::from_str("es")
    }
}

/// The reveal has one position per character of the word: position `i` of
/// the word shows its true character exactly when that character was guessed
/// correctly and '_' otherwise, each followed by a single space.
pub proof fn lemma_reveal_positions(word: Seq<char>, correct: Seq<char>)
    ensures
        reveal_spec(word, correct).len() == 2 * word.len(),
        forall|i: int|
            0 <= i < word.len() ==> reveal_spec(word, correct)[2 * i] == (if correct.contains(
                #[trigger] word[i],
            ) {
                word[i]
            } else {
                '_'
            }),
        forall|j: int|
            0 <= j < reveal_spec(word, correct).len() && j % 2 == 1 ==> #[trigger] reveal_spec(
                word,
                correct,
            )[j] == ' ',
{
    assert forall|i: int| 0 <= i < word.len() implies reveal_spec(word, correct)[2 * i] == (
    if correct.contains(#[trigger] word[i]) {
        word[i]
    } else {
        '_'
    }) by {
        assert((2 * i) % 2 == 0);
        assert((2 * i) / 2 == i);
    }
    assert forall|j: int|
        0 <= j < reveal_spec(word, correct).len() && j % 2 == 1 implies #[trigger] reveal_spec(
        word,
        correct,
    )[j] == ' ' by {
    }
}

/// The formatter is a pure function: two renderings of the same word under
/// the same correct guesses, and two listings of the same characters, are
/// identical.
pub proof fn lemma_display_deterministic(
    word: Seq<char>,
    correct: Seq<char>,
    reveal1: Seq<char>,
    reveal2: Seq<char>,
    chars: Seq<char>,
    list1: Seq<char>,
    list2: Seq<char>,
)
    requires
        reveal1 == reveal_spec(word, correct),
        reveal2 == reveal_spec(word, correct),
        list1 == list_spec(chars),
        list2 == list_spec(chars),
    ensures
        reveal1 == reveal2,
        list1 == list2,
{
}

} // verus!
