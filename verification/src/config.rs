//! Game configuration: the inclusive word-length range, the wrong-guess
//! budget, and the parser for range arguments written as "start:end".

use vstd::prelude::*;

verus! {

/// Inclusive range of acceptable word lengths.
#[derive(Clone, Copy, Debug, PartialEq, Eq, Structural)]
pub struct LengthRange {
    pub start: usize,
    pub end: usize,
}

impl LengthRange {
    /// A range is well formed when its bounds are ordered.
    pub open spec fn wf(self) -> bool {
        self.start <= self.end
    }

    /// Whether a length lies within the inclusive range.
    pub open spec fn contains_len(self, n: int) -> bool {
        self.start <= n <= self.end
    }

    /// Executable membership test for a length.
    pub fn contains(&self, n: usize) -> (r: bool)
        ensures
            r == self.contains_len(n as int),
    {
        self.start <= n && n <= self.end
    }
}

/// Immutable per-game parameters: the wrong-guess budget and the word-length
/// range.
#[derive(Clone, Copy, Debug, PartialEq, Eq, Structural)]
pub struct GameConfig {
    pub max_wrong: usize,
    pub range: LengthRange,
}

/// Rejection reasons for malformed configuration values.
#[derive(Clone, Copy, Debug, PartialEq, Eq, Structural)]
pub enum ConfigError {
    /// The length range has its start above its end.
    InvalidRange,
    /// The wrong-guess budget is zero, which would lose every game at once.
    ZeroMaxWrong,
}

impl GameConfig {
    /// A configuration is well formed when the budget is positive and the
    /// range is ordered.
    pub open spec fn wf(self) -> bool {
        self.max_wrong >= 1 && self.range.wf()
    }

    /// Validates and builds a configuration: fails exactly when the range is
    /// out of order or the budget is zero.
    pub fn new(max_wrong: usize, range: LengthRange) -> (r: Result<GameConfig, ConfigError>)
        ensures
            !range.wf() ==> r == Err::<GameConfig, ConfigError>(ConfigError::InvalidRange),
            range.wf() && max_wrong == 0 ==> r == Err::<GameConfig, ConfigError>(
                ConfigError::ZeroMaxWrong,
            ),
            range.wf() && max_wrong >= 1 ==> r == Ok::<GameConfig, ConfigError>(
                GameConfig { max_wrong, range },
            ),
            r matches Ok(c) ==> c.wf(),
    {
        if range.start > range.end {
            Err(ConfigError::InvalidRange)
        } else if max_wrong == 0 {
            Err(ConfigError::ZeroMaxWrong)
        } else {
            Ok(GameConfig { max_wrong, range })
        }
    }
}

/// Whether `c` is a decimal digit.
pub open spec fn is_digit(c: char) -> bool {
    '0' <= c && c <= '9'
}

/// The numeric value of a decimal digit.
pub open spec fn digit_val(c: char) -> nat
    recommends
        is_digit(c),
{
    (c as int - '0' as int) as nat
}

/// Every character of the sequence is a decimal digit.
pub open spec fn all_digits(s: Seq<char>) -> bool {
    forall|i: int| 0 <= i < s.len() ==> is_digit(#[trigger] s[i])
}

/// The value of a sequence of decimal digits, most significant first.
pub open spec fn dec_value(s: Seq<char>) -> nat
    decreases s.len(),
{
    if s.len() == 0 {
        0
    } else {
        dec_value(s.drop_last()) * 10 + digit_val(s.last())
    }
}

/// A range bound parses when it is a non-empty digit string whose value fits
/// in `usize`.
pub open spec fn numeric(s: Seq<char>) -> bool {
    s.len() > 0 && all_digits(s) && dec_value(s) <= usize::MAX
}

/// The value of a digit string never falls below the value of any of its
/// prefixes: appending digits only multiplies and adds.
proof fn lemma_dec_value_prefix(s: Seq<char>, j: int)
    requires
        0 <= j <= s.len(),
    ensures
        dec_value(s.take(j)) <= dec_value(s),
    decreases s.len() - j,
{
    if j == s.len() {
        assert(s.take(j) =~= s);
    } else {
        assert(s.take(j + 1).drop_last() =~= s.take(j));
        assert(s.take(j + 1).last() == s[j]);
        assert(dec_value(s.take(j + 1)) == dec_value(s.take(j)) * 10 + digit_val(s[j]));
        lemma_dec_value_prefix(s, j + 1);
    }
}

/// Parses a non-empty decimal digit string; `None` exactly on empty input, a
/// non-digit character, or a value beyond `usize::MAX`.
fn parse_usize(s: &str) -> (r: Option<usize>)
    ensures
        r is Some <==> numeric(s@),
        r matches Some(v) ==> v == dec_value(s@),
{
    let n = s.unicode_len();
    if n == 0 {
        return None;
    }
    let mut acc: usize = 0;
    let mut i: usize = 0;
    while i < n
        invariant
            0 <= i <= n,
            n == s@.len(),
            all_digits(s@.take(i as int)),
            acc == dec_value(s@.take(i as int)),
        decreases n - i,
    {
        let c = s.get_char(i);
        if c < '0' || c > '9' {
            assert(!is_digit(s@[i as int]));
            return None;
        }
        let d: usize = ((c as u8) - 48) as usize;
        assert(d == digit_val(s@[i as int]));
        assert(s@.take(i + 1).drop_last() =~= s@.take(i as int));
        assert(dec_value(s@.take(i + 1)) == acc * 10 + d);
        let shifted = match acc.checked_mul(10) {
            Some(m) => m.checked_add(d),
            None => None,
        };
        match shifted {
            Some(next) => {
                acc = next;
            },
            None => {
                proof {
                    lemma_dec_value_prefix(s@, i + 1);
                }
                assert(dec_value(s@) > usize::MAX);
                return None;
            },
        }
        i = i + 1;
    }
    assert(s@.take(n as int) =~= s@);
    Some(acc)
}

/// Rejection reasons for a range argument.
#[derive(Clone, Debug, PartialEq, Eq)]
pub enum ParseRangeError {
    /// The argument is not two non-empty parts joined by a single colon.
    Format { value: String },
    /// A part is not a decimal number that fits in `usize`.
    Parse { value: String },
    /// The first bound is larger than the second.
    StartOutOfBounds { value: [usize; 2] },
}

/// `p` is the position of the only colon of `s`, with a non-empty part on
/// each side.
pub open spec fn split_ok(s: Seq<char>, p: int) -> bool {
    &&& 1 <= p <= s.len() - 2
    &&& s[p] == ':'
    &&& forall|q: int| 0 <= q < s.len() && #[trigger] s[q] == ':' ==> q == p
}

/// The argument has the shape "left:right" with non-empty sides and exactly
/// one colon.
pub open spec fn format_ok(s: Seq<char>) -> bool {
    exists|p: int| split_ok(s, p)
}

/// The position of the unique colon of a well-shaped argument.
pub open spec fn split_at(s: Seq<char>) -> int {
    choose|p: int| split_ok(s, p)
}

/// The characters before the colon.
pub open spec fn left_part(s: Seq<char>) -> Seq<char> {
    s.take(split_at(s))
}

/// The characters after the colon.
pub open spec fn right_part(s: Seq<char>) -> Seq<char> {
    s.skip(split_at(s) + 1)
}

/// Parses a length-range argument written "start:end".
///
/// Fails with `Format` when the argument is not two non-empty parts joined by
/// exactly one colon, with `Parse` naming the first offending part that is not
/// a decimal `usize`, and with `StartOutOfBounds` when the bounds are out of
/// order; otherwise returns the inclusive range.
pub fn parse_range(argument: &str) -> (r: Result<LengthRange, ParseRangeError>)
    ensures
        !format_ok(argument@) <==> (r matches Err(ParseRangeError::Format { value })
            && value@ == argument@),
        format_ok(argument@) && !numeric(left_part(argument@)) ==> (r matches Err(
            ParseRangeError::Parse { value },
        ) && value@ == left_part(argument@)),
        format_ok(argument@) && numeric(left_part(argument@)) && !numeric(right_part(argument@))
            ==> (r matches Err(ParseRangeError::Parse { value }) && value@ == right_part(
            argument@,
        )),
        format_ok(argument@) && numeric(left_part(argument@)) && numeric(right_part(argument@))
            ==> {
            let lo = dec_value(left_part(argument@));
            let hi = dec_value(right_part(argument@));
            if lo > hi {
                r == Err::<LengthRange, ParseRangeError>(
                    ParseRangeError::StartOutOfBounds { value: [lo as usize, hi as usize] },
                )
            } else {
                r == Ok::<LengthRange, ParseRangeError>(
                    LengthRange { start: lo as usize, end: hi as usize },
                )
            }
        },
        r matches Ok(range) ==> range.wf(),
{
    let n = argument.unicode_len();
    let mut colon: Option<usize> = None;
    let mut i: usize = 0;
    while i < n
        invariant
            0 <= i <= n,
            n == argument@.len(),
            match colon {
                Some(p) => p < i && argument@[p as int] == ':' && forall|q: int|
                    0 <= q < i && #[trigger] argument@[q] == ':' ==> q == p as int,
                None => forall|q: int| 0 <= q < i ==> #[trigger] argument@[q] != ':',
            },
        decreases n - i,
    {
        if argument.get_char(i) == ':' {
            match colon {
                Some(_) => {
                    assert(forall|p: int| !split_ok(argument@, p));
                    return Err(ParseRangeError::Format { value: argument.to_owned() });
                },
                None => {
                    colon = Some(i);
                },
            }
        }
        i = i + 1;
    }
    let p = match colon {
        None => {
            assert(forall|p: int| !split_ok(argument@, p));
            return Err(ParseRangeError::Format { value: argument.to_owned() });
        },
        Some(p) => p,
    };
    if p == 0 || p + 1 == n {
        assert(forall|q: int| split_ok(argument@, q) ==> q == p as int);
        return Err(ParseRangeError::Format { value: argument.to_owned() });
    }
    assert(split_ok(argument@, p as int));
    assert(split_at(argument@) == p as int) by {
        assert(forall|q: int| split_ok(argument@, q) ==> q == p as int);
    }
    let left = argument.substring_char(0, p);
    let right = argument.substring_char(p + 1, n);
    assert(left@ =~= left_part(argument@));
    assert(right@ =~= right_part(argument@));
    let lo = match parse_usize(left) {
        Some(v) => v,
        None => {
            return Err(ParseRangeError::Parse { value: left.to_owned() });
        },
    };
    let hi = match parse_usize(right) {
        Some(v) => v,
        None => {
            return Err(ParseRangeError::Parse { value: right.to_owned() });
        },
    };
    if lo > hi {
        return Err(ParseRangeError::StartOutOfBounds { value: [lo, hi] });
    }
    Ok(LengthRange { start: lo, end: hi })
}

} // verus!

