//! The numbers that the torrent name parser reads in a name.
//!
//! The parser takes every decimal digit of Unicode for a digit of a season, an episode or a year, but can
//! read only the digits 0 to 9. What is here finds the numbers that it would read, to tell the names that
//! it would fail on.

use vstd::prelude::*;

use crate::text::ascii_digit;

verus! {

/// The decimal digits other than 0 to 9.
pub open spec fn foreign_digit(c: char) -> bool {
    ||| '\u{660}' <= c <= '\u{669}'
    ||| '\u{6f0}' <= c <= '\u{6f9}'
    ||| '\u{7c0}' <= c <= '\u{7c9}'
    ||| '\u{966}' <= c <= '\u{96f}'
    ||| '\u{9e6}' <= c <= '\u{9ef}'
    ||| '\u{a66}' <= c <= '\u{a6f}'
    ||| '\u{ae6}' <= c <= '\u{aef}'
    ||| '\u{b66}' <= c <= '\u{b6f}'
    ||| '\u{be6}' <= c <= '\u{bef}'
    ||| '\u{c66}' <= c <= '\u{c6f}'
    ||| '\u{ce6}' <= c <= '\u{cef}'
    ||| '\u{d66}' <= c <= '\u{d6f}'
    ||| '\u{de6}' <= c <= '\u{def}'
    ||| '\u{e50}' <= c <= '\u{e59}'
    ||| '\u{ed0}' <= c <= '\u{ed9}'
    ||| '\u{f20}' <= c <= '\u{f29}'
    ||| '\u{1040}' <= c <= '\u{1049}'
    ||| '\u{1090}' <= c <= '\u{1099}'
    ||| '\u{17e0}' <= c <= '\u{17e9}'
    ||| '\u{1810}' <= c <= '\u{1819}'
    ||| '\u{1946}' <= c <= '\u{194f}'
    ||| '\u{19d0}' <= c <= '\u{19d9}'
    ||| '\u{1a80}' <= c <= '\u{1a89}'
    ||| '\u{1a90}' <= c <= '\u{1a99}'
    ||| '\u{1b50}' <= c <= '\u{1b59}'
    ||| '\u{1bb0}' <= c <= '\u{1bb9}'
    ||| '\u{1c40}' <= c <= '\u{1c49}'
    ||| '\u{1c50}' <= c <= '\u{1c59}'
    ||| '\u{a620}' <= c <= '\u{a629}'
    ||| '\u{a8d0}' <= c <= '\u{a8d9}'
    ||| '\u{a900}' <= c <= '\u{a909}'
    ||| '\u{a9d0}' <= c <= '\u{a9d9}'
    ||| '\u{a9f0}' <= c <= '\u{a9f9}'
    ||| '\u{aa50}' <= c <= '\u{aa59}'
    ||| '\u{abf0}' <= c <= '\u{abf9}'
    ||| '\u{ff10}' <= c <= '\u{ff19}'
    ||| '\u{104a0}' <= c <= '\u{104a9}'
    ||| '\u{10d30}' <= c <= '\u{10d39}'
    ||| '\u{10d40}' <= c <= '\u{10d49}'
    ||| '\u{11066}' <= c <= '\u{1106f}'
    ||| '\u{110f0}' <= c <= '\u{110f9}'
    ||| '\u{11136}' <= c <= '\u{1113f}'
    ||| '\u{111d0}' <= c <= '\u{111d9}'
    ||| '\u{112f0}' <= c <= '\u{112f9}'
    ||| '\u{11450}' <= c <= '\u{11459}'
    ||| '\u{114d0}' <= c <= '\u{114d9}'
    ||| '\u{11650}' <= c <= '\u{11659}'
    ||| '\u{116c0}' <= c <= '\u{116c9}'
    ||| '\u{116d0}' <= c <= '\u{116e3}'
    ||| '\u{11730}' <= c <= '\u{11739}'
    ||| '\u{118e0}' <= c <= '\u{118e9}'
    ||| '\u{11950}' <= c <= '\u{11959}'
    ||| '\u{11bf0}' <= c <= '\u{11bf9}'
    ||| '\u{11c50}' <= c <= '\u{11c59}'
    ||| '\u{11d50}' <= c <= '\u{11d59}'
    ||| '\u{11da0}' <= c <= '\u{11da9}'
    ||| '\u{11f50}' <= c <= '\u{11f59}'
    ||| '\u{16130}' <= c <= '\u{16139}'
    ||| '\u{16a60}' <= c <= '\u{16a69}'
    ||| '\u{16ac0}' <= c <= '\u{16ac9}'
    ||| '\u{16b50}' <= c <= '\u{16b59}'
    ||| '\u{16d70}' <= c <= '\u{16d79}'
    ||| '\u{1ccf0}' <= c <= '\u{1ccf9}'
    ||| '\u{1d7ce}' <= c <= '\u{1d7ff}'
    ||| '\u{1e140}' <= c <= '\u{1e149}'
    ||| '\u{1e2f0}' <= c <= '\u{1e2f9}'
    ||| '\u{1e4f0}' <= c <= '\u{1e4f9}'
    ||| '\u{1e5f1}' <= c <= '\u{1e5fa}'
    ||| '\u{1e950}' <= c <= '\u{1e959}'
    ||| '\u{1fbf0}' <= c <= '\u{1fbf9}'
}

/// A decimal digit.
pub open spec fn any_digit(c: char) -> bool {
    ascii_digit(c) || foreign_digit(c)
}

/// The character at `i`, NUL where there is none.
pub open spec fn char_at(s: Seq<char>, i: int) -> char {
    if 0 <= i < s.len() {
        s[i]
    } else {
        '\0'
    }
}

/// `c` is the letter `l` in either case; the long s is an s too.
pub open spec fn is_letter(c: char, l: char) -> bool {
    c == l || c as u32 + 32 == l as u32 || (l == 's' && c == '\u{17f}')
}

/// How many digits stand from `i` on.
pub open spec fn digits_from(s: Seq<char>, i: int) -> nat
    decreases s.len() - i,
{
    if 0 <= i < s.len() && any_digit(s[i]) {
        digits_from(s, i + 1) + 1
    } else {
        0
    }
}

/// A run of digits is within the text.
pub proof fn lemma_digits_from(s: Seq<char>, i: int)
    ensures
        digits_from(s, i) > 0 ==> i + digits_from(s, i) <= s.len(),
    decreases s.len() - i,
{
    if 0 <= i < s.len() && any_digit(s[i]) {
        lemma_digits_from(s, i + 1);
    }
}

/// " - " and a digit stand at `i`.
pub open spec fn dash_and_digit(s: Seq<char>, i: int) -> bool {
    &&& char_at(s, i) == ' '
    &&& char_at(s, i + 1) == '-'
    &&& char_at(s, i + 2) == ' '
    &&& any_digit(char_at(s, i + 3))
}

/// "season" stands at `i`.
pub open spec fn season_word(s: Seq<char>, i: int) -> bool {
    &&& is_letter(char_at(s, i), 's')
    &&& is_letter(char_at(s, i + 1), 'e')
    &&& is_letter(char_at(s, i + 2), 'a')
    &&& is_letter(char_at(s, i + 3), 's')
    &&& is_letter(char_at(s, i + 4), 'o')
    &&& is_letter(char_at(s, i + 5), 'n')
}

/// "episode" stands at `i`.
pub open spec fn episode_word(s: Seq<char>, i: int) -> bool {
    &&& is_letter(char_at(s, i), 'e')
    &&& is_letter(char_at(s, i + 1), 'p')
    &&& is_letter(char_at(s, i + 2), 'i')
    &&& is_letter(char_at(s, i + 3), 's')
    &&& is_letter(char_at(s, i + 4), 'o')
    &&& is_letter(char_at(s, i + 5), 'd')
    &&& is_letter(char_at(s, i + 6), 'e')
}

/// Where a number begins and ends.
pub type Span = (int, int);

/// The season of `S01E`, `01x` or `1 e`, where such a mark stands at `i`.
pub open spec fn season_in_mark(s: Seq<char>, i: int) -> Option<Span> {
    let a = if is_letter(char_at(s, i), 's') {
        i + 1
    } else {
        i
    };
    let b = a + digits_from(s, a);
    let c = char_at(
        s,
        if char_at(s, b) == ' ' {
            b + 1
        } else {
            b
        },
    );
    if a < b && (is_letter(c, 'e') || is_letter(c, 'x')) {
        Some((a, b))
    } else {
        None
    }
}

/// The number of a season at `i`: in a mark, after the word "season" and one more character, in `S01 - 02`,
/// or, of `.S01.`, the last digit.
pub open spec fn season_at(s: Seq<char>, i: int) -> Option<Span> {
    let after_word = i + 7 + digits_from(s, i + 7);
    let after_s = i + 1 + digits_from(s, i + 1);
    let after_dot = i + 2 + digits_from(s, i + 2);
    if season_in_mark(s, i) is Some {
        season_in_mark(s, i)
    } else if season_word(s, i) && !any_digit(char_at(s, i + 6)) && i + 7 < after_word {
        Some((i + 7, after_word))
    } else if is_letter(char_at(s, i), 's') && i + 1 < after_s && dash_and_digit(s, after_s) {
        Some((i + 1, after_s))
    } else if char_at(s, i) == '.' && is_letter(char_at(s, i + 1), 's') && i + 3 <= after_dot <= i + 4
        && char_at(s, after_dot) == '.' {
        Some((after_dot - 1, after_dot))
    } else {
        None
    }
}

/// Up to three digits at `i`.
pub open spec fn up_to_three(s: Seq<char>, i: int) -> Option<Span> {
    let n = digits_from(s, i);
    if n == 0 {
        None
    } else if n <= 3 {
        Some((i, i + n))
    } else {
        Some((i, i + 3))
    }
}

/// Up to three digits at `i`, or one character later unless that is a dot.
pub open spec fn episode_digits(s: Seq<char>, i: int) -> Option<Span> {
    if up_to_three(s, i) is Some {
        up_to_three(s, i)
    } else if char_at(s, i) != '.' {
        up_to_three(s, i + 1)
    } else {
        None
    }
}

/// The number of an episode at `i`: after an `e` or the word "episode", in `1x02`, or in `S01 - 02`.
pub open spec fn episode_at(s: Seq<char>, i: int) -> Option<Span> {
    let after = i + digits_from(s, i);
    let after_x = after + 1 + digits_from(s, after + 1);
    let after_s = i + 1 + digits_from(s, i + 1);
    let e = is_letter(char_at(s, i), 'e');
    if e && episode_digits(s, i + 1) is Some {
        episode_digits(s, i + 1)
    } else if e && episode_word(s, i) && episode_digits(s, i + 7) is Some {
        episode_digits(s, i + 7)
    } else if i < after && is_letter(char_at(s, after), 'x') && after + 1 < after_x {
        Some((after + 1, after_x))
    } else if is_letter(char_at(s, i), 's') && i + 1 < after_s && dash_and_digit(s, after_s) {
        Some((after_s + 3, after_s + 3 + digits_from(s, after_s + 3)))
    } else {
        None
    }
}

/// Past the dashes and spaces from `i` on.
pub open spec fn past_dashes(s: Seq<char>, i: int) -> int
    decreases s.len() - i,
{
    if 0 <= i < s.len() && (s[i] == '-' || s[i] == ' ') {
        past_dashes(s, i + 1)
    } else {
        i
    }
}

/// The number of the last of the episodes that follow one another from `i` on, as in `E02E03`.
pub open spec fn last_in_chain(s: Seq<char>, i: int) -> Option<Span>
    decreases s.len() - i,
{
    let end = i + 1 + digits_from(s, i + 1);
    proof {
        lemma_digits_from(s, i + 1);
    }
    if !(0 <= i < s.len()) || !is_letter(char_at(s, i), 'e') || end == i + 1 {
        None
    } else if last_in_chain(s, end) is Some {
        last_in_chain(s, end)
    } else {
        Some((i + 1, end))
    }
}

/// The number of the last episode, as in `E01-E03`, where the first stands at `i`.
pub open spec fn last_at(s: Seq<char>, i: int) -> Option<Span> {
    let end = i + 1 + digits_from(s, i + 1);
    if is_letter(char_at(s, i), 'e') && i + 1 < end {
        last_in_chain(s, past_dashes(s, end))
    } else {
        None
    }
}

/// What a number is of.
#[derive(Clone, Copy, Debug, PartialEq, Eq, Structural)]
pub enum NumberKind {
    Season,
    Episode,
    LastEpisode,
}

/// The number of a kind at `i`.
pub open spec fn number_at(s: Seq<char>, kind: NumberKind, i: int) -> Option<Span> {
    match kind {
        NumberKind::Season => season_at(s, i),
        NumberKind::Episode => episode_at(s, i),
        NumberKind::LastEpisode => last_at(s, i),
    }
}

/// The first number of a kind, from `i` on.
pub open spec fn first_number(s: Seq<char>, kind: NumberKind, i: int) -> Option<Span>
    decreases s.len() - i,
{
    if i < 0 || i >= s.len() {
        None
    } else if number_at(s, kind, i) is Some {
        number_at(s, kind, i)
    } else {
        first_number(s, kind, i + 1)
    }
}

/// A year from 1800 to 2099 stands at `i`, in whatever digits its last two are.
pub open spec fn year_at(s: Seq<char>, i: int) -> bool {
    &&& char_at(s, i) == '1' && (char_at(s, i + 1) == '8' || char_at(s, i + 1) == '9') || char_at(s, i)
        == '2' && char_at(s, i + 1) == '0'
    &&& any_digit(char_at(s, i + 2))
    &&& any_digit(char_at(s, i + 3))
}

/// No digit 0 to 9 stands next to the year at `i`.
pub open spec fn stands_alone(s: Seq<char>, i: int) -> bool {
    !ascii_digit(char_at(s, i - 1)) && !ascii_digit(char_at(s, i + 4))
}

/// The last of the years that stand alone, from `i` on, else `found`.
pub open spec fn last_year(s: Seq<char>, i: int, found: Option<int>) -> Option<int>
    decreases s.len() - i,
{
    if i < 0 || i >= s.len() {
        found
    } else if !year_at(s, i) {
        last_year(s, i + 1, found)
    } else if stands_alone(s, i) {
        last_year(s, i + 4, Some(i))
    } else {
        last_year(s, i + 4, found)
    }
}

/// A number has a digit other than 0 to 9.
pub open spec fn unreadable(s: Seq<char>, n: Option<Span>) -> bool {
    n matches Some(p) && exists|i: int| p.0 <= i < p.1 && foreign_digit(#[trigger] char_at(s, i))
}

/// A number that the parser reads in a name has a digit other than 0 to 9: the season, the episode, the
/// last episode where there is one, or the year.
pub open spec fn misread(s: Seq<char>) -> bool {
    ||| unreadable(s, first_number(s, NumberKind::Season, 0))
    ||| unreadable(s, first_number(s, NumberKind::Episode, 0))
    ||| first_number(s, NumberKind::Episode, 0) is Some && unreadable(
        s,
        first_number(s, NumberKind::LastEpisode, 0),
    )
    ||| last_year(s, 0, None) matches Some(y) && unreadable(s, Some((y, y + 4)))
}

/// Whether a character is a decimal digit other than 0 to 9.
fn is_foreign_digit(c: char) -> (r: bool)
    ensures
        r == foreign_digit(c),
{
    ('\u{660}' <= c && c <= '\u{669}')
    || ('\u{6f0}' <= c && c <= '\u{6f9}')
    || ('\u{7c0}' <= c && c <= '\u{7c9}')
    || ('\u{966}' <= c && c <= '\u{96f}')
    || ('\u{9e6}' <= c && c <= '\u{9ef}')
    || ('\u{a66}' <= c && c <= '\u{a6f}')
    || ('\u{ae6}' <= c && c <= '\u{aef}')
    || ('\u{b66}' <= c && c <= '\u{b6f}')
    || ('\u{be6}' <= c && c <= '\u{bef}')
    || ('\u{c66}' <= c && c <= '\u{c6f}')
    || ('\u{ce6}' <= c && c <= '\u{cef}')
    || ('\u{d66}' <= c && c <= '\u{d6f}')
    || ('\u{de6}' <= c && c <= '\u{def}')
    || ('\u{e50}' <= c && c <= '\u{e59}')
    || ('\u{ed0}' <= c && c <= '\u{ed9}')
    || ('\u{f20}' <= c && c <= '\u{f29}')
    || ('\u{1040}' <= c && c <= '\u{1049}')
    || ('\u{1090}' <= c && c <= '\u{1099}')
    || ('\u{17e0}' <= c && c <= '\u{17e9}')
    || ('\u{1810}' <= c && c <= '\u{1819}')
    || ('\u{1946}' <= c && c <= '\u{194f}')
    || ('\u{19d0}' <= c && c <= '\u{19d9}')
    || ('\u{1a80}' <= c && c <= '\u{1a89}')
    || ('\u{1a90}' <= c && c <= '\u{1a99}')
    || ('\u{1b50}' <= c && c <= '\u{1b59}')
    || ('\u{1bb0}' <= c && c <= '\u{1bb9}')
    || ('\u{1c40}' <= c && c <= '\u{1c49}')
    || ('\u{1c50}' <= c && c <= '\u{1c59}')
    || ('\u{a620}' <= c && c <= '\u{a629}')
    || ('\u{a8d0}' <= c && c <= '\u{a8d9}')
    || ('\u{a900}' <= c && c <= '\u{a909}')
    || ('\u{a9d0}' <= c && c <= '\u{a9d9}')
    || ('\u{a9f0}' <= c && c <= '\u{a9f9}')
    || ('\u{aa50}' <= c && c <= '\u{aa59}')
    || ('\u{abf0}' <= c && c <= '\u{abf9}')
    || ('\u{ff10}' <= c && c <= '\u{ff19}')
    || ('\u{104a0}' <= c && c <= '\u{104a9}')
    || ('\u{10d30}' <= c && c <= '\u{10d39}')
    || ('\u{10d40}' <= c && c <= '\u{10d49}')
    || ('\u{11066}' <= c && c <= '\u{1106f}')
    || ('\u{110f0}' <= c && c <= '\u{110f9}')
    || ('\u{11136}' <= c && c <= '\u{1113f}')
    || ('\u{111d0}' <= c && c <= '\u{111d9}')
    || ('\u{112f0}' <= c && c <= '\u{112f9}')
    || ('\u{11450}' <= c && c <= '\u{11459}')
    || ('\u{114d0}' <= c && c <= '\u{114d9}')
    || ('\u{11650}' <= c && c <= '\u{11659}')
    || ('\u{116c0}' <= c && c <= '\u{116c9}')
    || ('\u{116d0}' <= c && c <= '\u{116e3}')
    || ('\u{11730}' <= c && c <= '\u{11739}')
    || ('\u{118e0}' <= c && c <= '\u{118e9}')
    || ('\u{11950}' <= c && c <= '\u{11959}')
    || ('\u{11bf0}' <= c && c <= '\u{11bf9}')
    || ('\u{11c50}' <= c && c <= '\u{11c59}')
    || ('\u{11d50}' <= c && c <= '\u{11d59}')
    || ('\u{11da0}' <= c && c <= '\u{11da9}')
    || ('\u{11f50}' <= c && c <= '\u{11f59}')
    || ('\u{16130}' <= c && c <= '\u{16139}')
    || ('\u{16a60}' <= c && c <= '\u{16a69}')
    || ('\u{16ac0}' <= c && c <= '\u{16ac9}')
    || ('\u{16b50}' <= c && c <= '\u{16b59}')
    || ('\u{16d70}' <= c && c <= '\u{16d79}')
    || ('\u{1ccf0}' <= c && c <= '\u{1ccf9}')
    || ('\u{1d7ce}' <= c && c <= '\u{1d7ff}')
    || ('\u{1e140}' <= c && c <= '\u{1e149}')
    || ('\u{1e2f0}' <= c && c <= '\u{1e2f9}')
    || ('\u{1e4f0}' <= c && c <= '\u{1e4f9}')
    || ('\u{1e5f1}' <= c && c <= '\u{1e5fa}')
    || ('\u{1e950}' <= c && c <= '\u{1e959}')
    || ('\u{1fbf0}' <= c && c <= '\u{1fbf9}')
}

/// Whether a character is a decimal digit.
fn is_any_digit(c: char) -> (r: bool)
    ensures
        r == any_digit(c),
{
    ('0' <= c && c <= '9') || is_foreign_digit(c)
}

/// Gets the character `d` places after `i`.
fn get(v: &Vec<char>, i: usize, d: usize) -> (r: char)
    requires
        i <= v@.len(),
    ensures
        r == char_at(v@, i + d),
{
    if v.len() - i > d {
        v[i + d]
    } else {
        '\0'
    }
}

/// Whether a character is a letter in either case.
fn is_that_letter(c: char, l: char) -> (r: bool)
    ensures
        r == is_letter(c, l),
{
    c == l || c as u64 + 32 == l as u64 || (l == 's' && c == '\u{17f}')
}

/// Whether the character `d` places after `i` is a letter in either case.
fn has_letter(v: &Vec<char>, i: usize, d: usize, l: char) -> (r: bool)
    requires
        i <= v@.len(),
    ensures
        r == is_letter(char_at(v@, i + d), l),
{
    is_that_letter(get(v, i, d), l)
}

/// Counts the digits from `d` places after `i` on.
fn count_digits(v: &Vec<char>, i: usize, d: usize) -> (r: usize)
    requires
        i <= v@.len(),
    ensures
        r == digits_from(v@, i + d),
        r > 0 ==> i + d + r <= v@.len() <= usize::MAX,
{
    let len: usize = v.len();
    if len - i <= d {
        return 0;
    }
    let start: usize = i + d;
    let mut k: usize = start;
    while k < len && is_any_digit(v[k])
        invariant
            start <= k <= len == v@.len(),
            digits_from(v@, start as int) == k - start + digits_from(v@, k as int),
        decreases len - k,
    {
        k = k + 1;
    }
    k - start
}

/// Whether " - " and a digit stand at `i`.
fn has_dash_and_digit(v: &Vec<char>, i: usize) -> (r: bool)
    requires
        i <= v@.len(),
    ensures
        r == dash_and_digit(v@, i as int),
{
    get(v, i, 0) == ' ' && get(v, i, 1) == '-' && get(v, i, 2) == ' ' && is_any_digit(get(v, i, 3))
}

/// A span of a name.
pub open spec fn span_of(r: Option<(usize, usize)>) -> Option<Span> {
    match r {
        Some(p) => Some((p.0 as int, p.1 as int)),
        None => None,
    }
}

/// Finds the season of a mark at `i`.
fn find_season_in_mark(v: &Vec<char>, i: usize) -> (r: Option<(usize, usize)>)
    requires
        i < v@.len(),
    ensures
        span_of(r) == season_in_mark(v@, i as int),
        r matches Some(p) ==> p.0 < p.1 <= v@.len(),
{
    let d: usize = if has_letter(v, i, 0, 's') {
        1
    } else {
        0
    };
    let n = count_digits(v, i, d);
    if n == 0 {
        return None;
    }
    let b: usize = i + d + n;
    let q: usize = if get(v, b, 0) == ' ' {
        1
    } else {
        0
    };
    if has_letter(v, b, q, 'e') || has_letter(v, b, q, 'x') {
        Some((i + d, b))
    } else {
        None
    }
}

/// Finds the number of a season at `i`.
fn find_season_at(v: &Vec<char>, i: usize) -> (r: Option<(usize, usize)>)
    requires
        i < v@.len(),
    ensures
        span_of(r) == season_at(v@, i as int),
        r matches Some(p) ==> p.0 < p.1 <= v@.len(),
{
    let mark = find_season_in_mark(v, i);
    if mark.is_some() {
        return mark;
    }
    let word = has_letter(v, i, 0, 's') && has_letter(v, i, 1, 'e') && has_letter(v, i, 2, 'a')
        && has_letter(v, i, 3, 's') && has_letter(v, i, 4, 'o') && has_letter(v, i, 5, 'n');
    if word && !is_any_digit(get(v, i, 6)) {
        let n = count_digits(v, i, 7);
        if n > 0 {
            return Some((i + 7, i + 7 + n));
        }
    }
    if has_letter(v, i, 0, 's') {
        let n = count_digits(v, i, 1);
        if n > 0 && has_dash_and_digit(v, i + 1 + n) {
            return Some((i + 1, i + 1 + n));
        }
    }
    if get(v, i, 0) == '.' && has_letter(v, i, 1, 's') {
        let n = count_digits(v, i, 2);
        if 1 <= n && n <= 2 && get(v, i + 2 + n, 0) == '.' {
            return Some((i + 1 + n, i + 2 + n));
        }
    }
    None
}

/// Finds up to three digits `d` places after `i`.
fn find_up_to_three(v: &Vec<char>, i: usize, d: usize) -> (r: Option<(usize, usize)>)
    requires
        i <= v@.len(),
    ensures
        span_of(r) == up_to_three(v@, i + d),
        r matches Some(p) ==> p.0 < p.1 <= v@.len(),
{
    let n = count_digits(v, i, d);
    if n == 0 {
        None
    } else if n <= 3 {
        Some((i + d, i + d + n))
    } else {
        Some((i + d, i + d + 3))
    }
}

/// Finds the digits of an episode `d` places after `i`.
fn find_episode_digits(v: &Vec<char>, i: usize, d: usize) -> (r: Option<(usize, usize)>)
    requires
        i <= v@.len(),
        d < 8,
    ensures
        span_of(r) == episode_digits(v@, i + d),
        r matches Some(p) ==> p.0 < p.1 <= v@.len(),
{
    let here = find_up_to_three(v, i, d);
    if here.is_some() {
        here
    } else if get(v, i, d) != '.' {
        find_up_to_three(v, i, d + 1)
    } else {
        None
    }
}

/// Finds the number of an episode at `i`.
fn find_episode_at(v: &Vec<char>, i: usize) -> (r: Option<(usize, usize)>)
    requires
        i < v@.len(),
    ensures
        span_of(r) == episode_at(v@, i as int),
        r matches Some(p) ==> p.0 < p.1 <= v@.len(),
{
    if has_letter(v, i, 0, 'e') {
        let short = find_episode_digits(v, i, 1);
        if short.is_some() {
            return short;
        }
        let word = has_letter(v, i, 1, 'p') && has_letter(v, i, 2, 'i') && has_letter(v, i, 3, 's')
            && has_letter(v, i, 4, 'o') && has_letter(v, i, 5, 'd') && has_letter(v, i, 6, 'e');
        if word {
            let long = find_episode_digits(v, i, 7);
            if long.is_some() {
                return long;
            }
        }
    }
    let n = count_digits(v, i, 0);
    if n > 0 && has_letter(v, i + n, 0, 'x') {
        let m = count_digits(v, i + n, 1);
        if m > 0 {
            return Some((i + n + 1, i + n + 1 + m));
        }
    }
    if has_letter(v, i, 0, 's') {
        let n = count_digits(v, i, 1);
        if n > 0 && has_dash_and_digit(v, i + 1 + n) {
            let m = count_digits(v, i + 1 + n, 3);
            assert(digits_from(v@, i + 1 + n + 3) > 0);
            return Some((i + 4 + n, i + 4 + n + m));
        }
    }
    None
}

/// Finds the number of the last episode of a chain at `i`.
fn find_last_in_chain(v: &Vec<char>, i: usize) -> (r: Option<(usize, usize)>)
    requires
        i <= v@.len(),
    ensures
        span_of(r) == last_in_chain(v@, i as int),
        r matches Some(p) ==> p.0 < p.1 <= v@.len(),
    decreases v@.len() - i,
{
    if i >= v.len() || !has_letter(v, i, 0, 'e') {
        return None;
    }
    let n = count_digits(v, i, 1);
    if n == 0 {
        return None;
    }
    let later = find_last_in_chain(v, i + 1 + n);
    if later.is_some() {
        later
    } else {
        Some((i + 1, i + 1 + n))
    }
}

/// Finds the number of the last episode, where the first stands at `i`.
fn find_last_at(v: &Vec<char>, i: usize) -> (r: Option<(usize, usize)>)
    requires
        i < v@.len(),
    ensures
        span_of(r) == last_at(v@, i as int),
        r matches Some(p) ==> p.0 < p.1 <= v@.len(),
{
    if !has_letter(v, i, 0, 'e') {
        return None;
    }
    let n = count_digits(v, i, 1);
    if n == 0 {
        return None;
    }
    let len: usize = v.len();
    let end: usize = i + 1 + n;
    let mut k: usize = end;
    while k < len && (v[k] == '-' || v[k] == ' ')
        invariant
            end <= k <= len == v@.len(),
            past_dashes(v@, end as int) == past_dashes(v@, k as int),
        decreases len - k,
    {
        k = k + 1;
    }
    find_last_in_chain(v, k)
}

/// Finds the first number of a kind.
fn find_number(v: &Vec<char>, kind: NumberKind) -> (r: Option<(usize, usize)>)
    ensures
        span_of(r) == first_number(v@, kind, 0),
        r matches Some(p) ==> p.0 < p.1 <= v@.len(),
{
    let mut i: usize = 0;
    while i < v.len()
        invariant
            0 <= i <= v@.len(),
            first_number(v@, kind, 0) == first_number(v@, kind, i as int),
        decreases v@.len() - i,
    {
        let here = match kind {
            NumberKind::Season => find_season_at(v, i),
            NumberKind::Episode => find_episode_at(v, i),
            NumberKind::LastEpisode => find_last_at(v, i),
        };
        if here.is_some() {
            return here;
        }
        i = i + 1;
    }
    None
}

/// Whether a year stands at `i`.
fn is_year_at(v: &Vec<char>, i: usize) -> (r: bool)
    requires
        i < v@.len(),
    ensures
        r == year_at(v@, i as int),
        r ==> i + 4 <= v@.len(),
{
    let a = get(v, i, 0);
    let b = get(v, i, 1);
    ((a == '1' && (b == '8' || b == '9')) || (a == '2' && b == '0')) && is_any_digit(get(v, i, 2))
        && is_any_digit(get(v, i, 3))
}

/// Finds the last of the years that stand alone.
fn find_last_year(v: &Vec<char>) -> (r: Option<usize>)
    ensures
        match r {
            Some(y) => last_year(v@, 0, None) == Some(y as int) && y + 4 <= v@.len() <= usize::MAX,
            None => last_year(v@, 0, None) is None,
        },
{
    let mut found: Option<usize> = None;
    let mut i: usize = 0;
    while i < v.len()
        invariant
            0 <= i <= v@.len(),
            found matches Some(y) ==> y + 4 <= v@.len(),
            last_year(v@, 0, None) == last_year(
                v@,
                i as int,
                match found {
                    Some(y) => Some(y as int),
                    None => None,
                },
            ),
        decreases v@.len() - i,
    {
        if is_year_at(v, i) {
            let before = if i > 0 {
                v[i - 1]
            } else {
                '\0'
            };
            let after = get(v, i, 4);
            if !('0' <= before && before <= '9') && !('0' <= after && after <= '9') {
                found = Some(i);
            }
            i = i + 4;
        } else {
            i = i + 1;
        }
    }
    found
}

/// Whether a span has a digit other than 0 to 9.
fn is_unreadable(v: &Vec<char>, a: usize, b: usize) -> (r: bool)
    requires
        a <= b <= v@.len(),
    ensures
        r == unreadable(v@, Some((a as int, b as int))),
{
    let mut i: usize = a;
    while i < b
        invariant
            a <= i <= b <= v@.len(),
            forall|j: int| a <= j < i ==> !foreign_digit(#[trigger] char_at(v@, j)),
        decreases b - i,
    {
        assert(char_at(v@, i as int) == v@[i as int]);
        if is_foreign_digit(v[i]) {
            return true;
        }
        i = i + 1;
    }
    false
}

/// Tells if the parser reads a number in a name that has a digit other than 0 to 9.
pub fn is_misread(v: &Vec<char>) -> (r: bool)
    ensures
        r == misread(v@),
{
    if let Some((a, b)) = find_number(v, NumberKind::Season) {
        if is_unreadable(v, a, b) {
            return true;
        }
    }
    if let Some((a, b)) = find_number(v, NumberKind::Episode) {
        if is_unreadable(v, a, b) {
            return true;
        }
        if let Some((c, d)) = find_number(v, NumberKind::LastEpisode) {
            if is_unreadable(v, c, d) {
                return true;
            }
        }
    }
    if let Some(y) = find_last_year(v) {
        return is_unreadable(v, y, y + 4);
    }
    false
}

/// A name with no digits but 0 to 9 is not misread.
pub proof fn law_plain_digits_are_read(s: Seq<char>)
    requires
        forall|i: int| 0 <= i < s.len() ==> !foreign_digit(#[trigger] s[i]),
    ensures
        !misread(s),
{
    assert forall|i: int| !foreign_digit(#[trigger] char_at(s, i)) by {}
}

}
