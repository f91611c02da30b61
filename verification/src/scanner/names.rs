//! What names of files and directories say.

use vstd::prelude::*;

use crate::text::{
    all_digits, are_digits, ascii_digit, ascii_letter, cat, chars_of, contains_str, find, find_from,
    lemma_find_from, lowercase, occurs_at, parse_digits, parse_i64, prefix_cut, rfind_char, same,
    signed, starts_with, string_of, strip_prefix, strip_suffix, suffix_cut, to_lowercase, trim,
    trim_end, trimmed, trimmed_end, trimmed_start, value, white, whitespace,
};

verus! {

/// The name, in lowercase, of a directory for seasons, extras or media in general, which says nothing
/// of a title.
pub open spec fn generic_name(lower: Seq<char>) -> bool {
    ||| "season"@.is_prefix_of(lower)
    ||| "series"@.is_prefix_of(lower)
    ||| lower.len() <= 3 && lower.len() > 0 && lower[0] == 's' && all_digits(lower.drop_first())
    ||| lower == "subs"@
    ||| lower == "subtitles"@
    ||| lower == "extras"@
    ||| lower == "extra"@
    ||| lower == "featurettes"@
    ||| lower == "behind the scenes"@
    ||| lower == "deleted scenes"@
    ||| lower == "interviews"@
    ||| lower == "scenes"@
    ||| lower == "shorts"@
    ||| lower == "trailers"@
    ||| lower == "media"@
    ||| lower == "movies"@
    ||| lower == "tv"@
    ||| lower == "tv shows"@
    ||| lower == "videos"@
    ||| lower == "video"@
    ||| lower == "downloads"@
    ||| lower == "tmp"@
    ||| lower == "temp"@
}

/// Whether a directory's name, given in lowercase, says nothing of a title.
pub fn is_generic_lower(lower: &str) -> (r: bool)
    ensures
        r == generic_name(lower@),
{
    if starts_with(lower, "season") || starts_with(lower, "series") {
        return true;
    }
    let v = chars_of(lower);
    if v.len() <= 3 && v.len() > 0 && v[0] == 's' {
        assert(lower@.drop_first() =~= v@.subrange(1, v@.len() as int));
        if are_digits(&v, 1, v.len()) {
            return true;
        }
    }
    same(lower, "subs") || same(lower, "subtitles") || same(lower, "extras") || same(lower, "extra")
        || same(lower, "featurettes") || same(lower, "behind the scenes") || same(
        lower,
        "deleted scenes",
    ) || same(lower, "interviews") || same(lower, "scenes") || same(lower, "shorts") || same(
        lower,
        "trailers",
    ) || same(lower, "media") || same(lower, "movies") || same(lower, "tv") || same(
        lower,
        "tv shows",
    ) || same(lower, "videos") || same(lower, "video") || same(lower, "downloads") || same(
        lower,
        "tmp",
    ) || same(lower, "temp")
}

/// Whether a directory's name says nothing of a title.
pub fn is_generic_dir_name(name: &str) -> (r: bool)
    ensures
        r == generic_name(lowercase(name@)),
{
    is_generic_lower(to_lowercase(name).as_str())
}

/// Holds of an opening bracket.
pub open spec fn bracket() -> spec_fn(char) -> bool {
    |c: char| c == '('
}

/// A name and the year in brackets that it ends with, from 1900 to 2100; the name as it is where there
/// is none.
pub open spec fn year_split(name: Seq<char>) -> (Seq<char>, Option<i64>) {
    let t = trimmed_end(name, white());
    match rfind_char(t, bracket(), t.len() as int) {
        Some(open) => {
            let inner = t.subrange(open + 1, t.len() - 1);
            if t.last() == ')' && inner.len() == 4 && all_digits(inner) && 1900 <= value(inner)
                <= 2100 {
                (trimmed_end(t.subrange(0, open), white()), Some(value(inner) as i64))
            } else {
                (name, None)
            }
        },
        None => (name, None),
    }
}

/// Splits the year off a name such as "Berserk (2016)".
pub fn split_trailing_year(name: &str) -> (r: (String, Option<i64>))
    ensures
        (r.0@, r.1) == year_split(name@),
{
    let t = trim_end(name);
    let v = chars_of(t.as_str());
    let ghost f = bracket();
    let mut k: usize = v.len();
    while k > 0 && v[k - 1] != '('
        invariant
            k <= v@.len(),
            v@ == t@,
            f == bracket(),
            rfind_char(t@, f, t@.len() as int) == rfind_char(t@, f, k as int),
        decreases k,
    {
        k = k - 1;
    }
    if k > 0 && v[v.len() - 1] == ')' {
        assert(k < v@.len());
        let end: usize = v.len() - 1;
        if end - k == 4 {
            if let Some(year) = parse_digits(&v, k, end, 9999) {
                if 1900 <= year && year <= 2100 {
                    return (trim_end(string_of(&v, 0, k - 1).as_str()), Some(year as i64));
                }
            } else {
                proof {
                    if all_digits(v@.subrange(k as int, end as int)) {
                        lemma_four_digits(v@.subrange(k as int, end as int));
                    }
                }
            }
        }
    }
    (name.to_owned(), None)
}

/// Four digits denote a number below ten thousand.
proof fn lemma_four_digits(s: Seq<char>)
    requires
        s.len() == 4,
        all_digits(s),
    ensures
        value(s) <= 9999,
{
    reveal_with_fuel(value, 5);
    assert(ascii_digit(s[0]) && ascii_digit(s[1]) && ascii_digit(s[2]) && ascii_digit(s[3]));
    assert(s.drop_last().last() == s[2]);
    assert(s.drop_last().drop_last().last() == s[1]);
    assert(s.drop_last().drop_last().drop_last().last() == s[0]);
}

/// The number that a text denotes.
pub open spec fn number_of(s: Seq<char>) -> Option<i64> {
    match signed(s) {
        Some(n) => Some(n as i64),
        None => None,
    }
}

/// The season that a directory is for, by its name in lowercase: "season 1", "series 02", "staffel 3",
/// or "s01".
pub open spec fn season_of_lower(lower: Seq<char>) -> Option<i64> {
    let t = trimmed(lower);
    match (prefix_cut(t, "season"@), prefix_cut(t, "series"@), prefix_cut(t, "staffel"@)) {
        (Some(rest), _, _) => number_of(trimmed(rest)),
        (None, Some(rest), _) => number_of(trimmed(rest)),
        (None, None, Some(rest)) => number_of(trimmed(rest)),
        (None, None, None) => if t.len() > 0 && t[0] == 's' && t.len() <= 4 {
            number_of(t.drop_first())
        } else {
            None
        },
    }
}

/// Reads the season off a directory's name in lowercase.
pub fn season_from_lower(lower: &str) -> (r: Option<i64>)
    ensures
        r == season_of_lower(lower@),
{
    let t = trim(lower);
    if let Some(rest) = strip_prefix(t.as_str(), "season") {
        return parse_i64(trim(rest.as_str()).as_str());
    }
    if let Some(rest) = strip_prefix(t.as_str(), "series") {
        return parse_i64(trim(rest.as_str()).as_str());
    }
    if let Some(rest) = strip_prefix(t.as_str(), "staffel") {
        return parse_i64(trim(rest.as_str()).as_str());
    }
    let v = chars_of(t.as_str());
    if v.len() > 0 && v[0] == 's' && v.len() <= 4 {
        assert(t@.drop_first() =~= v@.subrange(1, v@.len() as int));
        return parse_i64(string_of(&v, 1, v.len()).as_str());
    }
    None
}

/// Reads the season off a directory's name.
pub fn extract_season_from_dir(name: &str) -> (r: Option<i64>)
    ensures
        r == season_of_lower(lowercase(name@)),
{
    season_from_lower(to_lowercase(name).as_str())
}

/// How many digits follow from `from` on, at most `max`.
pub open spec fn run_len(s: Seq<char>, from: int, max: int) -> int
    decreases max,
{
    if max <= 0 || from < 0 || from >= s.len() || !ascii_digit(s[from]) {
        0
    } else {
        1 + run_len(s, from + 1, max - 1)
    }
}

/// A letter or a digit.
pub open spec fn ascii_alnum(c: char) -> bool {
    ascii_letter(c) || ascii_digit(c)
}

/// Where the mark `SxxEyy` that begins at `i` ends: one or two digits of a season, one to four of an
/// episode, no letter or digit before it and no digit after it.
pub open spec fn mark_end(s: Seq<char>, i: int) -> Option<int> {
    let m = run_len(s, i + 1, 2);
    let j = i + 1 + m;
    let n = run_len(s, j + 1, 4);
    let k = j + 1 + n;
    if 0 <= i < s.len() && (s[i] == 's' || s[i] == 'S') && (i == 0 || !ascii_alnum(s[i - 1])) && m
        > 0 && j < s.len() && (s[j] == 'e' || s[j] == 'E') && n > 0 && (k == s.len()
        || !ascii_digit(s[k])) {
        Some(k)
    } else {
        None
    }
}

/// The first mark `SxxEyy` from `i` on: where it begins and ends.
pub open spec fn mark_from(s: Seq<char>, i: int) -> Option<(int, int)>
    decreases s.len() - i,
{
    if i < 0 || i >= s.len() {
        None
    } else {
        match mark_end(s, i) {
            Some(k) => Some((i, k)),
            None => mark_from(s, i + 1),
        }
    }
}

/// Counts the digits from `from` on, at most `max`.
fn count_run(v: &Vec<char>, from: usize, max: usize) -> (r: usize)
    requires
        from <= v@.len(),
    ensures
        r == run_len(v@, from as int, max as int),
        from + r <= v@.len(),
        r <= max,
    decreases max,
{
    if max == 0 || from >= v.len() {
        return 0;
    }
    let c = v[from];
    if '0' <= c && c <= '9' {
        1 + count_run(v, from + 1, max - 1)
    } else {
        0
    }
}

/// Where the mark that begins at `i` ends.
fn mark_at(v: &Vec<char>, i: usize) -> (r: Option<usize>)
    requires
        i < v@.len(),
    ensures
        r is Some <==> mark_end(v@, i as int) is Some,
        r matches Some(k) ==> Some(k as int) == mark_end(v@, i as int) && i < k <= v@.len(),
{
    let len: usize = v.len();
    if v[i] != 's' && v[i] != 'S' {
        return None;
    }
    if i > 0 {
        let p = v[i - 1];
        if ('a' <= p && p <= 'z') || ('A' <= p && p <= 'Z') || ('0' <= p && p <= '9') {
            return None;
        }
    }
    let m = count_run(v, i + 1, 2);
    let j: usize = i + 1 + m;
    if m == 0 || j >= len || (v[j] != 'e' && v[j] != 'E') {
        return None;
    }
    let n = count_run(v, j + 1, 4);
    let k: usize = j + 1 + n;
    if n == 0 || (k < len && '0' <= v[k] && v[k] <= '9') {
        return None;
    }
    Some(k)
}

/// Finds the first mark `SxxEyy` in a name.
pub fn find_sxx_eyy(v: &Vec<char>) -> (r: Option<(usize, usize)>)
    ensures
        r is Some <==> mark_from(v@, 0) is Some,
        r matches Some(p) ==> mark_from(v@, 0) == Some((p.0 as int, p.1 as int)) && p.0 < p.1
            <= v@.len(),
{
    let mut i: usize = 0;
    while i < v.len()
        invariant
            0 <= i <= v@.len(),
            mark_from(v@, 0) == mark_from(v@, i as int),
        decreases v@.len() - i,
    {
        if let Some(k) = mark_at(v, i) {
            return Some((i, k));
        }
        i = i + 1;
    }
    None
}

/// A hexadecimal digit.
pub open spec fn hex_digit(c: char) -> bool {
    ascii_digit(c) || 'a' <= c <= 'f' || 'A' <= c <= 'F'
}

/// Whether a character is a hexadecimal digit.
fn is_hex(c: char) -> (r: bool)
    ensures
        r == hex_digit(c),
{
    ('0' <= c && c <= '9') || ('a' <= c && c <= 'f') || ('A' <= c && c <= 'F')
}

/// Eight hexadecimal digits in square brackets stand at `i`.
pub open spec fn hash_at(s: Seq<char>, i: int) -> bool {
    &&& 0 <= i
    &&& i + 10 <= s.len()
    &&& s[i] == '['
    &&& forall|k: int| 1 <= k < 9 ==> hex_digit(#[trigger] s[i + k])
    &&& s[i + 9] == ']'
}

/// `s` from `i` on, without checksums in square brackets.
pub open spec fn without_hashes(s: Seq<char>, i: int) -> Seq<char>
    decreases s.len() - i,
{
    if i < 0 || i >= s.len() {
        Seq::empty()
    } else if hash_at(s, i) {
        without_hashes(s, i + 10)
    } else {
        seq![s[i]] + without_hashes(s, i + 1)
    }
}

/// A UUID stands at `i`: groups of 8, 4, 4, 4 and 12 hexadecimal digits with dashes between them.
pub open spec fn uuid_at(s: Seq<char>, i: int) -> bool {
    &&& 0 <= i
    &&& i + 36 <= s.len()
    &&& forall|k: int|
        0 <= k < 36 ==> if k == 8 || k == 13 || k == 18 || k == 23 {
            #[trigger] s[i + k] == '-'
        } else {
            hex_digit(s[i + k])
        }
}

/// `s` from `i` on, without UUIDs.
pub open spec fn without_uuids(s: Seq<char>, i: int) -> Seq<char>
    decreases s.len() - i,
{
    if i < 0 || i >= s.len() {
        Seq::empty()
    } else if uuid_at(s, i) {
        without_uuids(s, i + 36)
    } else {
        seq![s[i]] + without_uuids(s, i + 1)
    }
}

/// A version after a mark is cut off, and a dash, dot or underscore before the mark becomes a space.
pub open spec fn mark_freed(s: Seq<char>) -> Seq<char> {
    match mark_from(s, 0) {
        None => s,
        Some((start, end)) => {
            let run = run_len(s, end + 1, s.len() as int);
            let t = if end < s.len() && (s[end] == 'v' || s[end] == 'V') && run > 0 {
                s.subrange(0, end) + s.subrange(end + 1 + run, s.len() as int)
            } else {
                s
            };
            if start > 0 && (t[start - 1] == '-' || t[start - 1] == '.' || t[start - 1] == '_') {
                t.update(start - 1, ' ')
            } else {
                t
            }
        },
    }
}

/// Holds of a dash.
pub open spec fn dash() -> spec_fn(char) -> bool {
    |c: char| c == '-'
}

/// Digits, and nothing else, follow the last dash.
pub open spec fn ends_in_number(s: Seq<char>) -> bool {
    match rfind_char(s, dash(), s.len() as int) {
        Some(d) => d + 1 < s.len() && all_digits(s.subrange(d + 1, s.len() as int)),
        None => false,
    }
}

/// What one marker of a finale makes of a name, `None` where the next one is to be tried: a marker at
/// the end, or before a bracket, goes if a dash and a number stand before it.
pub open spec fn marker_cut(s: Seq<char>, marker: Seq<char>) -> Option<Seq<char>> {
    match suffix_cut(s, marker) {
        Some(t) => if ends_in_number(t) {
            Some(t)
        } else {
            Some(s)
        },
        None => match find_from(s, marker + " ["@, 0) {
            Some(p) => if ends_in_number(s.subrange(0, p)) {
                Some(s.subrange(0, p) + s.subrange(p + marker.len(), s.len() as int))
            } else {
                None
            },
            None => None,
        },
    }
}

/// A name without the marker of a finale.
pub open spec fn without_finale(s: Seq<char>) -> Seq<char> {
    match marker_cut(s, " END"@) {
        Some(t) => t,
        None => match marker_cut(s, " end"@) {
            Some(t) => t,
            None => match marker_cut(s, " FIN"@) {
                Some(t) => t,
                None => match marker_cut(s, " FINAL"@) {
                    Some(t) => t,
                    None => s,
                },
            },
        },
    }
}

/// A file name fit for the parsers.
pub open spec fn precleaned(name: Seq<char>) -> Seq<char> {
    without_finale(mark_freed(without_uuids(without_hashes(name, 0), 0)))
}

/// Takes checksums in square brackets out of a name.
fn strip_hashes(name: &str) -> (r: String)
    ensures
        r@ == without_hashes(name@, 0),
{
    let v = chars_of(name);
    let len: usize = v.len();
    let mut out = String::new();
    let mut i: usize = 0;
    assert(out@ + without_hashes(name@, 0) =~= without_hashes(name@, 0));
    while i < len
        invariant
            0 <= i <= len == v@.len(),
            v@ == name@,
            without_hashes(name@, 0) == out@ + without_hashes(name@, i as int),
        decreases len - i,
    {
        let mut is_hash = len - i >= 10 && v[i] == '[' && v[i + 9] == ']';
        if is_hash {
            let mut k: usize = 1;
            while k < 9
                invariant
                    1 <= k <= 9,
                    i + 10 <= len == v@.len(),
                    is_hash ==> forall|j: int| 1 <= j < k ==> hex_digit(#[trigger] v@[i + j]),
                    !is_hash ==> exists|j: int| 1 <= j < 9 && !hex_digit(#[trigger] v@[i + j]),
                decreases 9 - k,
            {
                if is_hash && !is_hex(v[i + k]) {
                    is_hash = false;
                }
                k = k + 1;
            }
        }
        if is_hash {
            assert(hash_at(name@, i as int));
            i = i + 10;
        } else {
            assert(!hash_at(name@, i as int));
            let ghost before = out@;
            out.push(v[i]);
            assert(before + without_hashes(name@, i as int) =~= out@ + without_hashes(
                name@,
                i + 1,
            ));
            i = i + 1;
        }
    }
    assert(out@ + without_hashes(name@, i as int) =~= out@);
    out
}

/// Whether a UUID stands at `i`.
fn is_uuid_at(v: &Vec<char>, i: usize) -> (r: bool)
    requires
        i <= v@.len(),
    ensures
        r == uuid_at(v@, i as int),
{
    let len: usize = v.len();
    if len - i < 36 {
        return false;
    }
    let mut k: usize = 0;
    while k < 36
        invariant
            0 <= k <= 36,
            i + 36 <= len == v@.len(),
            forall|j: int|
                0 <= j < k ==> if j == 8 || j == 13 || j == 18 || j == 23 {
                    #[trigger] v@[i + j] == '-'
                } else {
                    hex_digit(v@[i + j])
                },
        decreases 36 - k,
    {
        let c = v[i + k];
        let ok = if k == 8 || k == 13 || k == 18 || k == 23 {
            c == '-'
        } else {
            is_hex(c)
        };
        if !ok {
            assert(!uuid_at(v@, i as int)) by {
                assert(v@[i + k] == c);
            }
            return false;
        }
        k = k + 1;
    }
    true
}

/// Takes UUIDs out of a name.
fn strip_uuids(v: &Vec<char>) -> (r: Vec<char>)
    ensures
        r@ == without_uuids(v@, 0),
{
    let mut out: Vec<char> = Vec::new();
    let mut i: usize = 0;
    assert(out@ + without_uuids(v@, 0) =~= without_uuids(v@, 0));
    while i < v.len()
        invariant
            0 <= i <= v@.len(),
            without_uuids(v@, 0) == out@ + without_uuids(v@, i as int),
        decreases v@.len() - i,
    {
        if is_uuid_at(v, i) {
            i = i + 36;
        } else {
            let ghost before = out@;
            out.push(v[i]);
            assert(before + without_uuids(v@, i as int) =~= out@ + without_uuids(v@, i + 1));
            i = i + 1;
        }
    }
    assert(out@ + without_uuids(v@, i as int) =~= out@);
    out
}

/// Frees a mark from what is glued to it.
fn free_mark(v: Vec<char>) -> (r: String)
    ensures
        r@ == mark_freed(v@),
{
    let ghost s = v@;
    let len: usize = v.len();
    match find_sxx_eyy(&v) {
        None => {
            assert(v@.subrange(0, len as int) =~= v@);
            string_of(&v, 0, len)
        },
        Some((start, end)) => {
            let run = if end < len {
                count_run(&v, end + 1, len)
            } else {
                0
            };
            let mut t = if end < len && (v[end] == 'v' || v[end] == 'V') && run > 0 {
                let head = string_of(&v, 0, end);
                let tail = string_of(&v, end + 1 + run, len);
                chars_of(cat(head.as_str(), tail.as_str()).as_str())
            } else {
                v
            };
            if start > 0 {
                let p = t[start - 1];
                if p == '-' || p == '.' || p == '_' {
                    t.set(start - 1, ' ');
                }
            }
            assert(t@ =~= mark_freed(s));
            assert(t@.subrange(0, t@.len() as int) =~= t@);
            string_of(&t, 0, t.len())
        },
    }
}

/// Whether digits, and nothing else, follow the last dash.
fn is_numbered_end(s: &str) -> (r: bool)
    ensures
        r == ends_in_number(s@),
{
    let v = chars_of(s);
    let ghost f = dash();
    let mut k: usize = v.len();
    while k > 0 && v[k - 1] != '-'
        invariant
            k <= v@.len(),
            v@ == s@,
            f == dash(),
            rfind_char(s@, f, s@.len() as int) == rfind_char(s@, f, k as int),
        decreases k,
    {
        k = k - 1;
    }
    k > 0 && k < v.len() && are_digits(&v, k, v.len())
}

/// Tries one marker of a finale.
fn cut_marker(s: &str, marker: &str) -> (r: Option<String>)
    ensures
        r is Some <==> marker_cut(s@, marker@) is Some,
        r matches Some(t) ==> Some(t@) == marker_cut(s@, marker@),
{
    if let Some(t) = strip_suffix(s, marker) {
        return if is_numbered_end(t.as_str()) {
            Some(t)
        } else {
            Some(s.to_owned())
        };
    }
    let v = chars_of(s);
    let p = chars_of(cat(marker, " [").as_str());
    let m: usize = chars_of(marker).len();
    if let Some(pos) = find(&v, &p, 0) {
        assert(marker@.len() <= (marker@ + " ["@).len());
        let head = string_of(&v, 0, pos);
        if is_numbered_end(head.as_str()) {
            let tail = string_of(&v, pos + m, v.len());
            return Some(cat(head.as_str(), tail.as_str()));
        }
    }
    None
}

/// Takes the marker of a finale out of a name.
fn strip_finale(s: String) -> (r: String)
    ensures
        r@ == without_finale(s@),
{
    if let Some(t) = cut_marker(s.as_str(), " END") {
        return t;
    }
    if let Some(t) = cut_marker(s.as_str(), " end") {
        return t;
    }
    if let Some(t) = cut_marker(s.as_str(), " FIN") {
        return t;
    }
    if let Some(t) = cut_marker(s.as_str(), " FINAL") {
        return t;
    }
    s
}

/// Takes out of a file name what leads the parsers to wrong seasons and episodes:
///
/// - checksums in brackets (`[8A3AE688]`),
/// - UUIDs,
/// - versions after an episode (`S01E04v2`),
/// - separators glued to a mark (`My.Love.Story-S01E02`),
/// - markers of a finale (`Dasu-23 END`).
pub fn preclean_filename(name: &str) -> (r: String)
    ensures
        r@ == precleaned(name@),
{
    let out = strip_hashes(name);
    let cleaned = strip_uuids(&chars_of(out.as_str()));
    strip_finale(free_mark(cleaned))
}

/// No marker of a finale stands in a name.
pub open spec fn no_finale(s: Seq<char>) -> bool {
    !contains_str(s, " END"@) && !contains_str(s, " end"@) && !contains_str(s, " FIN"@)
}

/// A name with no checksum in brackets, no UUID, no mark of season and episode, and no marker of a finale
/// is left as it is.
pub proof fn law_other_names_are_kept(name: Seq<char>)
    requires
        forall|i: int| 0 <= i < name.len() ==> !#[trigger] hash_at(name, i),
        forall|i: int| 0 <= i < name.len() ==> !#[trigger] uuid_at(name, i),
        mark_from(name, 0) is None,
        no_finale(name),
    ensures
        precleaned(name) == name,
{
    lemma_no_hashes(name, 0);
    lemma_no_uuids(name, 0);
    assert(name.subrange(0, name.len() as int) =~= name);
    reveal_strlit(" FIN");
    reveal_strlit(" FINAL");
    if contains_str(name, " FINAL"@) {
        lemma_find_from(name, " FINAL"@, 0);
        let i = find_from(name, " FINAL"@, 0)->0;
        assert(name.subrange(i, i + 4) =~= name.subrange(i, i + 6).subrange(0, 4));
        assert(" FINAL"@.subrange(0, 4) =~= " FIN"@);
        lemma_occurrence_is_found(name, " FIN"@, i, 0);
    }
    lemma_no_marker(name, " END"@);
    lemma_no_marker(name, " end"@);
    lemma_no_marker(name, " FIN"@);
    lemma_no_marker(name, " FINAL"@);
}

/// Where no checksum stands, none is taken out.
proof fn lemma_no_hashes(s: Seq<char>, i: int)
    requires
        0 <= i <= s.len(),
        forall|j: int| 0 <= j < s.len() ==> !#[trigger] hash_at(s, j),
    ensures
        without_hashes(s, i) == s.subrange(i, s.len() as int),
    decreases s.len() - i,
{
    if i < s.len() {
        lemma_no_hashes(s, i + 1);
        assert(!hash_at(s, i));
    }
    assert(without_hashes(s, i) =~= s.subrange(i, s.len() as int));
}

/// Where no UUID stands, none is taken out.
proof fn lemma_no_uuids(s: Seq<char>, i: int)
    requires
        0 <= i <= s.len(),
        forall|j: int| 0 <= j < s.len() ==> !#[trigger] uuid_at(s, j),
    ensures
        without_uuids(s, i) == s.subrange(i, s.len() as int),
    decreases s.len() - i,
{
    if i < s.len() {
        lemma_no_uuids(s, i + 1);
        assert(!uuid_at(s, i));
    }
    assert(without_uuids(s, i) =~= s.subrange(i, s.len() as int));
}

/// Where a marker does not stand, it is not cut off.
proof fn lemma_no_marker(s: Seq<char>, marker: Seq<char>)
    requires
        !contains_str(s, marker),
    ensures
        marker_cut(s, marker) is None,
{
    if suffix_cut(s, marker) is Some {
        let i = s.len() - marker.len();
        assert(s.subrange(i, s.len() as int) =~= marker);
        lemma_occurrence_is_found(s, marker, i, 0);
    }
    let longer = marker + " ["@;
    lemma_find_from(s, longer, 0);
    if let Some(i) = find_from(s, longer, 0) {
        assert(s.subrange(i, i + marker.len()) =~= s.subrange(i, i + longer.len()).subrange(
            0,
            marker.len() as int,
        ));
        assert(longer.subrange(0, marker.len() as int) =~= marker);
        lemma_occurrence_is_found(s, marker, i, 0);
    }
}

/// What stands somewhere is found.
proof fn lemma_occurrence_is_found(s: Seq<char>, p: Seq<char>, i: int, from: int)
    requires
        0 <= from <= i,
        occurs_at(s, p, i),
    ensures
        find_from(s, p, from) is Some,
    decreases i - from,
{
    if from < i && !occurs_at(s, p, from) {
        lemma_occurrence_is_found(s, p, i, from + 1);
    }
}

/// The directories that say nothing of a title: those whose name begins with "season" or "series", an "s" with
/// at most two digits, and those for extras and for media in general.
pub proof fn law_directories_that_say_nothing(rest: Seq<char>, lower: Seq<char>)
    ensures
        generic_name("season"@ + rest),
        generic_name("series"@ + rest),
        rest.len() <= 2 && all_digits(rest) ==> generic_name(seq!['s'] + rest),
        seq![
            "subs"@, "subtitles"@, "extras"@, "extra"@, "featurettes"@, "behind the scenes"@,
            "deleted scenes"@, "interviews"@, "scenes"@, "shorts"@, "trailers"@, "media"@, "movies"@,
            "tv"@, "tv shows"@, "videos"@, "video"@, "downloads"@, "tmp"@, "temp"@,
        ].contains(lower) ==> generic_name(lower),
        generic_name(lower) ==> "season"@.is_prefix_of(lower) || "series"@.is_prefix_of(lower) || (
        lower.len() <= 3 && lower.len() > 0 && lower[0] == 's' && all_digits(lower.drop_first())) || seq![
            "subs"@, "subtitles"@, "extras"@, "extra"@, "featurettes"@, "behind the scenes"@,
            "deleted scenes"@, "interviews"@, "scenes"@, "shorts"@, "trailers"@, "media"@, "movies"@,
            "tv"@, "tv shows"@, "videos"@, "video"@, "downloads"@, "tmp"@, "temp"@,
        ].contains(lower),
{
    assert(("season"@ + rest).subrange(0, "season"@.len() as int) =~= "season"@);
    assert(("series"@ + rest).subrange(0, "series"@.len() as int) =~= "series"@);
    assert((seq!['s'] + rest).drop_first() =~= rest);
    let all = seq![
        "subs"@, "subtitles"@, "extras"@, "extra"@, "featurettes"@, "behind the scenes"@,
        "deleted scenes"@, "interviews"@, "scenes"@, "shorts"@, "trailers"@, "media"@, "movies"@, "tv"@,
        "tv shows"@, "videos"@, "video"@, "downloads"@, "tmp"@, "temp"@,
    ];
    assert(all[0] == "subs"@ && all[1] == "subtitles"@ && all[2] == "extras"@ && all[3] == "extra"@ && all[4]
        == "featurettes"@ && all[5] == "behind the scenes"@ && all[6] == "deleted scenes"@ && all[7]
        == "interviews"@ && all[8] == "scenes"@ && all[9] == "shorts"@ && all[10] == "trailers"@ && all[11]
        == "media"@ && all[12] == "movies"@ && all[13] == "tv"@ && all[14] == "tv shows"@ && all[15]
        == "videos"@ && all[16] == "video"@ && all[17] == "downloads"@ && all[18] == "tmp"@ && all[19]
        == "temp"@);
    if all.contains(lower) {
        let i = choose|i: int| 0 <= i < all.len() && all[i] == lower;
        assert(0 <= i < 20);
    }
}

/// A year in brackets at the end of a name is split off, if it is one from 1900 to 2100; any other name stays
/// whole.
pub proof fn law_years_are_split_off(name: Seq<char>, digits: Seq<char>)
    requires
        digits.len() == 4,
        all_digits(digits),
    ensures
        ({
            let whole = name + seq!['('] + digits + seq![')'];
            let year = value(digits);
            &&& 1900 <= year <= 2100 ==> year_split(whole) == (
                trimmed_end(name, white()),
                Some(year as i64),
            )
            &&& year < 1900 || year > 2100 ==> year_split(whole) == (whole, None::<i64>)
        }),
{
    let whole = name + seq!['('] + digits + seq![')'];
    let open = name.len() as int;
    assert(whole.last() == ')');
    assert(trimmed_end(whole, white()) == whole);
    assert(whole[open] == '(');
    assert forall|i: int| open < i < whole.len() implies whole[i] != '(' by {
        if i < whole.len() - 1 {
            assert(whole[i] == digits[i - open - 1]);
            assert(ascii_digit(digits[i - open - 1]));
        }
    }
    lemma_last_bracket(whole, open, whole.len() as int);
    assert(whole.subrange(open + 1, whole.len() - 1) =~= digits);
    assert(whole.subrange(0, open) =~= name);
}

/// The last bracket is found.
proof fn lemma_last_bracket(s: Seq<char>, open: int, to: int)
    requires
        0 <= open < to <= s.len(),
        s[open] == '(',
        forall|i: int| open < i < to ==> s[i] != '(',
    ensures
        rfind_char(s, bracket(), to) == Some(open),
    decreases to,
{
    if to - 1 > open {
        lemma_last_bracket(s, open, to - 1);
    }
}

/// A name that does not end in a bracket has no year.
pub proof fn law_names_without_a_year(name: Seq<char>)
    requires
        name.len() > 0,
        name.last() != ')',
        !whitespace(name.last()),
    ensures
        year_split(name) == (name, None::<i64>),
{
    assert(trimmed_end(name, white()) == name);
}

/// The season of a directory is the number after "season", "series" or "staffel", or after an "s" with at most
/// three digits.
pub proof fn law_directories_are_for_a_season(rest: Seq<char>)
    requires
        rest.len() > 0,
        !whitespace(rest.last()),
    ensures
        season_of_lower("season"@ + rest) == number_of(trimmed(rest)),
        season_of_lower("series"@ + rest) == number_of(trimmed(rest)),
        season_of_lower("staffel"@ + rest) == number_of(trimmed(rest)),
        rest.len() <= 3 && all_digits(rest) ==> season_of_lower(seq!['s'] + rest) == number_of(rest),
        number_of(rest) == (match signed(rest) {
            Some(n) => Some(n as i64),
            None => None,
        }),
{
    reveal_strlit("season");
    reveal_strlit("series");
    reveal_strlit("staffel");
    lemma_kept(seq!['s'] + rest);
    let a = "season"@ + rest;
    lemma_kept(a);
    assert(a.subrange(0, 6) =~= "season"@);
    assert(a.subrange(6, a.len() as int) =~= rest);
    let b = "series"@ + rest;
    lemma_kept(b);
    assert(b.subrange(0, 6) =~= "series"@);
    assert(b.subrange(6, b.len() as int) =~= rest);
    assert(b.subrange(0, 6)[2] == 'r' && "season"@[2] == 'a');
    let c = "staffel"@ + rest;
    lemma_kept(c);
    assert(c.subrange(0, 7) =~= "staffel"@);
    assert(c.subrange(7, c.len() as int) =~= rest);
    assert(c.subrange(0, 6)[1] == 't' && "season"@[1] == 'e' && "series"@[1] == 'e');
    if rest.len() <= 3 && all_digits(rest) {
        let d = seq!['s'] + rest;
        assert(d.drop_first() =~= rest);
        assert(d.len() <= 4);
        assert("season"@.len() == 6 && "series"@.len() == 6 && "staffel"@.len() == 7);
    }
}

/// A text that begins with an "s" and does not end in whitespace has nothing to trim.
proof fn lemma_kept(s: Seq<char>)
    requires
        s.len() > 0,
        s[0] == 's',
        !whitespace(s.last()),
    ensures
        trimmed(s) == s,
{
    let f = |c: char| whitespace(c);
    assert(!f(s[0]) && !f(s.last()));
    assert(trimmed_start(s, f) == s);
    assert(trimmed_end(s, f) == s);
}

/// As many digits follow as there are.
proof fn lemma_run_len(s: Seq<char>, from: int, n: int, max: int)
    requires
        0 <= from,
        0 <= n <= max,
        from + n <= s.len(),
        forall|i: int| from <= i < from + n ==> ascii_digit(#[trigger] s[i]),
        n == max || from + n == s.len() || !ascii_digit(s[from + n]),
    ensures
        run_len(s, from, max) == n,
    decreases n,
{
    if n > 0 {
        lemma_run_len(s, from + 1, n - 1, max - 1);
    }
}

/// A mark of season and episode is recognised: one or two digits after an "S", one to four after an "E", where
/// no letter or digit stands before it and no digit after it.
pub proof fn law_marks_are_recognised(
    before: Seq<char>,
    s: char,
    season: Seq<char>,
    e: char,
    episode: Seq<char>,
    after: Seq<char>,
)
    requires
        s == 's' || s == 'S',
        e == 'e' || e == 'E',
        1 <= season.len() <= 2,
        1 <= episode.len() <= 4,
        all_digits(season),
        all_digits(episode),
        before.len() > 0 ==> !ascii_alnum(before.last()),
        after.len() > 0 ==> !ascii_digit(after[0]),
    ensures
        mark_end(before + seq![s] + season + seq![e] + episode + after, before.len() as int) == Some(
            before.len() + 1 + season.len() + 1 + episode.len() as int,
        ),
{
    let t = before + seq![s] + season + seq![e] + episode + after;
    let i = before.len() as int;
    let j = i + 1 + season.len();
    let k = j + 1 + episode.len();
    assert(t[i] == s);
    assert forall|n: int| i + 1 <= n < i + 1 + season.len() implies ascii_digit(#[trigger] t[n]) by {
        assert(t[n] == season[n - i - 1]);
    }
    assert(t[j] == e);
    assert forall|n: int| j + 1 <= n < j + 1 + episode.len() implies ascii_digit(#[trigger] t[n]) by {
        assert(t[n] == episode[n - j - 1]);
    }
    if after.len() > 0 {
        assert(t[k] == after[0]);
    }
    if before.len() > 0 {
        assert(t[i - 1] == before.last());
    }
    lemma_run_len(t, i + 1, season.len() as int, 2);
    lemma_run_len(t, j + 1, episode.len() as int, 4);
}

/// A checksum in brackets and a UUID are cut out wherever they stand first, and what stands before them is kept.
pub proof fn law_checksums_and_uuids_are_cut_out(s: Seq<char>, i: int, at: int)
    requires
        0 <= i <= at < s.len(),
    ensures
        hash_at(s, at) && (forall|k: int| i <= k < at ==> !#[trigger] hash_at(s, k)) ==> without_hashes(s, i)
            == s.subrange(i, at) + without_hashes(s, at + 10),
        uuid_at(s, at) && (forall|k: int| i <= k < at ==> !#[trigger] uuid_at(s, k)) ==> without_uuids(s, i)
            == s.subrange(i, at) + without_uuids(s, at + 36),
    decreases at - i,
{
    if i < at {
        law_checksums_and_uuids_are_cut_out(s, i + 1, at);
        assert(s.subrange(i, at) =~= seq![s[i]] + s.subrange(i + 1, at));
        if hash_at(s, at) && forall|k: int| i <= k < at ==> !#[trigger] hash_at(s, k) {
            assert(!hash_at(s, i));
            assert(without_hashes(s, i) =~= s.subrange(i, at) + without_hashes(s, at + 10));
        }
        if uuid_at(s, at) && forall|k: int| i <= k < at ==> !#[trigger] uuid_at(s, k) {
            assert(!uuid_at(s, i));
            assert(without_uuids(s, i) =~= s.subrange(i, at) + without_uuids(s, at + 36));
        }
    } else {
        assert(s.subrange(i, at) =~= Seq::empty());
        if hash_at(s, at) {
            assert(without_hashes(s, i) =~= s.subrange(i, at) + without_hashes(s, at + 10));
        }
        if uuid_at(s, at) {
            assert(without_uuids(s, i) =~= s.subrange(i, at) + without_uuids(s, at + 36));
        }
    }
}

}
