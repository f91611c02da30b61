//! Strings as sequences of characters: searching, splitting, numbers in decimal.

use vstd::prelude::*;
use vstd::utf8::is_ascii_chars;

verus! {

/// `String::push` appends one character.
pub assume_specification[ String::push ](s: &mut String, c: char)
    ensures
        final(s)@ == old(s)@.push(c),
;

/// What `str::to_lowercase` makes of a string with characters beyond ASCII.
pub uninterp spec fn unicode_lowercase(s: Seq<char>) -> Seq<char>;

/// What `char::is_alphanumeric` says of a character beyond ASCII.
pub uninterp spec fn unicode_alphanumeric(c: char) -> bool;

/// A string in lowercase.
pub open spec fn lowercase(s: Seq<char>) -> Seq<char> {
    if is_ascii_chars(s) {
        ascii_lowered(s)
    } else {
        unicode_lowercase(s)
    }
}

/// A letter or a number.
pub open spec fn alphanumeric(c: char) -> bool {
    if c <= '\u{7f}' {
        ascii_letter(c) || ascii_digit(c)
    } else {
        unicode_alphanumeric(c)
    }
}

/// `str::to_lowercase`: the lowercase equivalent by Unicode's tables, which depends on the string
/// alone. In ASCII the letters A to Z become a to z, and all else stays.
#[verifier::external_body]
pub(crate) fn to_lowercase(s: &str) -> (r: String)
    ensures
        r@ == if is_ascii_chars(s@) {
            ascii_lowered(s@)
        } else {
            unicode_lowercase(s@)
        },
{
    s.to_lowercase()
}

/// `char::is_alphanumeric`: a letter or a number by Unicode's tables, which depends on the character
/// alone. In ASCII these are A to Z, a to z and 0 to 9.
#[verifier::external_body]
pub(crate) fn is_alphanumeric(c: char) -> (r: bool)
    ensures
        r == if c <= '\u{7f}' {
            ascii_letter(c) || ascii_digit(c)
        } else {
            unicode_alphanumeric(c)
        },
{
    c.is_alphanumeric()
}

/// The contents of a list of strings.
pub open spec fn views(v: Seq<String>) -> Seq<Seq<char>> {
    v.map_values(|s: String| s@)
}

/// The characters with Unicode's property `White_Space`.
pub open spec fn whitespace(c: char) -> bool {
    ||| '\u{9}' <= c <= '\u{d}'
    ||| c == ' '
    ||| c == '\u{85}'
    ||| c == '\u{a0}'
    ||| c == '\u{1680}'
    ||| '\u{2000}' <= c <= '\u{200a}'
    ||| c == '\u{2028}'
    ||| c == '\u{2029}'
    ||| c == '\u{202f}'
    ||| c == '\u{205f}'
    ||| c == '\u{3000}'
}

/// The digits 0 to 9.
pub open spec fn ascii_digit(c: char) -> bool {
    '0' <= c <= '9'
}

/// A lower-case hexadecimal digit.
pub open spec fn lower_hex(c: char) -> bool {
    '0' <= c <= '9' || 'a' <= c <= 'f'
}

/// The letters A to Z and a to z.
pub open spec fn ascii_letter(c: char) -> bool {
    'a' <= c <= 'z' || 'A' <= c <= 'Z'
}

/// The character with a letter A to Z turned into a to z.
pub open spec fn ascii_lower(c: char) -> char {
    if 'A' <= c <= 'Z' {
        ((c as u32) + 32) as char
    } else {
        c
    }
}

/// `s` with the letters A to Z turned into a to z.
pub open spec fn ascii_lowered(s: Seq<char>) -> Seq<char> {
    s.map_values(|c: char| ascii_lower(c))
}

/// `p` stands in `s` at position `i`.
pub open spec fn occurs_at(s: Seq<char>, p: Seq<char>, i: int) -> bool {
    0 <= i && i + p.len() <= s.len() && s.subrange(i, i + p.len()) == p
}

/// The first position from `from` on at which `p` stands in `s`.
pub open spec fn find_from(s: Seq<char>, p: Seq<char>, from: int) -> Option<int>
    decreases s.len() + 1 - from,
{
    if from < 0 || from + p.len() > s.len() {
        None
    } else if occurs_at(s, p, from) {
        Some(from)
    } else {
        find_from(s, p, from + 1)
    }
}

/// `p` stands somewhere in `s`.
pub open spec fn contains_str(s: Seq<char>, p: Seq<char>) -> bool {
    find_from(s, p, 0) is Some
}

/// The first position from `from` on that holds a character with `f`.
pub open spec fn find_char(s: Seq<char>, f: spec_fn(char) -> bool, from: int) -> Option<int>
    decreases s.len() - from,
{
    if from < 0 || from >= s.len() {
        None
    } else if f(s[from]) {
        Some(from)
    } else {
        find_char(s, f, from + 1)
    }
}

/// The last position before `to` that holds a character with `f`.
pub open spec fn rfind_char(s: Seq<char>, f: spec_fn(char) -> bool, to: int) -> Option<int>
    decreases to,
{
    if to <= 0 || to > s.len() {
        None
    } else if f(s[to - 1]) {
        Some(to - 1)
    } else {
        rfind_char(s, f, to - 1)
    }
}

/// `s` without leading characters with `f`.
pub open spec fn trimmed_start(s: Seq<char>, f: spec_fn(char) -> bool) -> Seq<char>
    decreases s.len(),
{
    if s.len() > 0 && f(s[0]) {
        trimmed_start(s.drop_first(), f)
    } else {
        s
    }
}

/// `s` without trailing characters with `f`.
pub open spec fn trimmed_end(s: Seq<char>, f: spec_fn(char) -> bool) -> Seq<char>
    decreases s.len(),
{
    if s.len() > 0 && f(s.last()) {
        trimmed_end(s.drop_last(), f)
    } else {
        s
    }
}

/// `s` without leading and trailing characters with `f`.
pub open spec fn trimmed_by(s: Seq<char>, f: spec_fn(char) -> bool) -> Seq<char> {
    trimmed_end(trimmed_start(s, f), f)
}

/// `s` without leading and trailing whitespace.
pub open spec fn trimmed(s: Seq<char>) -> Seq<char> {
    trimmed_by(s, |c: char| whitespace(c))
}

/// The pieces between the characters with `f`; there is one more piece than such characters.
pub open spec fn pieces(s: Seq<char>, f: spec_fn(char) -> bool) -> Seq<Seq<char>>
    decreases s.len(),
{
    match find_char(s, f, 0) {
        Some(i) => if 0 <= i < s.len() {
            seq![s.subrange(0, i)] + pieces(s.subrange(i + 1, s.len() as int), f)
        } else {
            seq![s]
        },
        None => seq![s],
    }
}

/// The pieces that are not empty.
pub open spec fn words_by(s: Seq<char>, f: spec_fn(char) -> bool) -> Seq<Seq<char>> {
    pieces(s, f).filter(|w: Seq<char>| w.len() > 0)
}

/// The words between runs of whitespace.
pub open spec fn words(s: Seq<char>) -> Seq<Seq<char>> {
    words_by(s, |c: char| whitespace(c))
}

/// The parts one after the other, with `sep` between them.
pub open spec fn joined(parts: Seq<Seq<char>>, sep: Seq<char>) -> Seq<char>
    decreases parts.len(),
{
    if parts.len() == 0 {
        Seq::empty()
    } else if parts.len() == 1 {
        parts[0]
    } else {
        joined(parts.drop_last(), sep) + sep + parts.last()
    }
}

/// The digit for a value below ten.
pub open spec fn digit(d: nat) -> char {
    (48 + d) as char
}

/// `n` in decimal, without leading zeros.
pub open spec fn dec(n: nat) -> Seq<char>
    decreases n,
{
    if n < 10 {
        seq![digit(n)]
    } else {
        dec(n / 10).push(digit(n % 10))
    }
}

/// `n` in decimal, with a sign where it is negative.
pub open spec fn dec_int(n: int) -> Seq<char> {
    if n < 0 {
        seq!['-'] + dec((-n) as nat)
    } else {
        dec(n as nat)
    }
}

/// `s` with zeros before it up to `width` characters.
pub open spec fn padded(s: Seq<char>, width: nat) -> Seq<char> {
    if s.len() < width {
        Seq::new((width - s.len()) as nat, |i: int| '0') + s
    } else {
        s
    }
}

/// Every character is a digit.
pub open spec fn all_digits(s: Seq<char>) -> bool {
    forall|i: int| 0 <= i < s.len() ==> ascii_digit(#[trigger] s[i])
}

/// The number that a run of digits denotes.
pub open spec fn value(s: Seq<char>) -> nat
    decreases s.len(),
{
    if s.len() == 0 {
        0
    } else {
        value(s.drop_last()) * 10 + (s.last() as nat - 48) as nat
    }
}

/// The digits of a number that may begin with a plus sign.
pub open spec fn unsigned_digits(s: Seq<char>) -> Seq<char> {
    if s.len() > 0 && s[0] == '+' {
        s.drop_first()
    } else {
        s
    }
}

/// The unsigned number below or equal to `max` that `s` denotes: digits, with an optional plus sign.
pub open spec fn unsigned(s: Seq<char>, max: nat) -> Option<nat> {
    let d = unsigned_digits(s);
    if d.len() > 0 && all_digits(d) && value(d) <= max {
        Some(value(d))
    } else {
        None
    }
}

/// The signed 64-bit number that `s` denotes: digits, with an optional sign.
pub open spec fn signed(s: Seq<char>) -> Option<int> {
    if s.len() > 0 && s[0] == '-' {
        let d = s.drop_first();
        if d.len() > 0 && all_digits(d) && value(d) <= 0x8000_0000_0000_0000 {
            Some(-(value(d) as int))
        } else {
            None
        }
    } else {
        match unsigned(s, 0x7fff_ffff_ffff_ffff) {
            Some(n) => Some(n as int),
            None => None,
        }
    }
}

/// Whether `c` has Unicode's property `White_Space`.
pub fn is_whitespace(c: char) -> (r: bool)
    ensures
        r == whitespace(c),
{
    ('\u{9}' <= c && c <= '\u{d}') || c == ' ' || c == '\u{85}' || c == '\u{a0}' || c == '\u{1680}'
        || ('\u{2000}' <= c && c <= '\u{200a}') || c == '\u{2028}' || c == '\u{2029}' || c
        == '\u{202f}' || c == '\u{205f}' || c == '\u{3000}'
}

/// The characters of a string.
pub fn chars_of(s: &str) -> (r: Vec<char>)
    ensures
        r@ == s@,
{
    let mut r: Vec<char> = Vec::new();
    for c in it: s.chars()
        invariant
            it.seq() == s@,
            r@ == s@.subrange(0, it.index() as int),
    {
        r.push(c);
        assert(r@ =~= s@.subrange(0, it.index() + 1));
    }
    assert(r@ =~= s@);
    r
}

/// The string of the characters from `from` up to `to`.
pub fn string_of(v: &Vec<char>, from: usize, to: usize) -> (r: String)
    requires
        from <= to <= v@.len(),
    ensures
        r@ == v@.subrange(from as int, to as int),
{
    let mut r = String::new();
    let mut i: usize = from;
    while i < to
        invariant
            from <= i <= to <= v@.len(),
            r@ == v@.subrange(from as int, i as int),
        decreases to - i,
    {
        r.push(v[i]);
        i = i + 1;
        assert(r@ =~= v@.subrange(from as int, i as int));
    }
    assert(from == to ==> r@ =~= v@.subrange(from as int, to as int));
    r
}

/// Whether two strings are the same.
pub fn same(a: &str, b: &str) -> (r: bool)
    ensures
        r == (a@ == b@),
{
    a.to_owned() == b.to_owned()
}

/// Whether `p` stands in `s` at position `i`.
pub fn is_at(s: &Vec<char>, p: &Vec<char>, i: usize) -> (r: bool)
    ensures
        r == occurs_at(s@, p@, i as int),
{
    if p.len() > s.len() || i > s.len() - p.len() {
        return false;
    }
    let len: usize = s.len();
    let mut k: usize = 0;
    while k < p.len()
        invariant
            0 <= k <= p@.len(),
            i + p@.len() <= s@.len() == len,
            forall|j: int| 0 <= j < k ==> s@[i + j] == p@[j],
        decreases p@.len() - k,
    {
        if s[i + k] != p[k] {
            assert(s@.subrange(i as int, i + p@.len())[k as int] != p@[k as int]);
            return false;
        }
        k = k + 1;
    }
    assert(s@.subrange(i as int, i + p@.len()) =~= p@);
    true
}

/// The first position from `from` on at which `p` stands in `s`.
pub fn find(s: &Vec<char>, p: &Vec<char>, from: usize) -> (r: Option<usize>)
    ensures
        r is Some <==> find_from(s@, p@, from as int) is Some,
        r matches Some(i) ==> i == find_from(s@, p@, from as int)->0 && from <= i && i + p@.len()
            <= s@.len() && occurs_at(s@, p@, i as int),
{
    let mut i: usize = from;
    while i <= s.len() && p.len() <= s.len() - i
        invariant
            from <= i,
            i <= s@.len() + 1 || i == from,
            find_from(s@, p@, from as int) == find_from(s@, p@, i as int),
        decreases s@.len() + 1 - i,
    {
        if is_at(s, p, i) {
            return Some(i);
        }
        if i == s.len() {
            assert(find_from(s@, p@, i + 1) is None);
            return None;
        }
        i = i + 1;
    }
    None
}

/// Whether `p` stands somewhere in `s`.
pub fn contains(s: &str, p: &str) -> (r: bool)
    ensures
        r == contains_str(s@, p@),
{
    find(&chars_of(s), &chars_of(p), 0).is_some()
}

/// Where `p` first stands in `s` it does stand, and not before.
pub proof fn lemma_find_from(s: Seq<char>, p: Seq<char>, from: int)
    requires
        0 <= from,
    ensures
        find_from(s, p, from) matches Some(i) ==> from <= i && occurs_at(s, p, i) && forall|j: int|
            from <= j < i ==> !occurs_at(s, p, j),
        find_from(s, p, from) is None ==> forall|j: int| from <= j ==> !occurs_at(s, p, j),
    decreases s.len() + 1 - from,
{
    if from + p.len() <= s.len() && !occurs_at(s, p, from) {
        lemma_find_from(s, p, from + 1);
    }
}

/// Whether `s` begins with `p`.
pub fn starts_with(s: &str, p: &str) -> (r: bool)
    ensures
        r == p@.is_prefix_of(s@),
{
    let s1 = chars_of(s);
    let p1 = chars_of(p);
    is_at(&s1, &p1, 0)
}

/// Whether `s` ends with `p`.
pub fn ends_with(s: &str, p: &str) -> (r: bool)
    ensures
        r == p@.is_suffix_of(s@),
{
    let s1 = chars_of(s);
    let p1 = chars_of(p);
    if p1.len() > s1.len() {
        return false;
    }
    assert(s@.subrange(s@.len() - p@.len(), s@.len() as int) == s@.subrange(
        s@.len() - p@.len(),
        s@.len() - p@.len() + p@.len(),
    ));
    is_at(&s1, &p1, s1.len() - p1.len())
}

/// `a` followed by `b`.
pub fn cat(a: &str, b: &str) -> (r: String)
    ensures
        r@ == a@ + b@,
{
    a.to_owned().concat(b)
}

/// `a`, `b` and `c` one after the other.
pub fn cat3(a: &str, b: &str, c: &str) -> (r: String)
    ensures
        r@ == a@ + b@ + c@,
{
    a.to_owned().concat(b).concat(c)
}

/// Turns the letters A to Z into a to z.
pub fn to_ascii_lower(s: &str) -> (r: String)
    ensures
        r@ == ascii_lowered(s@),
{
    let v = chars_of(s);
    let mut r = String::new();
    let mut i: usize = 0;
    while i < v.len()
        invariant
            0 <= i <= v@.len(),
            v@ == s@,
            r@ == ascii_lowered(s@).subrange(0, i as int),
        decreases v@.len() - i,
    {
        r.push(lower_char(v[i]));
        i = i + 1;
        assert(r@ =~= ascii_lowered(s@).subrange(0, i as int));
    }
    assert(r@ =~= ascii_lowered(s@));
    r
}

/// Turns a letter A to Z into a to z.
pub fn lower_char(c: char) -> (r: char)
    ensures
        r == ascii_lower(c),
{
    if 'A' <= c && c <= 'Z' {
        (c as u8 + 32) as char
    } else {
        c
    }
}

/// The string without leading and trailing whitespace.
pub fn trim(s: &str) -> (r: String)
    ensures
        r@ == trimmed(s@),
{
    let v = chars_of(s);
    let ghost f = |c: char| whitespace(c);
    let mut i: usize = 0;
    assert(s@.subrange(0, s@.len() as int) =~= s@);
    while i < v.len() && is_whitespace(v[i])
        invariant
            0 <= i <= v@.len(),
            f == (|c: char| whitespace(c)),
            v@ == s@,
            trimmed_start(s@, f) == trimmed_start(s@.subrange(i as int, s@.len() as int), f),
        decreases v@.len() - i,
    {
        assert(s@.subrange(i as int, s@.len() as int).drop_first() =~= s@.subrange(
            i + 1,
            s@.len() as int,
        ));
        i = i + 1;
    }
    let ghost t = s@.subrange(i as int, s@.len() as int);
    assert(trimmed_start(s@, f) == t);
    let mut j: usize = v.len();
    assert(t.subrange(0, j - i) =~= t);
    while i < j && is_whitespace(v[j - 1])
        invariant
            0 <= i <= j <= v@.len(),
            f == (|c: char| whitespace(c)),
            v@ == s@,
            t == s@.subrange(i as int, s@.len() as int),
            trimmed_end(t, f) == trimmed_end(t.subrange(0, j - i), f),
        decreases j,
    {
        assert(t.subrange(0, j - i).drop_last() =~= t.subrange(0, j - i - 1));
        j = j - 1;
    }
    assert(trimmed_end(t, f) == t.subrange(0, j - i));
    assert(t.subrange(0, j - i) =~= s@.subrange(i as int, j as int));
    string_of(&v, i, j)
}

/// The pieces between the characters for which `f` holds.
pub fn split_by<F: Fn(char) -> bool>(s: &str, f: F, Ghost(g): Ghost<spec_fn(char) -> bool>) -> (r: Vec<
    String,
>)
    requires
        forall|c: char| f.requires((c,)),
        forall|c: char, b: bool| f.ensures((c,), b) ==> b == g(c),
    ensures
        views(r@) == pieces(s@, g),
{
    let v = chars_of(s);
    let mut r: Vec<String> = Vec::new();
    let mut start: usize = 0;
    let mut i: usize = 0;
    proof {
        assert(s@.subrange(0, s@.len() as int) =~= s@);
        assert(views(r@) + pieces(s@, g) =~= pieces(s@, g));
    }
    while i < v.len()
        invariant
            0 <= start <= i <= v@.len(),
            v@ == s@,
            forall|c: char| f.requires((c,)),
            forall|c: char, b: bool| f.ensures((c,), b) ==> b == g(c),
            pieces(s@, g) == views(r@) + pieces(s@.subrange(start as int, s@.len() as int), g),
            find_char(s@.subrange(start as int, s@.len() as int), g, 0) == find_char(
                s@.subrange(start as int, s@.len() as int),
                g,
                i - start,
            ),
        decreases v@.len() - i,
    {
        let ghost rest = s@.subrange(start as int, s@.len() as int);
        assert(rest[i - start] == s@[i as int]);
        if f(v[i]) {
            let piece = string_of(&v, start, i);
            let ghost before = views(r@);
            r.push(piece);
            proof {
                assert(find_char(rest, g, 0) == Some(i - start));
                assert(piece@ =~= rest.subrange(0, i - start));
                assert(rest.subrange(i - start + 1, rest.len() as int) =~= s@.subrange(
                    i + 1,
                    s@.len() as int,
                ));
                assert(views(r@) =~= before.push(piece@));
                assert(before + pieces(rest, g) =~= views(r@) + pieces(
                    s@.subrange(i + 1, s@.len() as int),
                    g,
                ));
            }
            start = i + 1;
        }
        i = i + 1;
    }
    let last = string_of(&v, start, i);
    let ghost before = views(r@);
    r.push(last);
    proof {
        let rest = s@.subrange(start as int, s@.len() as int);
        assert(find_char(rest, g, rest.len() as int) is None);
        assert(pieces(rest, g) == seq![rest]);
        assert(views(r@) =~= before + seq![rest]);
    }
    r
}

/// The parts that are not empty.
pub fn nonempty(parts: Vec<String>) -> (r: Vec<String>)
    ensures
        views(r@) == views(parts@).filter(|w: Seq<char>| w.len() > 0),
{
    let mut r: Vec<String> = Vec::new();
    let ghost g = |w: Seq<char>| w.len() > 0;
    let mut i: usize = 0;
    assert(views(parts@).subrange(0, 0) =~= Seq::empty());
    assert(views(r@) =~= views(parts@).subrange(0, 0).filter(g)) by {
        reveal(Seq::filter);
    }
    while i < parts.len()
        invariant
            0 <= i <= parts@.len(),
            g == (|w: Seq<char>| w.len() > 0),
            views(r@) == views(parts@).subrange(0, i as int).filter(g),
        decreases parts@.len() - i,
    {
        let ghost before = views(r@);
        proof {
            reveal(Seq::filter);
            assert(views(parts@).subrange(0, i + 1).drop_last() =~= views(parts@).subrange(
                0,
                i as int,
            ));
            assert(views(parts@).subrange(0, i + 1).last() == parts@[i as int]@);
        }
        if !parts[i].as_str().is_empty() {
            let copy = parts[i].clone();
            r.push(copy);
            assert(views(r@) =~= before.push(parts@[i as int]@));
        }
        i = i + 1;
    }
    assert(views(parts@).subrange(0, i as int) =~= views(parts@));
    r
}

/// Adds a copy of a text to a list.
pub fn push_copy(list: &mut Vec<String>, s: &str)
    ensures
        views(final(list)@) == views(old(list)@).push(s@),
{
    let ghost before = views(list@);
    list.push(s.to_owned());
    assert(views(list@) =~= before.push(s@));
}

/// Adds copies of several strings to a list.
pub fn append_copies(list: &mut Vec<String>, more: &Vec<String>)
    ensures
        views(final(list)@) == views(old(list)@) + views(more@),
{
    let ghost before = views(list@);
    let mut i: usize = 0;
    assert(before + views(more@).subrange(0, 0) =~= before);
    while i < more.len()
        invariant
            0 <= i <= more@.len(),
            views(list@) == before + views(more@).subrange(0, i as int),
        decreases more@.len() - i,
    {
        let ghost now = views(list@);
        list.push(more[i].clone());
        assert(views(list@) =~= now.push(more@[i as int]@));
        i = i + 1;
        assert(views(list@) =~= before + views(more@).subrange(0, i as int));
    }
    assert(views(more@).subrange(0, i as int) =~= views(more@));
}

/// The words between runs of whitespace.
pub fn split_whitespace(s: &str) -> (r: Vec<String>)
    ensures
        views(r@) == words(s@),
{
    let space = |c: char| -> (b: bool)
        ensures
            b == whitespace(c),
        {
            is_whitespace(c)
        };
    nonempty(split_by(s, space, Ghost(|c: char| whitespace(c))))
}

/// The parts one after the other, with `sep` between them.
pub fn join(parts: &Vec<String>, sep: &str) -> (r: String)
    ensures
        r@ == joined(views(parts@), sep@),
{
    let mut r = String::new();
    let mut i: usize = 0;
    while i < parts.len()
        invariant
            0 <= i <= parts@.len(),
            r@ == joined(views(parts@).subrange(0, i as int), sep@),
        decreases parts@.len() - i,
    {
        proof {
            let next = views(parts@).subrange(0, i + 1);
            assert(next.drop_last() =~= views(parts@).subrange(0, i as int));
            assert(next.last() == parts@[i as int]@);
        }
        if i > 0 {
            r.append(sep);
        }
        r.append(parts[i].as_str());
        i = i + 1;
        assert(r@ =~= joined(views(parts@).subrange(0, i as int), sep@));
    }
    assert(views(parts@).subrange(0, i as int) =~= views(parts@));
    r
}

/// `n` in decimal.
pub fn dec_u128(n: u128) -> (r: String)
    ensures
        r@ == dec(n as nat),
    decreases n,
{
    if n < 10 {
        let mut r = String::new();
        r.push((48 + n as u8) as char);
        assert(r@ =~= dec(n as nat));
        r
    } else {
        let mut r = dec_u128(n / 10);
        r.push((48 + (n % 10) as u8) as char);
        r
    }
}

/// `n` in decimal.
pub fn dec_u64(n: u64) -> (r: String)
    ensures
        r@ == dec(n as nat),
{
    dec_u128(n as u128)
}

/// `n` in decimal, with a sign where it is negative.
pub fn dec_i64(n: i64) -> (r: String)
    ensures
        r@ == dec_int(n as int),
{
    if n >= 0 {
        dec_u64(n as u64)
    } else {
        let mut r = String::new();
        r.push('-');
        let digits = dec_u128((-(n as i128)) as u128);
        r.append(digits.as_str());
        r
    }
}

/// `n` in decimal with at least two digits.
pub fn dec_padded2(n: u64) -> (r: String)
    ensures
        r@ == padded(dec(n as nat), 2),
{
    if n < 10 {
        let mut r = String::new();
        r.push('0');
        r.push((48 + n as u8) as char);
        assert(r@ =~= padded(dec(n as nat), 2));
        r
    } else {
        proof {
            lemma_dec(n as nat / 10);
        }
        dec_u64(n)
    }
}

/// A decimal is a run of digits, and denotes the number it was made from.
pub proof fn lemma_dec(n: nat)
    ensures
        dec(n).len() >= 1,
        all_digits(dec(n)),
        value(dec(n)) == n,
    decreases n,
{
    if n < 10 {
        assert(dec(n).drop_last() =~= Seq::empty());
        assert(value(dec(n).drop_last()) == 0);
    } else {
        lemma_dec(n / 10);
        assert(dec(n).drop_last() =~= dec(n / 10));
    }
}

/// The value of a longer run of digits is not smaller.
pub proof fn lemma_value_prefix(s: Seq<char>, k: int)
    requires
        0 <= k <= s.len(),
        all_digits(s),
    ensures
        value(s.subrange(0, k)) <= value(s),
    decreases s.len() - k,
{
    if k < s.len() {
        lemma_value_prefix(s, k + 1);
        assert(s.subrange(0, k + 1).drop_last() =~= s.subrange(0, k));
    } else {
        assert(s.subrange(0, k) =~= s);
    }
}

/// The number that the digits from `from` up to `to` denote, if they are digits and it is at most
/// `max`.
pub fn parse_digits(v: &Vec<char>, from: usize, to: usize, max: u64) -> (r: Option<u64>)
    requires
        from <= to <= v@.len(),
    ensures
        r is Some <==> from < to && all_digits(v@.subrange(from as int, to as int)) && value(
            v@.subrange(from as int, to as int),
        ) <= max,
        r matches Some(n) ==> n == value(v@.subrange(from as int, to as int)),
{
    if from == to {
        return None;
    }
    let ghost all = v@.subrange(from as int, to as int);
    let mut n: u64 = 0;
    let mut i: usize = from;
    while i < to
        invariant
            from <= i <= to <= v@.len(),
            all == v@.subrange(from as int, to as int),
            all_digits(all.subrange(0, i - from)),
            n == value(all.subrange(0, i - from)),
            n <= max,
        decreases to - i,
    {
        let c = v[i];
        let ghost next = all.subrange(0, i - from + 1);
        proof {
            assert(next.drop_last() =~= all.subrange(0, i - from));
            assert(next.last() == c);
        }
        if !('0' <= c && c <= '9') {
            assert(!ascii_digit(all[i - from]));
            return None;
        }
        let d: u64 = (c as u8 - 48) as u64;
        assert(value(next) == n * 10 + d);
        if n > max / 10 || d > max - n * 10 {
            proof {
                if all_digits(all) {
                    lemma_value_prefix(all, i - from + 1);
                }
            }
            return None;
        }
        n = n * 10 + d;
        i = i + 1;
        assert forall|k: int| 0 <= k < next.len() implies ascii_digit(#[trigger] next[k]) by {
            if k < next.len() - 1 {
                assert(next[k] == all.subrange(0, i - from - 1)[k]);
            }
        }
    }
    assert(all.subrange(0, i - from) =~= all);
    Some(n)
}

/// Parses digits, with an optional plus sign, as a number up to `max`.
pub fn parse_unsigned(s: &str, max: u64) -> (r: Option<u64>)
    ensures
        r is Some <==> unsigned(s@, max as nat) is Some,
        r matches Some(n) ==> Some(n as nat) == unsigned(s@, max as nat),
{
    let v = chars_of(s);
    if v.len() > 0 && v[0] == '+' {
        assert(s@.drop_first() =~= v@.subrange(1, v@.len() as int));
        parse_digits(&v, 1, v.len(), max)
    } else {
        assert(s@ =~= v@.subrange(0, v@.len() as int));
        parse_digits(&v, 0, v.len(), max)
    }
}

/// Parses digits, with an optional sign, as a signed 64-bit number.
pub fn parse_i64(s: &str) -> (r: Option<i64>)
    ensures
        r is Some <==> signed(s@) is Some,
        r matches Some(n) ==> Some(n as int) == signed(s@),
{
    let v = chars_of(s);
    if v.len() > 0 && v[0] == '-' {
        assert(s@.drop_first() =~= v@.subrange(1, v@.len() as int));
        match parse_digits(&v, 1, v.len(), 0x8000_0000_0000_0000) {
            Some(n) => if n == 0x8000_0000_0000_0000 {
                Some(i64::MIN)
            } else {
                Some(-(n as i64))
            },
            None => None,
        }
    } else {
        match parse_unsigned(s, 0x7fff_ffff_ffff_ffff) {
            Some(n) => Some(n as i64),
            None => None,
        }
    }
}

/// Parsing the decimal of a number gives the number back.
pub proof fn law_decimal_round_trip(n: u64)
    ensures
        unsigned(dec(n as nat), u64::MAX as nat) == Some(n as nat),
{
    lemma_dec(n as nat);
    assert(ascii_digit(dec(n as nat)[0]));
}

/// `a` comes before `b` in the order of code points, or is the same.
pub open spec fn lex_le(a: Seq<char>, b: Seq<char>) -> bool
    decreases a.len(),
{
    if a.len() == 0 {
        true
    } else if b.len() == 0 {
        false
    } else if a[0] != b[0] {
        a[0] < b[0]
    } else {
        lex_le(a.drop_first(), b.drop_first())
    }
}

/// Each string comes before the next, or is the same.
pub open spec fn ascending(s: Seq<Seq<char>>) -> bool {
    forall|i: int| 0 <= i < s.len() - 1 ==> lex_le(#[trigger] s[i], s[i + 1])
}

/// Of two strings one comes before the other, or they are the same.
pub proof fn lemma_lex_total(a: Seq<char>, b: Seq<char>)
    ensures
        lex_le(a, b) || lex_le(b, a),
    decreases a.len(),
{
    if a.len() > 0 && b.len() > 0 && a[0] == b[0] {
        lemma_lex_total(a.drop_first(), b.drop_first());
    }
}

/// Whether `a` comes before `b` in the order of code points, or is the same.
pub fn comes_first(a: &str, b: &str) -> (r: bool)
    ensures
        r == lex_le(a@, b@),
{
    let x = chars_of(a);
    let y = chars_of(b);
    let mut i: usize = 0;
    assert(x@.subrange(0, x@.len() as int) =~= x@);
    assert(y@.subrange(0, y@.len() as int) =~= y@);
    while i < x.len() && i < y.len()
        invariant
            x@ == a@,
            y@ == b@,
            0 <= i <= x@.len(),
            i <= y@.len(),
            lex_le(a@, b@) == lex_le(
                x@.subrange(i as int, x@.len() as int),
                y@.subrange(i as int, y@.len() as int),
            ),
        decreases x@.len() - i,
    {
        if x[i] != y[i] {
            return x[i] < y[i];
        }
        assert(x@.subrange(i as int, x@.len() as int).drop_first() =~= x@.subrange(
            i + 1,
            x@.len() as int,
        ));
        assert(y@.subrange(i as int, y@.len() as int).drop_first() =~= y@.subrange(
            i + 1,
            y@.len() as int,
        ));
        i = i + 1;
    }
    i == x.len()
}

/// Puts strings into the order of code points.
pub fn sort_strings(v: Vec<String>) -> (r: Vec<String>)
    ensures
        ascending(views(r@)),
        views(r@).to_multiset() == views(v@).to_multiset(),
        r@.len() == v@.len(),
{
    let mut r: Vec<String> = Vec::new();
    let mut i: usize = 0;
    proof {
        assert(views(v@).subrange(0, 0) =~= views(r@));
    }
    while i < v.len()
        invariant
            0 <= i <= v@.len(),
            r@.len() == i,
            ascending(views(r@)),
            views(r@).to_multiset() == views(v@).subrange(0, i as int).to_multiset(),
        decreases v@.len() - i,
    {
        let x = v[i].clone();
        let ghost before = views(r@);
        let mut k: usize = r.len();
        while k > 0 && !comes_first(r[k - 1].as_str(), x.as_str())
            invariant
                0 <= k <= r@.len(),
                before == views(r@),
                forall|j: int| k <= j < before.len() ==> !lex_le(#[trigger] before[j], x@),
            decreases k,
        {
            k = k - 1;
        }
        proof {
            if k < before.len() {
                lemma_lex_total(before[k as int], x@);
            }
            before.to_multiset_ensures();
            before.insert_ensures(k as int, x@);
        }
        r.insert(k, x);
        proof {
            let after = views(r@);
            assert(after =~= before.insert(k as int, x@));
            assert forall|j: int| 0 <= j < after.len() - 1 implies lex_le(
                #[trigger] after[j],
                after[j + 1],
            ) by {
                if j < k - 1 {
                    assert(lex_le(before[j], before[j + 1]));
                } else if j > k {
                    assert(lex_le(before[j - 1], before[j]));
                }
            }
            lemma_multiset_of_insert(before, k as int, x@);
            let next = views(v@).subrange(0, i + 1);
            assert(next =~= views(v@).subrange(0, i as int).push(x@));
            views(v@).subrange(0, i as int).to_multiset_ensures();
        }
        i = i + 1;
    }
    assert(views(v@).subrange(0, i as int) =~= views(v@));
    r
}

/// Inserting adds one element to the multiset.
proof fn lemma_multiset_of_insert(s: Seq<Seq<char>>, k: int, x: Seq<char>)
    requires
        0 <= k <= s.len(),
    ensures
        s.insert(k, x).to_multiset() == s.to_multiset().insert(x),
{
    let a = s.subrange(0, k);
    let b = s.subrange(k, s.len() as int);
    assert(s =~= a + b);
    assert(s.insert(k, x) =~= a.push(x) + b);
    vstd::seq_lib::lemma_multiset_commutative(a, b);
    vstd::seq_lib::lemma_multiset_commutative(a.push(x), b);
    a.to_multiset_ensures();
    assert(a.to_multiset().insert(x).add(b.to_multiset()) =~= a.to_multiset().add(
        b.to_multiset(),
    ).insert(x));
}

/// The last position up to `from` at which `p` stands in `s`.
pub open spec fn rfind_from(s: Seq<char>, p: Seq<char>, from: int) -> Option<int>
    decreases from + 1,
{
    if from < 0 {
        None
    } else if occurs_at(s, p, from) {
        Some(from)
    } else {
        rfind_from(s, p, from - 1)
    }
}

/// The last position at which `p` stands in `s`.
pub open spec fn rfind_of(s: Seq<char>, p: Seq<char>) -> Option<int> {
    rfind_from(s, p, s.len() - p.len())
}

/// The last position at which `p` stands in `s`.
pub fn rfind(s: &Vec<char>, p: &Vec<char>) -> (r: Option<usize>)
    ensures
        r is Some <==> rfind_of(s@, p@) is Some,
        r matches Some(i) ==> Some(i as int) == rfind_of(s@, p@) && i + p@.len() <= s@.len(),
{
    if p.len() > s.len() {
        return None;
    }
    let mut i: usize = s.len() - p.len();
    loop
        invariant
            i + p@.len() <= s@.len(),
            rfind_of(s@, p@) == rfind_from(s@, p@, i as int),
        decreases i,
    {
        if is_at(s, p, i) {
            return Some(i);
        }
        if i == 0 {
            assert(rfind_from(s@, p@, -1) is None);
            return None;
        }
        i = i - 1;
    }
}

/// The number of bytes of a character in UTF-8.
pub open spec fn char_bytes(c: char) -> nat {
    if (c as u32) < 0x80 {
        1
    } else if (c as u32) < 0x800 {
        2
    } else if (c as u32) < 0x1_0000 {
        3
    } else {
        4
    }
}

/// The number of bytes of a string in UTF-8.
pub open spec fn byte_len(s: Seq<char>) -> nat
    decreases s.len(),
{
    if s.len() == 0 {
        0
    } else {
        byte_len(s.drop_last()) + char_bytes(s.last())
    }
}

/// How many characters from `k` on it takes for the first `n` bytes of `s`, `None` where they end
/// inside a character or the string is shorter.
pub open spec fn chars_in_bytes(s: Seq<char>, n: int, k: int) -> Option<int>
    decreases s.len() - k,
{
    if k < 0 || k > s.len() || byte_len(s.subrange(0, k)) > n {
        None
    } else if byte_len(s.subrange(0, k)) == n {
        Some(k)
    } else if k == s.len() {
        None
    } else {
        chars_in_bytes(s, n, k + 1)
    }
}

/// Counts the bytes of the first `k` characters.
pub fn count_bytes(v: &Vec<char>, k: usize) -> (r: u128)
    requires
        k <= v@.len(),
    ensures
        r == byte_len(v@.subrange(0, k as int)),
        r <= 4 * k,
{
    let mut n: u128 = 0;
    let mut i: usize = 0;
    while i < k
        invariant
            0 <= i <= k <= v@.len(),
            n == byte_len(v@.subrange(0, i as int)),
            n <= 4 * i,
        decreases k - i,
    {
        assert(v@.subrange(0, i + 1).drop_last() =~= v@.subrange(0, i as int));
        let c = v[i] as u32;
        n = n + if c < 0x80 {
            1
        } else if c < 0x800 {
            2
        } else if c < 0x1_0000 {
            3
        } else {
            4
        };
        i = i + 1;
    }
    n
}

/// How many characters the first `n` bytes of a string are.
pub fn find_byte(v: &Vec<char>, n: u128) -> (r: Option<usize>)
    ensures
        r is Some <==> chars_in_bytes(v@, n as int, 0) is Some,
        r matches Some(k) ==> Some(k as int) == chars_in_bytes(v@, n as int, 0) && k <= v@.len(),
{
    let mut k: usize = 0;
    loop
        invariant
            0 <= k <= v@.len(),
            chars_in_bytes(v@, n as int, 0) == chars_in_bytes(v@, n as int, k as int),
        decreases v@.len() - k,
    {
        let so_far = count_bytes(v, k);
        if so_far > n {
            return None;
        }
        if so_far == n {
            return Some(k);
        }
        if k == v.len() {
            return None;
        }
        k = k + 1;
    }
}

/// `s` without `p` at its end, where it ends with it.
pub open spec fn suffix_cut(s: Seq<char>, p: Seq<char>) -> Option<Seq<char>> {
    if p.is_suffix_of(s) {
        Some(s.subrange(0, s.len() - p.len()))
    } else {
        None
    }
}

/// `s` without `p` at its start, where it starts with it.
pub open spec fn prefix_cut(s: Seq<char>, p: Seq<char>) -> Option<Seq<char>> {
    if p.is_prefix_of(s) {
        Some(s.subrange(p.len() as int, s.len() as int))
    } else {
        None
    }
}

/// Cuts `p` off the end of `s`.
pub fn strip_suffix(s: &str, p: &str) -> (r: Option<String>)
    ensures
        r is Some <==> suffix_cut(s@, p@) is Some,
        r matches Some(t) ==> Some(t@) == suffix_cut(s@, p@),
{
    if !ends_with(s, p) {
        return None;
    }
    let v = chars_of(s);
    let n: usize = chars_of(p).len();
    Some(string_of(&v, 0, v.len() - n))
}

/// Cuts `p` off the start of `s`.
pub fn strip_prefix(s: &str, p: &str) -> (r: Option<String>)
    ensures
        r is Some <==> prefix_cut(s@, p@) is Some,
        r matches Some(t) ==> Some(t@) == prefix_cut(s@, p@),
{
    if !starts_with(s, p) {
        return None;
    }
    let v = chars_of(s);
    let n: usize = chars_of(p).len();
    Some(string_of(&v, n, v.len()))
}

/// `s` without as many `p` at its end as there are.
pub open spec fn without_suffixes(s: Seq<char>, p: Seq<char>) -> Seq<char>
    decreases s.len(),
{
    if p.len() > 0 && p.is_suffix_of(s) {
        without_suffixes(s.subrange(0, s.len() - p.len()), p)
    } else {
        s
    }
}

/// Cuts as many `p` off the end of `s` as there are.
pub fn trim_end_matches(s: &str, p: &str) -> (r: String)
    requires
        p@.len() > 0,
    ensures
        r@ == without_suffixes(s@, p@),
{
    let mut t = s.to_owned();
    loop
        invariant
            p@.len() > 0,
            without_suffixes(s@, p@) == without_suffixes(t@, p@),
        decreases t@.len(),
    {
        match strip_suffix(t.as_str(), p) {
            Some(shorter) => {
                t = shorter;
            },
            None => {
                return t;
            },
        }
    }
}

/// The string without trailing whitespace.
pub fn trim_end(s: &str) -> (r: String)
    ensures
        r@ == trimmed_end(s@, white()),
{
    let v = chars_of(s);
    let mut j: usize = v.len();
    assert(v@.subrange(0, j as int) =~= s@);
    while j > 0 && is_whitespace(v[j - 1])
        invariant
            0 <= j <= v@.len(),
            v@ == s@,
            trimmed_end(s@, white()) == trimmed_end(v@.subrange(0, j as int), white()),
        decreases j,
    {
        assert(v@.subrange(0, j as int).drop_last() =~= v@.subrange(0, j - 1));
        j = j - 1;
    }
    string_of(&v, 0, j)
}

/// Holds of whitespace.
pub open spec fn white() -> spec_fn(char) -> bool {
    |c: char| whitespace(c)
}

/// Whether every character from `from` up to `to` is a digit.
pub fn are_digits(v: &Vec<char>, from: usize, to: usize) -> (r: bool)
    requires
        from <= to <= v@.len(),
    ensures
        r == all_digits(v@.subrange(from as int, to as int)),
{
    let ghost all = v@.subrange(from as int, to as int);
    let mut i: usize = from;
    while i < to
        invariant
            from <= i <= to <= v@.len(),
            all == v@.subrange(from as int, to as int),
            forall|j: int| 0 <= j < i - from ==> ascii_digit(#[trigger] all[j]),
        decreases to - i,
    {
        if !('0' <= v[i] && v[i] <= '9') {
            assert(!ascii_digit(all[i - from]));
            return false;
        }
        i = i + 1;
    }
    true
}

/// The order of strings: every string comes before itself, and of two strings one comes before the other;
/// both do only where they are the same.
pub proof fn law_strings_are_ordered(a: Seq<char>, b: Seq<char>)
    ensures
        lex_le(a, a),
        lex_le(a, b) || lex_le(b, a),
        lex_le(a, b) && lex_le(b, a) ==> a == b,
    decreases a.len(),
{
    if a.len() > 0 {
        if b.len() > 0 {
            law_strings_are_ordered(a.drop_first(), b.drop_first());
            if lex_le(a, b) && lex_le(b, a) {
                assert(a =~= seq![a[0]] + a.drop_first());
                assert(b =~= seq![b[0]] + b.drop_first());
            }
        } else {
            law_strings_are_ordered(a.drop_first(), b);
        }
    } else if lex_le(b, a) {
        assert(a =~= b);
    }
}

/// A string comes before its continuations, and where two strings differ first at a position, the one with
/// the lower character there comes first.
pub proof fn law_the_first_difference_orders(a: Seq<char>, b: Seq<char>, i: int)
    requires
        0 <= i <= a.len(),
        i < b.len(),
        a.subrange(0, i) == b.subrange(0, i),
        i == a.len() || a[i] < b[i],
    ensures
        lex_le(a, b),
        !lex_le(b, a),
    decreases i,
{
    if i > 0 {
        assert(a[0] == a.subrange(0, i)[0] && b[0] == b.subrange(0, i)[0]);
        let s = a.drop_first();
        let t = b.drop_first();
        assert(s.subrange(0, i - 1) =~= a.subrange(0, i).subrange(1, i));
        assert(t.subrange(0, i - 1) =~= b.subrange(0, i).subrange(1, i));
        law_the_first_difference_orders(s, t, i - 1);
    }
}

/// The pieces of a text, with what divides them, are the text: there is one more than dividing characters,
/// and none of them holds such a character.
pub proof fn law_pieces_make_the_text(s: Seq<char>, f: spec_fn(char) -> bool, c: char)
    requires
        forall|x: char| #[trigger] f(x) <==> x == c,
    ensures
        joined(pieces(s, f), seq![c]) == s,
        pieces(s, f).len() >= 1,
        forall|i: int| 0 <= i < pieces(s, f).len() ==> !(#[trigger] pieces(s, f)[i]).contains(c),
    decreases s.len(),
{
    lemma_found_char(s, f, 0);
    match find_char(s, f, 0) {
        Some(i) => {
            let head = s.subrange(0, i);
            let rest = s.subrange(i + 1, s.len() as int);
            law_pieces_make_the_text(rest, f, c);
            let tail = pieces(rest, f);
            let all = pieces(s, f);
            assert(all == seq![head] + tail);
            lemma_joined_front(head, tail, seq![c]);
            assert(s =~= head + seq![c] + rest);
            assert forall|k: int| 0 <= k < all.len() implies !(#[trigger] all[k]).contains(c) by {
                if k == 0 {
                    if head.contains(c) {
                        let j = choose|j: int| 0 <= j < head.len() && head[j] == c;
                        assert(f(s[j]));
                    }
                } else {
                    assert(all[k] == tail[k - 1]);
                }
            }
        },
        None => {
            assert(pieces(s, f) =~= seq![s]);
            if s.contains(c) {
                let j = choose|j: int| 0 <= j < s.len() && s[j] == c;
                assert(f(s[j]));
            }
        },
    }
}

/// What a search for a character says.
proof fn lemma_found_char(s: Seq<char>, f: spec_fn(char) -> bool, from: int)
    requires
        0 <= from <= s.len(),
    ensures
        match find_char(s, f, from) {
            Some(i) => from <= i < s.len() && f(s[i]) && forall|j: int| from <= j < i ==> !f(#[trigger] s[j]),
            None => forall|j: int| from <= j < s.len() ==> !f(#[trigger] s[j]),
        },
    decreases s.len() - from,
{
    if from < s.len() && !f(s[from]) {
        lemma_found_char(s, f, from + 1);
    }
}

/// Joining with one more part in front.
proof fn lemma_joined_front(head: Seq<char>, tail: Seq<Seq<char>>, sep: Seq<char>)
    requires
        tail.len() >= 1,
    ensures
        joined(seq![head] + tail, sep) == head + sep + joined(tail, sep),
    decreases tail.len(),
{
    let all = seq![head] + tail;
    if tail.len() == 1 {
        assert(all.drop_last() =~= seq![head]);
        assert(joined(all.drop_last(), sep) == head);
        assert(all.last() == tail[0]);
    } else {
        lemma_joined_front(head, tail.drop_last(), sep);
        assert(all.drop_last() =~= seq![head] + tail.drop_last());
        assert(all.last() == tail.last());
        assert(joined(all, sep) =~= head + sep + joined(tail, sep));
    }
}

/// Trimming takes away whitespace at both ends and nothing else.
pub proof fn law_trimming_takes_whitespace_away(s: Seq<char>)
    ensures
        trimmed(s).len() > 0 ==> !whitespace(trimmed(s)[0]) && !whitespace(trimmed(s).last()),
        exists|i: int, j: int|
            0 <= i <= j <= s.len() && trimmed(s) == #[trigger] s.subrange(i, j) && (forall|k: int|
                0 <= k < i || j <= k < s.len() ==> whitespace(#[trigger] s[k])),
{
    let f = |c: char| whitespace(c);
    let a = trimmed_start(s, f);
    let i = s.len() - a.len();
    lemma_trimmed_start(s, f);
    lemma_trimmed_end(a, f);
    let j = i + trimmed_end(a, f).len();
    assert(trimmed(s) =~= s.subrange(i, j));
    assert forall|k: int| 0 <= k < i || j <= k < s.len() implies whitespace(#[trigger] s[k]) by {
        if k < i {
            assert(f(s[k]));
        } else {
            assert(a[k - i] == s[k]);
            assert(f(a[k - i]));
        }
    }
    if trimmed(s).len() > 0 {
        assert(trimmed(s)[0] == a[0]);
        assert(!f(a[0]));
        assert(!f(trimmed_end(a, f).last()));
    }
}

/// What is cut off at the front.
proof fn lemma_trimmed_start(s: Seq<char>, f: spec_fn(char) -> bool)
    ensures
        trimmed_start(s, f).len() <= s.len(),
        trimmed_start(s, f) == s.subrange(s.len() - trimmed_start(s, f).len(), s.len() as int),
        forall|k: int| 0 <= k < s.len() - trimmed_start(s, f).len() ==> f(#[trigger] s[k]),
        trimmed_start(s, f).len() > 0 ==> !f(trimmed_start(s, f)[0]),
    decreases s.len(),
{
    if s.len() > 0 && f(s[0]) {
        let t = s.drop_first();
        lemma_trimmed_start(t, f);
        assert forall|k: int| 0 <= k < s.len() - trimmed_start(s, f).len() implies f(#[trigger] s[k]) by {
            if k > 0 {
                assert(t[k - 1] == s[k]);
            }
        }
        assert(trimmed_start(s, f) =~= s.subrange(s.len() - trimmed_start(s, f).len(), s.len() as int));
    } else {
        assert(s =~= s.subrange(0, s.len() as int));
    }
}

/// What is cut off at the end.
proof fn lemma_trimmed_end(s: Seq<char>, f: spec_fn(char) -> bool)
    ensures
        trimmed_end(s, f).len() <= s.len(),
        trimmed_end(s, f) == s.subrange(0, trimmed_end(s, f).len() as int),
        forall|k: int| trimmed_end(s, f).len() <= k < s.len() ==> f(#[trigger] s[k]),
        trimmed_end(s, f).len() > 0 ==> !f(trimmed_end(s, f).last()),
    decreases s.len(),
{
    if s.len() > 0 && f(s.last()) {
        let t = s.drop_last();
        lemma_trimmed_end(t, f);
        assert forall|k: int| trimmed_end(s, f).len() <= k < s.len() implies f(#[trigger] s[k]) by {
            if k < s.len() - 1 {
                assert(t[k] == s[k]);
            }
        }
        assert(trimmed_end(s, f) =~= s.subrange(0, trimmed_end(s, f).len() as int));
    } else {
        assert(s =~= s.subrange(0, s.len() as int));
    }
}

}
