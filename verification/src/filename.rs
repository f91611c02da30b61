//! Titles, years, seasons and episodes from file names.

use vstd::prelude::*;
use vstd::utf8::is_ascii_chars;

use crate::text::{
    ascii_digit, ascii_lower, byte_len, chars_in_bytes, chars_of, count_bytes, find_byte, find_char,
    join, joined, lowercase, nonempty, occurs_at, parse_i64, pieces, rfind, rfind_from, rfind_of, same,
    signed, split_by, split_whitespace, string_of, to_lowercase, trim, trimmed, views, whitespace,
    words, words_by,
};
use crate::torrent_numbers::{is_misread, misread};
use crate::words::{
    is_piece, lemma_find_char, lemma_joined, lemma_named_in_word, lemma_piece_names, lemma_trimmed,
    lemma_words, lemma_words_of_joined, named_at, names, piece_at, single_spaced,
};

verus! {

/// What a file name says.
#[derive(Debug)]
pub struct Metadata {
    pub name: String,
    pub year: Option<i64>,
    pub season: Option<i64>,
    pub episode: Option<i64>,
    /// The code of the language that the name mentions, such as "de-DE".
    pub language: Option<String>,
}

/// The contents of a [`Metadata`].
pub struct Meta {
    pub name: Seq<char>,
    pub year: Option<i64>,
    pub season: Option<i64>,
    pub episode: Option<i64>,
    pub language: Option<Seq<char>>,
}

/// The contents of an optional string.
pub open spec fn opt(s: Option<String>) -> Option<Seq<char>> {
    match s {
        Some(t) => Some(t@),
        None => None,
    }
}

impl View for Metadata {
    type V = Meta;

    open spec fn view(&self) -> Meta {
        Meta {
            name: self.name@,
            year: self.year,
            season: self.season,
            episode: self.episode,
            language: opt(self.language),
        }
    }
}

impl Metadata {
    pub fn copy(&self) -> (r: Self)
        ensures
            r@ == self@,
    {
        let language = match &self.language {
            Some(l) => Some(l.clone()),
            None => None,
        };
        Metadata {
            name: self.name.clone(),
            year: self.year,
            season: self.season,
            episode: self.episode,
            language,
        }
    }
}

/// A dot or an underscore is taken for a space.
pub open spec fn spaced_char(c: char) -> char {
    if c == '.' || c == '_' {
        ' '
    } else {
        c
    }
}

/// The words of a title with single spaces between them.
pub open spec fn spaced(title: Seq<char>) -> Seq<char> {
    joined(words(title.map_values(|c: char| spaced_char(c))), " "@)
}

/// Puts single spaces between the words of a title.
pub fn space_title(title: &str) -> (r: String)
    ensures
        r@ == spaced(title@),
{
    let v = chars_of(title);
    let ghost goal = title@.map_values(|c: char| spaced_char(c));
    let mut s = String::new();
    let mut i: usize = 0;
    while i < v.len()
        invariant
            0 <= i <= v@.len(),
            v@ == title@,
            goal == title@.map_values(|c: char| spaced_char(c)),
            s@ == goal.subrange(0, i as int),
        decreases v@.len() - i,
    {
        let c = v[i];
        s.push(
            if c == '.' || c == '_' {
                ' '
            } else {
                c
            },
        );
        i = i + 1;
        assert(s@ =~= goal.subrange(0, i as int));
    }
    assert(s@ =~= goal);
    join(&split_whitespace(s.as_str()), " ")
}

/// The first `n` bytes of a title, without whitespace around them; the title as it is where they would
/// end inside a character.
pub open spec fn first_bytes(title: Seq<char>, n: int) -> Seq<char> {
    match chars_in_bytes(title, n, 0) {
        Some(k) => trimmed(title.subrange(0, k)),
        None => title,
    }
}

/// What is left of a title once a platform was cut off its end, `None` where it does not end so. The
/// platform is looked for in the title's lowercase, and the cut is made at the same byte of the title.
pub open spec fn platform_cut(title: Seq<char>, lower: Seq<char>, platform: Seq<char>) -> Option<
    Seq<char>,
> {
    match rfind_of(lower, "- "@ + platform) {
        Some(i) => Some(first_bytes(title, byte_len(lower.subrange(0, i)) as int)),
        None => if (" "@ + platform).is_suffix_of(lower) {
            Some(first_bytes(title, byte_len(title) - byte_len(" "@ + platform)))
        } else {
            None
        },
    }
}

/// A title without the name of a streaming platform at its end.
pub open spec fn without_platform(title: Seq<char>, lower: Seq<char>) -> Seq<char> {
    match platform_cut(title, lower, "zdfmediathek"@) {
        Some(t) => t,
        None => match platform_cut(title, lower, "ardmediathek"@) {
            Some(t) => t,
            None => title,
        },
    }
}

/// Cuts the first `n` bytes out of a title.
fn cut_bytes(title: &str, n: u128) -> (r: String)
    ensures
        r@ == first_bytes(title@, n as int),
{
    let v = chars_of(title);
    match find_byte(&v, n) {
        Some(k) => trim(string_of(&v, 0, k).as_str()),
        None => title.to_owned(),
    }
}

/// Cuts a platform off the end of a title.
fn cut_platform(title: &str, lower: &str, platform: &str) -> (r: Option<String>)
    ensures
        r is Some <==> platform_cut(title@, lower@, platform@) is Some,
        r matches Some(t) ==> Some(t@) == platform_cut(title@, lower@, platform@),
{
    let l = chars_of(lower);
    let dashed = crate::text::cat("- ", platform);
    if let Some(i) = rfind(&l, &chars_of(dashed.as_str())) {
        return Some(cut_bytes(title, count_bytes(&l, i)));
    }
    let space_platform = crate::text::cat(" ", platform);
    if crate::text::ends_with(lower, space_platform.as_str()) {
        let v = chars_of(title);
        let p = chars_of(space_platform.as_str());
        assert(v@.subrange(0, v@.len() as int) =~= title@);
        assert(p@.subrange(0, p@.len() as int) =~= " "@ + platform@);
        let whole = count_bytes(&v, v.len());
        let end = count_bytes(&p, p.len());
        if end > whole {
            return Some(title.to_owned());
        }
        return Some(cut_bytes(title, whole - end));
    }
    None
}

/// Takes the name of a streaming platform off the end of a title, where `lower` is the title's
/// lowercase.
pub fn strip_platform_suffix(title: &str, lower: &str) -> (r: String)
    ensures
        r@ == without_platform(title@, lower@),
{
    match cut_platform(title, lower, "zdfmediathek") {
        Some(t) => t,
        None => match cut_platform(title, lower, "ardmediathek") {
            Some(t) => t,
            None => title.to_owned(),
        },
    }
}

/// A title as it is searched for.
pub open spec fn normalized(title: Seq<char>) -> Seq<char> {
    without_platform(spaced(title), lowercase(spaced(title)))
}

/// Makes a title fit to search for: dots and underscores become spaces, runs of whitespace become one
/// space, and the name of a streaming platform at the end goes.
pub fn normalize_title(title: &str) -> (r: String)
    ensures
        r@ == normalized(title@),
{
    let t = space_title(title);
    let lower = to_lowercase(t.as_str());
    strip_platform_suffix(t.as_str(), lower.as_str())
}

/// Holds of what separates the words of a title: whitespace, dots and underscores.
pub open spec fn gap() -> spec_fn(char) -> bool {
    |c: char| whitespace(c) || c == '.' || c == '_'
}

/// A title without dots and underscores, and with single spaces between its words alone.
pub open spec fn tidy(s: Seq<char>) -> bool {
    single_spaced(s) && forall|i: int| 0 <= i < s.len() ==> #[trigger] s[i] != '.' && s[i] != '_'
}

/// A normalized title has no dot, no underscore, no whitespace at its start or end, and no two whitespace
/// characters in a row.
pub proof fn law_normalized_titles_are_tidy(title: Seq<char>)
    ensures
        tidy(normalized(title)),
{
    let s = spaced(title);
    let lower = lowercase(s);
    lemma_spaced(title);
    if let Some(t) = platform_cut(s, lower, "zdfmediathek"@) {
        lemma_cut_tidy(s, lower, "zdfmediathek"@);
    } else if let Some(t) = platform_cut(s, lower, "ardmediathek"@) {
        lemma_cut_tidy(s, lower, "ardmediathek"@);
    }
}

/// An ASCII title that names neither of the platforms, in letters of either case, becomes exactly its
/// words, between whitespace, dots and underscores, with single spaces between them; and normalizing it
/// again changes nothing.
pub proof fn law_normalizing_is_done_once(title: Seq<char>)
    requires
        is_ascii_chars(title),
        !names(title, "zdfmediathek"@),
        !names(title, "ardmediathek"@),
    ensures
        normalized(title) == joined(words_by(title, gap()), " "@),
        normalized(normalized(title)) == normalized(title),
{
    let s = spaced(title);
    lemma_spaced(title);
    reveal_strlit("zdfmediathek");
    reveal_strlit("ardmediathek");
    lemma_spaced_names(title, "zdfmediathek"@);
    lemma_spaced_names(title, "ardmediathek"@);
    lemma_kept_whole(s, "zdfmediathek"@);
    lemma_kept_whole(s, "ardmediathek"@);
}

/// The words of a title as it is spaced: tidy, the same between the gaps, and spaced already.
proof fn lemma_spaced(title: Seq<char>)
    ensures
        tidy(spaced(title)),
        spaced(title) == joined(words_by(title, gap()), " "@),
        spaced(spaced(title)) == spaced(title),
        is_ascii_chars(title) ==> is_ascii_chars(spaced(title)),
{
    let t = title.map_values(|c: char| spaced_char(c));
    let ws = words(t);
    let s = spaced(title);
    lemma_words(t);
    lemma_joined(ws);
    assert forall|i: int| 0 <= i < s.len() implies #[trigger] s[i] == ' ' || t.contains(s[i]) by {
        if s[i] != ' ' {
            let k = choose|k: int| 0 <= k < ws.len() && (#[trigger] ws[k]).contains(s[i]);
            let f = |c: char| whitespace(c);
            let w = ws[k];
            assert(is_piece(t, f, w));
            let (a, b) = choose|a: int, b: int| #[trigger] piece_at(t, f, w, a, b);
            let j = choose|j: int| 0 <= j < w.len() && w[j] == s[i];
            assert(t[a + j] == s[i]);
        }
    }
    assert forall|i: int| 0 <= i < s.len() implies #[trigger] s[i] != '.' && s[i] != '_' by {
        if s[i] != ' ' {
            let j = choose|j: int| 0 <= j < t.len() && t[j] == s[i];
            assert(t[j] == spaced_char(title[j]));
        }
    }
    if is_ascii_chars(title) {
        assert forall|i: int| 0 <= i < s.len() implies '\0' <= #[trigger] s[i] <= '\u{7f}' by {
            if s[i] != ' ' {
                let j = choose|j: int| 0 <= j < t.len() && t[j] == s[i];
                assert(t[j] == spaced_char(title[j]));
            }
        }
    }
    lemma_gaps(title);
    assert(s.map_values(|c: char| spaced_char(c)) =~= s);
    lemma_words_of_joined(ws);
}

/// Taking dots and underscores for spaces makes the same pieces as taking them for gaps.
proof fn lemma_gaps(title: Seq<char>)
    ensures
        pieces(title.map_values(|c: char| spaced_char(c)), |c: char| whitespace(c)) == pieces(
            title,
            gap(),
        ),
    decreases title.len(),
{
    let f = |c: char| whitespace(c);
    let t = title.map_values(|c: char| spaced_char(c));
    lemma_find_char(t, f, 0);
    lemma_find_char(title, gap(), 0);
    assert forall|i: int| 0 <= i < title.len() implies f(#[trigger] t[i]) == gap()(title[i]) by {
        assert(t[i] == spaced_char(title[i]));
    }
    match find_char(title, gap(), 0) {
        Some(i) => {
            assert(f(t[i]));
            if let Some(j) = find_char(t, f, 0) {
                if j < i {
                    assert(!gap()(title[j]));
                }
            }
            assert(find_char(t, f, 0) == Some(i));
            let rest = title.subrange(i + 1, title.len() as int);
            lemma_gaps(rest);
            assert(t.subrange(i + 1, t.len() as int) =~= rest.map_values(|c: char| spaced_char(c)));
            assert forall|k: int| 0 <= k < i implies #[trigger] t[k] == title[k] by {
                assert(!gap()(title[k]));
            }
            assert(t.subrange(0, i) =~= title.subrange(0, i));
        },
        None => {
            if let Some(j) = find_char(t, f, 0) {
                assert(gap()(title[j]));
            }
            assert forall|k: int| 0 <= k < title.len() implies #[trigger] t[k] == title[k] by {
                assert(!gap()(title[k]));
            }
            assert(t =~= title);
        },
    }
}

/// What a spaced title names, the title names.
proof fn lemma_spaced_names(title: Seq<char>, p: Seq<char>)
    requires
        p.len() > 0,
        forall|k: int| 0 <= k < p.len() ==> #[trigger] p[k] != ' ',
    ensures
        names(spaced(title), p) ==> names(title, p),
{
    if names(spaced(title), p) {
        let t = title.map_values(|c: char| spaced_char(c));
        let ws = words(t);
        lemma_words(t);
        lemma_named_in_word(ws, p);
        let k = choose|k: int| 0 <= k < ws.len() && names(#[trigger] ws[k], p);
        lemma_piece_names(t, |c: char| whitespace(c), ws[k], p);
        let i = choose|i: int| #[trigger] named_at(t, p, i);
        assert forall|k: int| 0 <= k < p.len() implies ascii_lower(#[trigger] title[i + k]) == p[k] by {
            assert(t[i + k] == spaced_char(title[i + k]));
            assert(ascii_lower(t[i + k]) == p[k]);
        }
        assert(named_at(title, p, i));
    }
}

/// Nothing is cut off a title in ASCII that does not name the platform.
proof fn lemma_kept_whole(title: Seq<char>, platform: Seq<char>)
    ensures
        is_ascii_chars(title) && !names(title, platform) ==> platform_cut(
            title,
            lowercase(title),
            platform,
        ) is None,
{
    if is_ascii_chars(title) {
        let lower = lowercase(title);
        let dashed = "- "@ + platform;
        let behind = " "@ + platform;
        reveal_strlit("- ");
        reveal_strlit(" ");
        lemma_rfind_from(lower, dashed, lower.len() - dashed.len());
        if let Some(i) = rfind_of(lower, dashed) {
            assert forall|k: int| 0 <= k < platform.len() implies ascii_lower(
                #[trigger] title[i + 2 + k],
            ) == platform[k] by {
                assert(lower[i + (2 + k)] == lower.subrange(i, i + dashed.len())[2 + k]);
                assert(dashed[2 + k] == platform[k]);
            }
            assert(named_at(title, platform, i + 2));
        } else if behind.is_suffix_of(lower) {
            let i = lower.len() - platform.len();
            assert forall|k: int| 0 <= k < platform.len() implies ascii_lower(
                #[trigger] title[i + k],
            ) == platform[k] by {
                assert(lower[i + k] == lower.subrange(
                    lower.len() - behind.len(),
                    lower.len() as int,
                )[1 + k]);
                assert(behind[1 + k] == platform[k]);
            }
            assert(named_at(title, platform, i));
        }
    }
}

/// What `rfind_from` finds is there.
proof fn lemma_rfind_from(s: Seq<char>, p: Seq<char>, from: int)
    ensures
        rfind_from(s, p, from) matches Some(i) ==> occurs_at(s, p, i),
    decreases from + 1,
{
    if from >= 0 && !occurs_at(s, p, from) {
        lemma_rfind_from(s, p, from - 1);
    }
}

/// What is left of a tidy title once a platform was cut off is tidy.
proof fn lemma_cut_tidy(s: Seq<char>, lower: Seq<char>, platform: Seq<char>)
    requires
        tidy(s),
    ensures
        platform_cut(s, lower, platform) matches Some(t) ==> tidy(t),
{
    if let Some(i) = rfind_of(lower, "- "@ + platform) {
        lemma_first_bytes_tidy(s, byte_len(lower.subrange(0, i)) as int);
    } else {
        lemma_first_bytes_tidy(s, byte_len(s) - byte_len(" "@ + platform));
    }
}

proof fn lemma_first_bytes_tidy(s: Seq<char>, n: int)
    requires
        tidy(s),
    ensures
        tidy(first_bytes(s, n)),
{
    lemma_chars_in_bytes(s, n, 0);
    if let Some(k) = chars_in_bytes(s, n, 0) {
        let head = s.subrange(0, k);
        lemma_trimmed(head);
        let t = trimmed(head);
        let (a, b) = choose|a: int, b: int|
            0 <= a <= b <= head.len() && t == #[trigger] head.subrange(a, b);
        assert forall|i: int| 0 <= i < t.len() implies #[trigger] t[i] == s[a + i] by {}
        assert forall|i: int| 0 <= i < t.len() && whitespace(#[trigger] t[i]) implies 0 < i < t.len() - 1
            && !whitespace(t[i + 1]) by {
            assert(whitespace(s[a + i]));
            if i < t.len() - 1 {
                assert(t[i + 1] == s[a + i + 1]);
            }
        }
    }
}

proof fn lemma_chars_in_bytes(s: Seq<char>, n: int, k: int)
    requires
        0 <= k <= s.len(),
    ensures
        chars_in_bytes(s, n, k) matches Some(j) ==> 0 <= j <= s.len(),
    decreases s.len() - k,
{
    if k < s.len() {
        lemma_chars_in_bytes(s, n, k + 1);
    }
}

/// The language that a word in lowercase stands for: full names, and the abbreviations in scene
/// releases.
pub open spec fn language_code_of(w: Seq<char>) -> Option<Seq<char>> {
    if w == "german"@ || w == "deutsch"@ || w == "ger"@ {
        Some("de-DE"@)
    } else if w == "french"@ || w == "francais"@ || w == "fre"@ || w == "fra"@ {
        Some("fr-FR"@)
    } else if w == "spanish"@ || w == "espanol"@ || w == "spa"@ {
        Some("es-ES"@)
    } else if w == "italian"@ || w == "italiano"@ || w == "ita"@ {
        Some("it-IT"@)
    } else if w == "japanese"@ || w == "jpn"@ {
        Some("ja-JP"@)
    } else if w == "korean"@ || w == "kor"@ {
        Some("ko-KR"@)
    } else if w == "chinese"@ || w == "chi"@ || w == "zho"@ {
        Some("zh-CN"@)
    } else if w == "russian"@ || w == "rus"@ {
        Some("ru-RU"@)
    } else if w == "portuguese"@ || w == "por"@ {
        Some("pt-BR"@)
    } else if w == "dutch"@ || w == "dut"@ || w == "nld"@ {
        Some("nl-NL"@)
    } else if w == "swedish"@ || w == "swe"@ {
        Some("sv-SE"@)
    } else if w == "danish"@ || w == "dan"@ {
        Some("da-DK"@)
    } else if w == "norwegian"@ || w == "nor"@ {
        Some("no-NO"@)
    } else if w == "finnish"@ || w == "fin"@ {
        Some("fi-FI"@)
    } else if w == "polish"@ || w == "pol"@ {
        Some("pl-PL"@)
    } else if w == "czech"@ || w == "cze"@ || w == "ces"@ {
        Some("cs-CZ"@)
    } else if w == "hungarian"@ || w == "hun"@ {
        Some("hu-HU"@)
    } else if w == "romanian"@ || w == "rum"@ || w == "ron"@ {
        Some("ro-RO"@)
    } else if w == "turkish"@ || w == "tur"@ {
        Some("tr-TR"@)
    } else if w == "greek"@ || w == "gre"@ || w == "ell"@ {
        Some("el-GR"@)
    } else if w == "arabic"@ || w == "ara"@ {
        Some("ar-SA"@)
    } else if w == "hindi"@ || w == "hin"@ {
        Some("hi-IN"@)
    } else if w == "thai"@ || w == "tha"@ {
        Some("th-TH"@)
    } else if w == "vietnamese"@ || w == "vie"@ {
        Some("vi-VN"@)
    } else {
        None
    }
}

/// Looks up the language that a word in lowercase stands for.
pub fn language_code(w: &str) -> (r: Option<&'static str>)
    ensures
        r is Some <==> language_code_of(w@) is Some,
        r matches Some(c) ==> Some(c@) == language_code_of(w@),
{
    if same(w, "german") || same(w, "deutsch") || same(w, "ger") {
        Some("de-DE")
    } else if same(w, "french") || same(w, "francais") || same(w, "fre") || same(w, "fra") {
        Some("fr-FR")
    } else if same(w, "spanish") || same(w, "espanol") || same(w, "spa") {
        Some("es-ES")
    } else if same(w, "italian") || same(w, "italiano") || same(w, "ita") {
        Some("it-IT")
    } else if same(w, "japanese") || same(w, "jpn") {
        Some("ja-JP")
    } else if same(w, "korean") || same(w, "kor") {
        Some("ko-KR")
    } else if same(w, "chinese") || same(w, "chi") || same(w, "zho") {
        Some("zh-CN")
    } else if same(w, "russian") || same(w, "rus") {
        Some("ru-RU")
    } else if same(w, "portuguese") || same(w, "por") {
        Some("pt-BR")
    } else if same(w, "dutch") || same(w, "dut") || same(w, "nld") {
        Some("nl-NL")
    } else if same(w, "swedish") || same(w, "swe") {
        Some("sv-SE")
    } else if same(w, "danish") || same(w, "dan") {
        Some("da-DK")
    } else if same(w, "norwegian") || same(w, "nor") {
        Some("no-NO")
    } else if same(w, "finnish") || same(w, "fin") {
        Some("fi-FI")
    } else if same(w, "polish") || same(w, "pol") {
        Some("pl-PL")
    } else if same(w, "czech") || same(w, "cze") || same(w, "ces") {
        Some("cs-CZ")
    } else if same(w, "hungarian") || same(w, "hun") {
        Some("hu-HU")
    } else if same(w, "romanian") || same(w, "rum") || same(w, "ron") {
        Some("ro-RO")
    } else if same(w, "turkish") || same(w, "tur") {
        Some("tr-TR")
    } else if same(w, "greek") || same(w, "gre") || same(w, "ell") {
        Some("el-GR")
    } else if same(w, "arabic") || same(w, "ara") {
        Some("ar-SA")
    } else if same(w, "hindi") || same(w, "hin") {
        Some("hi-IN")
    } else if same(w, "thai") || same(w, "tha") {
        Some("th-TH")
    } else if same(w, "vietnamese") || same(w, "vie") {
        Some("vi-VN")
    } else {
        None
    }
}

/// Holds of what separates the words of a file name.
pub open spec fn separator() -> spec_fn(char) -> bool {
    |c: char| c == '.' || c == ' ' || c == '_' || c == '-'
}

/// The language that the first word from `from` on with one stands for, where `lowers` are the words
/// in lowercase.
pub open spec fn first_language(lowers: Seq<Seq<char>>, from: int) -> Option<Seq<char>>
    decreases lowers.len() - from,
{
    if from < 0 || from >= lowers.len() {
        None
    } else {
        match language_code_of(lowers[from]) {
            Some(code) => Some(code),
            None => first_language(lowers, from + 1),
        }
    }
}

/// The words in lowercase.
pub open spec fn lowered(ws: Seq<Seq<char>>) -> Seq<Seq<char>> {
    ws.map_values(|w: Seq<char>| lowercase(w))
}

/// The language that a file name mentions.
pub open spec fn language_in(filename: Seq<char>) -> Option<Seq<char>> {
    first_language(lowered(words_by(filename, separator())), 0)
}

/// Splits a file name into words.
pub fn name_words(filename: &str) -> (r: Vec<String>)
    ensures
        views(r@) == words_by(filename@, separator()),
{
    let is_separator = |c: char| -> (b: bool)
        ensures
            b == (c == '.' || c == ' ' || c == '_' || c == '-'),
        {
            c == '.' || c == ' ' || c == '_' || c == '-'
        };
    nonempty(split_by(filename, is_separator, Ghost(separator())))
}

/// Looks for the first word in lowercase that stands for a language.
pub fn find_language(lowers: &Vec<String>) -> (r: Option<String>)
    ensures
        opt(r) == first_language(views(lowers@), 0),
{
    let mut i: usize = 0;
    let ghost all = views(lowers@);
    while i < lowers.len()
        invariant
            0 <= i <= lowers@.len(),
            all == views(lowers@),
            first_language(all, 0) == first_language(all, i as int),
        decreases lowers@.len() - i,
    {
        assert(all[i as int] == lowers@[i as int]@);
        if let Some(code) = language_code(lowers[i].as_str()) {
            return Some(code.to_owned());
        }
        i = i + 1;
    }
    None
}

/// Detects the language that a file name mentions. Scene releases name it after the year.
pub fn detect_language(filename: &str) -> (r: Option<String>)
    ensures
        opt(r) == language_in(filename@),
{
    let ws = name_words(filename);
    let mut lowers: Vec<String> = Vec::new();
    let mut i: usize = 0;
    while i < ws.len()
        invariant
            0 <= i <= ws@.len(),
            lowers@.len() == i,
            forall|j: int| 0 <= j < i ==> (#[trigger] lowers@[j])@ == lowercase(views(ws@)[j]),
        decreases ws@.len() - i,
    {
        lowers.push(to_lowercase(ws[i].as_str()));
        i = i + 1;
    }
    assert(views(lowers@) =~= lowered(views(ws@)));
    find_language(&lowers)
}

/// An article, a preposition or the like, with which a title may well begin.
pub open spec fn common_word(w: Seq<char>) -> bool {
    ||| w == "the"@
    ||| w == "a"@
    ||| w == "an"@
    ||| w == "der"@
    ||| w == "die"@
    ||| w == "das"@
    ||| w == "ein"@
    ||| w == "eine"@
    ||| w == "le"@
    ||| w == "la"@
    ||| w == "les"@
    ||| w == "un"@
    ||| w == "une"@
    ||| w == "el"@
    ||| w == "los"@
    ||| w == "las"@
    ||| w == "il"@
    ||| w == "lo"@
    ||| w == "i"@
    ||| w == "gli"@
    ||| w == "de"@
    ||| w == "du"@
    ||| w == "des"@
    ||| w == "of"@
    ||| w == "in"@
    ||| w == "on"@
    ||| w == "at"@
    ||| w == "to"@
    ||| w == "and"@
    ||| w == "or"@
    ||| w == "not"@
    ||| w == "no"@
    ||| w == "my"@
    ||| w == "our"@
    ||| w == "his"@
    ||| w == "her"@
}

/// Whether a word is an article, a preposition or the like.
pub fn is_common_word(w: &str) -> (r: bool)
    ensures
        r == common_word(w@),
{
    same(w, "the")
        || same(w, "a")
        || same(w, "an")
        || same(w, "der")
        || same(w, "die")
        || same(w, "das")
        || same(w, "ein")
        || same(w, "eine")
        || same(w, "le")
        || same(w, "la")
        || same(w, "les")
        || same(w, "un")
        || same(w, "une")
        || same(w, "el")
        || same(w, "los")
        || same(w, "las")
        || same(w, "il")
        || same(w, "lo")
        || same(w, "i")
        || same(w, "gli")
        || same(w, "de")
        || same(w, "du")
        || same(w, "des")
        || same(w, "of")
        || same(w, "in")
        || same(w, "on")
        || same(w, "at")
        || same(w, "to")
        || same(w, "and")
        || same(w, "or")
        || same(w, "not")
        || same(w, "no")
        || same(w, "my")
        || same(w, "our")
        || same(w, "his")
        || same(w, "her")
}

/// Every character is a letter a to z or a digit.
pub open spec fn plain_word(w: Seq<char>) -> bool {
    forall|i: int| 0 <= i < w.len() ==> 'a' <= #[trigger] w[i] <= 'z' || ascii_digit(w[i])
}

/// A word that looks like the name of a release group.
pub open spec fn group_word(w: Seq<char>) -> bool {
    w.len() <= 12 && plain_word(w) && !common_word(w)
}

/// A title of at least three words without the release group that it begins with.
pub open spec fn without_group(title: Seq<char>) -> Option<Seq<char>> {
    let ws = words(title);
    if ws.len() >= 3 && group_word(ws[0]) {
        Some(joined(ws.drop_first(), " "@))
    } else {
        None
    }
}

/// Whether a word looks like the name of a release group.
fn is_group_word(w: &str) -> (r: bool)
    ensures
        r == group_word(w@),
{
    let v = chars_of(w);
    if v.len() > 12 {
        return false;
    }
    let mut i: usize = 0;
    while i < v.len()
        invariant
            0 <= i <= v@.len(),
            v@ == w@,
            forall|j: int| 0 <= j < i ==> 'a' <= #[trigger] w@[j] <= 'z' || ascii_digit(w@[j]),
        decreases v@.len() - i,
    {
        let c = v[i];
        if !(('a' <= c && c <= 'z') || ('0' <= c && c <= '9')) {
            assert(!('a' <= w@[i as int] <= 'z' || ascii_digit(w@[i as int])));
            return false;
        }
        i = i + 1;
    }
    !is_common_word(w)
}

/// Takes a leading release group off a title: a first word of at most twelve lowercase letters and
/// digits that is no common word, with at least two words after it.
pub fn strip_release_group(title: &str) -> (r: Option<String>)
    ensures
        opt(r) == without_group(title@),
{
    let ws = split_whitespace(title);
    assert(views(ws@).len() == ws@.len());
    if ws.len() < 3 {
        return None;
    }
    assert(views(ws@)[0] == ws@[0]@);
    if !is_group_word(ws[0].as_str()) {
        return None;
    }
    let mut rest = ws;
    let _group = rest.remove(0);
    assert(views(rest@) =~= words(title@).drop_first());
    Some(join(&rest, " "))
}

/// What the torrent name parser says of a name.
#[derive(Debug)]
pub struct TorrentFields {
    pub title: String,
    pub year: Option<i32>,
    pub season: Option<i32>,
    pub episode: Option<i32>,
}

/// What the anime name parser says of a name.
#[derive(Debug)]
pub struct AnimeFields {
    pub title: Option<String>,
    pub year: Option<String>,
    pub season: Option<String>,
    pub episode: Option<String>,
}

/// Title, year, season and episode that `torrent_name_parser::Metadata::from` finds in a name, `None`
/// where it fails.
pub uninterp spec fn torrent_fields(name: Seq<char>) -> Option<
    (Seq<char>, Option<i32>, Option<i32>, Option<i32>),
>;

/// The first elements for title, year, season and episode that `anitomy::Anitomy::parse` finds in a
/// name of ASCII characters.
pub uninterp spec fn anime_fields(name: Seq<char>) -> (
    Option<Seq<char>>,
    Option<Seq<char>>,
    Option<Seq<char>>,
    Option<Seq<char>>,
);

/// The length of the run of digits that ends before `k`.
pub open spec fn digit_run(s: Seq<char>, k: int) -> nat
    decreases k,
{
    if k <= 0 || k > s.len() || !ascii_digit(s[k - 1]) {
        0
    } else {
        digit_run(s, k - 1) + 1
    }
}

/// No run of digits is longer than nine.
pub open spec fn short_runs(s: Seq<char>) -> bool {
    forall|k: int| 0 <= k <= s.len() ==> #[trigger] digit_run(s, k) < 10
}

/// No character is NUL.
pub open spec fn no_nul(s: Seq<char>) -> bool {
    forall|i: int| 0 <= i < s.len() ==> #[trigger] s[i] != '\0'
}

/// `torrent_name_parser::Metadata::from` and the getters for title, year, season and episode. What they
/// say depends on the name alone. The parser reads the digits of season, episode, last episode and year
/// as 32-bit numbers and panics where that fails, so names with a run of more than nine digits, and names
/// in which one of these has a decimal digit other than 0 to 9, are left out.
#[verifier::external_body]
fn parse_torrent_name(s: &str) -> (r: Option<TorrentFields>)
    requires
        short_runs(s@),
        !misread(s@),
    ensures
        r is Some <==> torrent_fields(s@) is Some,
        r matches Some(f) ==> torrent_fields(s@) == Some((f.title@, f.year, f.season, f.episode)),
{
    torrent_name_parser::Metadata::from(s).ok().map(|m| TorrentFields {
        title: m.title().to_string(),
        year: m.year(),
        season: m.season(),
        episode: m.episode(),
    })
}

/// `anitomy::Anitomy::parse`, and of the elements that it finds, whether it fails or not, the first for
/// each of title, year, season and episode. For a name of ASCII characters they depend on the name
/// alone; for others the parser asks the C library for uppercase letters, which depends on the locale,
/// so nothing is said of them. It panics on a NUL character.
#[verifier::external_body]
fn parse_anime_name(s: &str) -> (r: AnimeFields)
    requires
        no_nul(s@),
    ensures
        is_ascii_chars(s@) ==> anime_fields(s@) == (
            opt(r.title),
            opt(r.year),
            opt(r.season),
            opt(r.episode),
        ),
{
    let elements = match anitomy::Anitomy::new().parse(s) {
        Ok(v) => v,
        Err(v) => v,
    };
    AnimeFields {
        title: elements.get(anitomy::ElementCategory::AnimeTitle).map(str::to_string),
        year: elements.get(anitomy::ElementCategory::AnimeYear).map(str::to_string),
        season: elements.get(anitomy::ElementCategory::AnimeSeason).map(str::to_string),
        episode: elements.get(anitomy::ElementCategory::EpisodeNumber).map(str::to_string),
    }
}

/// `f` is what the anime name parser may say of a name.
pub open spec fn anime_said(name: Seq<char>, f: AnimeFields) -> bool {
    is_ascii_chars(name) ==> anime_fields(name) == (
        opt(f.title),
        opt(f.year),
        opt(f.season),
        opt(f.episode),
    )
}

/// A 32-bit number as a 64-bit one.
pub open spec fn wide(n: Option<i32>) -> Option<i64> {
    match n {
        Some(x) => Some(x as i64),
        None => None,
    }
}

/// The number that a text denotes, if it is there and denotes one.
pub open spec fn number_in(s: Option<String>) -> Option<i64> {
    match s {
        Some(t) => match signed(t@) {
            Some(n) => Some(n as i64),
            None => None,
        },
        None => None,
    }
}

/// The season of a name; one that is not given is taken for the first.
pub open spec fn season_or_first(s: Option<String>) -> Option<i64> {
    match number_in(s) {
        Some(n) => Some(n),
        None => Some(1),
    }
}

/// What the torrent name parser says, as metadata.
pub open spec fn torrent_meta(
    title: Seq<char>,
    year: Option<i32>,
    season: Option<i32>,
    episode: Option<i32>,
) -> Meta {
    Meta {
        name: normalized(title),
        year: wide(year),
        season: wide(season),
        episode: wide(episode),
        language: None,
    }
}

/// What the anime name parser says, as metadata; there is none without a title.
pub open spec fn anime_meta(f: AnimeFields) -> Option<Meta> {
    match f.title {
        Some(title) => Some(
            Meta {
                name: normalized(title@),
                year: number_in(f.year),
                season: season_or_first(f.season),
                episode: number_in(f.episode),
                language: None,
            },
        ),
        None => None,
    }
}

/// Title and year of the one parser, season and episode of the other.
pub open spec fn combined_meta(title: Seq<char>, year: Option<i32>, f: AnimeFields) -> Meta {
    Meta {
        name: normalized(title),
        year: wide(year),
        season: season_or_first(f.season),
        episode: number_in(f.episode),
        language: None,
    }
}

/// The contents of optional metadata.
pub open spec fn opt_meta(m: Option<Metadata>) -> Option<Meta> {
    match m {
        Some(x) => Some(x@),
        None => None,
    }
}

/// Reads a number off a text.
fn read_number(s: &Option<String>) -> (r: Option<i64>)
    ensures
        r == number_in(*s),
{
    match s {
        Some(t) => parse_i64(t.as_str()),
        None => None,
    }
}

/// Makes a 32-bit number a 64-bit one.
fn widen(n: Option<i32>) -> (r: Option<i64>)
    ensures
        r == wide(n),
{
    match n {
        Some(x) => Some(x as i64),
        None => None,
    }
}

/// Reads a season; one that is not given is taken for the first.
fn read_season(s: &Option<String>) -> (r: Option<i64>)
    ensures
        r == season_or_first(*s),
{
    match read_number(s) {
        Some(n) => Some(n),
        None => Some(1),
    }
}

/// Makes metadata of what the torrent name parser says.
pub fn from_torrent_fields(f: &TorrentFields) -> (r: Metadata)
    ensures
        r@ == torrent_meta(f.title@, f.year, f.season, f.episode),
{
    Metadata {
        name: normalize_title(f.title.as_str()),
        year: widen(f.year),
        season: widen(f.season),
        episode: widen(f.episode),
        language: None,
    }
}

/// Makes metadata of what the anime name parser says.
pub fn from_anime_fields(f: &AnimeFields) -> (r: Option<Metadata>)
    ensures
        opt_meta(r) == anime_meta(*f),
{
    match &f.title {
        Some(title) => Some(
            Metadata {
                name: normalize_title(title.as_str()),
                year: read_number(&f.year),
                season: read_season(&f.season),
                episode: read_number(&f.episode),
                language: None,
            },
        ),
        None => None,
    }
}

/// Makes metadata of title and year of the one parser, season and episode of the other.
pub fn from_both(t: &TorrentFields, f: &AnimeFields) -> (r: Metadata)
    ensures
        r@ == combined_meta(t.title@, t.year, *f),
{
    Metadata {
        name: normalize_title(t.title.as_str()),
        year: widen(t.year),
        season: read_season(&f.season),
        episode: read_number(&f.episode),
        language: None,
    }
}

/// What the torrent name parser says: nothing where there is a number in the name that it cannot read,
/// for it is too long, or is not written in the digits 0 to 9.
pub open spec fn torrent_says(name: Seq<char>) -> Option<
    (Seq<char>, Option<i32>, Option<i32>, Option<i32>),
> {
    if short_runs(name) && !misread(name) {
        torrent_fields(name)
    } else {
        None
    }
}

/// Asks the torrent name parser, unless the name has a number that it would fail on.
pub fn try_tnp_parse(s: &str) -> (r: Option<TorrentFields>)
    ensures
        r is Some <==> torrent_says(s@) is Some,
        r matches Some(f) ==> torrent_says(s@) == Some((f.title@, f.year, f.season, f.episode)),
{
    let v = chars_of(s);
    let mut run: u32 = 0;
    let mut i: usize = 0;
    while i < v.len()
        invariant
            0 <= i <= v@.len(),
            v@ == s@,
            run == digit_run(s@, i as int),
            run < 10,
            forall|k: int| 0 <= k <= i ==> #[trigger] digit_run(s@, k) < 10,
        decreases v@.len() - i,
    {
        if '0' <= v[i] && v[i] <= '9' {
            run = run + 1;
            if run >= 10 {
                assert(digit_run(s@, i + 1) >= 10);
                return None;
            }
        } else {
            run = 0;
        }
        i = i + 1;
    }
    if is_misread(&v) {
        return None;
    }
    parse_torrent_name(s)
}

/// A way to read metadata off a file name.
pub trait FilenameMetadata {
    /// The names that can be read.
    spec fn reads(s: Seq<char>) -> bool;

    /// `r` is what may be read off a name.
    spec fn may_give(s: Seq<char>, r: Option<Meta>) -> bool;

    fn from_str(s: &str) -> (r: Option<Metadata>)
        requires
            Self::reads(s@),
        ensures
            Self::may_give(s@, opt_meta(r)),
    ;
}

/// Reads names as torrents are named.
#[derive(Clone, Copy, Debug, PartialEq, Eq, Structural)]
pub struct TorrentMetadata;

impl FilenameMetadata for TorrentMetadata {
    open spec fn reads(s: Seq<char>) -> bool {
        true
    }

    open spec fn may_give(s: Seq<char>, r: Option<Meta>) -> bool {
        r == match torrent_says(s) {
            Some(f) => Some(torrent_meta(f.0, f.1, f.2, f.3)),
            None => None,
        }
    }

    fn from_str(s: &str) -> Option<Metadata> {
        match try_tnp_parse(s) {
            Some(f) => Some(from_torrent_fields(&f)),
            None => None,
        }
    }
}

/// Reads names as anime releases are named.
#[derive(Clone, Copy, Debug, PartialEq, Eq, Structural)]
pub struct Anitomy;

impl FilenameMetadata for Anitomy {
    open spec fn reads(s: Seq<char>) -> bool {
        no_nul(s)
    }

    open spec fn may_give(s: Seq<char>, r: Option<Meta>) -> bool {
        exists|f: AnimeFields| #[trigger] anime_said(s, f) && r == anime_meta(f)
    }

    fn from_str(s: &str) -> Option<Metadata> {
        let f = parse_anime_name(s);
        assert(anime_said(s@, f));
        from_anime_fields(&f)
    }
}

/// Reads the title as torrents are named, which that parser is good at, and season and episode as
/// anime releases are named.
#[derive(Clone, Copy, Debug, PartialEq, Eq, Structural)]
pub struct CombinedExtractor;

impl FilenameMetadata for CombinedExtractor {
    open spec fn reads(s: Seq<char>) -> bool {
        no_nul(s)
    }

    open spec fn may_give(s: Seq<char>, r: Option<Meta>) -> bool {
        match torrent_says(s) {
            Some(t) => exists|f: AnimeFields| #[trigger]
                anime_said(s, f) && r == Some(combined_meta(t.0, t.1, f)),
            None => r is None,
        }
    }

    fn from_str(s: &str) -> Option<Metadata> {
        match try_tnp_parse(s) {
            Some(t) => {
                let f = parse_anime_name(s);
                assert(anime_said(s@, f));
                Some(from_both(&t, &f))
            },
            None => None,
        }
    }
}

/// The words for languages, with the codes of the languages that they stand for.
pub open spec fn language_words() -> Seq<(Seq<char>, Seq<char>)> {
    seq![
        ("german"@, "de-DE"@),
        ("deutsch"@, "de-DE"@),
        ("ger"@, "de-DE"@),
        ("french"@, "fr-FR"@),
        ("francais"@, "fr-FR"@),
        ("fre"@, "fr-FR"@),
        ("fra"@, "fr-FR"@),
        ("spanish"@, "es-ES"@),
        ("espanol"@, "es-ES"@),
        ("spa"@, "es-ES"@),
        ("italian"@, "it-IT"@),
        ("italiano"@, "it-IT"@),
        ("ita"@, "it-IT"@),
        ("japanese"@, "ja-JP"@),
        ("jpn"@, "ja-JP"@),
        ("korean"@, "ko-KR"@),
        ("kor"@, "ko-KR"@),
        ("chinese"@, "zh-CN"@),
        ("chi"@, "zh-CN"@),
        ("zho"@, "zh-CN"@),
        ("russian"@, "ru-RU"@),
        ("rus"@, "ru-RU"@),
        ("portuguese"@, "pt-BR"@),
        ("por"@, "pt-BR"@),
        ("dutch"@, "nl-NL"@),
        ("dut"@, "nl-NL"@),
        ("nld"@, "nl-NL"@),
        ("swedish"@, "sv-SE"@),
        ("swe"@, "sv-SE"@),
        ("danish"@, "da-DK"@),
        ("dan"@, "da-DK"@),
        ("norwegian"@, "no-NO"@),
        ("nor"@, "no-NO"@),
        ("finnish"@, "fi-FI"@),
        ("fin"@, "fi-FI"@),
        ("polish"@, "pl-PL"@),
        ("pol"@, "pl-PL"@),
        ("czech"@, "cs-CZ"@),
        ("cze"@, "cs-CZ"@),
        ("ces"@, "cs-CZ"@),
        ("hungarian"@, "hu-HU"@),
        ("hun"@, "hu-HU"@),
        ("romanian"@, "ro-RO"@),
        ("rum"@, "ro-RO"@),
        ("ron"@, "ro-RO"@),
        ("turkish"@, "tr-TR"@),
        ("tur"@, "tr-TR"@),
        ("greek"@, "el-GR"@),
        ("gre"@, "el-GR"@),
        ("ell"@, "el-GR"@),
        ("arabic"@, "ar-SA"@),
        ("ara"@, "ar-SA"@),
        ("hindi"@, "hi-IN"@),
        ("hin"@, "hi-IN"@),
        ("thai"@, "th-TH"@),
        ("tha"@, "th-TH"@),
        ("vietnamese"@, "vi-VN"@),
        ("vie"@, "vi-VN"@),
    ]
}

/// A word stands for the language that it is listed with, and a word that is not listed for none.
#[verifier::rlimit(100)]
#[verifier::spinoff_prover]
pub proof fn law_words_stand_for_languages(w: Seq<char>)
    ensures
        match language_code_of(w) {
            Some(code) => language_words().contains((w, code)),
            None => forall|i: int| 0 <= i < language_words().len() ==> (#[trigger] language_words()[i]).0 != w,
        },
{
    let all = language_words();

    assert(all[0] == ("german"@, "de-DE"@));
    assert(all[1] == ("deutsch"@, "de-DE"@));
    assert(all[2] == ("ger"@, "de-DE"@));
    assert(all[3] == ("french"@, "fr-FR"@));
    assert(all[4] == ("francais"@, "fr-FR"@));
    assert(all[5] == ("fre"@, "fr-FR"@));
    assert(all[6] == ("fra"@, "fr-FR"@));
    assert(all[7] == ("spanish"@, "es-ES"@));
    assert(all[8] == ("espanol"@, "es-ES"@));
    assert(all[9] == ("spa"@, "es-ES"@));
    assert(all[10] == ("italian"@, "it-IT"@));
    assert(all[11] == ("italiano"@, "it-IT"@));
    assert(all[12] == ("ita"@, "it-IT"@));
    assert(all[13] == ("japanese"@, "ja-JP"@));
    assert(all[14] == ("jpn"@, "ja-JP"@));
    assert(all[15] == ("korean"@, "ko-KR"@));
    assert(all[16] == ("kor"@, "ko-KR"@));
    assert(all[17] == ("chinese"@, "zh-CN"@));
    assert(all[18] == ("chi"@, "zh-CN"@));
    assert(all[19] == ("zho"@, "zh-CN"@));
    assert(all[20] == ("russian"@, "ru-RU"@));
    assert(all[21] == ("rus"@, "ru-RU"@));
    assert(all[22] == ("portuguese"@, "pt-BR"@));
    assert(all[23] == ("por"@, "pt-BR"@));
    assert(all[24] == ("dutch"@, "nl-NL"@));
    assert(all[25] == ("dut"@, "nl-NL"@));
    assert(all[26] == ("nld"@, "nl-NL"@));
    assert(all[27] == ("swedish"@, "sv-SE"@));
    assert(all[28] == ("swe"@, "sv-SE"@));
    assert(all[29] == ("danish"@, "da-DK"@));
    assert(all[30] == ("dan"@, "da-DK"@));
    assert(all[31] == ("norwegian"@, "no-NO"@));
    assert(all[32] == ("nor"@, "no-NO"@));
    assert(all[33] == ("finnish"@, "fi-FI"@));
    assert(all[34] == ("fin"@, "fi-FI"@));
    assert(all[35] == ("polish"@, "pl-PL"@));
    assert(all[36] == ("pol"@, "pl-PL"@));
    assert(all[37] == ("czech"@, "cs-CZ"@));
    assert(all[38] == ("cze"@, "cs-CZ"@));
    assert(all[39] == ("ces"@, "cs-CZ"@));
    assert(all[40] == ("hungarian"@, "hu-HU"@));
    assert(all[41] == ("hun"@, "hu-HU"@));
    assert(all[42] == ("romanian"@, "ro-RO"@));
    assert(all[43] == ("rum"@, "ro-RO"@));
    assert(all[44] == ("ron"@, "ro-RO"@));
    assert(all[45] == ("turkish"@, "tr-TR"@));
    assert(all[46] == ("tur"@, "tr-TR"@));
    assert(all[47] == ("greek"@, "el-GR"@));
    assert(all[48] == ("gre"@, "el-GR"@));
    assert(all[49] == ("ell"@, "el-GR"@));
    assert(all[50] == ("arabic"@, "ar-SA"@));
    assert(all[51] == ("ara"@, "ar-SA"@));
    assert(all[52] == ("hindi"@, "hi-IN"@));
    assert(all[53] == ("hin"@, "hi-IN"@));
    assert(all[54] == ("thai"@, "th-TH"@));
    assert(all[55] == ("tha"@, "th-TH"@));
    assert(all[56] == ("vietnamese"@, "vi-VN"@));
    assert(all[57] == ("vie"@, "vi-VN"@));
    if language_code_of(w) is None {
        assert forall|i: int| 0 <= i < all.len() implies (#[trigger] all[i]).0 != w by {
            assert(0 <= i < 58);
        }
    }
}

/// The first word of a name that stands for a language says it.
pub proof fn law_the_first_language_word_counts(lowers: Seq<Seq<char>>, from: int)
    requires
        0 <= from <= lowers.len(),
    ensures
        match first_language(lowers, from) {
            Some(code) => exists|i: int|
                from <= i < lowers.len() && language_code_of(#[trigger] lowers[i]) == Some(code) && forall|j: int|
                    from <= j < i ==> language_code_of(#[trigger] lowers[j]) is None,
            None => forall|j: int| from <= j < lowers.len() ==> language_code_of(#[trigger] lowers[j]) is None,
        },
    decreases lowers.len() - from,
{
    if from < lowers.len() {
        match language_code_of(lowers[from]) {
            Some(code) => {
                assert(language_code_of(lowers[from]) == Some(code));
            },
            None => {
                law_the_first_language_word_counts(lowers, from + 1);
            },
        }
    }
}

/// A title of three words or more loses a first word of at most twelve small letters and digits, unless a title
/// may well begin with that word; any other title has no release group.
pub proof fn law_release_groups_are_dropped(title: Seq<char>)
    ensures
        ({
            let ws = words(title);
            let small = forall|i: int|
                0 <= i < ws[0].len() ==> 'a' <= #[trigger] ws[0][i] <= 'z' || '0' <= ws[0][i] <= '9';
            &&& ws.len() < 3 ==> without_group(title) is None
            &&& ws.len() >= 3 && ws[0].len() <= 12 && small && !common_word(ws[0]) ==> without_group(title)
                == Some(joined(ws.drop_first(), " "@))
            &&& ws.len() >= 3 && (ws[0].len() > 12 || !small || common_word(ws[0])) ==> without_group(title)
                is None
        }),
        common_word("the"@) && common_word("a"@) && common_word("der"@) && common_word("die"@)
            && common_word("das"@) && common_word("le"@) && common_word("la"@) && common_word("el"@)
            && common_word("my"@),
{
}

/// What the parsers say is kept: of the one title, year, season and episode; of the other the same, with the
/// first season where none is given; and of both together the title and the year of the one and the numbers of
/// the other.
pub proof fn law_parsers_are_believed(
    title: Seq<char>,
    year: Option<i32>,
    season: Option<i32>,
    episode: Option<i32>,
    f: AnimeFields,
)
    ensures
        ({
            let t = torrent_meta(title, year, season, episode);
            let c = combined_meta(title, year, f);
            &&& t.name == normalized(title) && c.name == normalized(title)
            &&& year matches Some(y) ==> t.year == Some(y as i64) && c.year == Some(y as i64)
            &&& season matches Some(s) ==> t.season == Some(s as i64)
            &&& episode matches Some(e) ==> t.episode == Some(e as i64)
            &&& year is None ==> t.year is None && c.year is None
            &&& season is None ==> t.season is None
            &&& episode is None ==> t.episode is None
            &&& f.season is None ==> c.season == Some(1i64)
            &&& f.season matches Some(s) ==> (signed(s@) matches Some(n) ==> c.season == Some(n as i64))
            &&& f.episode matches Some(s) ==> (signed(s@) matches Some(n) ==> c.episode == Some(n as i64))
            &&& f.episode is None ==> c.episode is None
            &&& f.title is None ==> anime_meta(f) is None
            &&& f.title matches Some(name) ==> (anime_meta(f) matches Some(m) && m.name == normalized(name@)
                && m.season == c.season && m.episode == c.episode)
        }),
{
}

}
