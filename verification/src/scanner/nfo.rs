//! Explicit provider ids, from names of directories and from sidecar files.
//!
//! Libraries that other programs have managed often carry exact ids: folder names such as
//! "Show (2019) {tmdb-123}", and `.nfo` files with `<uniqueid>` tags. An id makes a search for the title
//! unnecessary. Ids are given with their scheme, such as "tmdb:123" or "imdb:tt42".

use vstd::prelude::*;

use crate::filename::opt;
use crate::paths::{
    file_name, file_name_of, join_name, join_of, parent, parent_of, with_ext, with_extension,
};
use crate::scanner::names::ascii_alnum;
use crate::text::{
    all_digits, are_digits, ascii_digit, byte_len, cat, cat3, chars_of, contains, count_bytes, find,
    find_char, find_from, contains_str, lemma_find_from, lowercase, occurs_at, push_copy, same,
    starts_with, string_of,
    to_lowercase, trim, trimmed, views,
};

verus! {

/// A larger file is no sidecar.
pub const MAX_NFO_SIZE: u64 = 262_144;

/// Whether a file may be read as a sidecar.
pub fn is_nfo_size(is_file: bool, len: u64) -> (r: bool)
    ensures
        r == (is_file && len <= MAX_NFO_SIZE),
{
    is_file && len <= MAX_NFO_SIZE
}

/// A value that an id of the scheme can have: digits, or for IMDb `tt` and something after it.
pub open spec fn is_valid(scheme: Seq<char>, v: Seq<char>) -> bool {
    if scheme == "imdb"@ {
        "tt"@.is_prefix_of(v) && byte_len(v) > 3
    } else {
        v.len() > 0 && all_digits(v)
    }
}

/// Whether a value can be an id of the scheme.
pub fn valid_value(scheme: &str, value: &str) -> (r: bool)
    ensures
        r == is_valid(scheme@, value@),
{
    let v = chars_of(value);
    assert(v@.subrange(0, v@.len() as int) =~= value@);
    if same(scheme, "imdb") {
        starts_with(value, "tt") && count_bytes(&v, v.len()) > 3
    } else {
        v.len() > 0 && are_digits(&v, 0, v.len())
    }
}

/// Where the run of characters with `f` that begins at `from` ends.
pub open spec fn run_end(s: Seq<char>, f: spec_fn(char) -> bool, from: int) -> int
    decreases s.len() - from,
{
    if 0 <= from < s.len() && f(s[from]) {
        run_end(s, f, from + 1)
    } else {
        from
    }
}

/// Holds of letters and digits.
pub open spec fn alnum() -> spec_fn(char) -> bool {
    |c: char| ascii_alnum(c)
}

/// Holds of digits.
pub open spec fn digits() -> spec_fn(char) -> bool {
    |c: char| ascii_digit(c)
}

/// The characters that the values of a scheme are made of.
pub open spec fn value_chars(scheme: Seq<char>) -> spec_fn(char) -> bool {
    if scheme == "imdb"@ {
        alnum()
    } else {
        digits()
    }
}

/// An id with its scheme.
pub open spec fn id_text(scheme: Seq<char>, v: Seq<char>) -> Seq<char> {
    scheme + ":"@ + v
}

/// The value at a key that begins at `start`: the key stands after an opening bracket, a separator
/// follows it, and then the value.
pub open spec fn value_at_key(s: Seq<char>, scheme: Seq<char>, key: Seq<char>, start: int) -> Option<
    Seq<char>,
> {
    let after = start + key.len();
    if start > 0 && (s[start - 1] == '{' || s[start - 1] == '[' || s[start - 1] == '(') && after
        < s.len() && (s[after] == '-' || s[after] == '=' || s[after] == ':' || s[after] == ' ') {
        let v = s.subrange(after + 1, run_end(s, value_chars(scheme), after + 1));
        if is_valid(scheme, v) {
            Some(v)
        } else {
            None
        }
    } else {
        None
    }
}

/// The first value at the key, from `from` on.
pub open spec fn tagged_value(s: Seq<char>, scheme: Seq<char>, key: Seq<char>, from: int) -> Option<
    Seq<char>,
>
    decreases s.len() - from,
{
    match find_from(s, key, from) {
        None => None,
        Some(start) => match value_at_key(s, scheme, key, start) {
            Some(v) => Some(v),
            None => if key.len() > 0 && start >= from && start + key.len() <= s.len() {
                tagged_value(s, scheme, key, start + key.len())
            } else {
                None
            },
        },
    }
}

/// The value at the keys of a scheme: `<scheme>id` before `<scheme>`.
pub open spec fn scheme_value(s: Seq<char>, scheme: Seq<char>) -> Option<Seq<char>> {
    match tagged_value(s, scheme, scheme + "id"@, 0) {
        Some(v) => Some(v),
        None => tagged_value(s, scheme, scheme, 0),
    }
}

/// The id in one component of a path, given in lowercase. TMDB ids come first, as they need no further
/// resolution.
pub open spec fn id_tag(lower: Seq<char>) -> Option<Seq<char>> {
    match scheme_value(lower, "tmdb"@) {
        Some(v) => Some(id_text("tmdb"@, v)),
        None => match scheme_value(lower, "imdb"@) {
            Some(v) => Some(id_text("imdb"@, v)),
            None => match scheme_value(lower, "tvdb"@) {
                Some(v) => Some(id_text("tvdb"@, v)),
                None => None,
            },
        },
    }
}

/// Where the run of letters and digits, or of digits alone, that begins at `from` ends.
fn find_run_end(v: &Vec<char>, letters: bool, from: usize) -> (r: usize)
    requires
        from <= v@.len(),
    ensures
        r == run_end(
            v@,
            if letters {
                alnum()
            } else {
                digits()
            },
            from as int,
        ),
        from <= r <= v@.len(),
{
    let ghost f = if letters {
        alnum()
    } else {
        digits()
    };
    let mut i: usize = from;
    while i < v.len()
        invariant
            from <= i <= v@.len(),
            f == (if letters {
                alnum()
            } else {
                digits()
            }),
            run_end(v@, f, from as int) == run_end(v@, f, i as int),
        decreases v@.len() - i,
    {
        let c = v[i];
        let is_digit = '0' <= c && c <= '9';
        let is_letter = ('a' <= c && c <= 'z') || ('A' <= c && c <= 'Z');
        if !(is_digit || (letters && is_letter)) {
            return i;
        }
        i = i + 1;
    }
    i
}

/// Finds the first value at the key.
fn find_tagged(v: &Vec<char>, scheme: &str, key: &str) -> (r: Option<String>)
    requires
        key@.len() > 0,
    ensures
        opt(r) == tagged_value(v@, scheme@, key@, 0),
{
    let k = chars_of(key);
    let len: usize = v.len();
    let letters = same(scheme, "imdb");
    let mut from: usize = 0;
    loop
        invariant
            k@ == key@,
            key@.len() > 0,
            len == v@.len(),
            from <= len,
            letters == (scheme@ == "imdb"@),
            tagged_value(v@, scheme@, key@, 0) == tagged_value(v@, scheme@, key@, from as int),
        decreases len - from,
    {
        let start = match find(v, &k, from) {
            Some(start) => start,
            None => {
                return None;
            },
        };
        let after: usize = start + k.len();
        if start > 0 && (v[start - 1] == '{' || v[start - 1] == '[' || v[start - 1] == '(') && after
            < len && (v[after] == '-' || v[after] == '=' || v[after] == ':' || v[after] == ' ') {
            let end = find_run_end(v, letters, after + 1);
            let value = string_of(v, after + 1, end);
            if valid_value(scheme, value.as_str()) {
                return Some(value);
            }
        }
        from = after;
    }
}

/// Finds the value at the keys of a scheme.
fn find_scheme(v: &Vec<char>, scheme: &str) -> (r: Option<String>)
    requires
        scheme@.len() > 0,
    ensures
        opt(r) == scheme_value(v@, scheme@),
{
    let long = cat(scheme, "id");
    match find_tagged(v, scheme, long.as_str()) {
        Some(value) => Some(value),
        None => find_tagged(v, scheme, scheme),
    }
}

/// Reads the id off a component of a path, given in lowercase. Recognized are forms such as
/// `{tmdb-123}`, `[tmdbid=123]` and `[imdbid-tt0903747]`; the bracket keeps plain words out.
pub fn id_tag_in(lower: &str) -> (r: Option<String>)
    ensures
        opt(r) == id_tag(lower@),
{
    proof {
        reveal_strlit("tmdb");
        reveal_strlit("imdb");
        reveal_strlit("tvdb");
    }
    let v = chars_of(lower);
    if let Some(value) = find_scheme(&v, "tmdb") {
        return Some(cat3("tmdb", ":", value.as_str()));
    }
    if let Some(value) = find_scheme(&v, "imdb") {
        return Some(cat3("imdb", ":", value.as_str()));
    }
    if let Some(value) = find_scheme(&v, "tvdb") {
        return Some(cat3("tvdb", ":", value.as_str()));
    }
    None
}

/// Reads the id off a component of a path, whatever the case of its letters.
pub fn extract_id_tag(component: &str) -> (r: Option<String>)
    ensures
        opt(r) == id_tag(lowercase(component@)),
{
    id_tag_in(to_lowercase(component).as_str())
}

/// Holds of one character.
pub open spec fn is_char(x: char) -> spec_fn(char) -> bool {
    |c: char| c == x
}

/// The value of the first `<uniqueid>` tag from `from` on that names the scheme in quotes and has a
/// valid value.
pub open spec fn unique_id(s: Seq<char>, scheme: Seq<char>, from: int) -> Option<Seq<char>>
    decreases s.len() - from,
{
    match find_from(s, "<uniqueid"@, from) {
        None => None,
        Some(start) => match find_char(s, is_char('>'), start) {
            None => None,
            Some(end) => {
                let attrs = s.subrange(start, end);
                if !(from <= start <= end < s.len()) {
                    None
                } else if !contains_str(attrs, "\""@ + scheme + "\""@) && !contains_str(
                    attrs,
                    "'"@ + scheme + "'"@,
                ) {
                    unique_id(s, scheme, end + 1)
                } else {
                    match find_char(s, is_char('<'), end + 1) {
                        None => None,
                        Some(close) => {
                            let v = trimmed(s.subrange(end + 1, close));
                            if is_valid(scheme, v) {
                                Some(v)
                            } else {
                                unique_id(s, scheme, end + 1)
                            }
                        },
                    }
                }
            },
        },
    }
}

/// The value after the first `tag`, up to the next `<`.
pub open spec fn legacy_id(s: Seq<char>, scheme: Seq<char>, tag: Seq<char>) -> Option<Seq<char>> {
    match find_from(s, tag, 0) {
        None => None,
        Some(pos) => match find_char(s, is_char('<'), pos + tag.len()) {
            None => None,
            Some(close) => {
                let v = trimmed(s.subrange(pos + tag.len(), close));
                if is_valid(scheme, v) {
                    Some(v)
                } else {
                    None
                }
            },
        },
    }
}

/// The digits after the first `marker`.
pub open spec fn digits_after(s: Seq<char>, marker: Seq<char>) -> Option<Seq<char>> {
    match find_from(s, marker, 0) {
        None => None,
        Some(pos) => {
            let start = pos + marker.len();
            let v = s.subrange(start, run_end(s, digits(), start));
            if v.len() > 0 {
                Some(v)
            } else {
                None
            }
        },
    }
}

/// The id in an IMDb address.
pub open spec fn imdb_address(s: Seq<char>) -> Option<Seq<char>> {
    match find_from(s, "imdb.com/title/tt"@, 0) {
        None => None,
        Some(pos) => {
            let start = pos + "imdb.com/title/"@.len();
            let v = s.subrange(start, run_end(s, alnum(), start));
            if is_valid("imdb"@, v) {
                Some(v)
            } else {
                None
            }
        },
    }
}

/// One or the other.
pub open spec fn either(a: Option<Seq<char>>, b: Option<Seq<char>>) -> Option<Seq<char>> {
    if a is Some {
        a
    } else {
        b
    }
}

/// A value with its scheme.
pub open spec fn with_scheme(scheme: Seq<char>, v: Option<Seq<char>>) -> Option<Seq<char>> {
    match v {
        Some(x) => Some(id_text(scheme, x)),
        None => None,
    }
}

/// The id in a sidecar, given in lowercase: in a `<uniqueid>` tag, in a tag of the scheme's own, in an
/// address of TMDB, in an `<id>` tag, or in an address of IMDb.
pub open spec fn nfo_id(s: Seq<char>) -> Option<Seq<char>> {
    let unique = either(
        with_scheme("tmdb"@, unique_id(s, "tmdb"@, 0)),
        either(
            with_scheme("imdb"@, unique_id(s, "imdb"@, 0)),
            with_scheme("tvdb"@, unique_id(s, "tvdb"@, 0)),
        ),
    );
    let legacy = either(
        with_scheme("tmdb"@, legacy_id(s, "tmdb"@, "<tmdbid>"@)),
        either(
            with_scheme("imdb"@, legacy_id(s, "imdb"@, "<imdbid>"@)),
            with_scheme("tvdb"@, legacy_id(s, "tvdb"@, "<tvdbid>"@)),
        ),
    );
    let address = either(
        with_scheme("tmdb"@, digits_after(s, "themoviedb.org/movie/"@)),
        either(
            with_scheme("tmdb"@, digits_after(s, "themoviedb.org/tv/"@)),
            either(
                with_scheme("imdb"@, legacy_id(s, "imdb"@, "<id>"@)),
                with_scheme("imdb"@, imdb_address(s)),
            ),
        ),
    );
    either(unique, either(legacy, address))
}

/// Finds a character from `from` on.
fn find_one(v: &Vec<char>, x: char, from: usize) -> (r: Option<usize>)
    requires
        from <= v@.len(),
    ensures
        r is Some <==> find_char(v@, is_char(x), from as int) is Some,
        r matches Some(i) ==> Some(i as int) == find_char(v@, is_char(x), from as int) && from <= i
            < v@.len(),
{
    let ghost f = is_char(x);
    let mut i: usize = from;
    while i < v.len()
        invariant
            from <= i <= v@.len(),
            f == is_char(x),
            find_char(v@, f, from as int) == find_char(v@, f, i as int),
        decreases v@.len() - i,
    {
        if v[i] == x {
            return Some(i);
        }
        i = i + 1;
    }
    None
}

/// Finds the value of a `<uniqueid>` tag of the scheme.
fn find_unique(v: &Vec<char>, scheme: &str) -> (r: Option<String>)
    ensures
        opt(r) == unique_id(v@, scheme@, 0),
{
    proof {
        reveal_strlit("<uniqueid");
    }
    let tag = chars_of("<uniqueid");
    let double = cat3("\"", scheme, "\"");
    let single = cat3("'", scheme, "'");
    let len: usize = v.len();
    let mut from: usize = 0;
    loop
        invariant
            tag@ == "<uniqueid"@,
            tag@.len() == 9,
            double@ == "\""@ + scheme@ + "\""@,
            single@ == "'"@ + scheme@ + "'"@,
            len == v@.len(),
            from <= len,
            unique_id(v@, scheme@, 0) == unique_id(v@, scheme@, from as int),
        decreases len - from,
    {
        let start = match find(v, &tag, from) {
            Some(start) => start,
            None => {
                return None;
            },
        };
        let end = match find_one(v, '>', start) {
            Some(end) => end,
            None => {
                return None;
            },
        };
        let attrs = string_of(v, start, end);
        if contains(attrs.as_str(), double.as_str()) || contains(attrs.as_str(), single.as_str()) {
            let close = match find_one(v, '<', end + 1) {
                Some(close) => close,
                None => {
                    return None;
                },
            };
            let value = trim(string_of(v, end + 1, close).as_str());
            if valid_value(scheme, value.as_str()) {
                return Some(value);
            }
        }
        from = end + 1;
    }
}

/// Finds the value after a tag of the scheme's own.
fn find_legacy(v: &Vec<char>, scheme: &str, tag: &str) -> (r: Option<String>)
    ensures
        opt(r) == legacy_id(v@, scheme@, tag@),
{
    let t = chars_of(tag);
    let pos = match find(v, &t, 0) {
        Some(pos) => pos,
        None => {
            return None;
        },
    };
    let len: usize = v.len();
    assert(pos + t@.len() <= len);
    let start: usize = pos + t.len();
    let close = match find_one(v, '<', start) {
        Some(close) => close,
        None => {
            return None;
        },
    };
    let value = trim(string_of(v, start, close).as_str());
    if valid_value(scheme, value.as_str()) {
        Some(value)
    } else {
        None
    }
}

/// Finds the digits after a marker.
fn find_digits_after(v: &Vec<char>, marker: &str) -> (r: Option<String>)
    ensures
        opt(r) == digits_after(v@, marker@),
{
    let m = chars_of(marker);
    let pos = match find(v, &m, 0) {
        Some(pos) => pos,
        None => {
            return None;
        },
    };
    let len: usize = v.len();
    assert(pos + m@.len() <= len);
    let start: usize = pos + m.len();
    let end = find_run_end(v, false, start);
    if end > start {
        Some(string_of(v, start, end))
    } else {
        None
    }
}

/// Finds the id in an IMDb address.
fn find_imdb_address(v: &Vec<char>) -> (r: Option<String>)
    ensures
        opt(r) == imdb_address(v@),
{
    proof {
        reveal_strlit("imdb.com/title/");
        reveal_strlit("imdb.com/title/tt");
    }
    let pos = match find(v, &chars_of("imdb.com/title/tt"), 0) {
        Some(pos) => pos,
        None => {
            return None;
        },
    };
    let len: usize = v.len();
    assert(pos + 17 <= len);
    let start: usize = pos + 15;
    let end = find_run_end(v, true, start);
    let value = string_of(v, start, end);
    if valid_value("imdb", value.as_str()) {
        Some(value)
    } else {
        None
    }
}

/// Reads the id off a sidecar, given in lowercase. Sidecars are often malformed, so they are scanned
/// and not parsed.
pub fn nfo_id_in(lower: &str) -> (r: Option<String>)
    ensures
        opt(r) == nfo_id(lower@),
{
    let v = chars_of(lower);
    if let Some(value) = find_unique(&v, "tmdb") {
        return Some(cat3("tmdb", ":", value.as_str()));
    }
    if let Some(value) = find_unique(&v, "imdb") {
        return Some(cat3("imdb", ":", value.as_str()));
    }
    if let Some(value) = find_unique(&v, "tvdb") {
        return Some(cat3("tvdb", ":", value.as_str()));
    }
    if let Some(value) = find_legacy(&v, "tmdb", "<tmdbid>") {
        return Some(cat3("tmdb", ":", value.as_str()));
    }
    if let Some(value) = find_legacy(&v, "imdb", "<imdbid>") {
        return Some(cat3("imdb", ":", value.as_str()));
    }
    if let Some(value) = find_legacy(&v, "tvdb", "<tvdbid>") {
        return Some(cat3("tvdb", ":", value.as_str()));
    }
    if let Some(value) = find_digits_after(&v, "themoviedb.org/movie/") {
        return Some(cat3("tmdb", ":", value.as_str()));
    }
    if let Some(value) = find_digits_after(&v, "themoviedb.org/tv/") {
        return Some(cat3("tmdb", ":", value.as_str()));
    }
    if let Some(value) = find_legacy(&v, "imdb", "<id>") {
        return Some(cat3("imdb", ":", value.as_str()));
    }
    if let Some(value) = find_imdb_address(&v) {
        return Some(cat3("imdb", ":", value.as_str()));
    }
    None
}

/// Reads the id off a sidecar.
pub fn parse_nfo_content(content: &str) -> (r: Option<String>)
    ensures
        opt(r) == nfo_id(lowercase(content@)),
{
    nfo_id_in(to_lowercase(content).as_str())
}

/// The id in the names of a path's last `n` components, the last of them first.
pub open spec fn path_id(path: Seq<char>, n: nat) -> Option<Seq<char>>
    decreases n,
{
    if n == 0 {
        None
    } else {
        let own = match file_name_of(path) {
            Some(name) => id_tag(lowercase(name)),
            None => None,
        };
        match (own, parent_of(path)) {
            (Some(id), _) => Some(id),
            (None, Some(p)) => path_id(p, (n - 1) as nat),
            (None, None) => None,
        }
    }
}

/// Where the sidecars of a file may be: next to it, and up to two directories above.
pub open spec fn nfo_paths(file: Seq<char>) -> Seq<Seq<char>> {
    let own = seq![with_ext(file, "nfo"@)];
    match parent_of(file) {
        None => own,
        Some(dir) => {
            let here = own + seq![join_of(dir, "movie.nfo"@), join_of(dir, "tvshow.nfo"@)];
            match parent_of(dir) {
                None => here,
                Some(p) => {
                    let above = here + seq![join_of(p, "tvshow.nfo"@)];
                    match parent_of(p) {
                        None => above,
                        Some(g) => above + seq![join_of(g, "tvshow.nfo"@)],
                    }
                },
            }
        },
    }
}

/// Lists where the sidecars of a file may be, in the order in which they are to be read.
pub fn nfo_candidates(file: &str) -> (r: Vec<String>)
    ensures
        views(r@) == nfo_paths(file@),
{
    let mut r: Vec<String> = Vec::new();
    push_copy(&mut r, with_extension(file, "nfo").as_str());
    assert(views(r@) =~= seq![with_ext(file@, "nfo"@)]);
    if let Some(dir) = parent(file) {
        let ghost own = views(r@);
        push_copy(&mut r, join_name(dir.as_str(), "movie.nfo").as_str());
        push_copy(&mut r, join_name(dir.as_str(), "tvshow.nfo").as_str());
        assert(views(r@) =~= own + seq![
            join_of(dir@, "movie.nfo"@),
            join_of(dir@, "tvshow.nfo"@),
        ]);
        if let Some(p) = parent(dir.as_str()) {
            let ghost here = views(r@);
            push_copy(&mut r, join_name(p.as_str(), "tvshow.nfo").as_str());
            assert(views(r@) =~= here + seq![join_of(p@, "tvshow.nfo"@)]);
            if let Some(g) = parent(p.as_str()) {
                let ghost above = views(r@);
                push_copy(&mut r, join_name(g.as_str(), "tvshow.nfo").as_str());
                assert(views(r@) =~= above + seq![join_of(g@, "tvshow.nfo"@)]);
            }
        }
    }
    r
}

/// The id in the first sidecar from `from` on that has one.
pub open spec fn first_nfo_id(nfos: Seq<Option<String>>, from: int) -> Option<Seq<char>>
    decreases nfos.len() - from,
{
    if from < 0 || from >= nfos.len() {
        None
    } else {
        let own = match nfos[from] {
            Some(content) => nfo_id(lowercase(content@)),
            None => None,
        };
        either(own, first_nfo_id(nfos, from + 1))
    }
}

/// Reads the id off the names of a path's last four components.
pub fn id_from_path(file: &str) -> (r: Option<String>)
    ensures
        opt(r) == path_id(file@, 4),
{
    let mut current = file.to_owned();
    let mut left: u8 = 4;
    while left > 0
        invariant
            left <= 4,
            path_id(file@, 4) == path_id(current@, left as nat),
        decreases left,
    {
        if let Some(name) = file_name(current.as_str()) {
            if let Some(id) = extract_id_tag(name.as_str()) {
                return Some(id);
            }
        }
        match parent(current.as_str()) {
            Some(p) => {
                current = p;
            },
            None => {
                return None;
            },
        }
        left = left - 1;
    }
    None
}

/// Looks for an explicit id of a media file: first in the names of the file and of the directories that
/// it is in, then in its sidecars, where `nfos` are the contents of the candidates that could be read.
pub fn discover_external_id(file: &str, nfos: &Vec<Option<String>>) -> (r: Option<String>)
    ensures
        opt(r) == either(path_id(file@, 4), first_nfo_id(nfos@, 0)),
{
    if let Some(id) = id_from_path(file) {
        return Some(id);
    }
    let mut i: usize = 0;
    while i < nfos.len()
        invariant
            0 <= i <= nfos@.len(),
            first_nfo_id(nfos@, 0) == first_nfo_id(nfos@, i as int),
            path_id(file@, 4) is None,
        decreases nfos@.len() - i,
    {
        if let Some(content) = &nfos[i] {
            if let Some(id) = parse_nfo_content(content.as_str()) {
                return Some(id);
            }
        }
        i = i + 1;
    }
    None
}

/// A run of characters ends where the first other one stands.
proof fn lemma_run_end(s: Seq<char>, f: spec_fn(char) -> bool, from: int, end: int)
    requires
        0 <= from <= end <= s.len(),
        forall|i: int| from <= i < end ==> f(#[trigger] s[i]),
        end < s.len() ==> !f(s[end]),
    ensures
        run_end(s, f, from) == end,
    decreases end - from,
{
    if from < end {
        lemma_run_end(s, f, from + 1, end);
    }
}

/// The value of a key in brackets is the run of digits behind it, or for IMDb the run of letters and digits.
pub proof fn law_ids_are_read_in_brackets(
    scheme: Seq<char>,
    before: Seq<char>,
    bracket: char,
    key: Seq<char>,
    separator: char,
    v: Seq<char>,
    after: Seq<char>,
)
    requires
        seq!['{', '[', '('].contains(bracket),
        seq!['-', '=', ':', ' '].contains(separator),
        scheme != "imdb"@ ==> v.len() > 0 && all_digits(v) && (after.len() > 0 ==> !ascii_digit(after[0])),
        scheme == "imdb"@ ==> "tt"@.is_prefix_of(v) && byte_len(v) > 3 && (forall|i: int|
            0 <= i < v.len() ==> ascii_alnum(#[trigger] v[i])) && (after.len() > 0 ==> !ascii_alnum(
            after[0],
        )),
    ensures
        value_at_key(
            before + seq![bracket] + key + seq![separator] + v + after,
            scheme,
            key,
            before.len() as int + 1,
        ) == Some(v),
{
    let s = before + seq![bracket] + key + seq![separator] + v + after;
    let start = before.len() as int + 1;
    let at = start + key.len() + 1;
    let end = at + v.len();
    let b = choose|i: int| 0 <= i < 3 && seq!['{', '[', '('][i] == bracket;
    let p = choose|i: int| 0 <= i < 4 && seq!['-', '=', ':', ' '][i] == separator;
    assert(s[start - 1] == bracket);
    assert(s[start + key.len()] == separator);
    let f = value_chars(scheme);
    assert forall|i: int| at <= i < end implies f(#[trigger] s[i]) by {
        assert(s[i] == v[i - at]);
    }
    if end < s.len() {
        assert(s[end] == after[0]);
    }
    lemma_run_end(s, f, at, end);
    assert(s.subrange(at, end) =~= v);
}

/// A value that is read off a name can be an id of its scheme.
proof fn lemma_tagged_value(s: Seq<char>, scheme: Seq<char>, key: Seq<char>, from: int)
    ensures
        tagged_value(s, scheme, key, from) matches Some(v) ==> is_valid(scheme, v),
    decreases s.len() - from,
{
    if let Some(start) = find_from(s, key, from) {
        if value_at_key(s, scheme, key, start) is None && key.len() > 0 && start >= from && start
            + key.len() <= s.len() {
            lemma_tagged_value(s, scheme, key, start + key.len());
        }
    }
}

/// What is read off a name is an id of TMDB, else of IMDb, else of TVDB, whichever the name has, and its value
/// is one that such an id can have.
pub proof fn law_ids_in_names(s: Seq<char>)
    ensures
        scheme_value(s, "tmdb"@) matches Some(v) ==> v.len() > 0 && all_digits(v) && id_tag(s) == Some(
            "tmdb:"@ + v,
        ),
        scheme_value(s, "tmdb"@) is None ==> (scheme_value(s, "imdb"@) matches Some(v) ==> "tt"@.is_prefix_of(
            v,
        ) && id_tag(s) == Some("imdb:"@ + v)),
        scheme_value(s, "tmdb"@) is None && scheme_value(s, "imdb"@) is None ==> (scheme_value(
            s,
            "tvdb"@,
        ) matches Some(v) ==> v.len() > 0 && all_digits(v) && id_tag(s) == Some("tvdb:"@ + v)),
        id_tag(s) is None ==> scheme_value(s, "tmdb"@) is None && scheme_value(s, "imdb"@) is None
            && scheme_value(s, "tvdb"@) is None,
{
    lemma_scheme_texts();
    lemma_tagged_value(s, "tmdb"@, "tmdb"@ + "id"@, 0);
    lemma_tagged_value(s, "tmdb"@, "tmdb"@, 0);
    lemma_tagged_value(s, "imdb"@, "imdb"@ + "id"@, 0);
    lemma_tagged_value(s, "imdb"@, "imdb"@, 0);
    lemma_tagged_value(s, "tvdb"@, "tvdb"@ + "id"@, 0);
    lemma_tagged_value(s, "tvdb"@, "tvdb"@, 0);
}

/// The names of the schemes, and how ids begin.
proof fn lemma_scheme_texts()
    ensures
        "tmdb"@ + ":"@ == "tmdb:"@,
        "imdb"@ + ":"@ == "imdb:"@,
        "tvdb"@ + ":"@ == "tvdb:"@,
        "tmdb"@ != "imdb"@,
        "tvdb"@ != "imdb"@,
{
    reveal_strlit("tmdb");
    reveal_strlit("imdb");
    reveal_strlit("tvdb");
    reveal_strlit("tmdb:");
    reveal_strlit("imdb:");
    reveal_strlit("tvdb:");
    reveal_strlit(":");
    assert("tmdb"@[0] == 't' && "imdb"@[0] == 'i' && "tvdb"@[0] == 't');
    assert("tmdb"@ + ":"@ =~= "tmdb:"@);
    assert("imdb"@ + ":"@ =~= "imdb:"@);
    assert("tvdb"@ + ":"@ =~= "tvdb:"@);
}

/// An id tag of a scheme gives its value: the tag names the scheme in quotes, and what stands between it and
/// the next tag, without whitespace around it, can be an id of the scheme.
pub proof fn law_unique_ids_are_read(
    scheme: Seq<char>,
    before: Seq<char>,
    attributes: Seq<char>,
    body: Seq<char>,
    after: Seq<char>,
)
    requires
        "<uniqueid"@.is_prefix_of(attributes),
        !attributes.contains('>'),
        contains_str(attributes, "\""@ + scheme + "\""@) || contains_str(
            attributes,
            "'"@ + scheme + "'"@,
        ),
        !body.contains('<'),
        is_valid(scheme, trimmed(body)),
        forall|j: int|
            0 <= j < before.len() ==> !occurs_at(
                before + attributes + seq!['>'] + body + seq!['<'] + after,
                "<uniqueid"@,
                j,
            ),
    ensures
        unique_id(before + attributes + seq!['>'] + body + seq!['<'] + after, scheme, 0) == Some(
            trimmed(body),
        ),
{
    let s = before + attributes + seq!['>'] + body + seq!['<'] + after;
    let tag = "<uniqueid"@;
    let start = before.len() as int;
    let end = start + attributes.len();
    let close = end + 1 + body.len();
    reveal_strlit("<uniqueid");
    assert(s.subrange(start, start + tag.len()) =~= attributes.subrange(0, tag.len() as int));
    assert(occurs_at(s, tag, start));
    lemma_find_from(s, tag, 0);
    assert(find_from(s, tag, 0) == Some(start));
    assert forall|i: int| start <= i < end implies s[i] != '>' by {
        assert(s[i] == attributes[i - start]);
        assert(attributes.contains(attributes[i - start]));
    }
    assert(s[end] == '>');
    lemma_finds(s, '>', start, end);
    assert(s.subrange(start, end) =~= attributes);
    assert forall|i: int| end + 1 <= i < close implies s[i] != '<' by {
        assert(s[i] == body[i - end - 1]);
        assert(body.contains(body[i - end - 1]));
    }
    assert(s[close] == '<');
    lemma_finds(s, '<', end + 1, close);
    assert(s.subrange(end + 1, close) =~= body);
}

/// A search stops at the first place of a character.
proof fn lemma_finds(s: Seq<char>, x: char, from: int, at: int)
    requires
        0 <= from <= at < s.len(),
        s[at] == x,
        forall|i: int| from <= i < at ==> s[i] != x,
    ensures
        find_char(s, is_char(x), from) == Some(at),
    decreases at - from,
{
    if from < at {
        lemma_finds(s, x, from + 1, at);
    }
}

/// A sidecar has an id wherever one of its parts gives one. Tags of ids count before tags of the schemes' own,
/// and these before addresses; of the schemes TMDB counts first.
pub proof fn law_sidecars_are_read_in_turn(s: Seq<char>)
    ensures
        unique_id(s, "tmdb"@, 0) matches Some(v) ==> nfo_id(s) == Some("tmdb:"@ + v),
        unique_id(s, "tmdb"@, 0) is None ==> (unique_id(s, "imdb"@, 0) matches Some(v) ==> nfo_id(s)
            == Some("imdb:"@ + v)),
        unique_id(s, "tmdb"@, 0) is None && unique_id(s, "imdb"@, 0) is None ==> (unique_id(
            s,
            "tvdb"@,
            0,
        ) matches Some(v) ==> nfo_id(s) == Some("tvdb:"@ + v)),
        unique_id(s, "tmdb"@, 0) is None && unique_id(s, "imdb"@, 0) is None && unique_id(s, "tvdb"@, 0)
            is None ==> {
            let tmdb = legacy_id(s, "tmdb"@, "<tmdbid>"@);
            let imdb = legacy_id(s, "imdb"@, "<imdbid>"@);
            let tvdb = legacy_id(s, "tvdb"@, "<tvdbid>"@);
            let movie = digits_after(s, "themoviedb.org/movie/"@);
            let show = digits_after(s, "themoviedb.org/tv/"@);
            let plain = legacy_id(s, "imdb"@, "<id>"@);
            let address = imdb_address(s);
            &&& tmdb matches Some(v) ==> nfo_id(s) == Some("tmdb:"@ + v)
            &&& tmdb is None && imdb is Some ==> nfo_id(s) == Some("imdb:"@ + imdb->0)
            &&& tmdb is None && imdb is None && tvdb is Some ==> nfo_id(s) == Some("tvdb:"@ + tvdb->0)
            &&& tmdb is None && imdb is None && tvdb is None ==> {
                &&& movie matches Some(v) ==> nfo_id(s) == Some("tmdb:"@ + v)
                &&& movie is None && show is Some ==> nfo_id(s) == Some("tmdb:"@ + show->0)
                &&& movie is None && show is None && plain is Some ==> nfo_id(s) == Some("imdb:"@ + plain->0)
                &&& movie is None && show is None && plain is None && address is Some ==> nfo_id(s) == Some(
                    "imdb:"@ + address->0,
                )
            }
        },
{
    lemma_scheme_texts();
}

/// The value of a tag of the scheme's own is what stands between it and the next tag.
pub proof fn law_plain_tags_are_read(
    scheme: Seq<char>,
    before: Seq<char>,
    tag: Seq<char>,
    body: Seq<char>,
    after: Seq<char>,
)
    requires
        !body.contains('<'),
        forall|j: int|
            0 <= j < before.len() ==> !occurs_at(before + tag + body + seq!['<'] + after, tag, j),
    ensures
        legacy_id(before + tag + body + seq!['<'] + after, scheme, tag) == (if is_valid(
            scheme,
            trimmed(body),
        ) {
            Some(trimmed(body))
        } else {
            None
        }),
{
    let s = before + tag + body + seq!['<'] + after;
    let start = before.len() as int;
    let from = start + tag.len();
    let close = from + body.len();
    assert(s.subrange(start, from) =~= tag);
    assert(occurs_at(s, tag, start));
    lemma_find_from(s, tag, 0);
    assert(find_from(s, tag, 0) == Some(start));
    assert forall|i: int| from <= i < close implies s[i] != '<' by {
        assert(s[i] == body[i - from]);
        assert(body.contains(body[i - from]));
    }
    assert(s[close] == '<');
    lemma_finds(s, '<', from, close);
    assert(s.subrange(from, close) =~= body);
}

/// The id of an address is the run of digits behind it.
pub proof fn law_addresses_are_read(before: Seq<char>, marker: Seq<char>, v: Seq<char>, after: Seq<char>)
    requires
        v.len() > 0,
        all_digits(v),
        after.len() > 0 ==> !ascii_digit(after[0]),
        forall|j: int| 0 <= j < before.len() ==> !occurs_at(before + marker + v + after, marker, j),
    ensures
        digits_after(before + marker + v + after, marker) == Some(v),
{
    let s = before + marker + v + after;
    let start = before.len() as int;
    let from = start + marker.len();
    let end = from + v.len();
    assert(s.subrange(start, from) =~= marker);
    assert(occurs_at(s, marker, start));
    lemma_find_from(s, marker, 0);
    assert(find_from(s, marker, 0) == Some(start));
    let f = digits();
    assert forall|i: int| from <= i < end implies f(#[trigger] s[i]) by {
        assert(s[i] == v[i - from]);
    }
    if end < s.len() {
        assert(s[end] == after[0]);
    }
    lemma_run_end(s, f, from, end);
    assert(s.subrange(from, end) =~= v);
}

/// An id in the name of the file counts first, and one in the name of a directory counts where nothing below
/// it has one, for the three directories above the file.
pub proof fn law_directories_are_searched_upwards(
    path: Seq<char>,
    name: Seq<char>,
    dir: Seq<char>,
    above: Seq<char>,
    top: Seq<char>,
)
    requires
        file_name_of(path) == Some(name),
        parent_of(path) == Some(dir),
        parent_of(dir) == Some(above),
        parent_of(above) == Some(top),
    ensures
        id_tag(lowercase(name)) is Some ==> path_id(path, 4) == id_tag(lowercase(name)),
        id_tag(lowercase(name)) is None ==> (file_name_of(dir) matches Some(d) ==> {
            &&& id_tag(lowercase(d)) is Some ==> path_id(path, 4) == id_tag(lowercase(d))
            &&& id_tag(lowercase(d)) is None ==> (file_name_of(above) matches Some(a) ==> {
                &&& id_tag(lowercase(a)) is Some ==> path_id(path, 4) == id_tag(lowercase(a))
                &&& id_tag(lowercase(a)) is None ==> (file_name_of(top) matches Some(t) ==> (id_tag(
                    lowercase(t),
                ) is Some ==> path_id(path, 4) == id_tag(lowercase(t))))
            })
        }),
{
    reveal_with_fuel(path_id, 5);
}

/// Where the sidecars of a file are looked for: its own next to it, those of a movie and a show in its
/// directory, and that of a show in the two directories above.
pub proof fn law_sidecars_are_looked_for(
    file: Seq<char>,
    dir: Seq<char>,
    above: Seq<char>,
    top: Seq<char>,
)
    requires
        parent_of(file) == Some(dir),
        parent_of(dir) == Some(above),
        parent_of(above) == Some(top),
    ensures
        nfo_paths(file) == seq![
            with_ext(file, "nfo"@),
            join_of(dir, "movie.nfo"@),
            join_of(dir, "tvshow.nfo"@),
            join_of(above, "tvshow.nfo"@),
            join_of(top, "tvshow.nfo"@),
        ],
{
}

/// The first sidecar that has an id counts.
pub proof fn law_the_first_sidecar_with_an_id_counts(nfos: Seq<Option<String>>, from: int, i: int)
    requires
        0 <= from <= i < nfos.len(),
        nfos[i] matches Some(content) && nfo_id(lowercase(content@)) is Some,
        forall|j: int|
            from <= j < i ==> ((#[trigger] nfos[j]) matches Some(content) ==> nfo_id(lowercase(content@))
                is None),
    ensures
        first_nfo_id(nfos, from) == nfo_id(lowercase(nfos[i]->0@)),
    decreases i - from,
{
    if from < i {
        law_the_first_sidecar_with_an_id_counts(nfos, from + 1, i);
    }
}

}
