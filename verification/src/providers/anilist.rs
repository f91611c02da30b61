//! What AniList answers.
//!
//! AniList has an entry of its own for each season of a show. An entry is taken for a show with one
//! season, whose episodes are those that it lists and, up to the number that it declares, others that
//! are made up, so that files still match.

use vstd::prelude::*;

use crate::external::{ExternalEpisode, ExternalMedia, ExternalSeason};
use crate::filename::opt;
use crate::providers::dates::{first_day, start_of, FuzzyDate};
use crate::providers::ranking::{
    add_episode, episode_added, episode_numbers, in_number_order, law_added_episodes_are_in_order,
    law_added_episodes_are_there, lemma_number_place, number_place, prefer_year, preferred,
};
use crate::providers::tvmaze::{countable, in_seconds, listed, plain, plain_text, seconds};
use crate::scanner::records::copy_text;
use crate::text::{
    all_digits, ascii_digit, cat, cat3, chars_of, dec, dec_u64, parse_digits,
    parse_i64, prefix_cut, signed, string_of, strip_prefix, trim, trimmed, trimmed_end, trimmed_start,
    value, whitespace,
};

verus! {

/// An entry of AniList.
#[derive(Debug)]
pub struct AniListMedia {
    pub id: u64,
    pub title: AniListTitle,
    pub description: Option<String>,
    pub start_date: Option<FuzzyDate>,
    pub cover_image: Option<AniListCover>,
    pub banner_image: Option<String>,
    pub genres: Vec<String>,
    /// The average score on the scale of the library, a double by its bit pattern.
    pub average_score: Option<u64>,
    pub episodes: Option<u64>,
    /// In minutes.
    pub duration: Option<u64>,
    pub streaming_episodes: Vec<AniListStreamingEpisode>,
}

/// The titles of an entry.
#[derive(Debug)]
pub struct AniListTitle {
    pub romaji: Option<String>,
    pub english: Option<String>,
    pub native: Option<String>,
}

/// The cover of an entry.
#[derive(Debug)]
pub struct AniListCover {
    pub extra_large: Option<String>,
    pub large: Option<String>,
}

/// An episode that an entry lists.
#[derive(Debug)]
pub struct AniListStreamingEpisode {
    pub title: Option<String>,
    pub thumbnail: Option<String>,
}

/// The first of two texts that is there.
pub open spec fn or_text(a: Option<String>, b: Option<String>) -> Option<String> {
    match a {
        Some(_) => a,
        None => b,
    }
}

/// The cover that is taken.
pub open spec fn cover(c: Option<AniListCover>) -> Option<String> {
    match c {
        Some(c) => or_text(c.extra_large, c.large),
        None => None,
    }
}

/// The id of an entry.
pub open spec fn anilist_id(id: u64) -> Seq<char> {
    "anilist:"@ + dec(id as nat)
}

/// The id of an episode of an entry.
pub open spec fn anilist_episode_id(id: u64, n: nat) -> Seq<char> {
    anilist_id(id) + ":"@ + dec(n)
}

/// `m` is what an entry of AniList is.
pub open spec fn is_entry(m: ExternalMedia, a: AniListMedia) -> bool {
    &&& m.external_id@ == anilist_id(a.id)
    &&& m.title@ == match or_text(a.title.english, or_text(a.title.romaji, a.title.native)) {
        Some(t) => t@,
        None => Seq::empty(),
    }
    &&& m.original_title == or_text(a.title.romaji, a.title.native)
    &&& opt(m.description) == plain(a.description)
    &&& m.release_date == first_day(a.start_date)
    &&& m.posters@ == listed(cover(a.cover_image))
    &&& m.backdrops@ == listed(a.banner_image)
    &&& m.genres == a.genres
    &&& m.rating == a.average_score
    &&& m.duration == in_seconds(a.duration)
    &&& m.imdb_id is None
}

/// Copies the first of two texts that is there.
fn first_text(a: &Option<String>, b: &Option<String>) -> (r: Option<String>)
    ensures
        r == or_text(*a, *b),
{
    match a {
        Some(s) => Some(s.clone()),
        None => copy_text(b),
    }
}

/// Lists a text.
fn list_text(s: Option<String>) -> (r: Vec<String>)
    ensures
        r@ == listed(s),
{
    let mut r: Vec<String> = Vec::new();
    if let Some(s) = s {
        r.push(s);
    }
    assert(r@ =~= listed(s));
    r
}

/// Lists the cover that is taken.
fn list_cover(c: &Option<AniListCover>) -> (r: Vec<String>)
    ensures
        r@ == listed(cover(*c)),
{
    match c {
        Some(c) => list_text(first_text(&c.extra_large, &c.large)),
        None => list_text(None),
    }
}

/// Writes the id of an entry.
fn write_id(id: u64) -> (r: String)
    ensures
        r@ == anilist_id(id),
{
    let n = dec_u64(id);
    cat("anilist:", n.as_str())
}

/// Writes the id of an episode of an entry.
fn write_episode_id(id: u64, n: u64) -> (r: String)
    ensures
        r@ == anilist_episode_id(id, n as nat),
{
    let head = write_id(id);
    let tail = dec_u64(n);
    cat3(head.as_str(), ":", tail.as_str())
}

impl AniListMedia {
    /// What the entry is.
    pub fn into_media(self) -> (r: ExternalMedia)
        requires
            countable(self.duration),
        ensures
            is_entry(r, self),
    {
        let original_title = first_text(&self.title.romaji, &self.title.native);
        let title: String = match first_text(&self.title.english, &original_title) {
            Some(t) => t,
            None => {
                let t = String::new();
                assert(t@ =~= Seq::empty());
                t
            },
        };
        ExternalMedia {
            external_id: write_id(self.id),
            title,
            original_title,
            description: plain_text(&self.description),
            release_date: start_of(&self.start_date),
            posters: list_cover(&self.cover_image),
            backdrops: list_text(self.banner_image),
            genres: self.genres,
            rating: self.average_score,
            duration: seconds(self.duration),
            imdb_id: None,
        }
    }
}

/// `media` are what entries of AniList are.
pub open spec fn are_entries(media: Seq<ExternalMedia>, entries: Seq<AniListMedia>) -> bool {
    &&& media.len() == entries.len()
    &&& forall|i: int| 0 <= i < media.len() ==> is_entry(#[trigger] media[i], entries[i])
}

/// Gives the results of a search: those of the year, or all where there are none.
pub fn search_results(entries: Vec<AniListMedia>, year: Option<i32>) -> (r: Vec<ExternalMedia>)
    requires
        forall|i: int| 0 <= i < entries@.len() ==> countable((#[trigger] entries@[i]).duration),
    ensures
        exists|media: Seq<ExternalMedia>|
            are_entries(media, entries@) && r@ == #[trigger] preferred(media, year),
{
    let mut rest = entries;
    let ghost all = rest@;
    let mut media: Vec<ExternalMedia> = Vec::new();
    assert(all.skip(0) =~= all);
    while rest.len() > 0
        invariant
            media@.len() <= all.len(),
            rest@ == all.skip(media@.len() as int),
            forall|i: int| 0 <= i < all.len() ==> countable((#[trigger] all[i]).duration),
            forall|i: int| 0 <= i < media@.len() ==> is_entry(#[trigger] media@[i], all[i]),
        decreases rest@.len(),
    {
        let ghost k = media@.len() as int;
        let a = rest.remove(0);
        assert(a == all[k]);
        assert(rest@ =~= all.skip(k + 1));
        media.push(a.into_media());
    }
    assert(are_entries(media@, all));
    prefer_year(media, year)
}

/// Reads the number of an entry; what is no number has no entry.
pub fn entry_number(id: &str) -> (r: Option<i64>)
    ensures
        r is Some <==> signed(id@) is Some,
        r matches Some(n) ==> signed(id@) == Some(n as int),
{
    parse_i64(id)
}

/// `r` is the one season of an entry.
pub open spec fn is_only_season(r: Seq<ExternalSeason>, a: AniListMedia) -> bool {
    &&& r.len() == 1
    &&& r[0].external_id@ == anilist_id(a.id)
    &&& r[0].title is None
    &&& r[0].description is None
    &&& r[0].posters@ == listed(cover(a.cover_image))
    &&& r[0].season_number == 1
}

/// Gives the one season of an entry.
pub fn seasons_for_id(a: &AniListMedia) -> (r: Vec<ExternalSeason>)
    ensures
        is_only_season(r@, *a),
{
    let mut r: Vec<ExternalSeason> = Vec::new();
    r.push(
        ExternalSeason {
            external_id: write_id(a.id),
            title: None,
            description: None,
            posters: list_cover(&a.cover_image),
            season_number: 1,
        },
    );
    r
}

/// Where the run of digits from the start ends.
pub open spec fn digits_end(s: Seq<char>, from: int) -> int
    decreases s.len() - from,
{
    if 0 <= from < s.len() && ascii_digit(s[from]) {
        digits_end(s, from + 1)
    } else {
        from
    }
}

/// What stands between a number and a name.
pub open spec fn separators() -> spec_fn(char) -> bool {
    |c: char| c == ' ' || c == '-' || c == ':'
}

/// The title of an episode without the word before its number.
pub open spec fn after_word(title: Seq<char>) -> Seq<char> {
    match prefix_cut(trimmed(title), "Episode "@) {
        Some(rest) => rest,
        None => title,
    }
}

/// The number and the name that a title gives; one without a number is a name.
pub open spec fn streaming_title(title: Seq<char>) -> (Option<u64>, Option<Seq<char>>) {
    let rest = after_word(title);
    let n = digits_end(rest, 0);
    if n == 0 {
        (None, Some(title))
    } else {
        let number = value(rest.subrange(0, n));
        let name = trimmed(trimmed_start(rest.subrange(n, rest.len() as int), separators()));
        (
            if number <= u64::MAX {
                Some(number as u64)
            } else {
                None
            },
            if name.len() == 0 {
                None
            } else {
                Some(name)
            },
        )
    }
}

/// Finds where a run of digits ends.
fn end_of_digits(v: &Vec<char>) -> (r: usize)
    ensures
        r == digits_end(v@, 0),
        r <= v@.len(),
        all_digits(v@.subrange(0, r as int)),
{
    let mut i: usize = 0;
    while i < v.len() && '0' <= v[i] && v[i] <= '9'
        invariant
            0 <= i <= v@.len(),
            digits_end(v@, 0) == digits_end(v@, i as int),
            forall|j: int| 0 <= j < i ==> ascii_digit(#[trigger] v@[j]),
        decreases v@.len() - i,
    {
        i = i + 1;
    }
    i
}

/// Leaves out what stands before a name.
fn skip_separators(v: &Vec<char>, from: usize) -> (r: String)
    requires
        from <= v@.len(),
    ensures
        r@ == trimmed_start(v@.subrange(from as int, v@.len() as int), separators()),
{
    let mut i: usize = from;
    let len: usize = v.len();
    while i < len && (v[i] == ' ' || v[i] == '-' || v[i] == ':')
        invariant
            from <= i <= len == v@.len(),
            trimmed_start(v@.subrange(from as int, v@.len() as int), separators())
                == trimmed_start(v@.subrange(i as int, v@.len() as int), separators()),
        decreases len - i,
    {
        proof {
            let rest = v@.subrange(i as int, v@.len() as int);
            assert(rest[0] == v@[i as int]);
            assert(separators()(rest[0]));
            assert(rest.drop_first() =~= v@.subrange(i + 1, v@.len() as int));
        }
        i = i + 1;
    }
    proof {
        let rest = v@.subrange(i as int, v@.len() as int);
        if i < len {
            assert(rest[0] == v@[i as int]);
            assert(!separators()(rest[0]));
        }
    }
    string_of(v, i, len)
}

/// Reads the number and the name out of the title of an episode.
pub fn parse_streaming_title(title: &str) -> (r: (Option<u64>, Option<String>))
    ensures
        (r.0, opt(r.1)) == streaming_title(title@),
{
    let t = trim(title);
    let rest: String = match strip_prefix(t.as_str(), "Episode ") {
        Some(rest) => rest,
        None => title.to_string(),
    };
    let v = chars_of(rest.as_str());
    let n = end_of_digits(&v);
    if n == 0 {
        return (None, Some(title.to_string()));
    }
    let number = parse_digits(&v, 0, n, u64::MAX);
    let tail = skip_separators(&v, n);
    let name = trim(tail.as_str());
    if name.as_str().is_empty() {
        (number, None)
    } else {
        (number, Some(name))
    }
}

/// `x` is the episode at place `i` of those that an entry lists.
pub open spec fn is_listed_episode(x: ExternalEpisode, a: AniListMedia, i: int) -> bool {
    let ep = a.streaming_episodes@[i];
    let (number, name) = match ep.title {
        Some(t) => streaming_title(t@),
        None => (None, None),
    };
    &&& x.external_id@ == anilist_episode_id(a.id, (i + 1) as nat)
    &&& opt(x.title) == name
    &&& x.description is None
    &&& x.episode_number == match number {
        Some(n) => n,
        None => (i + 1) as u64,
    }
    &&& x.stills@ == listed(ep.thumbnail)
    &&& x.duration == in_seconds(a.duration)
}

/// `x` is the episode with this number, of which nothing else is known.
pub open spec fn is_made_up(x: ExternalEpisode, a: AniListMedia, n: u64) -> bool {
    &&& x.external_id@ == anilist_episode_id(a.id, n as nat)
    &&& x.title is None
    &&& x.description is None
    &&& x.episode_number == n
    &&& x.stills@.len() == 0
    &&& x.duration == in_seconds(a.duration)
}

/// The number of episodes up to which there are some: the declared one, a generous one where none is
/// declared, and not less than there are in the list.
pub open spec fn declared(a: AniListMedia) -> int {
    let n = match a.episodes {
        Some(n) => n as int,
        None => 100,
    };
    if n >= a.streaming_episodes@.len() {
        n
    } else {
        a.streaming_episodes@.len() as int
    }
}

/// `r` are the first `k` episodes that the entry lists, in the order of their numbers.
pub open spec fn are_listed(r: Seq<ExternalEpisode>, a: AniListMedia, k: int) -> bool
    decreases k,
{
    if k <= 0 {
        r.len() == 0
    } else {
        exists|front: Seq<ExternalEpisode>, x: ExternalEpisode|
            are_listed(front, a, k - 1) && is_listed_episode(x, a, k - 1) && r
                == #[trigger] episode_added(front, x)
    }
}

/// `r` are the episodes `listed` and, for each number up to `n` that none of them has, one that is made
/// up, in the order of their numbers.
pub open spec fn are_filled(
    r: Seq<ExternalEpisode>,
    list: Seq<ExternalEpisode>,
    a: AniListMedia,
    n: int,
) -> bool
    decreases n,
{
    if n <= 0 {
        r == list
    } else if episode_numbers(list).contains(n as u64) {
        are_filled(r, list, a, n - 1)
    } else {
        exists|front: Seq<ExternalEpisode>, x: ExternalEpisode|
            are_filled(front, list, a, n - 1) && is_made_up(x, a, n as u64) && r
                == #[trigger] episode_added(front, x)
    }
}

/// `r` are the episodes of a season of an entry; only the first season has any.
pub open spec fn are_episodes(r: Seq<ExternalEpisode>, a: AniListMedia, season: u64) -> bool {
    if season != 1 {
        r.len() == 0
    } else {
        exists|list: Seq<ExternalEpisode>|
            #[trigger] are_listed(list, a, a.streaming_episodes@.len() as int) && are_filled(
                r,
                list,
                a,
                declared(a),
            )
    }
}

/// Makes the episode at a place of those that an entry lists.
fn listed_episode(a: &AniListMedia, i: usize) -> (x: ExternalEpisode)
    requires
        i < a.streaming_episodes@.len(),
        countable(a.duration),
    ensures
        is_listed_episode(x, *a, i as int),
{
    let ep = &a.streaming_episodes[i];
    let (number, name): (Option<u64>, Option<String>) = match &ep.title {
        Some(t) => parse_streaming_title(t.as_str()),
        None => (None, None),
    };
    let len: usize = a.streaming_episodes.len();
    assert(i < len);
    let place: u64 = (i + 1) as u64;
    ExternalEpisode {
        external_id: write_episode_id(a.id, place),
        title: name,
        description: None,
        episode_number: match number {
            Some(n) => n,
            None => place,
        },
        stills: list_text(copy_text(&ep.thumbnail)),
        duration: seconds(a.duration),
    }
}

/// Tells if an episode has this number.
fn has_number(numbers: &Vec<u64>, n: u64) -> (r: bool)
    ensures
        r == numbers@.contains(n),
{
    let mut i: usize = 0;
    while i < numbers.len()
        invariant
            0 <= i <= numbers@.len(),
            forall|j: int| 0 <= j < i ==> numbers@[j] != n,
        decreases numbers@.len() - i,
    {
        if numbers[i] == n {
            return true;
        }
        i = i + 1;
    }
    false
}

/// Collects the numbers of episodes.
fn numbers_of(list: &Vec<ExternalEpisode>) -> (r: Vec<u64>)
    ensures
        r@ == episode_numbers(list@),
{
    let mut r: Vec<u64> = Vec::new();
    let mut i: usize = 0;
    while i < list.len()
        invariant
            0 <= i <= list@.len(),
            r@ =~= episode_numbers(list@.take(i as int)),
        decreases list@.len() - i,
    {
        r.push(list[i].episode_number);
        i = i + 1;
    }
    assert(list@.take(i as int) =~= list@);
    r
}

/// Gives the episodes of a season of an entry.
pub fn episodes_for_season(a: &AniListMedia, season_number: u64) -> (r: Vec<ExternalEpisode>)
    requires
        countable(a.duration),
    ensures
        are_episodes(r@, *a, season_number),
{
    let mut r: Vec<ExternalEpisode> = Vec::new();
    if season_number != 1 {
        return r;
    }
    let len: usize = a.streaming_episodes.len();
    let mut i: usize = 0;
    while i < len
        invariant
            0 <= i <= len == a.streaming_episodes@.len(),
            countable(a.duration),
            are_listed(r@, *a, i as int),
        decreases len - i,
    {
        let ghost front = r@;
        let x = listed_episode(a, i);
        add_episode(&mut r, x);
        assert(r@ == episode_added(front, x));
        i = i + 1;
    }
    let ghost list = r@;
    let have = numbers_of(&r);
    let count: u64 = match a.episodes {
        Some(n) => n,
        None => 100,
    };
    let declared: u64 = if count >= len as u64 {
        count
    } else {
        len as u64
    };
    let mut n: u64 = 0;
    while n < declared
        invariant
            0 <= n <= declared,
            declared == self::declared(*a),
            countable(a.duration),
            have@ == episode_numbers(list),
            are_filled(r@, list, *a, n as int),
        decreases declared - n,
    {
        n = n + 1;
        if !has_number(&have, n) {
            let ghost front = r@;
            let x = ExternalEpisode {
                external_id: write_episode_id(a.id, n),
                title: None,
                description: None,
                episode_number: n,
                stills: Vec::new(),
                duration: seconds(a.duration),
            };
            add_episode(&mut r, x);
            assert(is_made_up(x, *a, n));
            assert(r@ == episode_added(front, x));
        }
    }
    r
}

/// Putting an episode into its place keeps the numbers that are there, and adds its own.
proof fn lemma_added_numbers(list: Seq<ExternalEpisode>, x: ExternalEpisode)
    ensures
        forall|n: u64|
            #[trigger] episode_numbers(episode_added(list, x)).contains(n) <==> episode_numbers(
                list,
            ).contains(n) || n == x.episode_number,
{
    let a = episode_numbers(list);
    lemma_number_place(a, x.episode_number, 0);
    let p = number_place(a, x.episode_number, 0);
    let b = episode_numbers(episode_added(list, x));
    assert(b =~= a.insert(p, x.episode_number));
    assert forall|n: u64| #[trigger] b.contains(n) <==> a.contains(n) || n == x.episode_number by {
        if a.contains(n) {
            let i = choose|i: int| 0 <= i < a.len() && a[i] == n;
            if i < p {
                assert(b[i] == n);
            } else {
                assert(b[i + 1] == n);
            }
        }
        if n == x.episode_number {
            assert(b[p] == n);
        }
        if b.contains(n) {
            let i = choose|i: int| 0 <= i < b.len() && b[i] == n;
            if i < p {
                assert(a[i] == n);
            } else if i > p {
                assert(a[i - 1] == n);
            }
        }
    }
}

/// Every number up to the declared one has an episode, whatever the entry lists.
pub proof fn law_declared_episodes_are_there(
    r: Seq<ExternalEpisode>,
    list: Seq<ExternalEpisode>,
    a: AniListMedia,
    n: int,
    k: int,
)
    requires
        are_filled(r, list, a, n),
        1 <= k <= n <= u64::MAX,
    ensures
        episode_numbers(r).contains(k as u64),
    decreases n,
{
    lemma_filled_keeps(r, list, a, n);
    if episode_numbers(list).contains(n as u64) {
        if k < n {
            law_declared_episodes_are_there(r, list, a, n - 1, k);
        }
    } else {
        let (front, x) = choose|front: Seq<ExternalEpisode>, x: ExternalEpisode|
            are_filled(front, list, a, n - 1) && is_made_up(x, a, n as u64) && r
                == #[trigger] episode_added(front, x);
        lemma_added_numbers(front, x);
        if k < n {
            law_declared_episodes_are_there(front, list, a, n - 1, k);
        }
        assert(episode_numbers(r).contains(k as u64));
    }
}

/// Filling keeps the numbers that are there.
proof fn lemma_filled_keeps(r: Seq<ExternalEpisode>, list: Seq<ExternalEpisode>, a: AniListMedia, n: int)
    requires
        are_filled(r, list, a, n),
    ensures
        forall|k: u64|
            #[trigger] episode_numbers(list).contains(k) ==> episode_numbers(r).contains(k),
    decreases n,
{
    if n > 0 {
        if episode_numbers(list).contains(n as u64) {
            lemma_filled_keeps(r, list, a, n - 1);
        } else {
            let (front, x) = choose|front: Seq<ExternalEpisode>, x: ExternalEpisode|
                are_filled(front, list, a, n - 1) && is_made_up(x, a, n as u64) && r
                    == #[trigger] episode_added(front, x);
            lemma_filled_keeps(front, list, a, n - 1);
            lemma_added_numbers(front, x);
            assert forall|k: u64| #[trigger] episode_numbers(list).contains(k) implies episode_numbers(
                r,
            ).contains(k) by {
                assert(episode_numbers(front).contains(k));
                assert(episode_numbers(episode_added(front, x)).contains(k));
            }
        }
    }
}

/// The episodes of an entry are in the order of their numbers.
pub proof fn law_episodes_are_in_order(r: Seq<ExternalEpisode>, a: AniListMedia, season: u64)
    requires
        are_episodes(r, a, season),
    ensures
        in_number_order(episode_numbers(r)),
{
    if season == 1 {
        let list = choose|list: Seq<ExternalEpisode>|
            #[trigger] are_listed(list, a, a.streaming_episodes@.len() as int) && are_filled(
                r,
                list,
                a,
                declared(a),
            );
        lemma_listed_in_order(list, a, a.streaming_episodes@.len() as int);
        lemma_filled_in_order(r, list, a, declared(a));
    }
}

/// Listed episodes are in order.
proof fn lemma_listed_in_order(list: Seq<ExternalEpisode>, a: AniListMedia, k: int)
    requires
        are_listed(list, a, k),
    ensures
        in_number_order(episode_numbers(list)),
    decreases k,
{
    if k > 0 {
        let (front, x) = choose|front: Seq<ExternalEpisode>, x: ExternalEpisode|
            are_listed(front, a, k - 1) && is_listed_episode(x, a, k - 1) && list
                == #[trigger] episode_added(front, x);
        lemma_listed_in_order(front, a, k - 1);
        law_added_episodes_are_in_order(front, x);
    }
}

/// Filling keeps the order.
proof fn lemma_filled_in_order(
    r: Seq<ExternalEpisode>,
    list: Seq<ExternalEpisode>,
    a: AniListMedia,
    n: int,
)
    requires
        are_filled(r, list, a, n),
        in_number_order(episode_numbers(list)),
    ensures
        in_number_order(episode_numbers(r)),
    decreases n,
{
    if n > 0 {
        if episode_numbers(list).contains(n as u64) {
            lemma_filled_in_order(r, list, a, n - 1);
        } else {
            let (front, x) = choose|front: Seq<ExternalEpisode>, x: ExternalEpisode|
                are_filled(front, list, a, n - 1) && is_made_up(x, a, n as u64) && r
                    == #[trigger] episode_added(front, x);
            lemma_filled_in_order(front, list, a, n - 1);
            law_added_episodes_are_in_order(front, x);
        }
    }
}

/// An entry is called by its English title, else by its romanised one, else by its native one, and keeps its
/// cover, its banner, its genres and its score.
pub proof fn law_entries_keep_what_is_known(m: ExternalMedia, a: AniListMedia)
    requires
        is_entry(m, a),
        countable(a.duration),
    ensures
        m.external_id@ == "anilist:"@ + dec(a.id as nat),
        a.title.english matches Some(t) ==> m.title@ == t@,
        a.title.english is None && a.title.romaji is Some ==> m.title@ == a.title.romaji->0@,
        a.title.english is None && a.title.romaji is None && a.title.native is Some ==> m.title@
            == a.title.native->0@,
        a.title.romaji matches Some(t) ==> m.original_title == Some(t),
        a.cover_image matches Some(c) ==> (c.extra_large matches Some(x) ==> m.posters@ == seq![x]) && (
        c.extra_large is None && c.large is Some ==> m.posters@ == seq![c.large->0]),
        a.banner_image matches Some(b) ==> m.backdrops@ == seq![b],
        a.banner_image is None ==> m.backdrops@.len() == 0,
        m.genres@ == a.genres@,
        m.rating == a.average_score,
        a.duration matches Some(minutes) ==> m.duration is Some && m.duration->0 == 60 * minutes,
{
}

/// An entry has one season, the first, and only that has episodes.
pub proof fn law_entries_have_one_season(
    seasons: Seq<ExternalSeason>,
    episodes: Seq<ExternalEpisode>,
    a: AniListMedia,
    season: u64,
)
    requires
        is_only_season(seasons, a),
        are_episodes(episodes, a, season),
    ensures
        seasons.len() == 1,
        seasons[0].season_number == 1,
        seasons[0].external_id@ == "anilist:"@ + dec(a.id as nat),
        season != 1 ==> episodes.len() == 0,
{
}

/// A run of digits ends where the first other character stands.
proof fn lemma_digits_end(s: Seq<char>, from: int, n: int)
    requires
        0 <= from <= n <= s.len(),
        forall|i: int| from <= i < n ==> ascii_digit(#[trigger] s[i]),
        n < s.len() ==> !ascii_digit(s[n]),
    ensures
        digits_end(s, from) == n,
    decreases n - from,
{
    if from < n {
        lemma_digits_end(s, from + 1, n);
    }
}

/// A title that begins with a number gives that number and what follows it as the name, with or without the word
/// "Episode" before it. A title without a number is a name.
pub proof fn law_titles_give_numbers(digits: Seq<char>, rest: Seq<char>)
    requires
        digits.len() > 0,
        all_digits(digits),
        value(digits) <= u64::MAX,
        rest.len() > 0 ==> !ascii_digit(rest[0]) && !whitespace(rest.last()),
    ensures
        streaming_title("Episode "@ + (digits + rest)).0 == Some(value(digits) as u64),
        ({
            let name = trimmed(trimmed_start(rest, separators()));
            streaming_title("Episode "@ + (digits + rest)).1 == (if name.len() == 0 {
                None
            } else {
                Some(name)
            })
        }),
{
    reveal_strlit("Episode ");
    let body = digits + rest;
    let title = "Episode "@ + body;
    let f = |c: char| whitespace(c);
    assert(title[0] == 'E');
    assert(!f(title[0]));
    assert(trimmed_start(title, f) == title);
    if rest.len() > 0 {
        assert(title.last() == rest.last());
    } else {
        assert(title.last() == digits.last());
        assert(ascii_digit(digits[digits.len() - 1]));
    }
    assert(!f(title.last()));
    assert(trimmed_end(title, f) == title);
    assert(trimmed(title) == title);
    assert(title.subrange(0, 8) =~= "Episode "@);
    assert(title.subrange(8, title.len() as int) =~= body);
    assert(after_word(title) == body);
    let n = digits.len() as int;
    assert forall|i: int| 0 <= i < n implies ascii_digit(#[trigger] body[i]) by {
        assert(body[i] == digits[i]);
    }
    if rest.len() > 0 {
        assert(body[n] == rest[0]);
    }
    lemma_digits_end(body, 0, n);
    assert(body.subrange(0, n) =~= digits);
    assert(body.subrange(n, body.len() as int) =~= rest);
}

/// Every episode that an entry lists is given, under the number of its title, or its place where the title has
/// none.
pub proof fn law_listed_episodes_are_given(r: Seq<ExternalEpisode>, a: AniListMedia, k: int, i: int)
    requires
        are_listed(r, a, k),
        0 <= i < k,
    ensures
        exists|j: int| 0 <= j < r.len() && is_listed_episode(#[trigger] r[j], a, i),
    decreases k,
{
    let (front, x) = choose|front: Seq<ExternalEpisode>, x: ExternalEpisode|
        are_listed(front, a, k - 1) && is_listed_episode(x, a, k - 1) && r == #[trigger] episode_added(front, x);
    law_added_episodes_are_there(front, x);
    r.to_multiset_ensures();
    front.to_multiset_ensures();
    if i == k - 1 {
        assert(r.to_multiset().count(x) > 0);
        assert(r.contains(x));
        let j = choose|j: int| 0 <= j < r.len() && r[j] == x;
        assert(is_listed_episode(r[j], a, i));
    } else {
        law_listed_episodes_are_given(front, a, k - 1, i);
        let h = choose|h: int| 0 <= h < front.len() && is_listed_episode(#[trigger] front[h], a, i);
        assert(front.contains(front[h]));
        assert(front.to_multiset().count(front[h]) > 0);
        assert(r.to_multiset().count(front[h]) > 0);
        assert(r.contains(front[h]));
        let j = choose|j: int| 0 <= j < r.len() && r[j] == front[h];
        assert(is_listed_episode(r[j], a, i));
    }
}

/// Where the number of episodes is not declared, there are a hundred; and never fewer than are listed.
pub proof fn law_as_many_episodes_as_declared(a: AniListMedia)
    ensures
        declared(a) >= a.streaming_episodes@.len(),
        a.episodes matches Some(n) ==> (n >= a.streaming_episodes@.len() ==> declared(a) == n),
        a.episodes is None && a.streaming_episodes@.len() <= 100 ==> declared(a) == 100,
{
}

}
