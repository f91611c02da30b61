//! Looking media up with a metadata provider.
//!
//! A lookup is a sequence of questions to the provider, each of which depends on the replies to those
//! before it. Here it is a function of the replies so far: its result is the next question, or what was
//! found.

use vstd::prelude::*;

use crate::external::{ExternalEpisode, ExternalMedia, ExternalSeason};
use crate::filename::{opt, Meta, Metadata};
use crate::scanner::parse::metas_of;
use crate::scanner::similarity::{
    at_least, best_similarity, best_title_similarity, is_at_least, similarity, threshold,
    title_similarity, Score,
};
use crate::text::views;

verus! {

/// A question to a provider.
#[derive(Debug)]
pub enum LookupQuery {
    /// Media by title, year and language.
    Search { name: String, year: Option<i64>, language: Option<String> },
    /// The media with an id.
    ById(String),
    /// Other titles of the media with an id.
    AlternativeTitles(String),
    /// The seasons of the show with an id.
    Seasons(String),
    /// The episodes of a season of the show with an id.
    Episodes(String, u64),
}

/// A reply of a provider, or, while a library is scanned, of the database.
#[derive(Debug)]
pub enum LookupReply {
    Media(Vec<ExternalMedia>),
    Titles(Vec<String>),
    Seasons(Vec<ExternalSeason>),
    Episodes(Vec<ExternalEpisode>),
    /// The id that is stored with a show, if one is.
    Stored(Option<String>),
    /// A step was done.
    Done,
    Failed,
}

/// The contents of a question.
pub enum Question {
    Search(Seq<char>, Option<i64>, Option<Seq<char>>),
    ById(Seq<char>),
    Titles(Seq<char>),
    Seasons(Seq<char>),
    Episodes(Seq<char>, u64),
}

impl LookupQuery {
    pub open spec fn question(self) -> Question {
        match self {
            LookupQuery::Search { name, year, language } => Question::Search(
                name@,
                year,
                opt(language),
            ),
            LookupQuery::ById(id) => Question::ById(id@),
            LookupQuery::AlternativeTitles(id) => Question::Titles(id@),
            LookupQuery::Seasons(id) => Question::Seasons(id@),
            LookupQuery::Episodes(id, n) => Question::Episodes(id@, n),
        }
    }
}

/// The media that a reply lists.
pub open spec fn media_in(reply: LookupReply) -> Option<Seq<ExternalMedia>> {
    match reply {
        LookupReply::Media(v) => Some(v@),
        _ => None,
    }
}

/// The titles that a reply lists; none where it failed.
pub open spec fn titles_in(reply: LookupReply) -> Seq<Seq<char>> {
    match reply {
        LookupReply::Titles(v) => views(v@),
        _ => Seq::empty(),
    }
}

/// The seasons that a reply lists.
pub open spec fn seasons_in(reply: LookupReply) -> Option<Seq<ExternalSeason>> {
    match reply {
        LookupReply::Seasons(v) => Some(v@),
        _ => None,
    }
}

/// The episodes that a reply lists.
pub open spec fn episodes_in(reply: LookupReply) -> Option<Seq<ExternalEpisode>> {
    match reply {
        LookupReply::Episodes(v) => Some(v@),
        _ => None,
    }
}

/// The result, among the first `k`, that is most like a title, the earliest of several: providers put
/// the most popular first.
pub open spec fn best_of(query: Seq<char>, list: Seq<ExternalMedia>, k: int) -> Option<int>
    decreases k,
{
    if k <= 0 {
        None
    } else {
        match best_of(query, list, k - 1) {
            Some(b) => if at_least(
                best_similarity(query, list[b]),
                best_similarity(query, list[k - 1]),
            ) {
                Some(b)
            } else {
                Some(k - 1)
            },
            None => Some(k - 1),
        }
    }
}

/// The title is like enough to that of a result.
pub open spec fn is_match(query: Seq<char>, media: ExternalMedia) -> bool {
    at_least(best_similarity(query, media), threshold())
}

/// The title is like enough to one of several.
pub open spec fn matches_any(query: Seq<char>, titles: Seq<Seq<char>>) -> bool {
    exists|i: int| 0 <= i < titles.len() && at_least(similarity(query, #[trigger] titles[i]), threshold())
}

/// How a search ended, or the question with which it goes on.
pub enum Search {
    Ask(Question),
    /// Nothing was found; so many replies were used.
    Failed(int),
    /// A result was chosen: the reply and the place in it, and how many replies were used.
    Chosen(int, int, int),
}

/// Judges the results in the reply at `at`. Where the best is not like the title, its alternative
/// titles are asked for: the provider may have matched one of those.
pub open spec fn judged(
    query: Seq<char>,
    replies: Seq<LookupReply>,
    at: int,
    list: Seq<ExternalMedia>,
) -> Search {
    match best_of(query, list, list.len() as int) {
        None => Search::Failed(at + 1),
        Some(b) => if is_match(query, list[b]) {
            Search::Chosen(at, b, at + 1)
        } else if at + 1 >= replies.len() {
            Search::Ask(Question::Titles(list[b].external_id@))
        } else if matches_any(query, titles_in(replies[at + 1])) {
            Search::Chosen(at, b, at + 2)
        } else {
            Search::Failed(at + 2)
        },
    }
}

/// One search in one language, from reply `c` on; one that finds nothing is repeated without the year.
pub open spec fn attempt(
    m: Meta,
    language: Option<Seq<char>>,
    replies: Seq<LookupReply>,
    c: int,
) -> Search {
    if c >= replies.len() {
        Search::Ask(Question::Search(m.name, m.year, language))
    } else {
        match media_in(replies[c]) {
            None => Search::Failed(c + 1),
            Some(list) => if list.len() == 0 && m.year is Some {
                if c + 1 >= replies.len() {
                    Search::Ask(Question::Search(m.name, None, language))
                } else {
                    match media_in(replies[c + 1]) {
                        Some(more) => judged(m.name, replies, c + 1, more),
                        None => Search::Failed(c + 2),
                    }
                }
            } else {
                judged(m.name, replies, c, list)
            },
        }
    }
}

/// The search for one set of metadata. A language in a file name is mostly that of the sound, and titles
/// in it would not be alike, so a search in it is followed by one in no language.
pub open spec fn chosen(m: Meta, replies: Seq<LookupReply>, c: int) -> Search {
    match attempt(m, m.language, replies, c) {
        Search::Failed(d) => if m.language is Some {
            attempt(m, None, replies, d)
        } else {
            Search::Failed(d)
        },
        other => other,
    }
}

/// What a lookup of a movie has come to.
pub enum MovieLookup {
    Ask(Question),
    /// The reply, and the place in it.
    Found(int, int),
    NotFound,
}

/// The lookup of a movie by the metadata from `k` on, from reply `c` on.
pub open spec fn movie_from(ms: Seq<Meta>, k: int, replies: Seq<LookupReply>, c: int) -> MovieLookup
    decreases ms.len() - k,
{
    if k < 0 || k >= ms.len() {
        MovieLookup::NotFound
    } else {
        match chosen(ms[k], replies, c) {
            Search::Ask(q) => MovieLookup::Ask(q),
            Search::Chosen(at, b, _) => MovieLookup::Found(at, b),
            Search::Failed(d) => movie_from(ms, k + 1, replies, d),
        }
    }
}

/// A search as code sees it.
#[derive(Debug)]
pub enum SearchTurn {
    Ask(LookupQuery),
    Failed(usize),
    Chosen(usize, usize, usize),
}

/// `t` is the turn `s`.
pub open spec fn is_turn(t: SearchTurn, s: Search) -> bool {
    match (t, s) {
        (SearchTurn::Ask(q), Search::Ask(p)) => q.question() == p,
        (SearchTurn::Failed(c), Search::Failed(d)) => c == d,
        (SearchTurn::Chosen(a, b, c), Search::Chosen(x, y, z)) => a == x && b == y && c == z,
        _ => false,
    }
}

/// Picks the result that is most like a title, the earliest of several.
pub fn pick_best(query: &str, list: &Vec<ExternalMedia>) -> (r: Option<usize>)
    ensures
        r is Some <==> list@.len() > 0,
        r matches Some(b) ==> b < list@.len() && Some(b as int) == best_of(
            query@,
            list@,
            list@.len() as int,
        ),
        r is None ==> best_of(query@, list@, list@.len() as int) is None,
{
    let mut best: Option<usize> = None;
    let mut i: usize = 0;
    while i < list.len()
        invariant
            0 <= i <= list@.len(),
            i > 0 <==> best is Some,
            best matches Some(b) ==> b < i && Some(b as int) == best_of(query@, list@, i as int),
            best is None ==> best_of(query@, list@, i as int) is None,
        decreases list@.len() - i,
    {
        let score = best_title_similarity(query, &list[i]);
        let keep = match best {
            Some(b) => is_at_least(best_title_similarity(query, &list[b]), score),
            None => false,
        };
        if !keep {
            best = Some(i);
        }
        i = i + 1;
    }
    best
}

/// Whether a title is like enough to one of several.
fn is_like_any(query: &str, titles: &Vec<String>) -> (r: bool)
    ensures
        r == matches_any(query@, views(titles@)),
{
    let limit = Score { num: 3, den: 10 };
    let mut i: usize = 0;
    while i < titles.len()
        invariant
            0 <= i <= titles@.len(),
            limit == threshold(),
            forall|j: int|
                0 <= j < i ==> !at_least(
                    similarity(query@, #[trigger] views(titles@)[j]),
                    threshold(),
                ),
        decreases titles@.len() - i,
    {
        assert(views(titles@)[i as int] == titles@[i as int]@);
        if is_at_least(title_similarity(query, titles[i].as_str()), limit) {
            return true;
        }
        i = i + 1;
    }
    false
}

/// Judges the results in a reply.
fn judge(query: &str, replies: &Vec<LookupReply>, at: usize, list: &Vec<ExternalMedia>) -> (r:
    SearchTurn)
    requires
        at < replies@.len(),
    ensures
        is_turn(r, judged(query@, replies@, at as int, list@)),
        r matches SearchTurn::Failed(d) ==> d <= replies@.len(),
        r matches SearchTurn::Chosen(x, y, d) ==> x == at && y < list@.len() && d <= replies@.len(),
{
    let len: usize = replies.len();
    let b = match pick_best(query, list) {
        Some(b) => b,
        None => {
            return SearchTurn::Failed(at + 1);
        },
    };
    let limit = Score { num: 3, den: 10 };
    if is_at_least(best_title_similarity(query, &list[b]), limit) {
        return SearchTurn::Chosen(at, b, at + 1);
    }
    if at + 1 >= len {
        return SearchTurn::Ask(LookupQuery::AlternativeTitles(list[b].external_id.clone()));
    }
    let like = match &replies[at + 1] {
        LookupReply::Titles(titles) => is_like_any(query, titles),
        _ => false,
    };
    if like {
        SearchTurn::Chosen(at, b, at + 2)
    } else {
        SearchTurn::Failed(at + 2)
    }
}

/// A copy of an optional string.
fn copy_opt(s: &Option<String>) -> (r: Option<String>)
    ensures
        opt(r) == opt(*s),
{
    match s {
        Some(t) => Some(t.clone()),
        None => None,
    }
}

/// Runs one search in one language.
fn run_attempt(m: &Metadata, language: &Option<String>, replies: &Vec<LookupReply>, c: usize) -> (r:
    SearchTurn)
    requires
        c <= replies@.len(),
    ensures
        is_turn(r, attempt(m@, opt(*language), replies@, c as int)),
        r matches SearchTurn::Failed(d) ==> d <= replies@.len(),
        r matches SearchTurn::Chosen(x, y, d) ==> x < replies@.len() && d <= replies@.len()
            && media_in(replies@[x as int]) is Some && y < media_in(replies@[x as int])->0.len(),
{
    let len: usize = replies.len();
    if c >= len {
        return SearchTurn::Ask(
            LookupQuery::Search {
                name: m.name.clone(),
                year: m.year,
                language: copy_opt(language),
            },
        );
    }
    match &replies[c] {
        LookupReply::Media(list) => {
            if list.len() == 0 && m.year.is_some() {
                if c + 1 >= len {
                    return SearchTurn::Ask(
                        LookupQuery::Search {
                            name: m.name.clone(),
                            year: None,
                            language: copy_opt(language),
                        },
                    );
                }
                match &replies[c + 1] {
                    LookupReply::Media(more) => judge(m.name.as_str(), replies, c + 1, more),
                    _ => SearchTurn::Failed(c + 2),
                }
            } else {
                judge(m.name.as_str(), replies, c, list)
            }
        },
        _ => SearchTurn::Failed(c + 1),
    }
}

/// Runs the search for one set of metadata.
pub fn run_search(m: &Metadata, replies: &Vec<LookupReply>, c: usize) -> (r: SearchTurn)
    requires
        c <= replies@.len(),
    ensures
        is_turn(r, chosen(m@, replies@, c as int)),
        r matches SearchTurn::Failed(d) ==> d <= replies@.len(),
        r matches SearchTurn::Chosen(x, y, d) ==> x < replies@.len() && d <= replies@.len()
            && media_in(replies@[x as int]) is Some && y < media_in(replies@[x as int])->0.len(),
{
    let first = run_attempt(m, &m.language, replies, c);
    if let SearchTurn::Failed(d) = first {
        if m.language.is_some() {
            return run_attempt(m, &None, replies, d);
        }
    }
    first
}

/// What a lookup of a movie has come to.
#[derive(Debug)]
pub enum MovieStep {
    Ask(LookupQuery),
    /// The movie at a place in a reply.
    Found { reply: usize, place: usize },
    NotFound,
}

/// `step` is the state of the lookup `l`.
pub open spec fn is_movie_step(step: MovieStep, l: MovieLookup) -> bool {
    match (step, l) {
        (MovieStep::Ask(q), MovieLookup::Ask(p)) => q.question() == p,
        (MovieStep::Found { reply, place }, MovieLookup::Found(a, b)) => reply == a && place == b,
        (MovieStep::NotFound, MovieLookup::NotFound) => true,
        _ => false,
    }
}

/// Goes on with the lookup of a movie, given the replies so far.
pub fn lookup_movie(metadata: &Vec<Metadata>, replies: &Vec<LookupReply>) -> (r: MovieStep)
    ensures
        is_movie_step(r, movie_from(metas_of(metadata@), 0, replies@, 0)),
{
    let ghost ms = metas_of(metadata@);
    let mut k: usize = 0;
    let mut c: usize = 0;
    while k < metadata.len()
        invariant
            0 <= k <= metadata@.len(),
            c <= replies@.len(),
            ms == metas_of(metadata@),
            movie_from(ms, 0, replies@, 0) == movie_from(ms, k as int, replies@, c as int),
        decreases metadata@.len() - k,
    {
        assert(ms[k as int] == metadata@[k as int]@);
        match run_search(&metadata[k], replies, c) {
            SearchTurn::Ask(q) => {
                return MovieStep::Ask(q);
            },
            SearchTurn::Chosen(reply, place, _) => {
                return MovieStep::Found { reply, place };
            },
            SearchTurn::Failed(d) => {
                c = d;
            },
        }
        k = k + 1;
    }
    MovieStep::NotFound
}

/// The chosen result is at least as alike as every other, and more alike than every earlier one.
pub proof fn law_best_is_the_earliest_maximum(query: Seq<char>, list: Seq<ExternalMedia>, k: int)
    requires
        0 < k <= list.len(),
        forall|i: int|
            0 <= i < list.len() ==> (#[trigger] best_similarity(query, list[i])).den > 0,
    ensures
        best_of(query, list, k) matches Some(b) && 0 <= b < k && forall|i: int|
            0 <= i < k ==> at_least(
                best_similarity(query, list[b]),
                #[trigger] best_similarity(query, list[i]),
            ) && (i < b ==> !at_least(
                best_similarity(query, list[i]),
                best_similarity(query, list[b]),
            )),
    decreases k,
{
    let score = |i: int| best_similarity(query, list[i]);
    if k == 1 {
        assert(best_of(query, list, 0) is None);
        assert(score(0).num * score(0).den >= score(0).num * score(0).den);
    } else {
        law_best_is_the_earliest_maximum(query, list, k - 1);
        let b = best_of(query, list, k - 1)->0;
        let n = k - 1;
        if !at_least(best_similarity(query, list[b]), best_similarity(query, list[n])) {
            assert forall|i: int| 0 <= i < k implies at_least(
                best_similarity(query, list[n]),
                #[trigger] best_similarity(query, list[i]),
            ) && (i < n ==> !at_least(
                best_similarity(query, list[i]),
                best_similarity(query, list[n]),
            )) by {
                if i < n {
                    lemma_score_order(
                        best_similarity(query, list[n]),
                        best_similarity(query, list[b]),
                        best_similarity(query, list[i]),
                    );
                } else {
                    assert(score(n).num * score(n).den >= score(n).num * score(n).den);
                }
            }
        }
    }
}

/// A score of at least three tenths.
pub open spec fn is_alike(s: Score) -> bool {
    10 * s.num >= 3 * s.den
}

/// What is not below something alike is alike.
proof fn lemma_alike(a: Score, b: Score)
    requires
        a.den > 0,
        b.den > 0,
        at_least(a, b),
        is_alike(b),
    ensures
        is_alike(a),
{
    let (an, ad, bn, bd) = (a.num as int, a.den as int, b.num as int, b.den as int);
    assert(10 * an >= 3 * ad) by (nonlinear_arith)
        requires
            ad > 0,
            bd > 0,
            an >= 0,
            bn >= 0,
            an * bd >= bn * ad,
            10 * bn >= 3 * bd,
    {
        assert(10 * bn * ad >= 3 * bd * ad);
        assert(10 * an * bd >= 10 * bn * ad);
        assert(10 * an * bd >= 3 * ad * bd);
    }
}

/// A search asks for the title, with the year and the language. One that finds nothing is repeated without the
/// year, and one that fails in a language is repeated in none.
pub proof fn law_searches_are_asked(m: Meta, replies: Seq<LookupReply>, c: int)
    requires
        0 <= c,
    ensures
        c >= replies.len() ==> chosen(m, replies, c) == Search::Ask(
            Question::Search(m.name, m.year, m.language),
        ),
        c + 1 == replies.len() && m.year is Some && (replies[c] matches LookupReply::Media(list)
            && list@.len() == 0) ==> chosen(m, replies, c) == Search::Ask(
            Question::Search(m.name, None, m.language),
        ),
        c + 1 == replies.len() && m.language is Some && !(replies[c] is Media) ==> chosen(
            m,
            replies,
            c,
        ) == Search::Ask(Question::Search(m.name, m.year, None)),
        c < replies.len() && m.language is None && !(replies[c] is Media) ==> chosen(m, replies, c)
            == Search::Failed(c + 1),
{
}

/// Where a result is alike, the one that is most alike is chosen, the first of several: none is more alike, and
/// every earlier one is less.
pub proof fn law_the_most_alike_is_chosen(
    m: Meta,
    replies: Seq<LookupReply>,
    c: int,
    list: Vec<ExternalMedia>,
    i: int,
)
    requires
        0 <= c < replies.len(),
        replies[c] == LookupReply::Media(list),
        0 <= i < list@.len(),
        forall|j: int|
            0 <= j < list@.len() ==> (#[trigger] best_similarity(m.name, list@[j])).den > 0,
        is_alike(best_similarity(m.name, list@[i])),
    ensures
        chosen(m, replies, c) matches Search::Chosen(at, b, d) && at == c && d == c + 1 && 0 <= b
            < list@.len() && forall|j: int|
            0 <= j < list@.len() ==> at_least(
                best_similarity(m.name, list@[b]),
                #[trigger] best_similarity(m.name, list@[j]),
            ) && (j < b ==> !at_least(
                best_similarity(m.name, list@[j]),
                best_similarity(m.name, list@[b]),
            )),
{
    law_best_is_the_earliest_maximum(m.name, list@, list@.len() as int);
    let b = best_of(m.name, list@, list@.len() as int)->0;
    lemma_alike(best_similarity(m.name, list@[b]), best_similarity(m.name, list@[i]));
}

/// Where no result is alike, the other titles of the most alike one decide: it is chosen if one of them is
/// alike, and else the search has failed.
pub proof fn law_other_titles_decide(
    m: Meta,
    replies: Seq<LookupReply>,
    c: int,
    list: Vec<ExternalMedia>,
)
    requires
        m.language is None,
        0 <= c < replies.len(),
        replies[c] == LookupReply::Media(list),
        list@.len() > 0,
        forall|j: int|
            0 <= j < list@.len() ==> (#[trigger] best_similarity(m.name, list@[j])).den > 0
                && !is_alike(best_similarity(m.name, list@[j])),
    ensures
        c + 1 == replies.len() ==> (chosen(m, replies, c) matches Search::Ask(Question::Titles(id))
            && exists|b: int| 0 <= b < list@.len() && id == (#[trigger] list@[b]).external_id@),
        c + 1 < replies.len() ==> (replies[c + 1] matches LookupReply::Titles(titles) ==> if exists|
            t: int,
        |
            0 <= t < titles@.len() && is_alike(similarity(m.name, (#[trigger] titles@[t])@)) {
            chosen(m, replies, c) matches Search::Chosen(at, b, d) && at == c && 0 <= b < list@.len()
                && d == c + 2
        } else {
            chosen(m, replies, c) == Search::Failed(c + 2)
        }),
        c + 1 < replies.len() && !(replies[c + 1] is Titles) ==> chosen(m, replies, c)
            == Search::Failed(c + 2),
{
    law_best_is_the_earliest_maximum(m.name, list@, list@.len() as int);
    let b = best_of(m.name, list@, list@.len() as int)->0;
    assert(!is_alike(best_similarity(m.name, list@[b])));
    assert(list@[b].external_id@ == list@[b].external_id@);
    if c + 1 < replies.len() {
        if let LookupReply::Titles(titles) = replies[c + 1] {
            assert forall|t: int| 0 <= t < titles@.len() implies #[trigger] views(titles@)[t]
                == titles@[t]@ by {}
            if exists|t: int|
                0 <= t < titles@.len() && is_alike(similarity(m.name, (#[trigger] titles@[t])@)) {
                let t = choose|t: int|
                    0 <= t < titles@.len() && is_alike(similarity(m.name, (#[trigger] titles@[t])@));
                assert(at_least(similarity(m.name, views(titles@)[t]), threshold()));
            } else if matches_any(m.name, views(titles@)) {
                let t = choose|t: int|
                    0 <= t < views(titles@).len() && at_least(
                        similarity(m.name, #[trigger] views(titles@)[t]),
                        threshold(),
                    );
                assert(is_alike(similarity(m.name, titles@[t]@)));
            }
        }
    }
}

/// A movie is looked up by each set of metadata in turn: what the first search that does not fail has come to
/// is what the lookup has come to.
pub proof fn law_movies_are_looked_up_in_turn(
    ms: Seq<Meta>,
    replies: Seq<LookupReply>,
    step: MovieStep,
)
    requires
        is_movie_step(step, movie_from(ms, 0, replies, 0)),
        ms.len() > 0,
    ensures
        match chosen(ms[0], replies, 0) {
            Search::Ask(q) => step matches MovieStep::Ask(p) && p.question() == q,
            Search::Chosen(at, b, _) => step matches MovieStep::Found { reply, place } && reply == at
                && place == b,
            Search::Failed(d) => is_movie_step(step, movie_from(ms, 1, replies, d)),
        },
        forall|k: int, c: int| k >= ms.len() ==> #[trigger] movie_from(ms, k, replies, c) is NotFound,
{
}

/// What is above something that is not below a third is above the third.
proof fn lemma_score_order(a: Score, b: Score, c: Score)
    requires
        a.den > 0,
        b.den > 0,
        c.den > 0,
        !at_least(b, a),
        at_least(b, c),
    ensures
        at_least(a, c),
        !at_least(c, a),
{
    let (an, ad, bn, bd, cn, cd) = (
        a.num as int,
        a.den as int,
        b.num as int,
        b.den as int,
        c.num as int,
        c.den as int,
    );
    assert(an * cd > cn * ad) by (nonlinear_arith)
        requires
            ad > 0,
            bd > 0,
            cd > 0,
            bn * ad < an * bd,
            bn * cd >= cn * bd,
            an >= 0,
            bn >= 0,
            cn >= 0,
    {
        assert(cn * bd * ad <= bn * cd * ad);
        assert(bn * ad * cd < an * bd * cd);
        assert(cn * ad * bd < an * cd * bd);
    }
}

}
