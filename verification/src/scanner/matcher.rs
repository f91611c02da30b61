//! Matching files to what a provider knows.

use vstd::prelude::*;

use crate::filename::{Meta, Metadata};
use crate::scanner::episodes::{
    by_id, episode_lookup, law_ids_pin_shows, lookup_metadata, match_unit_to_external_id,
    EpisodeLookup, EpisodeStep, FoundEpisode, IdLookup, IdStep,
};
use crate::scanner::lookup::{
    lookup_movie, media_in, movie_from, LookupQuery, LookupReply, MovieLookup, MovieStep, Question,
};
use crate::scanner::movie::MovieMatcher;
use crate::scanner::parse::metas_of;
use crate::scanner::records::{MediaFile, MediaType};
use crate::scanner::tv_show::TvMatcher;

verus! {

/// A file that is to be matched, and what its name says.
#[derive(Debug)]
pub struct WorkUnit(pub MediaFile, pub Vec<Metadata>);

/// What the matching of a file has come to.
pub enum Matching {
    Ask(Question),
    /// The reply that lists the movie, and its place there.
    Movie(int, int),
    /// Reply and place of the show, of the season, and of the episode.
    Episode(int, int, int, int, int, int),
    NotFound,
    InvalidId,
    SeasonNotFound,
}

/// What the matching of a file has come to.
#[derive(Debug)]
pub enum MatchStep {
    Ask(LookupQuery),
    /// The reply that lists the movie, and its place there.
    Movie { reply: usize, place: usize },
    Episode(FoundEpisode),
    /// No search led to a match.
    NotFound,
    /// The provider does not know the id.
    InvalidExternalId,
    /// The show has no season with the episode.
    SeasonNotFound,
}

/// `step` is the state `m`.
pub open spec fn is_match_step(step: MatchStep, m: Matching) -> bool {
    match (step, m) {
        (MatchStep::Ask(q), Matching::Ask(p)) => q.question() == p,
        (MatchStep::Movie { reply, place }, Matching::Movie(a, b)) => reply == a && place == b,
        (MatchStep::Episode(f), Matching::Episode(a, b, c, d, e, g)) => f.shows == a && f.show == b
            && f.seasons == c && f.season == d && f.episodes == e && f.episode == g,
        (MatchStep::NotFound, Matching::NotFound) => true,
        (MatchStep::InvalidExternalId, Matching::InvalidId) => true,
        (MatchStep::SeasonNotFound, Matching::SeasonNotFound) => true,
        _ => false,
    }
}

/// A matcher works out what to ask a provider, and which of its replies a file is.
pub trait MediaMatcher {
    /// The matching of a file by searches for what its name says.
    spec fn searched(&self, ms: Seq<Meta>, replies: Seq<LookupReply>) -> Matching;

    /// The matching of a file to an id of the provider.
    spec fn identified(&self, ms: Seq<Meta>, id: Seq<char>, replies: Seq<LookupReply>) -> Matching;

    /// Goes on with the matching of one file of a batch. A file that names the provider's id, in a
    /// sidecar or in a folder's name, is matched to it without a search.
    fn batch_match(
        &self,
        metadata: &Vec<Metadata>,
        explicit_id: &Option<String>,
        replies: &Vec<LookupReply>,
    ) -> (r: MatchStep)
        ensures
            is_match_step(
                r,
                match *explicit_id {
                    Some(id) => self.identified(metas_of(metadata@), id@, replies@),
                    None => self.searched(metas_of(metadata@), replies@),
                },
            ),
    ;

    /// Goes on with the matching of a file to an id of the provider.
    fn match_to_id(
        &self,
        metadata: &Vec<Metadata>,
        external_id: &String,
        replies: &Vec<LookupReply>,
    ) -> (r: MatchStep)
        ensures
            is_match_step(r, self.identified(metas_of(metadata@), external_id@, replies@)),
    ;
}

/// The matching of a movie to an id: the provider is asked once.
pub open spec fn movie_by_id(id: Seq<char>, replies: Seq<LookupReply>) -> Matching {
    if replies.len() == 0 {
        Matching::Ask(Question::ById(id))
    } else if media_in(replies[0]) is None || media_in(replies[0])->0.len() == 0 {
        Matching::InvalidId
    } else {
        Matching::Movie(0, 0)
    }
}

impl MediaMatcher for MovieMatcher {
    open spec fn searched(&self, ms: Seq<Meta>, replies: Seq<LookupReply>) -> Matching {
        match movie_from(ms, 0, replies, 0) {
            MovieLookup::Ask(q) => Matching::Ask(q),
            MovieLookup::Found(at, b) => Matching::Movie(at, b),
            MovieLookup::NotFound => Matching::NotFound,
        }
    }

    open spec fn identified(&self, ms: Seq<Meta>, id: Seq<char>, replies: Seq<LookupReply>) -> Matching {
        movie_by_id(id, replies)
    }

    fn batch_match(
        &self,
        metadata: &Vec<Metadata>,
        explicit_id: &Option<String>,
        replies: &Vec<LookupReply>,
    ) -> (r: MatchStep) {
        match explicit_id {
            Some(id) => self.match_to_id(metadata, id, replies),
            None => match lookup_movie(metadata, replies) {
                MovieStep::Ask(q) => MatchStep::Ask(q),
                MovieStep::Found { reply, place } => MatchStep::Movie { reply, place },
                MovieStep::NotFound => MatchStep::NotFound,
            },
        }
    }

    fn match_to_id(
        &self,
        metadata: &Vec<Metadata>,
        external_id: &String,
        replies: &Vec<LookupReply>,
    ) -> (r: MatchStep) {
        if replies.len() == 0 {
            return MatchStep::Ask(LookupQuery::ById(external_id.clone()));
        }
        let known = match &replies[0] {
            LookupReply::Media(list) => list.len() > 0,
            _ => false,
        };
        if known {
            MatchStep::Movie { reply: 0, place: 0 }
        } else {
            MatchStep::InvalidExternalId
        }
    }
}

impl MediaMatcher for TvMatcher {
    open spec fn searched(&self, ms: Seq<Meta>, replies: Seq<LookupReply>) -> Matching {
        match episode_lookup(ms, 0, replies, 0) {
            EpisodeLookup::Ask(q) => Matching::Ask(q),
            EpisodeLookup::Found(a, b, c, d, e, f) => Matching::Episode(a, b, c, d, e, f),
            EpisodeLookup::NotFound => Matching::NotFound,
        }
    }

    open spec fn identified(&self, ms: Seq<Meta>, id: Seq<char>, replies: Seq<LookupReply>) -> Matching {
        match by_id(ms, id, replies) {
            IdLookup::Ask(q) => Matching::Ask(q),
            IdLookup::Found(season, episodes, episode) => Matching::Episode(
                0,
                0,
                1,
                season,
                episodes,
                episode,
            ),
            IdLookup::InvalidId => Matching::InvalidId,
            IdLookup::SeasonNotFound => Matching::SeasonNotFound,
        }
    }

    fn batch_match(
        &self,
        metadata: &Vec<Metadata>,
        explicit_id: &Option<String>,
        replies: &Vec<LookupReply>,
    ) -> (r: MatchStep) {
        match explicit_id {
            Some(id) => self.match_to_id(metadata, id, replies),
            None => match lookup_metadata(metadata, replies) {
                EpisodeStep::Ask(q) => MatchStep::Ask(q),
                EpisodeStep::Found(f) => MatchStep::Episode(f),
                EpisodeStep::NotFound => MatchStep::NotFound,
            },
        }
    }

    fn match_to_id(
        &self,
        metadata: &Vec<Metadata>,
        external_id: &String,
        replies: &Vec<LookupReply>,
    ) -> (r: MatchStep) {
        match match_unit_to_external_id(metadata, external_id, replies) {
            IdStep::Ask(q) => MatchStep::Ask(q),
            IdStep::Found { season, episodes, episode } => MatchStep::Episode(
                FoundEpisode { shows: 0, show: 0, seasons: 1, season, episodes, episode },
            ),
            IdStep::InvalidExternalId => MatchStep::InvalidExternalId,
            IdStep::SeasonNotFound => MatchStep::SeasonNotFound,
        }
    }
}

/// The matcher of a library.
#[derive(Clone, Copy, Debug)]
pub enum Matcher {
    Movie(MovieMatcher),
    Tv(TvMatcher),
}

/// Libraries that can be scanned.
pub open spec fn is_scannable(media_type: MediaType) -> bool {
    media_type is Movie || media_type is Tv
}

impl Matcher {
    /// The matcher of a kind of library.
    pub fn of(media_type: MediaType) -> (r: Self)
        requires
            is_scannable(media_type),
        ensures
            r is Movie <==> media_type is Movie,
            r is Tv <==> media_type is Tv,
    {
        match media_type {
            MediaType::Movie => Matcher::Movie(MovieMatcher),
            _ => Matcher::Tv(TvMatcher),
        }
    }
}

impl MediaMatcher for Matcher {
    open spec fn searched(&self, ms: Seq<Meta>, replies: Seq<LookupReply>) -> Matching {
        match *self {
            Matcher::Movie(m) => m.searched(ms, replies),
            Matcher::Tv(m) => m.searched(ms, replies),
        }
    }

    open spec fn identified(&self, ms: Seq<Meta>, id: Seq<char>, replies: Seq<LookupReply>) -> Matching {
        match *self {
            Matcher::Movie(m) => m.identified(ms, id, replies),
            Matcher::Tv(m) => m.identified(ms, id, replies),
        }
    }

    fn batch_match(
        &self,
        metadata: &Vec<Metadata>,
        explicit_id: &Option<String>,
        replies: &Vec<LookupReply>,
    ) -> (r: MatchStep) {
        match self {
            Matcher::Movie(m) => m.batch_match(metadata, explicit_id, replies),
            Matcher::Tv(m) => m.batch_match(metadata, explicit_id, replies),
        }
    }

    fn match_to_id(
        &self,
        metadata: &Vec<Metadata>,
        external_id: &String,
        replies: &Vec<LookupReply>,
    ) -> (r: MatchStep) {
        match self {
            Matcher::Movie(m) => m.match_to_id(metadata, external_id, replies),
            Matcher::Tv(m) => m.match_to_id(metadata, external_id, replies),
        }
    }
}

/// The places, of the first `k`, of the files that name an id, or of those that do not.
pub open spec fn named_places(named: Seq<bool>, wanted: bool, k: int) -> Seq<usize>
    decreases k,
{
    if k <= 0 {
        Seq::empty()
    } else if named[k - 1] == wanted {
        named_places(named, wanted, k - 1).push((k - 1) as usize)
    } else {
        named_places(named, wanted, k - 1)
    }
}

/// The order in which the files of a batch are matched: first those that name an id.
pub open spec fn matching_order(named: Seq<bool>) -> Seq<usize> {
    named_places(named, true, named.len() as int) + named_places(named, false, named.len() as int)
}

/// Puts the files of a batch into the order in which they are matched, by whether they name an id.
pub fn batch_order(named: &Vec<bool>) -> (r: Vec<usize>)
    ensures
        r@ == matching_order(named@),
{
    let mut r: Vec<usize> = Vec::new();
    let mut rest: Vec<usize> = Vec::new();
    let mut i: usize = 0;
    while i < named.len()
        invariant
            0 <= i <= named@.len(),
            r@ == named_places(named@, true, i as int),
            rest@ == named_places(named@, false, i as int),
        decreases named@.len() - i,
    {
        if named[i] {
            r.push(i);
        } else {
            rest.push(i);
        }
        i = i + 1;
    }
    r.append(&mut rest);
    r
}

/// Every file of a batch is matched once.
pub proof fn law_every_file_is_matched_once(named: Seq<bool>)
    requires
        named.len() <= usize::MAX,
    ensures
        matching_order(named).no_duplicates(),
        forall|p: usize| #[trigger] matching_order(named).contains(p) <==> p < named.len(),
{
    let n = named.len() as int;
    let a = named_places(named, true, n);
    let b = named_places(named, false, n);
    let r = matching_order(named);
    lemma_named_places(named, true, n);
    lemma_named_places(named, false, n);
    assert forall|i: int, j: int| 0 <= i < r.len() && 0 <= j < r.len() && i != j implies r[i] != r[j] by {
        if i < a.len() {
            assert(a.contains(a[i]));
        } else {
            assert(b.contains(b[i - a.len()]));
        }
        if j < a.len() {
            assert(a.contains(a[j]));
        } else {
            assert(b.contains(b[j - a.len()]));
        }
    }
    assert forall|p: usize| #[trigger] r.contains(p) <==> p < named.len() by {
        if r.contains(p) {
            let i = choose|i: int| 0 <= i < r.len() && r[i] == p;
            if i < a.len() {
                assert(a.contains(a[i]));
            } else {
                assert(b.contains(b[i - a.len()]));
            }
        }
        if p < named.len() {
            if named[p as int] {
                assert(a.contains(p));
                let i = choose|i: int| 0 <= i < a.len() && a[i] == p;
                assert(r[i] == p);
            } else {
                assert(b.contains(p));
                let i = choose|i: int| 0 <= i < b.len() && b[i] == p;
                assert(r[a.len() + i] == p);
            }
        }
    }
}

/// The places are in order, and those of the files that were asked for.
proof fn lemma_named_places(named: Seq<bool>, wanted: bool, k: int)
    requires
        0 <= k <= named.len() <= usize::MAX,
    ensures
        forall|i: int, j: int|
            0 <= i < j < named_places(named, wanted, k).len() ==> named_places(named, wanted, k)[i]
                < named_places(named, wanted, k)[j],
        forall|p: usize| #[trigger]
            named_places(named, wanted, k).contains(p) <==> p < k && named[p as int] == wanted,
    decreases k,
{
    if k > 0 {
        lemma_named_places(named, wanted, k - 1);
        let t = named_places(named, wanted, k - 1);
        let r = named_places(named, wanted, k);
        assert forall|i: int, j: int| 0 <= i < j < r.len() implies r[i] < r[j] by {
            if j == t.len() {
                assert(t.contains(t[i]));
            }
        }
        assert forall|p: usize| #[trigger] r.contains(p) <==> p < k && named[p as int] == wanted by {
            if r.contains(p) {
                let i = choose|i: int| 0 <= i < r.len() && r[i] == p;
                if i < t.len() {
                    assert(t[i] == p);
                    assert(t.contains(p));
                }
            }
            if p < k && named[p as int] == wanted {
                if p < k - 1 {
                    assert(t.contains(p));
                    let i = choose|i: int| 0 <= i < t.len() && t[i] == p;
                    assert(r[i] == p);
                } else {
                    assert(r[t.len() as int] == p);
                }
            }
        }
    }
}

/// An id that a file names pins its match: nothing is searched for by a title, in libraries of either
/// kind.
pub proof fn law_explicit_ids_are_not_searched(
    matcher: Matcher,
    ms: Seq<Meta>,
    id: Seq<char>,
    replies: Seq<LookupReply>,
)
    ensures
        matcher.identified(ms, id, replies) matches Matching::Ask(q) ==> !(q is Search),
{
    law_ids_pin_shows(ms, id, replies);
}

/// A movie with an id is asked for by that id, once, and is the first that the provider gives; an id that the
/// provider does not know is invalid.
pub proof fn law_movies_are_matched_by_id(id: Seq<char>, reply: LookupReply)
    ensures
        movie_by_id(id, Seq::empty()) == Matching::Ask(Question::ById(id)),
        media_in(reply) is Some && media_in(reply)->0.len() > 0 ==> movie_by_id(id, seq![reply])
            == Matching::Movie(0, 0),
        media_in(reply) is None || media_in(reply)->0.len() == 0 ==> movie_by_id(id, seq![reply])
            == Matching::InvalidId,
{
}

/// Files that name an id are matched before the others, and else the files keep their order.
pub proof fn law_named_files_come_first(named: Seq<bool>, i: int, j: int)
    requires
        named.len() <= usize::MAX,
        0 <= i < j < matching_order(named).len(),
    ensures
        ({
            let a = matching_order(named)[i];
            let b = matching_order(named)[j];
            &&& a < named.len() && b < named.len()
            &&& named[b as int] ==> named[a as int]
            &&& named[a as int] == named[b as int] ==> a < b
        }),
{
    let n = named.len() as int;
    lemma_named_places(named, true, n);
    lemma_named_places(named, false, n);
    let first = named_places(named, true, n);
    let second = named_places(named, false, n);
    let order = matching_order(named);
    if i < first.len() {
        assert(order[i] == first[i]);
        assert(first.contains(first[i]));
    } else {
        assert(order[i] == second[i - first.len()]);
        assert(second.contains(second[i - first.len()]));
    }
    if j < first.len() {
        assert(order[j] == first[j]);
        assert(first.contains(first[j]));
    } else {
        assert(order[j] == second[j - first.len()]);
        assert(second.contains(second[j - first.len()]));
    }
}

}
