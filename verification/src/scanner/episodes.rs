//! Looking episodes up with a metadata provider.

use vstd::prelude::*;

use crate::external::{ExternalEpisode, ExternalSeason};
use crate::filename::{Meta, Metadata};
use crate::scanner::lookup::{
    chosen, episodes_in, media_in, run_search, seasons_in, LookupQuery, LookupReply, Question,
    Search, SearchTurn,
};
use crate::scanner::parse::metas_of;

verus! {

/// Where an episode was found: the replies that list the show, its seasons and the season's episodes,
/// and the places in them.
#[derive(Clone, Copy, Debug, PartialEq, Eq, Structural)]
pub struct FoundEpisode {
    pub shows: usize,
    pub show: usize,
    pub seasons: usize,
    pub season: usize,
    pub episodes: usize,
    pub episode: usize,
}

/// What looking for an episode among the seasons of a show has come to: the next question, the season
/// with the reply that lists its episodes and the place in it, or nothing, after so many replies.
pub enum Placing {
    Ask(Question),
    Found(int, int, int),
    Missed(int),
}

/// The season that is looked for; 0 where none is known.
pub open spec fn season_wanted(m: Meta) -> int {
    match m.season {
        Some(s) => s as int,
        None => 0,
    }
}

/// The episode that is looked for; 0 where none is known.
pub open spec fn episode_wanted(m: Meta) -> int {
    match m.episode {
        Some(e) => e as int,
        None => 0,
    }
}

/// Numbers that come from a misread name.
pub open spec fn is_implausible(m: Meta) -> bool {
    season_wanted(m) > 100 || episode_wanted(m) > 10000
}

/// The first season with this number, from `from` on.
pub open spec fn season_from(seasons: Seq<ExternalSeason>, n: int, from: int) -> Option<int>
    decreases seasons.len() - from,
{
    if from < 0 || from >= seasons.len() {
        None
    } else if seasons[from].season_number as i64 == n {
        Some(from)
    } else {
        season_from(seasons, n, from + 1)
    }
}

/// The first episode with this number, from `from` on.
pub open spec fn episode_from(episodes: Seq<ExternalEpisode>, n: int, from: int) -> Option<int>
    decreases episodes.len() - from,
{
    if from < 0 || from >= episodes.len() {
        None
    } else if episodes[from].episode_number as i64 == n {
        Some(from)
    } else {
        episode_from(episodes, n, from + 1)
    }
}

/// The highest number among the first `k` episodes, 0 where there are none.
pub open spec fn highest_episode(episodes: Seq<ExternalEpisode>, k: int) -> int
    decreases k,
{
    if k <= 0 {
        0
    } else if k == 1 {
        episodes[0].episode_number as i64 as int
    } else {
        let before = highest_episode(episodes, k - 1);
        if episodes[k - 1].episode_number as i64 > before {
            episodes[k - 1].episode_number as i64 as int
        } else {
            before
        }
    }
}

/// Where a season with number `n` goes in a list of places of seasons in the order of their numbers:
/// after those with the same number.
pub open spec fn slot(seasons: Seq<ExternalSeason>, order: Seq<int>, n: int, from: int) -> int
    decreases order.len() - from,
{
    if 0 <= from < order.len() && seasons[order[from]].season_number <= n {
        slot(seasons, order, n, from + 1)
    } else {
        from
    }
}

/// The places, among the first `k`, of the regular seasons in the order of their numbers.
pub open spec fn in_number_order(seasons: Seq<ExternalSeason>, k: int) -> Seq<int>
    decreases k,
{
    if k <= 0 {
        Seq::empty()
    } else {
        let before = in_number_order(seasons, k - 1);
        let n = seasons[k - 1].season_number as int;
        if n > 0 {
            before.insert(slot(seasons, before, n, 0), k - 1)
        } else {
            before
        }
    }
}

/// The walk along the seasons by which an absolute episode number is resolved, from the season at `j`
/// on, with `left` episodes to go. The landing spot counts if a season's bound was crossed, and if it is
/// in the season that was asked for, or no season beyond the first was.
pub open spec fn absolute_from(
    m: Meta,
    id: Seq<char>,
    seasons: Seq<ExternalSeason>,
    order: Seq<int>,
    j: int,
    left: int,
    replies: Seq<LookupReply>,
    c: int,
) -> Placing
    decreases order.len() - j,
{
    if j < 0 || j >= order.len() {
        Placing::Missed(c)
    } else {
        let n = seasons[order[j]].season_number;
        if c >= replies.len() {
            Placing::Ask(Question::Episodes(id, n))
        } else {
            match episodes_in(replies[c]) {
                None => Placing::Missed(c + 1),
                Some(eps) => match episode_from(eps, left, 0) {
                    Some(e) => if left != episode_wanted(m) && (n as i64 == season_wanted(m)
                        || season_wanted(m) <= 1) {
                        Placing::Found(order[j], c, e)
                    } else {
                        Placing::Missed(c + 1)
                    },
                    None => {
                        let count = highest_episode(eps, eps.len() as int);
                        if left <= count {
                            Placing::Missed(c + 1)
                        } else {
                            absolute_from(
                                m,
                                id,
                                seasons,
                                order,
                                j + 1,
                                left - count,
                                replies,
                                c + 1,
                            )
                        }
                    },
                },
            }
        }
    }
}

/// The search for the episode in the other seasons, from the season at `j` on.
pub open spec fn elsewhere_from(
    m: Meta,
    id: Seq<char>,
    seasons: Seq<ExternalSeason>,
    j: int,
    replies: Seq<LookupReply>,
    c: int,
) -> Placing
    decreases seasons.len() - j,
{
    if j < 0 || j >= seasons.len() {
        Placing::Missed(c)
    } else if seasons[j].season_number as i64 == season_wanted(m) {
        elsewhere_from(m, id, seasons, j + 1, replies, c)
    } else if c >= replies.len() {
        Placing::Ask(Question::Episodes(id, seasons[j].season_number))
    } else {
        match episodes_in(replies[c]) {
            None => elsewhere_from(m, id, seasons, j + 1, replies, c + 1),
            Some(eps) => match episode_from(eps, episode_wanted(m), 0) {
                Some(e) => Placing::Found(j, c, e),
                None => elsewhere_from(m, id, seasons, j + 1, replies, c + 1),
            },
        }
    }
}

/// The search in the season that is looked for: found, failed for good, or to go on from a reply.
pub enum Exact {
    Ask(Question),
    Found(int, int, int),
    /// The episodes could not be had.
    Unavailable(int),
    GoOn(int),
}

/// The search in the season that is looked for.
pub open spec fn exact_season(
    m: Meta,
    id: Seq<char>,
    seasons: Seq<ExternalSeason>,
    replies: Seq<LookupReply>,
    c: int,
) -> Exact {
    match season_from(seasons, season_wanted(m), 0) {
        None => Exact::GoOn(c),
        Some(i) => if c >= replies.len() {
            Exact::Ask(Question::Episodes(id, seasons[i].season_number))
        } else {
            match episodes_in(replies[c]) {
                None => Exact::Unavailable(c + 1),
                Some(eps) => match episode_from(eps, episode_wanted(m), 0) {
                    Some(e) => Exact::Found(i, c, e),
                    None => Exact::GoOn(c + 1),
                },
            }
        },
    }
}

/// The search for an episode among the seasons of a show: in the season that is looked for, then by
/// absolute numbering, then in the other seasons.
pub open spec fn placed(
    m: Meta,
    id: Seq<char>,
    seasons: Seq<ExternalSeason>,
    replies: Seq<LookupReply>,
    c: int,
) -> Placing {
    match exact_season(m, id, seasons, replies, c) {
        Exact::Ask(q) => Placing::Ask(q),
        Exact::Found(i, at, e) => Placing::Found(i, at, e),
        Exact::Unavailable(d) => Placing::Missed(d),
        Exact::GoOn(d) => {
            let walk = if episode_wanted(m) > 0 {
                absolute_from(
                    m,
                    id,
                    seasons,
                    in_number_order(seasons, seasons.len() as int),
                    0,
                    episode_wanted(m),
                    replies,
                    d,
                )
            } else {
                Placing::Missed(d)
            };
            match walk {
                Placing::Missed(e) => elsewhere_from(m, id, seasons, 0, replies, e),
                other => other,
            }
        },
    }
}

/// What a lookup of an episode has come to.
pub enum EpisodeLookup {
    Ask(Question),
    /// Reply and place of the show, reply of the seasons, season, reply of the episodes, episode.
    Found(int, int, int, int, int, int),
    NotFound,
}

/// The lookup of an episode by the metadata from `k` on, from reply `c` on.
pub open spec fn episode_lookup(ms: Seq<Meta>, k: int, replies: Seq<LookupReply>, c: int) -> EpisodeLookup
    decreases ms.len() - k,
{
    if k < 0 || k >= ms.len() {
        EpisodeLookup::NotFound
    } else if is_implausible(ms[k]) {
        episode_lookup(ms, k + 1, replies, c)
    } else {
        match chosen(ms[k], replies, c) {
            Search::Ask(q) => EpisodeLookup::Ask(q),
            Search::Failed(d) => episode_lookup(ms, k + 1, replies, d),
            Search::Chosen(at, b, d) => {
                let id = media_in(replies[at])->0[b].external_id@;
                if d >= replies.len() {
                    EpisodeLookup::Ask(Question::Seasons(id))
                } else {
                    match seasons_in(replies[d]) {
                        None => episode_lookup(ms, k + 1, replies, d + 1),
                        Some(seasons) => match placed(ms[k], id, seasons, replies, d + 1) {
                            Placing::Ask(q) => EpisodeLookup::Ask(q),
                            Placing::Found(i, e, p) => EpisodeLookup::Found(at, b, d, i, e, p),
                            Placing::Missed(f) => episode_lookup(ms, k + 1, replies, f),
                        },
                    }
                }
            },
        }
    }
}

/// A placing as code sees it.
#[derive(Debug)]
pub enum PlacingTurn {
    Ask(LookupQuery),
    Found(usize, usize, usize),
    Missed(usize),
}

/// `t` is the turn `p`.
pub open spec fn is_placing(t: PlacingTurn, p: Placing) -> bool {
    match (t, p) {
        (PlacingTurn::Ask(q), Placing::Ask(r)) => q.question() == r,
        (PlacingTurn::Found(a, b, c), Placing::Found(x, y, z)) => a == x && b == y && c == z,
        (PlacingTurn::Missed(c), Placing::Missed(d)) => c == d,
        _ => false,
    }
}

/// A number of a season or an episode as a signed one.
#[verifier::truncate]
pub fn signed(n: u64) -> (r: i64)
    ensures
        r == n as i64,
{
    n as i64
}

/// Finds the first season with a number.
fn find_season(seasons: &Vec<ExternalSeason>, n: i64) -> (r: Option<usize>)
    ensures
        r is Some <==> season_from(seasons@, n as int, 0) is Some,
        r matches Some(i) ==> Some(i as int) == season_from(seasons@, n as int, 0) && i
            < seasons@.len(),
{
    let mut i: usize = 0;
    while i < seasons.len()
        invariant
            0 <= i <= seasons@.len(),
            season_from(seasons@, n as int, 0) == season_from(seasons@, n as int, i as int),
        decreases seasons@.len() - i,
    {
        if signed(seasons[i].season_number) == n {
            return Some(i);
        }
        i = i + 1;
    }
    None
}

/// Finds the first episode with a number.
fn find_episode(episodes: &Vec<ExternalEpisode>, n: i64) -> (r: Option<usize>)
    ensures
        r is Some <==> episode_from(episodes@, n as int, 0) is Some,
        r matches Some(i) ==> Some(i as int) == episode_from(episodes@, n as int, 0) && i
            < episodes@.len(),
{
    let mut i: usize = 0;
    while i < episodes.len()
        invariant
            0 <= i <= episodes@.len(),
            episode_from(episodes@, n as int, 0) == episode_from(episodes@, n as int, i as int),
        decreases episodes@.len() - i,
    {
        if signed(episodes[i].episode_number) == n {
            return Some(i);
        }
        i = i + 1;
    }
    None
}

/// Finds the highest number among episodes.
fn find_highest(episodes: &Vec<ExternalEpisode>) -> (r: i64)
    ensures
        r == highest_episode(episodes@, episodes@.len() as int),
{
    if episodes.len() == 0 {
        return 0;
    }
    let mut best: i64 = signed(episodes[0].episode_number);
    let mut i: usize = 1;
    while i < episodes.len()
        invariant
            1 <= i <= episodes@.len(),
            best == highest_episode(episodes@, i as int),
        decreases episodes@.len() - i,
    {
        let n = signed(episodes[i].episode_number);
        if n > best {
            best = n;
        }
        i = i + 1;
    }
    best
}

/// Puts the regular seasons into the order of their numbers.
fn order_seasons(seasons: &Vec<ExternalSeason>) -> (r: Vec<usize>)
    ensures
        r@.map_values(|i: usize| i as int) == in_number_order(seasons@, seasons@.len() as int),
        forall|j: int| 0 <= j < r@.len() ==> (#[trigger] r@[j]) < seasons@.len(),
{
    let ghost f = |i: usize| i as int;
    let mut r: Vec<usize> = Vec::new();
    let mut k: usize = 0;
    assert(r@.map_values(f) =~= Seq::<int>::empty());
    while k < seasons.len()
        invariant
            0 <= k <= seasons@.len(),
            f == (|i: usize| i as int),
            r@.map_values(f) == in_number_order(seasons@, k as int),
            forall|j: int| 0 <= j < r@.len() ==> (#[trigger] r@[j]) < seasons@.len(),
        decreases seasons@.len() - k,
    {
        let n = seasons[k].season_number;
        if n > 0 {
            let ghost before = r@.map_values(f);
            let mut p: usize = 0;
            while p < r.len() && seasons[r[p]].season_number <= n
                invariant
                    0 <= p <= r@.len(),
                    f == (|i: usize| i as int),
                    before == r@.map_values(f),
                    forall|j: int| 0 <= j < r@.len() ==> (#[trigger] r@[j]) < seasons@.len(),
                    slot(seasons@, before, n as int, 0) == slot(seasons@, before, n as int, p as int),
                decreases r@.len() - p,
            {
                assert(before[p as int] == r@[p as int]);
                p = p + 1;
            }
            proof {
                if p < r@.len() {
                    assert(before[p as int] == r@[p as int]);
                }
            }
            r.insert(p, k);
            assert(r@.map_values(f) =~= before.insert(p as int, k as int));
        }
        k = k + 1;
    }
    r
}

/// The season and the episode that are looked for.
fn wanted(m: &Metadata) -> (r: (i64, i64))
    ensures
        r.0 == season_wanted(m@),
        r.1 == episode_wanted(m@),
{
    let season: i64 = match m.season {
        Some(s) => s,
        None => 0,
    };
    let episode: i64 = match m.episode {
        Some(e) => e,
        None => 0,
    };
    (season, episode)
}

/// Walks along the seasons to resolve an absolute episode number.
fn walk_absolute(
    m: &Metadata,
    id: &String,
    seasons: &Vec<ExternalSeason>,
    replies: &Vec<LookupReply>,
    c: usize,
) -> (r: PlacingTurn)
    requires
        c <= replies@.len(),
        episode_wanted(m@) > 0,
    ensures
        is_placing(
            r,
            absolute_from(
                m@,
                id@,
                seasons@,
                in_number_order(seasons@, seasons@.len() as int),
                0,
                episode_wanted(m@),
                replies@,
                c as int,
            ),
        ),
        r matches PlacingTurn::Missed(d) ==> d <= replies@.len(),
{
    let (season, episode) = wanted(m);
    let order = order_seasons(seasons);
    let ghost o = in_number_order(seasons@, seasons@.len() as int);
    let len: usize = replies.len();
    let mut left: i128 = episode as i128;
    let mut at: usize = c;
    let mut j: usize = 0;
    while j < order.len()
        invariant
            0 <= j <= order@.len(),
            at <= len == replies@.len(),
            0 < left <= i64::MAX + j * 0x8000_0000_0000_0000,
            season == season_wanted(m@),
            episode == episode_wanted(m@),
            o == order@.map_values(|i: usize| i as int),
            o == in_number_order(seasons@, seasons@.len() as int),
            forall|j: int| 0 <= j < order@.len() ==> (#[trigger] order@[j]) < seasons@.len(),
            absolute_from(m@, id@, seasons@, o, 0, episode as int, replies@, c as int)
                == absolute_from(
                m@,
                id@,
                seasons@,
                o,
                j as int,
                left as int,
                replies@,
                at as int,
            ),
        decreases order@.len() - j,
    {
        assert(o[j as int] == order@[j as int]);
        let n = seasons[order[j]].season_number;
        if at >= len {
            return PlacingTurn::Ask(LookupQuery::Episodes(id.clone(), n));
        }
        match &replies[at] {
            LookupReply::Episodes(eps) => {
                let hit: Option<usize> = if left <= i64::MAX as i128 {
                    find_episode(eps, left as i64)
                } else {
                    proof {
                        lemma_no_such_episode(eps@, left as int, 0);
                    }
                    None
                };
                if let Some(e) = hit {
                    let lands = season <= 1 || signed(n) == season;
                    return if left != episode as i128 && lands {
                        PlacingTurn::Found(order[j], at, e)
                    } else {
                        PlacingTurn::Missed(at + 1)
                    };
                }
                let count = find_highest(eps);
                if left <= count as i128 {
                    return PlacingTurn::Missed(at + 1);
                }
                left = left - count as i128;
                at = at + 1;
            },
            _ => {
                return PlacingTurn::Missed(at + 1);
            },
        }
        j = j + 1;
    }
    PlacingTurn::Missed(at)
}

/// Looks for the episode in the other seasons.
fn look_elsewhere(
    m: &Metadata,
    id: &String,
    seasons: &Vec<ExternalSeason>,
    replies: &Vec<LookupReply>,
    c: usize,
) -> (r: PlacingTurn)
    requires
        c <= replies@.len(),
    ensures
        is_placing(r, elsewhere_from(m@, id@, seasons@, 0, replies@, c as int)),
        r matches PlacingTurn::Missed(d) ==> d <= replies@.len(),
{
    let (season, episode) = wanted(m);
    let len: usize = replies.len();
    let mut at: usize = c;
    let mut j: usize = 0;
    while j < seasons.len()
        invariant
            0 <= j <= seasons@.len(),
            at <= len == replies@.len(),
            season == season_wanted(m@),
            episode == episode_wanted(m@),
            elsewhere_from(m@, id@, seasons@, 0, replies@, c as int) == elsewhere_from(
                m@,
                id@,
                seasons@,
                j as int,
                replies@,
                at as int,
            ),
        decreases seasons@.len() - j,
    {
        let n = seasons[j].season_number;
        if signed(n) != season {
            if at >= len {
                return PlacingTurn::Ask(LookupQuery::Episodes(id.clone(), n));
            }
            if let LookupReply::Episodes(eps) = &replies[at] {
                if let Some(e) = find_episode(eps, episode) {
                    return PlacingTurn::Found(j, at, e);
                }
            }
            at = at + 1;
        }
        j = j + 1;
    }
    PlacingTurn::Missed(at)
}

/// Looks for the episode among the seasons of a show.
fn place_episode(
    m: &Metadata,
    id: &String,
    seasons: &Vec<ExternalSeason>,
    replies: &Vec<LookupReply>,
    c: usize,
) -> (r: PlacingTurn)
    requires
        c <= replies@.len(),
    ensures
        is_placing(r, placed(m@, id@, seasons@, replies@, c as int)),
        r matches PlacingTurn::Missed(d) ==> d <= replies@.len(),
{
    let (season, episode) = wanted(m);
    let len: usize = replies.len();
    let mut at: usize = c;
    if let Some(i) = find_season(seasons, season) {
        if at >= len {
            return PlacingTurn::Ask(
                LookupQuery::Episodes(id.clone(), seasons[i].season_number),
            );
        }
        match &replies[at] {
            LookupReply::Episodes(eps) => {
                if let Some(e) = find_episode(eps, episode) {
                    return PlacingTurn::Found(i, at, e);
                }
            },
            _ => {
                return PlacingTurn::Missed(at + 1);
            },
        }
        at = at + 1;
    }
    if episode > 0 {
        match walk_absolute(m, id, seasons, replies, at) {
            PlacingTurn::Missed(d) => {
                at = d;
            },
            other => {
                return other;
            },
        }
    }
    look_elsewhere(m, id, seasons, replies, at)
}

/// What a lookup of an episode has come to.
#[derive(Debug)]
pub enum EpisodeStep {
    Ask(LookupQuery),
    Found(FoundEpisode),
    NotFound,
}

/// `step` is the state of the lookup `l`.
pub open spec fn is_episode_step(step: EpisodeStep, l: EpisodeLookup) -> bool {
    match (step, l) {
        (EpisodeStep::Ask(q), EpisodeLookup::Ask(p)) => q.question() == p,
        (EpisodeStep::Found(f), EpisodeLookup::Found(a, b, c, d, e, g)) => f.shows == a && f.show == b
            && f.seasons == c && f.season == d && f.episodes == e && f.episode == g,
        (EpisodeStep::NotFound, EpisodeLookup::NotFound) => true,
        _ => false,
    }
}

/// Goes on with the lookup of an episode, given the replies so far. Absolute numbers, which count
/// through all seasons, are resolved where the season that is looked for does not have the episode.
pub fn lookup_metadata(metadata: &Vec<Metadata>, replies: &Vec<LookupReply>) -> (r: EpisodeStep)
    ensures
        is_episode_step(r, episode_lookup(metas_of(metadata@), 0, replies@, 0)),
{
    let ghost ms = metas_of(metadata@);
    let len: usize = replies.len();
    let mut k: usize = 0;
    let mut c: usize = 0;
    while k < metadata.len()
        invariant
            0 <= k <= metadata@.len(),
            c <= len == replies@.len(),
            ms == metas_of(metadata@),
            episode_lookup(ms, 0, replies@, 0) == episode_lookup(ms, k as int, replies@, c as int),
        decreases metadata@.len() - k,
    {
        assert(ms[k as int] == metadata@[k as int]@);
        let m = &metadata[k];
        let (season, episode) = wanted(m);
        if !(season > 100 || episode > 10000) {
            match run_search(m, replies, c) {
                SearchTurn::Ask(q) => {
                    return EpisodeStep::Ask(q);
                },
                SearchTurn::Failed(d) => {
                    c = d;
                },
                SearchTurn::Chosen(shows, show, d) => {
                    let id: String = match &replies[shows] {
                        LookupReply::Media(list) => list[show].external_id.clone(),
                        _ => String::new(),
                    };
                    if d >= len {
                        return EpisodeStep::Ask(LookupQuery::Seasons(id));
                    }
                    match &replies[d] {
                        LookupReply::Seasons(seasons) => {
                            match place_episode(m, &id, seasons, replies, d + 1) {
                                PlacingTurn::Ask(q) => {
                                    return EpisodeStep::Ask(q);
                                },
                                PlacingTurn::Found(i, at, e) => {
                                    return EpisodeStep::Found(
                                        FoundEpisode {
                                            shows,
                                            show,
                                            seasons: d,
                                            season: i,
                                            episodes: at,
                                            episode: e,
                                        },
                                    );
                                },
                                PlacingTurn::Missed(f) => {
                                    c = f;
                                },
                            }
                        },
                        _ => {
                            c = d + 1;
                        },
                    }
                },
            }
        }
        k = k + 1;
    }
    EpisodeStep::NotFound
}

/// What a lookup of an episode of a show that is known by its id has come to.
pub enum IdLookup {
    Ask(Question),
    /// The season, the reply of its episodes, and the episode; reply 0 is the show, reply 1 lists its
    /// seasons.
    Found(int, int, int),
    /// The provider does not know the id.
    InvalidId,
    /// No season has the episode.
    SeasonNotFound,
}

/// The search for an episode among the seasons of a show that is known by its id, by the metadata from
/// `k` on.
pub open spec fn by_id_from(
    ms: Seq<Meta>,
    k: int,
    id: Seq<char>,
    seasons: Seq<ExternalSeason>,
    replies: Seq<LookupReply>,
    c: int,
) -> IdLookup
    decreases ms.len() - k,
{
    if k < 0 || k >= ms.len() {
        IdLookup::SeasonNotFound
    } else if is_implausible(ms[k]) {
        by_id_from(ms, k + 1, id, seasons, replies, c)
    } else {
        match exact_season(ms[k], id, seasons, replies, c) {
            Exact::Ask(q) => IdLookup::Ask(q),
            Exact::Found(i, at, e) => IdLookup::Found(i, at, e),
            Exact::Unavailable(d) => by_id_from(ms, k + 1, id, seasons, replies, d),
            Exact::GoOn(d) => {
                let rest = if episode_wanted(ms[k]) > 0 {
                    elsewhere_from(ms[k], id, seasons, 0, replies, d)
                } else {
                    Placing::Missed(d)
                };
                match rest {
                    Placing::Ask(q) => IdLookup::Ask(q),
                    Placing::Found(i, at, e) => IdLookup::Found(i, at, e),
                    Placing::Missed(f) => by_id_from(ms, k + 1, id, seasons, replies, f),
                }
            },
        }
    }
}

/// The lookup of an episode of a show that is known by its id.
pub open spec fn by_id(ms: Seq<Meta>, id: Seq<char>, replies: Seq<LookupReply>) -> IdLookup {
    if replies.len() == 0 {
        IdLookup::Ask(Question::ById(id))
    } else if media_in(replies[0]) is None || media_in(replies[0])->0.len() == 0 {
        IdLookup::InvalidId
    } else if replies.len() == 1 {
        IdLookup::Ask(Question::Seasons(id))
    } else {
        match seasons_in(replies[1]) {
            None => IdLookup::SeasonNotFound,
            Some(seasons) => by_id_from(ms, 0, id, seasons, replies, 2),
        }
    }
}

/// What a lookup by id has come to.
#[derive(Debug)]
pub enum IdStep {
    Ask(LookupQuery),
    Found { season: usize, episodes: usize, episode: usize },
    InvalidExternalId,
    SeasonNotFound,
}

/// `step` is the state of the lookup `l`.
pub open spec fn is_id_step(step: IdStep, l: IdLookup) -> bool {
    match (step, l) {
        (IdStep::Ask(q), IdLookup::Ask(p)) => q.question() == p,
        (IdStep::Found { season, episodes, episode }, IdLookup::Found(a, b, c)) => season == a
            && episodes == b && episode == c,
        (IdStep::InvalidExternalId, IdLookup::InvalidId) => true,
        (IdStep::SeasonNotFound, IdLookup::SeasonNotFound) => true,
        _ => false,
    }
}

/// Goes on with the lookup of an episode of a show that is known by its id, given the replies so far.
pub fn match_unit_to_external_id(
    metadata: &Vec<Metadata>,
    external_id: &String,
    replies: &Vec<LookupReply>,
) -> (r: IdStep)
    ensures
        is_id_step(r, by_id(metas_of(metadata@), external_id@, replies@)),
{
    let len: usize = replies.len();
    if len == 0 {
        return IdStep::Ask(LookupQuery::ById(external_id.clone()));
    }
    let known = match &replies[0] {
        LookupReply::Media(list) => list.len() > 0,
        _ => false,
    };
    if !known {
        return IdStep::InvalidExternalId;
    }
    if len == 1 {
        return IdStep::Ask(LookupQuery::Seasons(external_id.clone()));
    }
    let seasons = match &replies[1] {
        LookupReply::Seasons(seasons) => seasons,
        _ => {
            return IdStep::SeasonNotFound;
        },
    };
    let ghost ms = metas_of(metadata@);
    let mut k: usize = 0;
    let mut c: usize = 2;
    while k < metadata.len()
        invariant
            0 <= k <= metadata@.len(),
            c <= len == replies@.len(),
            2 <= len,
            ms == metas_of(metadata@),
            seasons_in(replies@[1]) == Some(seasons@),
            by_id(ms, external_id@, replies@) == by_id_from(
                ms,
                k as int,
                external_id@,
                seasons@,
                replies@,
                c as int,
            ),
        decreases metadata@.len() - k,
    {
        assert(ms[k as int] == metadata@[k as int]@);
        let m = &metadata[k];
        let (season, episode) = wanted(m);
        if !(season > 100 || episode > 10000) {
            let mut available = true;
            if let Some(i) = find_season(seasons, season) {
                if c >= len {
                    return IdStep::Ask(
                        LookupQuery::Episodes(external_id.clone(), seasons[i].season_number),
                    );
                }
                match &replies[c] {
                    LookupReply::Episodes(eps) => {
                        if let Some(e) = find_episode(eps, episode) {
                            return IdStep::Found { season: i, episodes: c, episode: e };
                        }
                    },
                    _ => {
                        available = false;
                    },
                }
                c = c + 1;
            }
            if available && episode > 0 {
                match look_elsewhere(m, external_id, seasons, replies, c) {
                    PlacingTurn::Ask(q) => {
                        return IdStep::Ask(q);
                    },
                    PlacingTurn::Found(i, at, e) => {
                        return IdStep::Found { season: i, episodes: at, episode: e };
                    },
                    PlacingTurn::Missed(f) => {
                        c = f;
                    },
                }
            }
        }
        k = k + 1;
    }
    IdStep::SeasonNotFound
}

/// What resolving an absolute episode number has come to.
pub enum Resolving {
    Ask(Question),
    /// The season, the reply of its episodes, and the episode; the first reply lists the seasons.
    Resolved(int, int, int),
    /// It cannot be resolved, after so many replies.
    Unresolved(int),
}

/// The walk along the seasons, specials left out, from the season at `j` on, after `running` episodes.
pub open spec fn resolve_from(
    id: Seq<char>,
    absolute: int,
    seasons: Seq<ExternalSeason>,
    j: int,
    running: int,
    replies: Seq<LookupReply>,
    c: int,
) -> Resolving
    decreases seasons.len() - j,
{
    if j < 0 || j >= seasons.len() {
        Resolving::Unresolved(c)
    } else if seasons[j].season_number == 0 {
        resolve_from(id, absolute, seasons, j + 1, running, replies, c)
    } else if c >= replies.len() {
        Resolving::Ask(Question::Episodes(id, seasons[j].season_number))
    } else {
        match episodes_in(replies[c]) {
            None => Resolving::Unresolved(c + 1),
            Some(eps) => if absolute <= running + eps.len() {
                match episode_from(eps, absolute - running, 0) {
                    Some(e) => Resolving::Resolved(j, c, e),
                    None => Resolving::Unresolved(c + 1),
                }
            } else {
                resolve_from(id, absolute, seasons, j + 1, running + eps.len(), replies, c + 1)
            },
        }
    }
}

/// Resolving an absolute episode number, from reply `c` on.
pub open spec fn resolving(id: Seq<char>, absolute: int, replies: Seq<LookupReply>, c: int) -> Resolving {
    if replies.len() <= c {
        Resolving::Ask(Question::Seasons(id))
    } else {
        match seasons_in(replies[c]) {
            None => Resolving::Unresolved(c + 1),
            Some(seasons) => resolve_from(id, absolute, seasons, 0, 0, replies, c + 1),
        }
    }
}

/// What resolving an absolute episode number has come to.
#[derive(Debug)]
pub enum ResolveStep {
    Ask(LookupQuery),
    Resolved { season: usize, episodes: usize, episode: usize },
    /// It cannot be resolved, after so many replies.
    Unresolved(usize),
}

/// `step` is the state `l`.
pub open spec fn is_resolve_step(step: ResolveStep, l: Resolving) -> bool {
    match (step, l) {
        (ResolveStep::Ask(q), Resolving::Ask(p)) => q.question() == p,
        (ResolveStep::Resolved { season, episodes, episode }, Resolving::Resolved(a, b, c)) => season
            == a && episodes == b && episode == c,
        (ResolveStep::Unresolved(c), Resolving::Unresolved(d)) => c == d,
        _ => false,
    }
}

/// Goes on resolving an absolute episode number into a season and an episode of it, with the replies
/// from `from` on.
pub fn resolve_absolute_episode(
    external_id: &String,
    absolute: i64,
    replies: &Vec<LookupReply>,
    from: usize,
) -> (r: ResolveStep)
    requires
        from <= replies@.len(),
    ensures
        is_resolve_step(r, resolving(external_id@, absolute as int, replies@, from as int)),
        r matches ResolveStep::Unresolved(c) ==> c <= replies@.len(),
{
    let len: usize = replies.len();
    if len == from {
        return ResolveStep::Ask(LookupQuery::Seasons(external_id.clone()));
    }
    let seasons = match &replies[from] {
        LookupReply::Seasons(seasons) => seasons,
        _ => {
            return ResolveStep::Unresolved(from + 1);
        },
    };
    let mut running: i128 = 0;
    let mut c: usize = from + 1;
    let mut j: usize = 0;
    while j < seasons.len()
        invariant
            0 <= j <= seasons@.len(),
            from < c <= len == replies@.len(),
            0 <= running <= i64::MAX,
            seasons_in(replies@[from as int]) == Some(seasons@),
            resolving(external_id@, absolute as int, replies@, from as int) == resolve_from(
                external_id@,
                absolute as int,
                seasons@,
                j as int,
                running as int,
                replies@,
                c as int,
            ),
        decreases seasons@.len() - j,
    {
        let n = seasons[j].season_number;
        if n != 0 {
            if c >= len {
                return ResolveStep::Ask(LookupQuery::Episodes(external_id.clone(), n));
            }
            match &replies[c] {
                LookupReply::Episodes(eps) => {
                    let next: i128 = running + eps.len() as i128;
                    if absolute as i128 <= next {
                        let relative: i128 = absolute as i128 - running;
                        if relative < i64::MIN as i128 {
                            proof {
                                lemma_no_such_episode(eps@, relative as int, 0);
                            }
                            return ResolveStep::Unresolved(c + 1);
                        }
                        return match find_episode(eps, relative as i64) {
                            Some(e) => ResolveStep::Resolved { season: j, episodes: c, episode: e },
                            None => ResolveStep::Unresolved(c + 1),
                        };
                    }
                    running = next;
                    c = c + 1;
                },
                _ => {
                    return ResolveStep::Unresolved(c + 1);
                },
            }
        }
        j = j + 1;
    }
    ResolveStep::Unresolved(c)
}

/// No episode has a number that 64 bits do not hold.
proof fn lemma_no_such_episode(eps: Seq<ExternalEpisode>, n: int, from: int)
    requires
        n < i64::MIN || n > i64::MAX,
    ensures
        episode_from(eps, n, from) is None,
    decreases eps.len() - from,
{
    if 0 <= from < eps.len() {
        lemma_no_such_episode(eps, n, from + 1);
    }
}

/// The numbers that the seasons of the replies from `c` up to `d` count up to, together.
pub open spec fn counted(replies: Seq<LookupReply>, c: int, d: int) -> int
    decreases d - c,
{
    if d <= c {
        0
    } else {
        let eps = episodes_in(replies[d - 1])->0;
        counted(replies, c, d - 1) + highest_episode(eps, eps.len() as int)
    }
}

/// An absolute number that is resolved is the number of the episode in its season plus all that the
/// seasons before it count up to.
pub proof fn law_absolute_numbers_add_up(
    m: Meta,
    id: Seq<char>,
    seasons: Seq<ExternalSeason>,
    order: Seq<int>,
    j: int,
    left: int,
    replies: Seq<LookupReply>,
    c: int,
)
    requires
        0 <= j <= order.len(),
        0 <= c,
        absolute_from(m, id, seasons, order, j, left, replies, c) is Found,
    ensures
        ({
            let p = absolute_from(m, id, seasons, order, j, left, replies, c);
            let eps = episodes_in(replies[p->Found_1])->0;
            &&& c <= p->Found_1 < replies.len()
            &&& 0 <= p->Found_2 < eps.len()
            &&& counted(replies, c, p->Found_1) + eps[p->Found_2].episode_number as i64 == left
        }),
    decreases order.len() - j,
{
    if j < order.len() && c < replies.len() {
        if let Some(eps) = episodes_in(replies[c]) {
            lemma_episode_from(eps, left, 0);
            if episode_from(eps, left, 0) is None {
                let count = highest_episode(eps, eps.len() as int);
                law_absolute_numbers_add_up(
                    m,
                    id,
                    seasons,
                    order,
                    j + 1,
                    left - count,
                    replies,
                    c + 1,
                );
                let p = absolute_from(m, id, seasons, order, j, left, replies, c);
                lemma_counted(replies, c, p->Found_1);
            }
        }
    }
}

/// What the first season counts up to can be taken off.
proof fn lemma_counted(replies: Seq<LookupReply>, c: int, d: int)
    requires
        c < d,
    ensures
        ({
            let eps = episodes_in(replies[c])->0;
            counted(replies, c, d) == highest_episode(eps, eps.len() as int) + counted(
                replies,
                c + 1,
                d,
            )
        }),
    decreases d - c,
{
    if d > c + 1 {
        lemma_counted(replies, c, d - 1);
    } else {
        assert(counted(replies, c, c) == 0);
        assert(counted(replies, c + 1, d) == 0);
    }
}

/// An episode that is found has the number, and is in the list.
pub proof fn lemma_episode_from(eps: Seq<ExternalEpisode>, n: int, from: int)
    requires
        0 <= from,
    ensures
        episode_from(eps, n, from) matches Some(e) ==> 0 <= e < eps.len()
            && eps[e].episode_number as i64 == n,
    decreases eps.len() - from,
{
    if from < eps.len() {
        lemma_episode_from(eps, n, from + 1);
    }
}

/// The other seasons are asked for, never searched for.
proof fn lemma_elsewhere_asks(
    m: Meta,
    id: Seq<char>,
    seasons: Seq<ExternalSeason>,
    j: int,
    replies: Seq<LookupReply>,
    c: int,
)
    requires
        0 <= j,
    ensures
        elsewhere_from(m, id, seasons, j, replies, c) matches Placing::Ask(q) ==> !(q is Search),
    decreases seasons.len() - j,
{
    if j < seasons.len() {
        lemma_elsewhere_asks(m, id, seasons, j + 1, replies, c);
        lemma_elsewhere_asks(m, id, seasons, j + 1, replies, c + 1);
    }
}

/// A show that is known by its id is not searched for.
proof fn lemma_by_id_asks(
    ms: Seq<Meta>,
    k: int,
    id: Seq<char>,
    seasons: Seq<ExternalSeason>,
    replies: Seq<LookupReply>,
    c: int,
)
    requires
        0 <= k,
    ensures
        by_id_from(ms, k, id, seasons, replies, c) matches IdLookup::Ask(q) ==> !(q is Search),
    decreases ms.len() - k,
{
    if k < ms.len() {
        if is_implausible(ms[k]) {
            lemma_by_id_asks(ms, k + 1, id, seasons, replies, c);
        } else {
            match exact_season(ms[k], id, seasons, replies, c) {
                Exact::Unavailable(d) => {
                    lemma_by_id_asks(ms, k + 1, id, seasons, replies, d);
                },
                Exact::GoOn(d) => {
                    lemma_elsewhere_asks(ms[k], id, seasons, 0, replies, d);
                    match elsewhere_from(ms[k], id, seasons, 0, replies, d) {
                        Placing::Missed(f) => {
                            lemma_by_id_asks(ms, k + 1, id, seasons, replies, f);
                        },
                        _ => {},
                    }
                    lemma_by_id_asks(ms, k + 1, id, seasons, replies, d);
                },
                _ => {},
            }
        }
    }
}

/// The first episode with a number is found if there is one, and nothing is if there is none.
pub proof fn law_numbers_name_the_first_episode(eps: Seq<ExternalEpisode>, n: int)
    ensures
        match episode_from(eps, n, 0) {
            Some(e) => 0 <= e < eps.len() && eps[e].episode_number as i64 == n && forall|i: int|
                0 <= i < e ==> (#[trigger] eps[i]).episode_number as i64 != n,
            None => forall|i: int|
                0 <= i < eps.len() ==> (#[trigger] eps[i]).episode_number as i64 != n,
        },
{
    lemma_first_episode(eps, n, 0);
}

proof fn lemma_first_episode(eps: Seq<ExternalEpisode>, n: int, from: int)
    requires
        0 <= from,
    ensures
        match episode_from(eps, n, from) {
            Some(e) => from <= e < eps.len() && eps[e].episode_number as i64 == n && forall|i: int|
                from <= i < e ==> (#[trigger] eps[i]).episode_number as i64 != n,
            None => forall|i: int|
                from <= i < eps.len() ==> (#[trigger] eps[i]).episode_number as i64 != n,
        },
    decreases eps.len() - from,
{
    if from < eps.len() && eps[from].episode_number as i64 != n {
        lemma_first_episode(eps, n, from + 1);
    }
}

/// The first season with a number is found if there is one, and nothing is if there is none.
pub proof fn law_numbers_name_the_first_season(seasons: Seq<ExternalSeason>, n: int)
    ensures
        match season_from(seasons, n, 0) {
            Some(s) => 0 <= s < seasons.len() && seasons[s].season_number as i64 == n && forall|i: int|
                0 <= i < s ==> (#[trigger] seasons[i]).season_number as i64 != n,
            None => forall|i: int|
                0 <= i < seasons.len() ==> (#[trigger] seasons[i]).season_number as i64 != n,
        },
{
    lemma_first_season(seasons, n, 0);
}

proof fn lemma_first_season(seasons: Seq<ExternalSeason>, n: int, from: int)
    requires
        0 <= from,
    ensures
        match season_from(seasons, n, from) {
            Some(s) => from <= s < seasons.len() && seasons[s].season_number as i64 == n && forall|
                i: int,
            |
                from <= i < s ==> (#[trigger] seasons[i]).season_number as i64 != n,
            None => forall|i: int|
                from <= i < seasons.len() ==> (#[trigger] seasons[i]).season_number as i64 != n,
        },
    decreases seasons.len() - from,
{
    if from < seasons.len() && seasons[from].season_number as i64 != n {
        lemma_first_season(seasons, n, from + 1);
    }
}

/// A season counts up to the largest number among its episodes, and one without episodes up to 0.
pub proof fn law_seasons_count_up_to_their_last_episode(eps: Seq<ExternalEpisode>)
    ensures
        eps.len() == 0 ==> highest_episode(eps, eps.len() as int) == 0,
        eps.len() > 0 ==> exists|i: int|
            0 <= i < eps.len() && (#[trigger] eps[i]).episode_number as i64 == highest_episode(
                eps,
                eps.len() as int,
            ),
        forall|i: int|
            0 <= i < eps.len() ==> (#[trigger] eps[i]).episode_number as i64 <= highest_episode(
                eps,
                eps.len() as int,
            ),
{
    lemma_highest(eps, eps.len() as int);
}

proof fn lemma_highest(eps: Seq<ExternalEpisode>, k: int)
    requires
        0 <= k <= eps.len(),
    ensures
        k > 0 ==> exists|i: int|
            0 <= i < k && (#[trigger] eps[i]).episode_number as i64 == highest_episode(eps, k),
        forall|i: int|
            0 <= i < k ==> (#[trigger] eps[i]).episode_number as i64 <= highest_episode(eps, k),
    decreases k,
{
    if k == 1 {
        assert(eps[0].episode_number as i64 == highest_episode(eps, 1));
    } else if k > 1 {
        lemma_highest(eps, k - 1);
        let i = choose|i: int|
            0 <= i < k - 1 && (#[trigger] eps[i]).episode_number as i64 == highest_episode(eps, k - 1);
        assert(eps[k - 1].episode_number as i64 <= highest_episode(eps, k));
        if highest_episode(eps, k) == highest_episode(eps, k - 1) {
            assert(eps[i].episode_number as i64 == highest_episode(eps, k));
        } else {
            assert(eps[k - 1].episode_number as i64 == highest_episode(eps, k));
        }
    }
}

/// `order` names places of seasons by their numbers, those with the same number as they are listed.
pub open spec fn goes_by_number(seasons: Seq<ExternalSeason>, order: Seq<int>) -> bool {
    &&& forall|i: int| 0 <= i < order.len() ==> 0 <= #[trigger] order[i] < seasons.len()
    &&& forall|i: int, j: int|
        0 <= i < j < order.len() ==> seasons[#[trigger] order[i]].season_number
            < seasons[#[trigger] order[j]].season_number || (seasons[order[i]].season_number
            == seasons[order[j]].season_number && order[i] < order[j])
}

/// Absolute numbers are counted along the regular seasons, each of them once, by their numbers.
pub proof fn law_regular_seasons_go_by_number(seasons: Seq<ExternalSeason>)
    ensures
        ({
            let order = in_number_order(seasons, seasons.len() as int);
            &&& goes_by_number(seasons, order)
            &&& forall|s: int|
                #![trigger seasons[s]]
                0 <= s < seasons.len() ==> (seasons[s].season_number > 0 <==> order.contains(s))
        }),
{
    lemma_number_order(seasons, seasons.len() as int);
}

proof fn lemma_slot(seasons: Seq<ExternalSeason>, order: Seq<int>, n: int, from: int)
    requires
        0 <= from <= order.len(),
        goes_by_number(seasons, order),
    ensures
        from <= slot(seasons, order, n, from) <= order.len(),
        forall|i: int|
            from <= i < slot(seasons, order, n, from) ==> seasons[#[trigger] order[i]].season_number
                <= n,
        forall|i: int|
            slot(seasons, order, n, from) <= i < order.len()
                ==> seasons[#[trigger] order[i]].season_number > n,
    decreases order.len() - from,
{
    if from < order.len() {
        if seasons[order[from]].season_number <= n {
            lemma_slot(seasons, order, n, from + 1);
        } else {
            assert forall|i: int| from <= i < order.len() implies seasons[
            #[trigger] order[i]].season_number > n by {
                if i > from {
                    assert(seasons[order[from]].season_number <= seasons[order[i]].season_number);
                }
            }
        }
    }
}

#[verifier::spinoff_prover]
#[verifier::rlimit(40)]
proof fn lemma_number_order(seasons: Seq<ExternalSeason>, k: int)
    requires
        0 <= k <= seasons.len(),
    ensures
        goes_by_number(seasons, in_number_order(seasons, k)),
        forall|i: int|
            0 <= i < in_number_order(seasons, k).len() ==> (#[trigger] in_number_order(seasons, k)[i])
                < k,
        forall|s: int|
            #![trigger seasons[s]]
            0 <= s < k ==> (seasons[s].season_number > 0 <==> in_number_order(seasons, k).contains(
                s,
            )),
    decreases k,
{
    if k > 0 {
        lemma_number_order(seasons, k - 1);
        let before = in_number_order(seasons, k - 1);
        let after = in_number_order(seasons, k);
        let n = seasons[k - 1].season_number as int;
        if n > 0 {
            let p = slot(seasons, before, n, 0);
            lemma_slot(seasons, before, n, 0);
            assert(after == before.insert(p, k - 1));
            assert forall|i: int| 0 <= i < after.len() implies #[trigger] after[i] == if i < p {
                before[i]
            } else if i == p {
                k - 1
            } else {
                before[i - 1]
            } by {}
            assert forall|i: int, j: int| 0 <= i < j < after.len() implies seasons[
            #[trigger] after[i]].season_number < seasons[#[trigger] after[j]].season_number || (
            seasons[after[i]].season_number == seasons[after[j]].season_number && after[i]
                < after[j]) by {
                let a = if i < p {
                    i
                } else {
                    i - 1
                };
                let b = if j < p {
                    j
                } else {
                    j - 1
                };
                if i != p && j != p {
                    assert(after[i] == before[a] && after[j] == before[b]);
                } else if i == p {
                    assert(after[j] == before[j - 1]);
                } else {
                    assert(after[i] == before[i]);
                }
            }
            assert forall|s: int|
                #![trigger seasons[s]]
                0 <= s < k implies (seasons[s].season_number > 0 <==> after.contains(s)) by {
                if s == k - 1 {
                    assert(after[p] == s);
                } else {
                    if before.contains(s) {
                        let i = choose|i: int| 0 <= i < before.len() && before[i] == s;
                        if i < p {
                            assert(after[i] == s);
                        } else {
                            assert(after[i + 1] == s);
                        }
                    }
                    if after.contains(s) {
                        let i = choose|i: int| 0 <= i < after.len() && after[i] == s;
                        if i < p {
                            assert(before[i] == s);
                        } else {
                            assert(before[i - 1] == s);
                        }
                    }
                }
            }
        } else {
            assert(after == before);
            assert forall|s: int|
                #![trigger seasons[s]]
                0 <= s < k implies (seasons[s].season_number > 0 <==> after.contains(s)) by {
                if s == k - 1 && after.contains(s) {
                    let i = choose|i: int| 0 <= i < before.len() && before[i] == s;
                    assert(before[i] < k - 1);
                }
            }
        }
    }
}

/// An episode that the season asked for lists is found there, whatever other seasons list.
pub proof fn law_the_season_asked_for_comes_first(
    m: Meta,
    id: Seq<char>,
    seasons: Seq<ExternalSeason>,
    replies: Seq<LookupReply>,
    c: int,
    s: int,
    eps: Vec<ExternalEpisode>,
    e: int,
)
    requires
        m.episode is Some,
        0 <= s < seasons.len(),
        seasons[s].season_number as i64 == if m.season is Some {
            m.season->0
        } else {
            0
        },
        forall|i: int|
            0 <= i < s ==> (#[trigger] seasons[i]).season_number as i64
                != seasons[s].season_number as i64,
        0 <= c < replies.len(),
        replies[c] == LookupReply::Episodes(eps),
        0 <= e < eps@.len(),
        eps@[e].episode_number as i64 == m.episode->0,
    ensures
        placed(m, id, seasons, replies, c) matches Placing::Found(i, at, p) && i == s && at == c && 0
            <= p < eps@.len() && eps@[p].episode_number as i64 == m.episode->0,
{
    law_numbers_name_the_first_season(seasons, seasons[s].season_number as i64 as int);
    law_numbers_name_the_first_episode(eps@, m.episode->0 as int);
}

/// A number that no season as such has is counted through the seasons. Where no season, or the first,
/// is asked for, or the one in which it comes to lie: if the seasons before one count up to `n - e`,
/// and that one lists an episode `e`, then episode `n` of the show is episode `e` of that season.
/// The replies from `d` on list the seasons by their numbers; the one before them, if the season asked
/// for exists, lists that one, without the number.
pub proof fn law_absolute_numbers_are_placed(
    m: Meta,
    id: Seq<char>,
    seasons: Seq<ExternalSeason>,
    order: Seq<int>,
    k: int,
    e: int,
    replies: Seq<LookupReply>,
    c: int,
    d: int,
)
    requires
        order == in_number_order(seasons, seasons.len() as int),
        m.episode is Some,
        0 <= k < order.len(),
        m.season matches Some(s) ==> s <= 1 || s == seasons[order[k]].season_number as i64,
        if exists|i: int|
            0 <= i < seasons.len() && (#[trigger] seasons[i]).season_number as i64 == (
            if m.season is Some {
                m.season->0
            } else {
                0
            }) {
            d == c + 1 && (replies[c] matches LookupReply::Episodes(eps) && forall|i: int|
                0 <= i < eps@.len() ==> (#[trigger] eps@[i]).episode_number as i64 != m.episode->0)
        } else {
            d == c
        },
        0 <= c,
        d + k < replies.len(),
        forall|i: int|
            #![trigger replies[d + i]]
            0 <= i <= k ==> (replies[d + i] matches LookupReply::Episodes(eps) && forall|j: int|
                0 <= j < eps@.len() ==> (#[trigger] eps@[j]).episode_number <= i64::MAX),
        e >= 1,
        m.episode->0 == counted(replies, d, d + k) + e,
        m.episode->0 != e,
        replies[d + k] matches LookupReply::Episodes(eps) && exists|j: int|
            0 <= j < eps@.len() && (#[trigger] eps@[j]).episode_number == e,
    ensures
        placed(m, id, seasons, replies, c) matches Placing::Found(s, at, p) && s == order[k] && at == d
            + k && (replies[d + k] matches LookupReply::Episodes(eps) && 0 <= p < eps@.len()
            && eps@[p].episode_number == e),
{
    let s = if m.season is Some {
        m.season->0 as int
    } else {
        0int
    };
    let n = m.episode->0 as int;
    law_numbers_name_the_first_season(seasons, s);
    if let LookupReply::Episodes(eps) = replies[c] {
        law_numbers_name_the_first_episode(eps@, n);
    }
    assert(exact_season(m, id, seasons, replies, c) == Exact::GoOn(d));
    lemma_counts_grow(replies, d, k);
    assert(counted(replies, d, d) == 0);
    lemma_walk_arrives(m, id, seasons, order, k, e, replies, d, 0);
}

/// Seasons count up to no negative numbers.
proof fn lemma_counts_grow(replies: Seq<LookupReply>, d: int, k: int)
    requires
        0 <= k,
        forall|i: int|
            #![trigger replies[d + i]]
            0 <= i <= k ==> (replies[d + i] matches LookupReply::Episodes(eps) && forall|j: int|
                0 <= j < eps@.len() ==> (#[trigger] eps@[j]).episode_number <= i64::MAX),
    ensures
        forall|i: int|
            #![trigger replies[d + i]]
            0 <= i <= k ==> highest_episode(
                episodes_in(replies[d + i])->0,
                episodes_in(replies[d + i])->0.len() as int,
            ) >= 0,
        0 <= counted(replies, d, d + k),
    decreases k,
{
    assert forall|i: int|
        #![trigger replies[d + i]]
        0 <= i <= k implies highest_episode(
        episodes_in(replies[d + i])->0,
        episodes_in(replies[d + i])->0.len() as int,
    ) >= 0 by {
        let eps = episodes_in(replies[d + i])->0;
        law_seasons_count_up_to_their_last_episode(eps);
        if eps.len() > 0 {
            let j = choose|j: int|
                0 <= j < eps.len() && (#[trigger] eps[j]).episode_number as i64 == highest_episode(
                    eps,
                    eps.len() as int,
                );
            assert(eps[j].episode_number <= i64::MAX);
        }
    }
    if k > 0 {
        lemma_counts_grow(replies, d, k - 1);
        assert(replies[d + (k - 1)] == replies[d + k - 1]);
    }
}

/// The walk goes on from the season at `i` to the one at `k`.
proof fn lemma_walk_arrives(
    m: Meta,
    id: Seq<char>,
    seasons: Seq<ExternalSeason>,
    order: Seq<int>,
    k: int,
    e: int,
    replies: Seq<LookupReply>,
    d: int,
    i: int,
)
    requires
        0 <= i <= k < order.len(),
        0 <= d,
        d + k < replies.len(),
        m.episode is Some,
        m.season matches Some(s) ==> s <= 1 || s == seasons[order[k]].season_number as i64,
        forall|i: int|
            #![trigger replies[d + i]]
            0 <= i <= k ==> (replies[d + i] matches LookupReply::Episodes(eps) && highest_episode(
                eps@,
                eps@.len() as int,
            ) >= 0 && forall|j: int|
                0 <= j < eps@.len() ==> (#[trigger] eps@[j]).episode_number <= i64::MAX),
        e >= 1,
        m.episode->0 != e,
        replies[d + k] matches LookupReply::Episodes(eps) && exists|j: int|
            0 <= j < eps@.len() && (#[trigger] eps@[j]).episode_number == e,
    ensures
        absolute_from(
            m,
            id,
            seasons,
            order,
            i,
            counted(replies, d + i, d + k) + e,
            replies,
            d + i,
        ) matches Placing::Found(s, at, p) && s == order[k] && at == d + k && (
        replies[d + k] matches LookupReply::Episodes(eps) && 0 <= p < eps@.len()
            && eps@[p].episode_number == e),
        counted(replies, d + i, d + k) >= 0,
    decreases k - i,
{
    let left = counted(replies, d + i, d + k) + e;
    let eps = episodes_in(replies[d + i])->0;
    law_numbers_name_the_first_episode(eps, left);
    law_seasons_count_up_to_their_last_episode(eps);
    if i < k {
        lemma_walk_arrives(m, id, seasons, order, k, e, replies, d, i + 1);
        lemma_counted(replies, d + i, d + k);
        let count = highest_episode(eps, eps.len() as int);
        assert(d + i + 1 == d + (i + 1));
        assert(left - count == counted(replies, d + (i + 1), d + k) + e);
        assert(left > count);
        if let Some(p) = episode_from(eps, left, 0) {
            assert(eps[p].episode_number as i64 <= count);
        }
    } else {
        assert(counted(replies, d + k, d + k) == 0);
        let j = choose|j: int| 0 <= j < eps.len() && (#[trigger] eps[j]).episode_number == e;
        assert(eps[j].episode_number <= i64::MAX);
        let p = episode_from(eps, left, 0)->0;
        assert(eps[p].episode_number <= i64::MAX);
    }
}

/// Where the other seasons are looked through, an episode is found only under its own number and outside the
/// season asked for; and where it is found nowhere, every other season was asked for, and none that answered
/// lists it.
pub proof fn law_other_seasons_are_looked_through(
    m: Meta,
    id: Seq<char>,
    seasons: Seq<ExternalSeason>,
    j: int,
    replies: Seq<LookupReply>,
    c: int,
)
    requires
        0 <= j,
        0 <= c <= replies.len(),
        m.episode is Some,
    ensures
        match elsewhere_from(m, id, seasons, j, replies, c) {
            Placing::Found(s, at, p) => {
                &&& j <= s < seasons.len()
                &&& seasons[s].season_number as i64 != (if m.season is Some {
                    m.season->0
                } else {
                    0
                })
                &&& c <= at < replies.len()
                &&& replies[at] matches LookupReply::Episodes(eps) && 0 <= p < eps@.len()
                    && eps@[p].episode_number as i64 == m.episode->0
            },
            Placing::Missed(d) => {
                &&& c <= d <= replies.len()
                &&& forall|r: int|
                    c <= r < d ==> (#[trigger] replies[r] matches LookupReply::Episodes(eps)
                        ==> forall|p: int|
                        0 <= p < eps@.len() ==> (#[trigger] eps@[p]).episode_number as i64
                            != m.episode->0)
                &&& d - c == others(seasons, if m.season is Some {
                    m.season->0 as int
                } else {
                    0
                }, j)
            },
            Placing::Ask(q) => q matches Question::Episodes(show, n) && show == id && n as i64 != (
            if m.season is Some {
                m.season->0
            } else {
                0
            }) && exists|s: int|
                j <= s < seasons.len() && (#[trigger] seasons[s]).season_number == n,
        },
    decreases seasons.len() - j,
{
    if j < seasons.len() {
        let s = if m.season is Some {
            m.season->0 as int
        } else {
            0int
        };
        if seasons[j].season_number as i64 == s {
            law_other_seasons_are_looked_through(m, id, seasons, j + 1, replies, c);
        } else if c < replies.len() {
            law_other_seasons_are_looked_through(m, id, seasons, j + 1, replies, c + 1);
            if let LookupReply::Episodes(eps) = replies[c] {
                law_numbers_name_the_first_episode(eps@, m.episode->0 as int);
            }
        } else {
            assert(seasons[j].season_number == seasons[j].season_number);
        }
    }
}

/// How many seasons from `j` on have another number.
pub open spec fn others(seasons: Seq<ExternalSeason>, n: int, j: int) -> int
    decreases seasons.len() - j,
{
    if j < 0 || j >= seasons.len() {
        0
    } else {
        others(seasons, n, j + 1) + if seasons[j].season_number as i64 == n {
            0int
        } else {
            1
        }
    }
}

/// A lookup takes the first set of metadata whose season and episode can be those of a show: no season above
/// 100, no episode above 10000. It searches for the show, asks for its seasons, and places the episode; what
/// the placing finds is what the lookup finds.
pub proof fn law_lookups_place_the_episode(
    ms: Seq<Meta>,
    replies: Seq<LookupReply>,
    step: EpisodeStep,
    at: int,
    b: int,
    d: int,
)
    requires
        is_episode_step(step, episode_lookup(ms, 0, replies, 0)),
        ms.len() > 0,
        ms[0].season matches Some(s) ==> s <= 100,
        ms[0].episode matches Some(e) ==> e <= 10000,
        chosen(ms[0], replies, 0) == Search::Chosen(at, b, d),
        0 <= d,
        replies[at] is Media,
    ensures
        ({
            let show = replies[at]->Media_0@[b];
            &&& d >= replies.len() ==> (step matches EpisodeStep::Ask(LookupQuery::Seasons(id)) && id@
                == show.external_id@)
            &&& d < replies.len() ==> (replies[d] matches LookupReply::Seasons(seasons) ==> match placed(
                ms[0],
                show.external_id@,
                seasons@,
                replies,
                d + 1,
            ) {
                Placing::Found(s, e, p) => step matches EpisodeStep::Found(f) && f.shows == at && f.show
                    == b && f.seasons == d && f.season == s && f.episodes == e && f.episode == p,
                Placing::Ask(q) => step matches EpisodeStep::Ask(r) && r.question() == q,
                Placing::Missed(f) => ms.len() == 1 ==> step is NotFound,
            })
        }),
{
    reveal_with_fuel(episode_lookup, 2);
}

/// Metadata with a season above 100 or an episode above 10000 are passed over.
pub proof fn law_impossible_numbers_are_passed_over(
    ms: Seq<Meta>,
    k: int,
    replies: Seq<LookupReply>,
    c: int,
)
    requires
        0 <= k < ms.len(),
        (ms[k].season matches Some(s) && s > 100) || (ms[k].episode matches Some(e) && e > 10000),
    ensures
        episode_lookup(ms, k, replies, c) == episode_lookup(ms, k + 1, replies, c),
{
}

/// The episode of a show that is known by its id is found in the season asked for, if that lists it.
pub proof fn law_ids_find_the_season_asked_for(
    ms: Seq<Meta>,
    id: Seq<char>,
    replies: Seq<LookupReply>,
    step: IdStep,
    s: int,
    e: int,
)
    requires
        is_id_step(step, by_id(ms, id, replies)),
        ms.len() > 0,
        ms[0].season is Some,
        ms[0].season->0 <= 100,
        ms[0].episode is Some,
        ms[0].episode->0 <= 10000,
        replies.len() >= 3,
        replies[0] matches LookupReply::Media(list) && list@.len() > 0,
        replies[1] matches LookupReply::Seasons(seasons) && 0 <= s < seasons@.len()
            && seasons@[s].season_number as i64 == ms[0].season->0 && forall|i: int|
            0 <= i < s ==> (#[trigger] seasons@[i]).season_number as i64 != ms[0].season->0,
        replies[2] matches LookupReply::Episodes(eps) && 0 <= e < eps@.len()
            && eps@[e].episode_number as i64 == ms[0].episode->0,
    ensures
        step matches IdStep::Found { season, episodes, episode } && season == s && episodes == 2
            && replies[2]->Episodes_0@[episode as int].episode_number as i64 == ms[0].episode->0,
{
    let seasons = replies[1]->Seasons_0@;
    let eps = replies[2]->Episodes_0@;
    law_numbers_name_the_first_season(seasons, ms[0].season->0 as int);
    law_numbers_name_the_first_episode(eps, ms[0].episode->0 as int);
    assert(season_from(seasons, ms[0].season->0 as int, 0) == Some(s));
}

/// Without an answer an id is asked for, then the seasons of the show. An id that the provider does not know
/// is invalid.
pub proof fn law_ids_are_asked_for(
    ms: Seq<Meta>,
    id: Seq<char>,
    replies: Seq<LookupReply>,
    step: IdStep,
)
    requires
        is_id_step(step, by_id(ms, id, replies)),
    ensures
        replies.len() == 0 ==> (step matches IdStep::Ask(LookupQuery::ById(asked)) && asked@ == id),
        replies.len() > 0 ==> (step is InvalidExternalId <==> !(replies[0] matches LookupReply::Media(
            list,
        ) && list@.len() > 0)),
        replies.len() == 1 && !(step is InvalidExternalId) ==> (
        step matches IdStep::Ask(LookupQuery::Seasons(asked)) && asked@ == id),
{
    if replies.len() > 1 {
        if let LookupReply::Seasons(seasons) = replies[1] {
            lemma_by_id_is_known(ms, 0, id, seasons@, replies, 2);
        }
    }
}

proof fn lemma_by_id_is_known(
    ms: Seq<Meta>,
    k: int,
    id: Seq<char>,
    seasons: Seq<ExternalSeason>,
    replies: Seq<LookupReply>,
    c: int,
)
    requires
        0 <= k,
    ensures
        !(by_id_from(ms, k, id, seasons, replies, c) is InvalidId),
    decreases ms.len() - k,
{
    if k < ms.len() {
        if is_implausible(ms[k]) {
            lemma_by_id_is_known(ms, k + 1, id, seasons, replies, c);
        } else {
            match exact_season(ms[k], id, seasons, replies, c) {
                Exact::Unavailable(d) => {
                    lemma_by_id_is_known(ms, k + 1, id, seasons, replies, d);
                },
                Exact::GoOn(d) => {
                    match elsewhere_from(ms[k], id, seasons, 0, replies, d) {
                        Placing::Missed(f) => {
                            lemma_by_id_is_known(ms, k + 1, id, seasons, replies, f);
                        },
                        _ => {},
                    }
                    lemma_by_id_is_known(ms, k + 1, id, seasons, replies, d);
                },
                _ => {},
            }
        }
    }
}

/// How many seasons before `j` are regular ones.
pub open spec fn regular_before(seasons: Seq<ExternalSeason>, j: int) -> int
    decreases j,
{
    if j <= 0 {
        0
    } else {
        regular_before(seasons, j - 1) + if seasons[j - 1].season_number == 0 {
            0int
        } else {
            1
        }
    }
}

/// How many episodes the first `k` of the replies from `c` on list.
pub open spec fn listed(replies: Seq<LookupReply>, c: int, k: int) -> int
    decreases k,
{
    if k <= 0 {
        0
    } else {
        listed(replies, c, k - 1) + episodes_in(replies[c + k - 1])->0.len()
    }
}

/// An absolute number is resolved by counting the episodes of the seasons as they are listed, specials left
/// out: if those before a season list `absolute - e` episodes, and that season has so many and lists number
/// `e`, then that is the episode.
pub proof fn law_absolute_episodes_are_resolved(
    id: Seq<char>,
    absolute: i64,
    replies: Seq<LookupReply>,
    from: int,
    j: int,
    e: int,
    step: ResolveStep,
)
    requires
        is_resolve_step(step, resolving(id, absolute as int, replies, from)),
        0 <= from < replies.len(),
        replies[from] is Seasons,
        0 <= j < replies[from]->Seasons_0@.len(),
        replies[from]->Seasons_0@[j].season_number != 0,
        from + 1 + regular_before(replies[from]->Seasons_0@, j) < replies.len(),
        forall|i: int|
            from < i <= from + 1 + regular_before(replies[from]->Seasons_0@, j) ==> (
            #[trigger] replies[i]) is Episodes,
        absolute == listed(replies, from + 1, regular_before(replies[from]->Seasons_0@, j)) + e,
        1 <= e <= episodes_in(
            replies[from + 1 + regular_before(replies[from]->Seasons_0@, j)],
        )->0.len(),
        exists|p: int|
            0 <= p < episodes_in(
                replies[from + 1 + regular_before(replies[from]->Seasons_0@, j)],
            )->0.len() && (#[trigger] episodes_in(
                replies[from + 1 + regular_before(replies[from]->Seasons_0@, j)],
            )->0[p]).episode_number as i64 == e,
    ensures
        step matches ResolveStep::Resolved { season, episodes, episode } && season == j && episodes
            == from + 1 + regular_before(replies[from]->Seasons_0@, j) && episodes_in(
            replies[episodes as int],
        )->0[episode as int].episode_number as i64 == e,
{
    let seasons = replies[from]->Seasons_0@;
    let n = regular_before(seasons, j);
    lemma_resolve_arrives(id, absolute as int, seasons, j, e, replies, from + 1, 0);
    let eps = episodes_in(replies[from + 1 + n])->0;
    law_numbers_name_the_first_episode(eps, e);
}

proof fn lemma_regular_before(seasons: Seq<ExternalSeason>, i: int, j: int)
    requires
        0 <= i <= j,
    ensures
        0 <= regular_before(seasons, i) <= regular_before(seasons, j),
        i < j && seasons[i].season_number != 0 ==> regular_before(seasons, i) + 1 <= regular_before(
            seasons,
            j,
        ),
    decreases j,
{
    if i < j {
        lemma_regular_before(seasons, i, j - 1);
    } else if i > 0 {
        lemma_regular_before(seasons, i - 1, j - 1);
    }
}

proof fn lemma_listed(replies: Seq<LookupReply>, c: int, a: int, b: int)
    requires
        0 <= a <= b,
    ensures
        0 <= listed(replies, c, a) <= listed(replies, c, b),
        a < b ==> listed(replies, c, a) + episodes_in(replies[c + a])->0.len() <= listed(replies, c, b),
    decreases b,
{
    if a < b {
        lemma_listed(replies, c, a, b - 1);
        if a == b - 1 {
            assert(c + b - 1 == c + a);
        }
    } else if a > 0 {
        lemma_listed(replies, c, a - 1, b - 1);
    }
}

/// The walk goes on from the season at `i` to the one at `j`.
proof fn lemma_resolve_arrives(
    id: Seq<char>,
    absolute: int,
    seasons: Seq<ExternalSeason>,
    j: int,
    e: int,
    replies: Seq<LookupReply>,
    c: int,
    i: int,
)
    requires
        0 <= i <= j < seasons.len(),
        0 <= c,
        seasons[j].season_number != 0,
        c + regular_before(seasons, j) < replies.len(),
        forall|r: int|
            c <= r <= c + regular_before(seasons, j) ==> (#[trigger] replies[r]) is Episodes,
        absolute == listed(replies, c, regular_before(seasons, j)) + e,
        1 <= e <= episodes_in(replies[c + regular_before(seasons, j)])->0.len(),
    ensures
        resolve_from(
            id,
            absolute,
            seasons,
            i,
            listed(replies, c, regular_before(seasons, i)),
            replies,
            c + regular_before(seasons, i),
        ) == match episode_from(
            episodes_in(replies[c + regular_before(seasons, j)])->0,
            e,
            0,
        ) {
            Some(p) => Resolving::Resolved(j, c + regular_before(seasons, j), p),
            None => Resolving::Unresolved(c + regular_before(seasons, j) + 1),
        },
    decreases j - i,
{
    let n = regular_before(seasons, i);
    lemma_regular_before(seasons, i, j);
    lemma_regular_before(seasons, 0, i);
    if i < j {
        lemma_resolve_arrives(id, absolute, seasons, j, e, replies, c, i + 1);
        if seasons[i].season_number != 0 {
            lemma_listed(replies, c, n, regular_before(seasons, j));
            assert(replies[c + n] is Episodes);
            let eps = episodes_in(replies[c + n])->0;
            assert(regular_before(seasons, i + 1) == n + 1);
            assert(c + (n + 1) - 1 == c + n);
            assert(listed(replies, c, n + 1) == listed(replies, c, n) + eps.len());
            assert(absolute > listed(replies, c, n) + eps.len());
        } else {
            assert(regular_before(seasons, i + 1) == n);
        }
    } else {
        assert(replies[c + n] is Episodes);
    }
}

/// An id pins the match: nothing is searched for by a title.
pub proof fn law_ids_pin_shows(ms: Seq<Meta>, id: Seq<char>, replies: Seq<LookupReply>)
    ensures
        by_id(ms, id, replies) matches IdLookup::Ask(q) ==> !(q is Search),
{
    if replies.len() > 1 {
        if let Some(seasons) = seasons_in(replies[1]) {
            lemma_by_id_asks(ms, 0, id, seasons, replies, 2);
        }
    }
}

}
