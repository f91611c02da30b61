//! Putting the answers of providers into order.

use vstd::prelude::*;

use crate::external::{ExternalEpisode, ExternalMedia, ExternalSeason};

verus! {

/// The media that were released in a year.
pub open spec fn is_of_year(m: ExternalMedia, year: i32) -> bool {
    m.release_date is Some && m.release_date->0.year == year
}

/// The media of a year, among the first `k`.
pub open spec fn of_year(media: Seq<ExternalMedia>, year: i32, k: int) -> Seq<ExternalMedia>
    decreases k,
{
    if k <= 0 {
        Seq::empty()
    } else if is_of_year(media[k - 1], year) {
        of_year(media, year, k - 1).push(media[k - 1])
    } else {
        of_year(media, year, k - 1)
    }
}

/// The media of the year that was asked for, or all where there are none.
pub open spec fn preferred(media: Seq<ExternalMedia>, year: Option<i32>) -> Seq<ExternalMedia> {
    match year {
        Some(year) => {
            let some = of_year(media, year, media.len() as int);
            if some.len() > 0 {
                some
            } else {
                media
            }
        },
        None => media,
    }
}

/// Keeps the media of the year that was asked for, or all where there are none.
pub fn prefer_year(media: Vec<ExternalMedia>, year: Option<i32>) -> (r: Vec<ExternalMedia>)
    ensures
        r@ == preferred(media@, year),
{
    let year: i32 = match year {
        Some(year) => year,
        None => {
            return media;
        },
    };
    let mut any = false;
    let mut i: usize = 0;
    while i < media.len()
        invariant
            0 <= i <= media@.len(),
            any == (of_year(media@, year, i as int).len() > 0),
        decreases media@.len() - i,
    {
        if let Some(d) = media[i].release_date {
            if d.year == year {
                any = true;
            }
        }
        i = i + 1;
    }
    if !any {
        return media;
    }
    let mut rest = media;
    let ghost all = rest@;
    let mut r: Vec<ExternalMedia> = Vec::new();
    let ghost mut k: int = 0;
    assert(all.skip(0) =~= all);
    while rest.len() > 0
        invariant
            0 <= k <= all.len(),
            rest@ == all.skip(k),
            r@ == of_year(all, year, k),
        decreases rest@.len(),
    {
        let m = rest.remove(0);
        assert(m == all[k]);
        assert(rest@ =~= all.skip(k + 1));
        let keep = match m.release_date {
            Some(d) => d.year == year,
            None => false,
        };
        if keep {
            r.push(m);
        }
        proof {
            k = k + 1;
        }
    }
    assert(k == all.len());
    r
}

/// Where a number goes in a list of numbers that is in order: after those that are not greater.
pub open spec fn number_place(numbers: Seq<u64>, n: u64, from: int) -> int
    decreases numbers.len() - from,
{
    if 0 <= from < numbers.len() && numbers[from] <= n {
        number_place(numbers, n, from + 1)
    } else {
        from
    }
}

/// The numbers of seasons.
pub open spec fn season_numbers(seasons: Seq<ExternalSeason>) -> Seq<u64> {
    seasons.map_values(|s: ExternalSeason| s.season_number)
}

/// The numbers of episodes.
pub open spec fn episode_numbers(episodes: Seq<ExternalEpisode>) -> Seq<u64> {
    episodes.map_values(|e: ExternalEpisode| e.episode_number)
}

/// A list of seasons in the order of their numbers, with one more in its place.
pub open spec fn season_added(seasons: Seq<ExternalSeason>, s: ExternalSeason) -> Seq<ExternalSeason> {
    seasons.insert(number_place(season_numbers(seasons), s.season_number, 0), s)
}

/// A list of episodes in the order of their numbers, with one more in its place.
pub open spec fn episode_added(episodes: Seq<ExternalEpisode>, e: ExternalEpisode) -> Seq<
    ExternalEpisode,
> {
    episodes.insert(number_place(episode_numbers(episodes), e.episode_number, 0), e)
}

/// The place is in the list.
pub proof fn lemma_number_place(numbers: Seq<u64>, n: u64, from: int)
    requires
        0 <= from <= numbers.len(),
    ensures
        from <= number_place(numbers, n, from) <= numbers.len(),
        forall|j: int| from <= j < number_place(numbers, n, from) ==> #[trigger] numbers[j] <= n,
        number_place(numbers, n, from) < numbers.len() ==> numbers[number_place(numbers, n, from)]
            > n,
    decreases numbers.len() - from,
{
    if from < numbers.len() && numbers[from] <= n {
        lemma_number_place(numbers, n, from + 1);
    }
}

/// Puts a season into its place.
pub fn add_season(seasons: &mut Vec<ExternalSeason>, s: ExternalSeason)
    ensures
        final(seasons)@ == season_added(old(seasons)@, s),
{
    let ghost numbers = season_numbers(seasons@);
    let mut p: usize = 0;
    while p < seasons.len() && seasons[p].season_number <= s.season_number
        invariant
            0 <= p <= seasons@.len(),
            numbers == season_numbers(seasons@),
            seasons@ == old(seasons)@,
            number_place(numbers, s.season_number, 0) == number_place(
                numbers,
                s.season_number,
                p as int,
            ),
        decreases seasons@.len() - p,
    {
        assert(numbers[p as int] == seasons@[p as int].season_number);
        p = p + 1;
    }
    proof {
        if p < seasons@.len() {
            assert(numbers[p as int] == seasons@[p as int].season_number);
        }
    }
    seasons.insert(p, s);
}

/// Puts an episode into its place.
pub fn add_episode(episodes: &mut Vec<ExternalEpisode>, e: ExternalEpisode)
    ensures
        final(episodes)@ == episode_added(old(episodes)@, e),
{
    let ghost numbers = episode_numbers(episodes@);
    let mut p: usize = 0;
    while p < episodes.len() && episodes[p].episode_number <= e.episode_number
        invariant
            0 <= p <= episodes@.len(),
            numbers == episode_numbers(episodes@),
            episodes@ == old(episodes)@,
            number_place(numbers, e.episode_number, 0) == number_place(
                numbers,
                e.episode_number,
                p as int,
            ),
        decreases episodes@.len() - p,
    {
        assert(numbers[p as int] == episodes@[p as int].episode_number);
        p = p + 1;
    }
    proof {
        if p < episodes@.len() {
            assert(numbers[p as int] == episodes@[p as int].episode_number);
        }
    }
    episodes.insert(p, e);
}

/// Numbers in order.
pub open spec fn in_number_order(numbers: Seq<u64>) -> bool {
    forall|i: int, j: int| 0 <= i < j < numbers.len() ==> #[trigger] numbers[i] <= #[trigger] numbers[j]
}

/// An episode that is put into its place leaves the list in order.
pub proof fn law_added_episodes_are_in_order(episodes: Seq<ExternalEpisode>, e: ExternalEpisode)
    requires
        in_number_order(episode_numbers(episodes)),
    ensures
        in_number_order(episode_numbers(episode_added(episodes, e))),
{
    let n = episode_numbers(episodes);
    lemma_number_place(n, e.episode_number, 0);
    let p = number_place(n, e.episode_number, 0);
    let after = episode_numbers(episode_added(episodes, e));
    assert(after =~= n.insert(p, e.episode_number));
    assert forall|i: int, j: int| 0 <= i < j < after.len() implies #[trigger] after[i]
        <= #[trigger] after[j] by {
        if j < p {
            assert(after[i] == n[i] && after[j] == n[j]);
        } else if j == p {
            assert(after[i] == n[i]);
        } else if i < p {
            assert(after[i] == n[i] && after[j] == n[j - 1]);
        } else if i == p {
            assert(after[j] == n[j - 1]);
            if j - 1 > p {
                assert(n[p] <= n[j - 1]);
            }
        } else {
            assert(after[i] == n[i - 1] && after[j] == n[j - 1]);
        }
    }
}

/// A season that is put into its place leaves the list in order.
pub proof fn law_added_seasons_are_in_order(seasons: Seq<ExternalSeason>, s: ExternalSeason)
    requires
        in_number_order(season_numbers(seasons)),
    ensures
        in_number_order(season_numbers(season_added(seasons, s))),
{
    let n = season_numbers(seasons);
    lemma_number_place(n, s.season_number, 0);
    let p = number_place(n, s.season_number, 0);
    let after = season_numbers(season_added(seasons, s));
    assert(after =~= n.insert(p, s.season_number));
    assert forall|i: int, j: int| 0 <= i < j < after.len() implies #[trigger] after[i]
        <= #[trigger] after[j] by {
        if j < p {
            assert(after[i] == n[i] && after[j] == n[j]);
        } else if j == p {
            assert(after[i] == n[i]);
        } else if i < p {
            assert(after[i] == n[i] && after[j] == n[j - 1]);
        } else if i == p {
            assert(after[j] == n[j - 1]);
            if j - 1 > p {
                assert(n[p] <= n[j - 1]);
            }
        } else {
            assert(after[i] == n[i - 1] && after[j] == n[j - 1]);
        }
    }
}

/// The results of the year that was asked for are kept, all of them and no others; where there are none, and
/// where no year was asked for, all results are.
pub proof fn law_results_of_the_year_are_preferred(
    media: Seq<ExternalMedia>,
    year: i32,
    m: ExternalMedia,
)
    ensures
        preferred(media, None) == media,
        (exists|j: int|
            0 <= j < media.len() && (#[trigger] media[j]).release_date is Some
                && media[j].release_date->0.year == year) ==> (preferred(media, Some(year)).contains(m)
            <==> media.contains(m) && m.release_date is Some && m.release_date->0.year == year),
        !(exists|j: int|
            0 <= j < media.len() && (#[trigger] media[j]).release_date is Some
                && media[j].release_date->0.year == year) ==> preferred(media, Some(year)) == media,
{
    let n = media.len() as int;
    lemma_of_year(media, year, n, m);
    if exists|j: int|
        0 <= j < media.len() && (#[trigger] media[j]).release_date is Some
            && media[j].release_date->0.year == year {
        let j = choose|j: int|
            0 <= j < media.len() && (#[trigger] media[j]).release_date is Some
                && media[j].release_date->0.year == year;
        lemma_of_year(media, year, n, media[j]);
        assert(media.take(n) =~= media);
        assert(media.contains(media[j]));
    } else {
        let some = of_year(media, year, n);
        if some.len() > 0 {
            lemma_of_year(media, year, n, some[0]);
            assert(some.contains(some[0]));
            assert(media.take(n) =~= media);
            let j = choose|j: int| 0 <= j < media.len() && media[j] == some[0];
            assert(media[j].release_date is Some && media[j].release_date->0.year == year);
        }
    }
    assert(media.take(n) =~= media);
}

/// What is of a year.
proof fn lemma_of_year(media: Seq<ExternalMedia>, year: i32, k: int, m: ExternalMedia)
    requires
        0 <= k <= media.len(),
    ensures
        of_year(media, year, k).contains(m) <==> media.take(k).contains(m) && is_of_year(m, year),
    decreases k,
{
    if k > 0 {
        lemma_of_year(media, year, k - 1, m);
        let before = of_year(media, year, k - 1);
        let now = of_year(media, year, k);
        let part = media.take(k);
        let less = media.take(k - 1);
        assert(part =~= less.push(media[k - 1]));
        if less.contains(m) {
            let j = choose|j: int| 0 <= j < less.len() && less[j] == m;
            assert(part[j] == m);
        }
        if before.contains(m) {
            let j = choose|j: int| 0 <= j < before.len() && before[j] == m;
            assert(now[j] == m);
        }
        if m == media[k - 1] {
            assert(part[k - 1] == m);
            if is_of_year(m, year) {
                assert(now[before.len() as int] == m);
            }
        }
        if part.contains(m) && m != media[k - 1] {
            let j = choose|j: int| 0 <= j < part.len() && part[j] == m;
            assert(less[j] == m);
        }
        if now.contains(m) && m != media[k - 1] {
            let j = choose|j: int| 0 <= j < now.len() && now[j] == m;
            assert(before[j] == m);
        }
    }
}

/// A season that is added is in the list, and what was there stays.
pub proof fn law_added_seasons_are_there(seasons: Seq<ExternalSeason>, s: ExternalSeason)
    ensures
        season_added(seasons, s).to_multiset() == seasons.to_multiset().insert(s),
{
    lemma_place_in(season_numbers(seasons), s.season_number, 0);
    vstd::seq_lib::to_multiset_insert(
        seasons,
        number_place(season_numbers(seasons), s.season_number, 0),
        s,
    );
}

/// An episode that is added is in the list, and what was there stays.
pub proof fn law_added_episodes_are_there(episodes: Seq<ExternalEpisode>, e: ExternalEpisode)
    ensures
        episode_added(episodes, e).to_multiset() == episodes.to_multiset().insert(e),
{
    lemma_place_in(episode_numbers(episodes), e.episode_number, 0);
    vstd::seq_lib::to_multiset_insert(
        episodes,
        number_place(episode_numbers(episodes), e.episode_number, 0),
        e,
    );
}

/// The place of a number is in the list.
proof fn lemma_place_in(numbers: Seq<u64>, n: u64, from: int)
    requires
        0 <= from <= numbers.len(),
    ensures
        from <= number_place(numbers, n, from) <= numbers.len(),
    decreases numbers.len() - from,
{
    if from < numbers.len() && numbers[from] <= n {
        lemma_place_in(numbers, n, from + 1);
    }
}

}
