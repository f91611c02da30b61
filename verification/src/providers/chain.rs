//! Chains of providers.
//!
//! A search asks one provider after the other until one has results. What is asked by an id goes to the
//! provider whose scheme the id has.

use vstd::prelude::*;

use crate::scanner::matcher::is_scannable;
use crate::scanner::records::MediaType;
use crate::settings::{default_key, default_tmdb_key, GlobalSettings};
use crate::text::{same, trim, trimmed};

verus! {

/// A metadata provider.
#[derive(Clone, Copy, Debug, PartialEq, Eq, Structural)]
pub enum Provider {
    /// TMDB, asked for movies.
    TmdbMovies,
    /// TMDB, asked for shows.
    TmdbShows,
    TvMaze,
    AniList,
}

/// The scheme of a provider's ids.
pub open spec fn scheme_of(p: Provider) -> Seq<char> {
    match p {
        Provider::TmdbMovies => "tmdb"@,
        Provider::TmdbShows => "tmdb"@,
        Provider::TvMaze => "tvmaze"@,
        Provider::AniList => "anilist"@,
    }
}

/// A provider that knows of seasons and episodes.
pub open spec fn knows_shows(p: Provider) -> bool {
    !(p is TmdbMovies)
}

impl Provider {
    /// The scheme of the provider's ids.
    pub fn provider_scheme(&self) -> (r: &'static str)
        ensures
            r@ == scheme_of(*self),
    {
        match self {
            Provider::TmdbMovies => "tmdb",
            Provider::TmdbShows => "tmdb",
            Provider::TvMaze => "tvmaze",
            Provider::AniList => "anilist",
        }
    }

    /// Tells if the provider knows of seasons and episodes.
    pub fn is_show_provider(&self) -> (r: bool)
        ensures
            r == knows_shows(*self),
    {
        match self {
            Provider::TmdbMovies => false,
            _ => true,
        }
    }
}

/// A chain of providers: the first is the primary one, the others stand in for it in their order.
#[derive(Debug)]
pub struct ChainedProvider {
    pub children: Vec<Provider>,
}

/// The first provider with this scheme, from `from` on.
pub open spec fn with_scheme(children: Seq<Provider>, scheme: Seq<char>, from: int) -> Option<int>
    decreases children.len() - from,
{
    if from < 0 || from >= children.len() {
        None
    } else if scheme_of(children[from]) == scheme {
        Some(from)
    } else {
        with_scheme(children, scheme, from + 1)
    }
}

/// What a provider's search came to.
#[derive(Clone, Copy, Debug, PartialEq, Eq, Structural)]
pub enum ChainReply {
    /// There are results.
    Found,
    /// There are none.
    Empty,
    Failed,
}

/// What a search along a chain has come to.
#[derive(Clone, Copy, Debug, PartialEq, Eq, Structural)]
pub enum ChainStep {
    /// The provider at this place is asked.
    Ask(usize),
    /// The reply at this place is the result.
    Answer(usize),
    /// The search fails with the error of the reply at this place.
    Failed(usize),
    /// There are no results.
    Empty,
}

/// The last of the first `k` replies that failed.
pub open spec fn last_failure(replies: Seq<ChainReply>, k: int) -> Option<int>
    decreases k,
{
    if k <= 0 {
        None
    } else if replies[k - 1] is Failed {
        Some(k - 1)
    } else {
        last_failure(replies, k - 1)
    }
}

/// The search along a chain of `n` providers, from the one at `k` on.
pub open spec fn searching(n: int, replies: Seq<ChainReply>, k: int) -> ChainStep
    decreases n - k,
{
    if k >= n {
        match last_failure(replies, n) {
            Some(i) => ChainStep::Failed(i as usize),
            None => ChainStep::Empty,
        }
    } else if k >= replies.len() {
        ChainStep::Ask(k as usize)
    } else if replies[k] is Found {
        ChainStep::Answer(k as usize)
    } else {
        searching(n, replies, k + 1)
    }
}

impl ChainedProvider {
    /// A chain has a provider.
    pub open spec fn wf(self) -> bool {
        self.children@.len() > 0
    }

    /// The place of the provider that an id with this scheme belongs to; an id without one, or with a
    /// scheme of none of the providers, belongs to the primary one.
    pub open spec fn owner(self, scheme: Option<Seq<char>>) -> int {
        match scheme {
            Some(scheme) => match with_scheme(self.children@, scheme, 0) {
                Some(i) => i,
                None => 0,
            },
            None => 0,
        }
    }

    /// A chain of these providers.
    pub fn new(children: Vec<Provider>) -> (r: Self)
        requires
            children@.len() > 0,
        ensures
            r.wf(),
            r.children == children,
    {
        ChainedProvider { children }
    }

    /// Finds the provider that an id with this scheme belongs to.
    pub fn child_for_id(&self, scheme: &Option<String>) -> (r: usize)
        requires
            self.wf(),
        ensures
            r < self.children@.len(),
            r == self.owner(
                match *scheme {
                    Some(s) => Some(s@),
                    None => None,
                },
            ),
    {
        if let Some(s) = scheme {
            let mut i: usize = 0;
            while i < self.children.len()
                invariant
                    0 <= i <= self.children@.len(),
                    self.wf(),
                    *scheme == Some(*s),
                    with_scheme(self.children@, s@, 0) == with_scheme(
                        self.children@,
                        s@,
                        i as int,
                    ),
                decreases self.children@.len() - i,
            {
                if same(self.children[i].provider_scheme(), s.as_str()) {
                    return i;
                }
                i = i + 1;
            }
        }
        0
    }

    /// The scheme of a chain is that of the primary provider.
    pub fn provider_scheme(&self) -> (r: &'static str)
        requires
            self.wf(),
        ensures
            r@ == scheme_of(self.children@[0]),
    {
        self.children[0].provider_scheme()
    }

    /// Goes on with a search along the chain. An error is the result only where no provider has any.
    pub fn search(&self, replies: &Vec<ChainReply>) -> (r: ChainStep)
        ensures
            r == searching(self.children@.len() as int, replies@, 0),
    {
        let n: usize = self.children.len();
        let len: usize = replies.len();
        let mut last: Option<usize> = None;
        let mut k: usize = 0;
        while k < n
            invariant
                0 <= k <= n == self.children@.len(),
                k <= len == replies@.len(),
                last matches Some(i) ==> last_failure(replies@, k as int) == Some(i as int),
                last is None ==> last_failure(replies@, k as int) is None,
                searching(n as int, replies@, 0) == searching(n as int, replies@, k as int),
            decreases n - k,
        {
            if k >= len {
                return ChainStep::Ask(k);
            }
            match replies[k] {
                ChainReply::Found => {
                    return ChainStep::Answer(k);
                },
                ChainReply::Failed => {
                    last = Some(k);
                },
                ChainReply::Empty => {},
            }
            k = k + 1;
        }
        match last {
            Some(i) => ChainStep::Failed(i),
            None => ChainStep::Empty,
        }
    }

    /// Finds the provider that is asked for the seasons or episodes of an id, if it knows of any.
    pub fn show_child(&self, scheme: &Option<String>) -> (r: Option<usize>)
        requires
            self.wf(),
        ensures
            ({
                let i = self.owner(
                    match *scheme {
                        Some(s) => Some(s@),
                        None => None,
                    },
                );
                match r {
                    Some(x) => x == i && knows_shows(self.children@[i]),
                    None => !knows_shows(self.children@[i]),
                }
            }),
    {
        let i = self.child_for_id(scheme);
        if self.children[i].is_show_provider() {
            Some(i)
        } else {
            None
        }
    }

    /// Tells if seasons and episodes can be asked for: only where the primary provider knows of them.
    pub fn as_query_show(&self) -> (r: bool)
        requires
            self.wf(),
        ensures
            r == knows_shows(self.children@[0]),
    {
        self.children[0].is_show_provider()
    }
}

/// A provider is asked only if all before it have answered without results.
pub proof fn law_fallbacks_come_last(n: int, replies: Seq<ChainReply>, from: int)
    requires
        0 <= from <= replies.len() <= usize::MAX,
        searching(n, replies, from) is Ask,
    ensures
        searching(n, replies, from)->Ask_0 == replies.len(),
        forall|i: int| from <= i < replies.len() ==> !(#[trigger] replies[i] is Found),
    decreases n - from,
{
    if from < replies.len() {
        law_fallbacks_come_last(n, replies, from + 1);
    }
}

/// The key that TMDB is asked with: the one of the settings, or the shared one where that is blank.
pub open spec fn key_for(settings: GlobalSettings) -> Seq<char> {
    if trimmed(settings.tmdb_api_key@).len() == 0 {
        default_key()
    } else {
        settings.tmdb_api_key@
    }
}

/// Gets the key that TMDB is asked with.
pub fn tmdb_api_key(settings: &GlobalSettings) -> (r: String)
    ensures
        r@ == key_for(*settings),
{
    let t = trim(settings.tmdb_api_key.as_str());
    if t.as_str().is_empty() {
        default_tmdb_key()
    } else {
        settings.tmdb_api_key.clone()
    }
}

/// The providers of a library.
pub open spec fn providers_of(name: Seq<char>, media_type: MediaType) -> Seq<Provider> {
    match media_type {
        MediaType::Movie => if name == "anilist"@ {
            seq![Provider::AniList, Provider::TmdbMovies]
        } else {
            seq![Provider::TmdbMovies]
        },
        _ => if name == "tvmaze"@ {
            seq![Provider::TvMaze, Provider::TmdbShows]
        } else if name == "anilist"@ {
            seq![Provider::AniList, Provider::TmdbShows]
        } else {
            seq![Provider::TmdbShows, Provider::TvMaze]
        },
    }
}

/// Builds the chain of providers of a library.
pub fn provider_for(provider_name: &str, media_type: MediaType) -> (r: ChainedProvider)
    requires
        is_scannable(media_type),
    ensures
        r.wf(),
        r.children@ == providers_of(provider_name@, media_type),
{
    let mut children: Vec<Provider> = Vec::new();
    match media_type {
        MediaType::Movie => {
            if same(provider_name, "anilist") {
                children.push(Provider::AniList);
            }
            children.push(Provider::TmdbMovies);
        },
        _ => {
            if same(provider_name, "tvmaze") {
                children.push(Provider::TvMaze);
                children.push(Provider::TmdbShows);
            } else if same(provider_name, "anilist") {
                children.push(Provider::AniList);
                children.push(Provider::TmdbShows);
            } else {
                children.push(Provider::TmdbShows);
                children.push(Provider::TvMaze);
            }
        },
    }
    assert(children@ =~= providers_of(provider_name@, media_type));
    ChainedProvider::new(children)
}

/// A chain for shows can be asked for seasons, one for movies only if its primary provider knows of
/// them.
pub proof fn law_show_chains_know_shows(name: Seq<char>)
    ensures
        knows_shows(providers_of(name, MediaType::Tv)[0]),
        providers_of(name, MediaType::Tv).contains(Provider::TmdbShows),
        providers_of(name, MediaType::Movie).last() == Provider::TmdbMovies,
{
    let p = providers_of(name, MediaType::Tv);
    assert(p[0] == Provider::TmdbShows || p[1] == Provider::TmdbShows);
}

/// The providers of a library: the one that it names comes first, and TMDB stands in for it; TMDB itself has
/// TVmaze behind it for shows.
pub proof fn law_libraries_name_their_provider(name: Seq<char>)
    ensures
        name == "tvmaze"@ ==> providers_of(name, MediaType::Tv) == seq![Provider::TvMaze, Provider::TmdbShows],
        name == "anilist"@ ==> providers_of(name, MediaType::Tv) == seq![
            Provider::AniList,
            Provider::TmdbShows,
        ] && providers_of(name, MediaType::Movie) == seq![Provider::AniList, Provider::TmdbMovies],
        name != "tvmaze"@ && name != "anilist"@ ==> providers_of(name, MediaType::Tv) == seq![
            Provider::TmdbShows,
            Provider::TvMaze,
        ],
        name != "anilist"@ ==> providers_of(name, MediaType::Movie) == seq![Provider::TmdbMovies],
        scheme_of(Provider::TmdbMovies) == "tmdb"@,
        scheme_of(Provider::TmdbShows) == "tmdb"@,
        scheme_of(Provider::TvMaze) == "tvmaze"@,
        scheme_of(Provider::AniList) == "anilist"@,
        !knows_shows(Provider::TmdbMovies),
        knows_shows(Provider::TmdbShows) && knows_shows(Provider::TvMaze) && knows_shows(
            Provider::AniList,
        ),
{
    reveal_strlit("tvmaze");
    reveal_strlit("anilist");
    assert("tvmaze"@.len() == 6 && "anilist"@.len() == 7);
}

/// A search asks the providers in their order. The first that has results gives the answer; where none has any,
/// it fails with the last error, if there was one.
pub proof fn law_searches_go_along_the_chain(n: int, replies: Seq<ChainReply>, k: int, x: ChainReply)
    requires
        0 <= k <= replies.len() < n <= usize::MAX,
        forall|i: int| k <= i < replies.len() ==> !(#[trigger] replies[i] is Found),
    ensures
        searching(n, replies, k) == ChainStep::Ask(replies.len() as usize),
        x is Found ==> searching(n, replies.push(x), k) == ChainStep::Answer(replies.len() as usize),
        !(x is Found) && replies.len() + 1 < n ==> searching(n, replies.push(x), k) == ChainStep::Ask(
            (replies.len() + 1) as usize,
        ),
        !(x is Found) && replies.len() + 1 == n ==> searching(n, replies.push(x), k) == (match last_failure(
            replies.push(x),
            n,
        ) {
            Some(i) => ChainStep::Failed(i as usize),
            None => ChainStep::Empty,
        }),
    decreases n - k,
{
    let more = replies.push(x);
    reveal_with_fuel(searching, 2);
    if k < replies.len() {
        assert(more[k] == replies[k]);
        law_searches_go_along_the_chain(n, replies, k + 1, x);
    } else {
        assert(more[k] == x);
    }
}

/// The error of a search is the last one.
pub proof fn law_the_last_error_is_given(replies: Seq<ChainReply>, k: int)
    requires
        0 <= k <= replies.len(),
    ensures
        match last_failure(replies, k) {
            Some(i) => 0 <= i < k && replies[i] is Failed && forall|j: int|
                i < j < k ==> !(#[trigger] replies[j] is Failed),
            None => forall|j: int| 0 <= j < k ==> !(#[trigger] replies[j] is Failed),
        },
    decreases k,
{
    if k > 0 && !(replies[k - 1] is Failed) {
        law_the_last_error_is_given(replies, k - 1);
    }
}

/// An id belongs to the first provider with its scheme, and else to the primary one.
pub proof fn law_ids_belong_to_their_provider(chain: ChainedProvider, scheme: Seq<char>, i: int)
    requires
        chain.wf(),
    ensures
        chain.owner(None) == 0,
        0 <= chain.owner(Some(scheme)) < chain.children@.len(),
        0 <= i < chain.children@.len() && scheme_of(chain.children@[i]) == scheme ==> scheme_of(
            chain.children@[chain.owner(Some(scheme))],
        ) == scheme && chain.owner(Some(scheme)) <= i,
        (forall|j: int| 0 <= j < chain.children@.len() ==> scheme_of(#[trigger] chain.children@[j]) != scheme)
            ==> chain.owner(Some(scheme)) == 0,
{
    lemma_scheme_found(chain.children@, scheme, 0);
}

/// A provider that is found by its scheme has it, and is the first.
proof fn lemma_scheme_found(children: Seq<Provider>, scheme: Seq<char>, from: int)
    requires
        0 <= from <= children.len(),
    ensures
        match with_scheme(children, scheme, from) {
            Some(i) => from <= i < children.len() && scheme_of(children[i]) == scheme && forall|j: int|
                from <= j < i ==> scheme_of(#[trigger] children[j]) != scheme,
            None => forall|j: int| from <= j < children.len() ==> scheme_of(#[trigger] children[j]) != scheme,
        },
    decreases children.len() - from,
{
    if from < children.len() && scheme_of(children[from]) != scheme {
        lemma_scheme_found(children, scheme, from + 1);
    }
}

/// A key that is set is used as it is; one that is blank is not.
pub proof fn law_keys_that_are_set_are_used(settings: GlobalSettings)
    ensures
        trimmed(settings.tmdb_api_key@).len() > 0 ==> key_for(settings) == settings.tmdb_api_key@,
        trimmed(settings.tmdb_api_key@).len() == 0 ==> key_for(settings) == default_key(),
{
}

}
