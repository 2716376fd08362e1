//! Figures about a source repository: how they are put together from what
//! the hosting service answers, and the cache that holds them for an hour.

use vstd::prelude::*;

use crate::error::ApiError;
use crate::scan::{
    find_char,
    first_index,
    last_index,
    magnitude,
    occurs,
    occurs_at,
    parse_i64,
    parse_i64_spec,
    rfind,
    slice,
};
use crate::shared::{GitHubStats, GitHubStatsView};
use crate::text::to_chars;

verus! {

// ── The commit count ──

/// The mark of the link to the last page.
pub open spec fn rel_last() -> Seq<char> {
    "rel=\"last\""@
}

/// The query parameter that carries a page number.
pub open spec fn page_key() -> Seq<char> {
    "page="@
}

/// The number that a text writes, or 0 where it writes none.
pub open spec fn number_or_zero(s: Seq<char>) -> int {
    match parse_i64_spec(s) {
        Some(n) => n,
        None => 0,
    }
}

/// The page number that one link of a `Link` header gives, if it is the link
/// to the last page: what stands between the last `page=` and the first `>`
/// after it, read as a number, or 0 where that is no number.
pub open spec fn page_in_link(link: Seq<char>) -> Option<int> {
    if !occurs(link, rel_last()) {
        None
    } else {
        match last_index(link, page_key()) {
            None => None,
            Some(at) => {
                let rest = link.skip(at + page_key().len());
                match first_index(rest, '>') {
                    None => None,
                    Some(end) => Some(number_or_zero(rest.take(end))),
                }
            },
        }
    }
}

/// Where the first link of a header ends: at the first comma, or at the end.
pub open spec fn first_link_end(header: Seq<char>) -> int {
    match first_index(header, ',') {
        Some(at) => at,
        None => header.len() as int,
    }
}

/// The number of the last page that a `Link` header names: the page number of
/// the first of its comma-separated links that gives one, or 0 where none
/// does.
pub open spec fn last_page_spec(header: Seq<char>) -> int
    decreases header.len(),
{
    let cut = first_link_end(header);
    match page_in_link(header.take(cut)) {
        Some(n) => n,
        None => if 0 <= cut < header.len() {
            last_page_spec(header.skip(cut + 1))
        } else {
            0
        },
    }
}

fn page_in(link: &Vec<char>, mark: &Vec<char>, key: &Vec<char>) -> (page: Option<i64>)
    requires
        mark@ == rel_last(),
        key@ == page_key(),
    ensures
        match page {
            Some(n) => page_in_link(link@) == Some(n as int),
            None => page_in_link(link@) is None,
        },
{
    if rfind(link, mark).is_none() {
        return None;
    }
    let at = match rfind(link, key) {
        Some(at) => at,
        None => {
            return None;
        },
    };
    assert(occurs_at(link@, key@, at as int));
    let total = link.len();
    let rest = slice(link, at + key.len(), total);
    proof {
        assert(rest@ =~= link@.skip(at + page_key().len()));
    }
    let end = match find_char(&rest, '>') {
        Some(end) => end,
        None => {
            return None;
        },
    };
    let number = slice(&rest, 0, end);
    proof {
        assert(number@ =~= rest@.take(end as int));
    }
    match parse_i64(&number) {
        Some(n) => Some(n),
        None => Some(0),
    }
}

/// Reads the number of the last page out of a `Link` header. With one item
/// per page this is the number of items.
pub fn parse_last_page(link_header: &str) -> (page: i64)
    ensures
        page == last_page_spec(link_header@),
{
    let chars = to_chars(link_header);
    let mark = to_chars("rel=\"last\"");
    let key = to_chars("page=");
    let mut from: usize = 0;
    proof {
        assert(chars@.skip(0) =~= chars@);
    }
    loop
        invariant
            from <= chars.len(),
            chars@ == link_header@,
            mark@ == rel_last(),
            key@ == page_key(),
            last_page_spec(chars@) == last_page_spec(chars@.skip(from as int)),
        decreases chars.len() - from,
    {
        let rest = slice(&chars, from, chars.len());
        proof {
            assert(rest@ =~= chars@.skip(from as int));
        }
        let cut = match find_char(&rest, ',') {
            Some(at) => at,
            None => rest.len(),
        };
        let link = slice(&rest, 0, cut);
        proof {
            assert(link@ =~= rest@.take(cut as int));
        }
        match page_in(&link, &mark, &key) {
            Some(n) => {
                return n;
            },
            None => {},
        }
        if cut == rest.len() {
            return 0;
        }
        proof {
            assert(rest@.skip(cut + 1) =~= chars@.skip(from + cut + 1));
        }
        from = from + cut + 1;
    }
}

/// The number of commits, from the `Link` header of a listing of commits with
/// one commit per page: the number of the last page, or 0 where the answer
/// came without the header.
pub fn commit_count(link_header: Option<&str>) -> (commits: i64)
    ensures
        commits == match link_header {
            Some(header) => last_page_spec(header@),
            None => 0,
        },
{
    match link_header {
        Some(header) => parse_last_page(header),
        None => 0,
    }
}

// ── Lines and crates ──

/// The number of bytes that a line of Rust is taken to have.
pub const BYTES_PER_LINE: i64 = 53;

/// The approximate number of lines for a number of bytes of source: the bytes
/// divided by 53, rounded towards zero.
pub open spec fn lines_spec(rust_bytes: Option<int>) -> int {
    match rust_bytes {
        Some(bytes) => if bytes >= 0 {
            bytes / 53
        } else {
            -((-bytes) / 53)
        },
        None => 0,
    }
}

/// The approximate number of lines of Rust, from the number of bytes of Rust
/// that the repository holds; 0 where it holds none.
pub fn lines_of_code(rust_bytes: Option<i64>) -> (lines: i64)
    ensures
        lines == lines_spec(
            match rust_bytes {
                Some(b) => Some(b as int),
                None => None,
            },
        ),
{
    match rust_bytes {
        Some(bytes) => {
            let lines = (magnitude(bytes) / 53) as i64;
            if bytes < 0 {
                -lines
            } else {
                lines
            }
        },
        None => 0,
    }
}

/// The kind of entry that counts as a crate.
pub open spec fn dir_kind() -> Seq<char> {
    "dir"@
}

/// The number of directories among the kinds of a listing's entries.
pub open spec fn dir_count(kinds: Seq<Option<String>>) -> int
    decreases kinds.len(),
{
    if kinds.len() == 0 {
        0
    } else {
        dir_count(kinds.drop_last()) + if kinds.last() matches Some(kind) && kind@ == dir_kind() {
            1int
        } else {
            0int
        }
    }
}

/// The number of crates, from the kinds of the entries of the crates
/// directory: its directories and two more, the root crate and the editor
/// extension.
pub open spec fn crate_count_spec(kinds: Seq<Option<String>>) -> int {
    if dir_count(kinds) + 2 <= i64::MAX {
        dir_count(kinds) + 2
    } else {
        i64::MAX as int
    }
}

/// What an optional listing holds, as a mathematical value.
pub open spec fn opt_listing(listing: Option<&Vec<Option<String>>>) -> Option<
    Seq<Option<String>>,
> {
    match listing {
        Some(kinds) => Some(kinds@),
        None => None,
    }
}

/// The number of crates, from the kinds of the entries of the crates
/// directory, each as the listing gives it, if it gives one.
pub fn crate_count(kinds: &Vec<Option<String>>) -> (crates: i64)
    ensures
        crates == crate_count_spec(kinds@),
{
    let dir = "dir".to_owned();
    let mut dirs: u64 = 0;
    let mut i: usize = 0;
    while i < kinds.len()
        invariant
            i <= kinds.len(),
            dir@ == dir_kind(),
            dirs == dir_count(kinds@.take(i as int)),
            dirs <= i,
        decreases kinds.len() - i,
    {
        proof {
            assert(kinds@.take(i + 1).drop_last() =~= kinds@.take(i as int));
            assert(kinds@.take(i + 1).last() == kinds@[i as int]);
        }
        match &kinds[i] {
            Some(kind) => {
                if *kind == dir {
                    dirs = dirs + 1;
                }
            },
            None => {},
        }
        i += 1;
    }
    proof {
        assert(kinds@.take(i as int) =~= kinds@);
    }
    if dirs > 9_223_372_036_854_775_805 {
        i64::MAX
    } else {
        (dirs + 2) as i64
    }
}

// ── Putting the figures together ──

/// The query of a request for repository figures.
#[derive(Debug)]
pub struct StatsQuery {
    pub repo: String,
}

/// What the hosting service tells about a repository.
#[derive(Debug)]
pub struct RepoInfo {
    pub stargazers_count: i64,
    pub forks_count: i64,
    pub open_issues_count: i64,
    pub pushed_at: String,
}

/// The figures about a repository, from the four answers of the hosting
/// service. Where the listing of the crates directory could not be had there
/// are no figures: that is an upstream failure, as every failed fetch is. A
/// commit listing without a `Link` header and a repository without Rust are
/// answers, and count as 0.
pub open spec fn stats_spec(
    info: RepoInfo,
    rust_bytes: Option<int>,
    link_header: Option<Seq<char>>,
    listing: Option<Seq<Option<String>>>,
) -> Result<GitHubStatsView, ApiError> {
    match listing {
        None => Err(ApiError::BadGateway),
        Some(kinds) => Ok(
            GitHubStatsView {
                commits: match link_header {
                    Some(header) => last_page_spec(header),
                    None => 0,
                },
                lines_of_code: lines_spec(rust_bytes),
                crate_count: crate_count_spec(kinds),
                stars: info.stargazers_count as int,
                forks: info.forks_count as int,
                open_issues: info.open_issues_count as int,
                last_push: info.pushed_at@,
            },
        ),
    }
}

/// Puts the figures about a repository together: from the repository's
/// description, the number of bytes of Rust among its languages, the `Link`
/// header of its commit listing, and the kinds of the entries of its crates
/// directory. A listing that could not be had is an upstream failure.
pub fn assemble_stats(
    info: &RepoInfo,
    rust_bytes: Option<i64>,
    link_header: Option<&str>,
    listing: Option<&Vec<Option<String>>>,
) -> (result: Result<GitHubStats, ApiError>)
    ensures
        stats_result_view(result) == stats_spec(
            *info,
            match rust_bytes {
                Some(b) => Some(b as int),
                None => None,
            },
            match link_header {
                Some(h) => Some(h@),
                None => None,
            },
            opt_listing(listing),
        ),
{
    let kinds = match listing {
        Some(kinds) => kinds,
        None => {
            return Err(ApiError::BadGateway);
        },
    };
    Ok(
        GitHubStats {
            commits: commit_count(link_header),
            lines_of_code: lines_of_code(rust_bytes),
            crate_count: crate_count(kinds),
            stars: info.stargazers_count,
            forks: info.forks_count,
            open_issues: info.open_issues_count,
            last_push: info.pushed_at.clone(),
        },
    )
}

/// The address of a repository's description at the hosting service.
pub fn repo_url(repo: &str) -> (url: String)
    ensures
        url@ == "https://api.github.com/repos/"@ + repo@,
{
    let mut url = "https://api.github.com/repos/".to_owned();
    url.append(repo);
    url
}

/// The address of a repository's language statistics.
pub fn languages_url(repo: &str) -> (url: String)
    ensures
        url@ == "https://api.github.com/repos/"@ + repo@ + "/languages"@,
{
    let mut url = repo_url(repo);
    url.append("/languages");
    url
}

/// The address of a repository's commit listing, one commit per page.
pub fn commits_url(repo: &str) -> (url: String)
    ensures
        url@ == "https://api.github.com/repos/"@ + repo@ + "/commits?per_page=1"@,
{
    let mut url = repo_url(repo);
    url.append("/commits?per_page=1");
    url
}

/// The address of the listing of a repository's crates directory.
pub fn crates_url(repo: &str) -> (url: String)
    ensures
        url@ == "https://api.github.com/repos/"@ + repo@ + "/contents/crates"@,
{
    let mut url = repo_url(repo);
    url.append("/contents/crates");
    url
}

// ── The cache ──

/// How long fetched figures are served from the cache: one hour, in
/// nanoseconds.
pub const CACHE_TTL: u128 = 3_600_000_000_000;

/// Figures together with the time at which they were fetched, in nanoseconds
/// on a clock that never runs backwards.
pub struct CachedStats {
    pub stats: GitHubStats,
    pub fetched_at: u128,
}

/// What the cache holds, as mathematical values.
pub struct CachedStatsView {
    pub stats: GitHubStatsView,
    pub fetched_at: int,
}

/// The single slot that holds the figures fetched last.
pub struct StatsCache {
    slot: Option<CachedStats>,
}

impl View for StatsCache {
    type V = Option<CachedStatsView>;

    closed spec fn view(&self) -> Option<CachedStatsView> {
        match self.slot {
            Some(cached) => Some(
                CachedStatsView { stats: cached.stats@, fetched_at: cached.fetched_at as int },
            ),
            None => None,
        }
    }
}

/// The age at `now` of what was fetched at `fetched_at`.
pub open spec fn age(fetched_at: int, now: int) -> int {
    if now >= fetched_at {
        now - fetched_at
    } else {
        0
    }
}

/// What the cache serves at `now`: the figures in the slot, if they are less
/// than an hour old.
pub open spec fn fresh(cache: Option<CachedStatsView>, now: int) -> Option<GitHubStatsView> {
    match cache {
        Some(cached) => if age(cached.fetched_at, now) < CACHE_TTL {
            Some(cached.stats)
        } else {
            None
        },
        None => None,
    }
}

/// What to do about a request for figures.
pub enum StatsPlan {
    /// Answer with these figures, from the cache.
    Serve(GitHubStats),
    /// Fetch the figures of this repository anew.
    Fetch(String),
}

/// What a fetch came to.
pub open spec fn fetched_view(fetched: Result<GitHubStats, String>) -> Option<GitHubStatsView> {
    match fetched {
        Ok(stats) => Some(stats@),
        Err(_) => None,
    }
}

/// The slot after a fetch that ended at `now`: the new figures, or, where the
/// fetch failed, what was there before.
pub open spec fn slot_after_fetch(
    cache: Option<CachedStatsView>,
    fetched: Option<GitHubStatsView>,
    now: int,
) -> Option<CachedStatsView> {
    match fetched {
        Some(stats) => Some(CachedStatsView { stats, fetched_at: now }),
        None => cache,
    }
}

/// The views of fetched figures, or of the refusal.
pub open spec fn stats_result_view(r: Result<GitHubStats, ApiError>) -> Result<
    GitHubStatsView,
    ApiError,
> {
    match r {
        Ok(stats) => Ok(stats@),
        Err(e) => Err(e),
    }
}

impl StatsCache {
    /// An empty cache.
    pub fn new() -> (cache: Self)
        ensures
            cache@ is None,
    {
        StatsCache { slot: None }
    }

    /// Takes in what a fetch came to at `now`. Fetched figures replace the
    /// slot and are the answer. A failed fetch is an upstream failure and
    /// leaves the slot as it was.
    pub fn finish_fetch(&mut self, fetched: Result<GitHubStats, String>, now: u128) -> (result:
        Result<GitHubStats, ApiError>)
        ensures
            final(self)@ == slot_after_fetch(old(self)@, fetched_view(fetched), now as int),
            stats_result_view(result) == match fetched {
                Ok(stats) => Ok::<GitHubStatsView, ApiError>(stats@),
                Err(_) => Err::<GitHubStatsView, ApiError>(ApiError::BadGateway),
            },
    {
        match fetched {
            Ok(stats) => {
                self.slot = Some(CachedStats { stats: stats.clone(), fetched_at: now });
                Ok(stats)
            },
            Err(_) => Err(ApiError::BadGateway),
        }
    }
}

/// Decides how a request for figures is answered at `now`: from the cache
/// where it holds figures less than an hour old, and by fetching those of the
/// repository asked for otherwise.
pub fn get_github_stats(cache: &StatsCache, query: &StatsQuery, now: u128) -> (plan: StatsPlan)
    ensures
        match plan {
            StatsPlan::Serve(stats) => fresh(cache@, now as int) == Some(stats@),
            StatsPlan::Fetch(repo) => fresh(cache@, now as int) is None && repo@ == query.repo@,
        },
{
    match &cache.slot {
        Some(cached) => {
            let elapsed = if now >= cached.fetched_at {
                now - cached.fetched_at
            } else {
                0
            };
            if elapsed < CACHE_TTL {
                return StatsPlan::Serve(cached.stats.clone());
            }
        },
        None => {},
    }
    StatsPlan::Fetch(query.repo.clone())
}

/// Figures that were fetched are served from the cache, unchanged and without
/// another fetch, to every request that comes less than an hour later; from
/// then on they are fetched anew.
pub proof fn law_cache_serves_for_an_hour(
    cache: Option<CachedStatsView>,
    stats: GitHubStatsView,
    fetched_at: int,
    now: int,
)
    requires
        fetched_at <= now,
    ensures
        now - fetched_at < CACHE_TTL ==> fresh(
            slot_after_fetch(cache, Some(stats), fetched_at),
            now,
        ) == Some(stats),
        now - fetched_at >= CACHE_TTL ==> fresh(
            slot_after_fetch(cache, Some(stats), fetched_at),
            now,
        ) is None,
{
}

/// A fetch that fails leaves what the cache serves as it was.
pub proof fn law_failed_fetch_keeps_the_cache(cache: Option<CachedStatsView>, at: int, now: int)
    ensures
        slot_after_fetch(cache, None, at) == cache,
        fresh(slot_after_fetch(cache, None, at), now) == fresh(cache, now),
{
}

} // verus!
