use mikaana::error::ApiError;
use mikaana::github_stats::{
    assemble_stats, commit_count, commits_url, crate_count, crates_url, get_github_stats,
    languages_url, lines_of_code, parse_last_page, repo_url, RepoInfo, StatsCache, StatsPlan,
    StatsQuery, BYTES_PER_LINE, CACHE_TTL,
};
use mikaana::shared::GitHubStats;

const HOUR: u128 = 3_600_000_000_000;

fn sample(commits: i64) -> GitHubStats {
    GitHubStats {
        commits,
        lines_of_code: 1234,
        crate_count: 7,
        stars: 10,
        forks: 2,
        open_issues: 3,
        last_push: "2024-05-01T00:00:00Z".to_string(),
    }
}

fn same(a: &GitHubStats, b: &GitHubStats) -> bool {
    a.commits == b.commits
        && a.lines_of_code == b.lines_of_code
        && a.crate_count == b.crate_count
        && a.stars == b.stars
        && a.forks == b.forks
        && a.open_issues == b.open_issues
        && a.last_push == b.last_push
}

fn query() -> StatsQuery {
    StatsQuery { repo: "owner/name".to_string() }
}

#[test]
fn last_page_of_a_link_header() {
    let header = "<https://api.github.com/repositories/1/commits?per_page=1&page=2>; rel=\"next\", <https://api.github.com/repositories/1/commits?per_page=1&page=1234>; rel=\"last\"";
    assert_eq!(parse_last_page(header), 1234);
}

#[test]
fn last_page_needs_the_last_link() {
    assert_eq!(parse_last_page(""), 0);
    assert_eq!(parse_last_page("<https://x/?page=2>; rel=\"next\""), 0);
    assert_eq!(parse_last_page("<https://x/?page=2>; rel=\"prev\", <https://x/?page=1>; rel=\"first\""), 0);
    assert_eq!(parse_last_page("<https://x/?page=7>; rel=last"), 0);
}

#[test]
fn last_page_reads_the_last_page_key_of_the_link() {
    assert_eq!(parse_last_page("<https://x/?page=3&per_page=1&page=9>; rel=\"last\""), 9);
    assert_eq!(parse_last_page("<https://x/?per_page=1&page=9>; rel=\"last\"; page=5>"), 5);
    assert_eq!(parse_last_page("<https://x/?page=12>; rel=\"last\", <https://x/?page=99>; rel=\"last\""), 12);
}

#[test]
fn last_page_that_is_no_number_is_zero() {
    assert_eq!(parse_last_page("<https://x/?page=abc>; rel=\"last\""), 0);
    assert_eq!(parse_last_page("<https://x/?page=>; rel=\"last\""), 0);
    assert_eq!(parse_last_page("<https://x/?page=12&q=1>; rel=\"last\""), 0);
    assert_eq!(parse_last_page("<https://x/?page= 12>; rel=\"last\""), 0);
    assert_eq!(parse_last_page("<https://x/?page=99999999999999999999>; rel=\"last\""), 0);
    assert_eq!(parse_last_page("<https://x/?page=-4>; rel=\"last\""), -4);
    assert_eq!(parse_last_page("<https://x/?page=+4>; rel=\"last\""), 4);
    assert_eq!(parse_last_page("<https://x/?page=9223372036854775807>; rel=\"last\""), i64::MAX);
    assert_eq!(parse_last_page("<https://x/?page=-9223372036854775808>; rel=\"last\""), i64::MIN);
    assert_eq!(parse_last_page("<https://x/?page=9223372036854775808>; rel=\"last\""), 0);
}

#[test]
fn last_page_skips_links_that_give_none() {
    assert_eq!(parse_last_page("<https://x/?p=1>; rel=\"last\", <https://x/?page=8>; rel=\"last\""), 8);
    assert_eq!(parse_last_page("page=3; rel=\"last\", <https://x/?page=8>; rel=\"last\""), 8);
    assert_eq!(parse_last_page("<https://x/?page=1,2>; rel=\"last\""), 0);
    assert_eq!(parse_last_page("rel=\"last\" page=6>"), 6);
}

#[test]
fn last_page_agrees_with_a_plain_reading() {
    fn plain(link_header: &str) -> i64 {
        for part in link_header.split(',') {
            if part.contains("rel=\"last\"") {
                if let Some(start) = part.rfind("page=") {
                    let rest = &part[start + 5..];
                    if let Some(end) = rest.find('>') {
                        return rest[..end].parse().unwrap_or(0);
                    }
                }
            }
        }
        0
    }
    let pieces = ["<", ">", ",", "page=", "rel=\"last\"", "7", "12", "-", "+", " ", "x", "\u{e9}", ";"];
    let mut seed: u64 = 0x2545F4914F6CDD1D;
    for _ in 0..3000 {
        let mut text = String::new();
        for _ in 0..8 {
            seed ^= seed << 13;
            seed ^= seed >> 7;
            seed ^= seed << 17;
            text.push_str(pieces[(seed % pieces.len() as u64) as usize]);
        }
        assert_eq!(parse_last_page(&text), plain(&text), "{text}");
    }
}

#[test]
fn commits_without_a_link_header_are_zero() {
    assert_eq!(commit_count(None), 0);
    assert_eq!(commit_count(Some("<https://x/?page=31>; rel=\"last\"")), 31);
}

#[test]
fn lines_are_bytes_over_fifty_three() {
    assert_eq!(BYTES_PER_LINE, 53);
    assert_eq!(lines_of_code(None), 0);
    assert_eq!(lines_of_code(Some(0)), 0);
    assert_eq!(lines_of_code(Some(52)), 0);
    assert_eq!(lines_of_code(Some(53)), 1);
    assert_eq!(lines_of_code(Some(5300)), 100);
    assert_eq!(lines_of_code(Some(5352)), 100);
    assert_eq!(lines_of_code(Some(-54)), -1);
    assert_eq!(lines_of_code(Some(-52)), 0);
    assert_eq!(lines_of_code(Some(i64::MAX)), i64::MAX / 53);
    assert_eq!(lines_of_code(Some(i64::MIN)), i64::MIN / 53);
}

#[test]
fn crates_are_directories_plus_two() {
    let dir = || Some("dir".to_string());
    let file = || Some("file".to_string());
    assert_eq!(crate_count(&vec![]), 2);
    assert_eq!(crate_count(&vec![dir(), file(), None, dir(), Some("Dir".to_string())]), 4);
    assert_eq!(crate_count(&vec![dir(); 10]), 12);
}

#[test]
fn figures_are_put_together() {
    let info = RepoInfo {
        stargazers_count: 10,
        forks_count: 2,
        open_issues_count: 3,
        pushed_at: "2024-05-01T00:00:00Z".to_string(),
    };
    let kinds = vec![Some("dir".to_string()), Some("file".to_string())];
    let stats = assemble_stats(
        &info,
        Some(5300),
        Some("<https://x/?page=42>; rel=\"last\""),
        Some(&kinds),
    )
    .unwrap();
    let expected = GitHubStats {
        commits: 42,
        lines_of_code: 100,
        crate_count: 3,
        stars: 10,
        forks: 2,
        open_issues: 3,
        last_push: "2024-05-01T00:00:00Z".to_string(),
    };
    assert!(same(&stats, &expected));
    let bare = assemble_stats(&info, None, None, Some(&vec![])).unwrap();
    assert_eq!((bare.commits, bare.lines_of_code, bare.crate_count), (0, 0, 2));
}

#[test]
fn figures_without_the_crates_listing_are_an_upstream_failure() {
    let info = RepoInfo {
        stargazers_count: 10,
        forks_count: 2,
        open_issues_count: 3,
        pushed_at: "2024-05-01T00:00:00Z".to_string(),
    };
    let r = assemble_stats(&info, Some(5300), Some("<https://x/?page=42>; rel=\"last\""), None);
    assert_eq!(r.err(), Some(ApiError::BadGateway));
    let r = assemble_stats(&info, None, None, None);
    assert_eq!(r.err(), Some(ApiError::BadGateway));

    let mut cache = StatsCache::new();
    cache.finish_fetch(Ok(sample(1)), 1_000).unwrap();
    let failed = assemble_stats(&info, None, None, None).map_err(|e| e.status().to_string());
    let r = cache.finish_fetch(failed, 1_000 + HOUR + 1);
    assert_eq!(r.err(), Some(ApiError::BadGateway));
    match get_github_stats(&cache, &query(), 1_000 + 10) {
        StatsPlan::Serve(stats) => assert!(same(&stats, &sample(1))),
        StatsPlan::Fetch(_) => panic!("the figures fetched before must still be there"),
    }
}

#[test]
fn addresses_of_the_hosting_service() {
    assert_eq!(repo_url("owner/name"), "https://api.github.com/repos/owner/name");
    assert_eq!(languages_url("owner/name"), "https://api.github.com/repos/owner/name/languages");
    assert_eq!(
        commits_url("owner/name"),
        "https://api.github.com/repos/owner/name/commits?per_page=1"
    );
    assert_eq!(
        crates_url("owner/name"),
        "https://api.github.com/repos/owner/name/contents/crates"
    );
}

#[test]
fn cache_lives_for_an_hour() {
    assert_eq!(CACHE_TTL, HOUR);
}

#[test]
fn empty_cache_asks_for_a_fetch_of_the_repository() {
    let cache = StatsCache::new();
    match get_github_stats(&cache, &query(), 0) {
        StatsPlan::Fetch(repo) => assert_eq!(repo, "owner/name"),
        StatsPlan::Serve(_) => panic!("nothing was fetched yet"),
    }
}

#[test]
fn second_read_within_the_hour_is_served_without_a_fetch() {
    let mut cache = StatsCache::new();
    let mut fetches = 0;
    let mut answers: Vec<GitHubStats> = Vec::new();
    let start: u128 = 5_000_000_000;
    for now in [start, start + 1, start + HOUR / 2, start + HOUR - 1] {
        let answer = match get_github_stats(&cache, &query(), now) {
            StatsPlan::Serve(stats) => stats,
            StatsPlan::Fetch(_) => {
                fetches += 1;
                cache.finish_fetch(Ok(sample(100 + fetches)), now).unwrap()
            }
        };
        answers.push(answer);
    }
    assert_eq!(fetches, 1);
    for answer in &answers {
        assert!(same(answer, &sample(101)));
    }
}

#[test]
fn read_after_the_hour_fetches_anew() {
    let mut cache = StatsCache::new();
    cache.finish_fetch(Ok(sample(1)), 1_000).unwrap();
    assert!(matches!(get_github_stats(&cache, &query(), 1_000 + HOUR - 1), StatsPlan::Serve(_)));
    assert!(matches!(get_github_stats(&cache, &query(), 1_000 + HOUR), StatsPlan::Fetch(_)));
    assert!(matches!(get_github_stats(&cache, &query(), 1_000 + 2 * HOUR), StatsPlan::Fetch(_)));
    cache.finish_fetch(Ok(sample(2)), 1_000 + HOUR).unwrap();
    match get_github_stats(&cache, &query(), 1_000 + HOUR + 5) {
        StatsPlan::Serve(stats) => assert!(same(&stats, &sample(2))),
        StatsPlan::Fetch(_) => panic!("fresh figures must be served"),
    }
}

#[test]
fn clock_that_reads_earlier_counts_as_no_age() {
    let mut cache = StatsCache::new();
    cache.finish_fetch(Ok(sample(1)), 10_000).unwrap();
    assert!(matches!(get_github_stats(&cache, &query(), 5), StatsPlan::Serve(_)));
}

#[test]
fn failed_fetch_is_an_upstream_failure_and_keeps_the_cache() {
    let mut cache = StatsCache::new();
    let r = cache.finish_fetch(Err("connection refused".to_string()), 10);
    assert_eq!(r.err(), Some(ApiError::BadGateway));
    assert!(matches!(get_github_stats(&cache, &query(), 11), StatsPlan::Fetch(_)));

    cache.finish_fetch(Ok(sample(1)), 1_000).unwrap();
    let r = cache.finish_fetch(Err("timeout".to_string()), 1_000 + HOUR + 1);
    assert_eq!(r.err(), Some(ApiError::BadGateway));
    match get_github_stats(&cache, &query(), 1_000 + 10) {
        StatsPlan::Serve(stats) => assert!(same(&stats, &sample(1))),
        StatsPlan::Fetch(_) => panic!("the figures fetched before must still be there"),
    }
    assert!(matches!(get_github_stats(&cache, &query(), 1_000 + HOUR + 2), StatsPlan::Fetch(_)));
}

#[test]
fn cache_is_one_slot_whatever_the_repository() {
    let mut cache = StatsCache::new();
    cache.finish_fetch(Ok(sample(1)), 0).unwrap();
    let other = StatsQuery { repo: "someone/else".to_string() };
    assert!(matches!(get_github_stats(&cache, &other, 10), StatsPlan::Serve(_)));
}
