use depdive::github::days_since;
use depdive::github::get_github_repo_fullname;
use depdive::github::github_repo_name;
use depdive::github::is_github_url;
use depdive::github::is_rate_limited;
use depdive::github::is_success;
use depdive::github::repo_exists;
use depdive::github::trim_git_suffix;
use depdive::github::ActivityMetrics;
use depdive::github::GitHubError;
use depdive::github::GitHubRepoError;
use depdive::github::GitHubReport;
use depdive::github::GitHubUser;
use depdive::github::PageStep;
use depdive::github::PageWalk;
use depdive::github::RecentActivity;
use depdive::github::RepoLookup;
use depdive::github::RepoStats;
use depdive::github::RECENT_ACTIVITY_DAYS;

fn get_test_github_report(package_name: &str, repository: &str) -> GitHubReport {
    match GitHubReport::begin(package_name, Some(repository)) {
        RepoLookup::NotOnGitHub(report) => report,
        RepoLookup::Named { repository, fullname } => {
            let stats = RepoStats {
                full_name: Some(fullname),
                default_branch: Some("main".to_string()),
                stargazers_count: 1500,
                subscribers_count: 70,
                forks: 900,
                open_issues: 12,
            };
            GitHubReport::of_repository(
                package_name.to_string(),
                repository,
                stats,
                ActivityMetrics::default(),
            )
            .unwrap()
        }
    }
}

#[test]
fn test_github_stats_for_libc() {
    let report = get_test_github_report("libc", "https://github.com/rust-lang/libc");
    assert!(report.is_github_repo);
    assert!(report.repo_stats.stargazers_count > 0);
    assert_eq!(report.repo_stats.full_name.as_deref(), Some("rust-lang/libc"));
    assert_eq!(report.repository.as_deref(), Some("https://github.com/rust-lang/libc"));
}

#[test]
fn test_github_stats_for_gitlab() {
    let report = get_test_github_report("gitlab", "https://gitlab.kitware.com/utils/rust-gitlab");
    assert!(!report.is_github_repo);
    assert_eq!(report.repo_stats.stargazers_count, 0);
    assert_eq!(report.name, "gitlab");
    assert_eq!(
        report.repository.as_deref(),
        Some("https://gitlab.kitware.com/utils/rust-gitlab")
    );
}

#[test]
fn test_github_recent_activity() {
    let past_days = 6 * 30;
    let emails: Vec<String> = vec![
        "a@example.com".to_string(),
        "b@example.com".to_string(),
        "a@example.com".to_string(),
    ];
    let recent_activity = RecentActivity::of_commits(past_days, &emails);
    println!("recent_activity for {} is {:?}", "libc", recent_activity);
    assert_eq!(recent_activity.past_days, past_days);
    assert_eq!(recent_activity.commits, 3);
    assert_eq!(recent_activity.committers, 2);
    assert_eq!(RECENT_ACTIVITY_DAYS, past_days);
}

#[test]
fn no_commits_no_activity() {
    assert_eq!(
        RecentActivity::of_commits(180, &Vec::new()),
        RecentActivity { past_days: 180, commits: 0, committers: 0 }
    );
    assert_eq!(
        RecentActivity::default(),
        RecentActivity { past_days: 0, commits: 0, committers: 0 }
    );
}

#[test]
fn committers_are_counted_once() {
    let emails: Vec<String> = ["x", "y", "x", "x", "z", "y", "X"].iter().map(|s| s.to_string()).collect();
    assert_eq!(
        RecentActivity::of_commits(30, &emails),
        RecentActivity { past_days: 30, commits: 7, committers: 4 }
    );
}

#[test]
fn default_report_has_no_figures() {
    let report = GitHubReport::new("name".to_string(), Some("somewhere".to_string()));
    assert_eq!(report.name, "name");
    assert_eq!(report.repository.as_deref(), Some("somewhere"));
    assert!(!report.is_github_repo);
    assert_eq!(report.repo_stats.full_name, None);
    assert_eq!(report.repo_stats.default_branch, None);
    assert_eq!(report.repo_stats.stargazers_count, 0);
    assert_eq!(report.repo_stats.subscribers_count, 0);
    assert_eq!(report.repo_stats.forks, 0);
    assert_eq!(report.repo_stats.open_issues, 0);
    assert_eq!(report.activity_metrics, ActivityMetrics::default());
    assert_eq!(
        ActivityMetrics::default(),
        ActivityMetrics {
            days_since_last_commit: 0,
            days_since_last_open_issue: None,
            open_issues_labeled_bug: 0,
            open_issues_labeled_security: 0,
            recent_activity: RecentActivity { past_days: 0, commits: 0, committers: 0 },
        }
    );
    let user = GitHubUser { login: None };
    assert!(user.login.is_none());
}

#[test]
fn package_without_repository_has_a_bare_report() {
    match GitHubReport::begin("lonely", None) {
        RepoLookup::NotOnGitHub(report) => {
            assert_eq!(report.name, "lonely");
            assert_eq!(report.repository, None);
            assert!(!report.is_github_repo);
        }
        RepoLookup::Named { .. } => panic!("nothing to look up"),
    }
    match GitHubReport::begin("odd", Some("not a url")) {
        RepoLookup::NotOnGitHub(report) => assert_eq!(report.repository, None),
        RepoLookup::Named { .. } => panic!("nothing to look up"),
    }
}

#[test]
fn repository_on_github_is_looked_up_by_its_full_name() {
    match GitHubReport::begin("octocrab", Some("https://github.com/XAMPPRocky/octocrab.git")) {
        RepoLookup::Named { repository, fullname } => {
            assert_eq!(repository, "https://github.com/XAMPPRocky/octocrab.git");
            assert_eq!(fullname, "XAMPPRocky/octocrab");
        }
        RepoLookup::NotOnGitHub(_) => panic!("the repository is on GitHub"),
    }
    match GitHubReport::begin("bare", Some("https://github.com")) {
        RepoLookup::NotOnGitHub(report) => {
            assert_eq!(report.repository.as_deref(), Some("https://github.com/"));
        }
        RepoLookup::Named { .. } => panic!("the address names no repository"),
    }
}

#[test]
fn repository_without_default_branch_has_no_report() {
    let mut stats = RepoStats::default();
    assert!(GitHubReport::of_repository(
        "n".to_string(),
        "r".to_string(),
        stats,
        ActivityMetrics::default()
    )
    .is_none());
    stats = RepoStats::default();
    stats.default_branch = Some("main".to_string());
    stats.forks = 4;
    let metrics = ActivityMetrics {
        days_since_last_commit: 3,
        days_since_last_open_issue: Some(1),
        open_issues_labeled_bug: 2,
        open_issues_labeled_security: 0,
        recent_activity: RecentActivity { past_days: 180, commits: 10, committers: 2 },
    };
    let report =
        GitHubReport::of_repository("n".to_string(), "r".to_string(), stats, metrics).unwrap();
    assert!(report.is_github_repo);
    assert_eq!(report.name, "n");
    assert_eq!(report.repository.as_deref(), Some("r"));
    assert_eq!(report.repo_stats.forks, 4);
    assert_eq!(report.activity_metrics, metrics);
}

#[test]
fn github_urls_are_told_by_their_host() {
    assert!(is_github_url("https://github.com/rust-lang/libc"));
    assert!(is_github_url("http://github.com"));
    assert!(is_github_url("https://GitHub.com/rust-lang/libc"));
    assert!(!is_github_url("https://www.github.com/rust-lang/libc"));
    assert!(!is_github_url("https://gitlab.com/github.com/libc"));
    assert!(!is_github_url("github.com/rust-lang/libc"));
    assert!(!is_github_url("mailto:someone@github.com"));
    assert!(!is_github_url(""));
}

#[test]
fn full_name_is_owner_and_repository() {
    assert_eq!(
        github_repo_name("https://github.com/rust-lang/libc").unwrap(),
        "rust-lang/libc"
    );
    assert_eq!(
        github_repo_name("https://github.com/rust-lang/libc.git").unwrap(),
        "rust-lang/libc"
    );
    assert_eq!(
        github_repo_name("https://github.com/rust-lang/libc.git.git").unwrap(),
        "rust-lang/libc"
    );
    assert_eq!(
        github_repo_name("https://github.com/tokio-rs/tokio/tree/master/tokio").unwrap(),
        "tokio-rs/tokio"
    );
    assert_eq!(github_repo_name("https://github.com/owner/").unwrap(), "owner/");
    assert_eq!(github_repo_name("https://github.com/owner/.git").unwrap(), "owner/");
}

#[test]
fn address_without_repository_is_invalid() {
    for url in [
        "https://github.com",
        "https://github.com/",
        "https://github.com/owner",
        "https://gitlab.com/owner/repo",
        "no url at all",
    ] {
        match github_repo_name(url) {
            Err(GitHubRepoError::InvalidUrl { url: refused }) => assert_eq!(refused, url),
            other => panic!("{:?}", other),
        }
    }
}

#[test]
fn git_suffix_is_trimmed_as_often_as_it_occurs() {
    assert_eq!(trim_git_suffix("libc.git"), "libc");
    assert_eq!(trim_git_suffix("libc"), "libc");
    assert_eq!(trim_git_suffix(".git"), "");
    assert_eq!(trim_git_suffix("git"), "git");
    assert_eq!(trim_git_suffix(""), "");
    assert_eq!(trim_git_suffix("a.git.git.git"), "a");
    assert_eq!(trim_git_suffix("a.gitt"), "a.gitt");
    assert_eq!(trim_git_suffix("a.git.x"), "a.git.x");
    assert_eq!(trim_git_suffix("a.GIT"), "a.GIT");
    assert_eq!(trim_git_suffix("\u{fc}ber.git"), "\u{fc}ber");
}

#[test]
fn existence_decides_the_full_name() {
    let url = "https://github.com/rust-lang/libc";
    assert_eq!(
        get_github_repo_fullname(url, "rust-lang/libc".to_string(), Ok(true)).unwrap(),
        "rust-lang/libc"
    );
    match get_github_repo_fullname(url, "rust-lang/libc".to_string(), Ok(false)) {
        Err(GitHubRepoError::RepoNotFound { url: missing }) => assert_eq!(missing, url),
        other => panic!("{:?}", other),
    }
    let failed = GitHubError::RequestFailed { status: 500 };
    match get_github_repo_fullname(url, "rust-lang/libc".to_string(), Err(failed)) {
        Err(GitHubRepoError::Unknown { error }) => assert_eq!(error, failed),
        other => panic!("{:?}", other),
    }
}

#[test]
fn status_says_whether_the_repository_exists() {
    assert_eq!(repo_exists(200), Ok(true));
    assert_eq!(repo_exists(204), Ok(true));
    assert_eq!(repo_exists(299), Ok(true));
    assert_eq!(repo_exists(404), Ok(false));
    assert_eq!(repo_exists(300), Err(GitHubError::RequestFailed { status: 300 }));
    assert_eq!(repo_exists(199), Err(GitHubError::RequestFailed { status: 199 }));
    assert_eq!(repo_exists(500), Err(GitHubError::RequestFailed { status: 500 }));
    assert_eq!(repo_exists(403), Err(GitHubError::RequestFailed { status: 403 }));
    assert!(is_success(200) && is_success(299));
    assert!(!is_success(199) && !is_success(300) && !is_success(404));
}

#[test]
fn rate_limit_is_told_by_two_statuses() {
    assert!(is_rate_limited(429));
    assert!(is_rate_limited(403));
    assert!(!is_rate_limited(200));
    assert!(!is_rate_limited(404));
    assert!(!is_rate_limited(428));
    assert!(!is_rate_limited(430));
}

#[test]
fn date_in_the_future_is_an_error() {
    assert_eq!(days_since(0), Ok(0));
    assert_eq!(days_since(17), Ok(17));
    assert_eq!(days_since(i64::MAX), Ok(i64::MAX as u64));
    assert_eq!(days_since(-1), Err(GitHubError::ClockNotSynced));
    assert_eq!(days_since(i64::MIN), Err(GitHubError::ClockNotSynced));
}

#[test]
fn test_github_total_open_issue_count_for_label() {
    // three pages of a listing: 100, 100 and 37 issues, then an empty page
    let mut walk = PageWalk::start();
    assert_eq!(walk, PageWalk { total: 0, page: 1 });
    let mut total = None;
    for received in [100usize, 100, 37, 0] {
        match walk.step(received).unwrap() {
            PageStep::Fetch(next) => walk = next,
            PageStep::Done(count) => total = Some(count),
        }
    }
    assert_eq!(total, Some(237));
    assert_eq!(walk, PageWalk { total: 237, page: 4 });
    assert_eq!(PageWalk::start().step(0), Ok(PageStep::Done(0)));
}

#[test]
fn page_walk_reports_overflow() {
    let full = PageWalk { total: u64::MAX, page: 3 };
    assert_eq!(full.step(1), Err(GitHubError::Overflow));
    assert_eq!(full.step(0), Ok(PageStep::Done(u64::MAX)));
    let last = PageWalk { total: 5, page: u64::MAX };
    assert_eq!(last.step(1), Err(GitHubError::Overflow));
    assert_eq!(
        PageWalk { total: u64::MAX - 1, page: 1 }.step(1),
        Ok(PageStep::Fetch(PageWalk { total: u64::MAX, page: 2 }))
    );
}

#[test]
fn errors_say_what_went_wrong() {
    let url = "https://gitlab.com/owner/repo".to_string();
    assert_eq!(
        GitHubRepoError::InvalidUrl { url: url.clone() }.message(),
        "https://gitlab.com/owner/repo is not a valid github url"
    );
    assert_eq!(
        GitHubRepoError::RepoNotFound { url }.message(),
        "repository not found: https://gitlab.com/owner/repo"
    );
    assert_eq!(
        GitHubRepoError::Unknown { error: GitHubError::RequestFailed { status: 500 } }.message(),
        "http request to GitHub failed, the request was refused"
    );
    assert_eq!(GitHubError::ClockNotSynced.message(), "time not synched with GitHub");
    assert_eq!(GitHubError::Overflow.message(), "a count does not fit its counter");
}
