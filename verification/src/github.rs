//! The activity report of a package's repository, and the decisions taken
//! while it is fetched. Nothing here talks to the network: the caller makes
//! the requests and hands in what came back.

use vstd::hash_map::StringHashMap;
use vstd::prelude::*;
use vstd::string::StrSliceExecFns;
use vstd::string::StringExecFns;

verus! {

/// The number of days that count as recent: six months of thirty days.
pub const RECENT_ACTIVITY_DAYS: u64 = 180;

/// A user as GitHub names it. The login is missing for an author who has no
/// account.
#[derive(Debug)]
pub struct GitHubUser {
    pub login: Option<String>,
}

/// The figures that GitHub keeps of a repository.
#[derive(Debug)]
pub struct RepoStats {
    pub full_name: Option<String>,
    pub default_branch: Option<String>,
    pub stargazers_count: u64,
    pub subscribers_count: u64,
    pub forks: u64,
    pub open_issues: u64,
}

impl Default for RepoStats {
    fn default() -> (stats: RepoStats)
        ensures
            stats.full_name is None,
            stats.default_branch is None,
            stats.stargazers_count == 0,
            stats.subscribers_count == 0,
            stats.forks == 0,
            stats.open_issues == 0,
    {
        RepoStats {
            full_name: None,
            default_branch: None,
            stargazers_count: 0,
            subscribers_count: 0,
            forks: 0,
            open_issues: 0,
        }
    }
}

/// The commits of the last `past_days` days, on all branches.
#[derive(Debug, Clone, Copy, PartialEq, Eq, Structural)]
pub struct RecentActivity {
    pub past_days: u64,
    pub commits: u64,
    pub committers: u64,
}

impl Default for RecentActivity {
    fn default() -> (activity: RecentActivity)
        ensures
            activity == (RecentActivity { past_days: 0, commits: 0, committers: 0 }),
    {
        RecentActivity { past_days: 0, commits: 0, committers: 0 }
    }
}

/// The e-mail addresses that occur in `emails`.
pub open spec fn distinct(emails: Seq<String>) -> Set<Seq<char>> {
    Set::new(|s: Seq<char>| exists|i: int| 0 <= i < emails.len() && (#[trigger] emails[i])@ == s)
}

impl RecentActivity {
    /// The activity that a list of commits shows, given the committer's
    /// e-mail address of each commit: the number of commits, and the number
    /// of different addresses.
    pub fn of_commits(past_days: u64, committer_emails: &Vec<String>) -> (activity: RecentActivity)
        ensures
            activity.past_days == past_days,
            activity.commits == committer_emails.len(),
            activity.committers == distinct(committer_emails@).len(),
    {
        let mut seen: StringHashMap<bool> = StringHashMap::new();
        let mut i: usize = 0;
        assert(seen@.dom() =~= distinct(committer_emails@.take(0)));
        while i < committer_emails.len()
            invariant
                i <= committer_emails.len(),
                seen@.dom() == distinct(committer_emails@.take(i as int)),
                seen@.dom().finite(),
                seen@.len() <= i,
            decreases committer_emails.len() - i,
        {
            let ghost before = seen@;
            seen.insert(committer_emails[i].clone(), true);
            proof {
                let done = committer_emails@.take(i as int);
                let next = committer_emails@.take(i + 1);
                assert(next[i as int] == committer_emails[i as int]);
                assert forall|s: Seq<char>| distinct(next).contains(s) implies seen@.dom().contains(
                    s,
                ) by {
                    let k = choose|k: int| 0 <= k < next.len() && (#[trigger] next[k])@ == s;
                    if k < i {
                        assert(done[k] == next[k]);
                        assert(distinct(done).contains(s));
                    }
                }
                assert forall|s: Seq<char>| seen@.dom().contains(s) implies distinct(next).contains(
                    s,
                ) by {
                    if s == committer_emails[i as int]@ {
                        assert(next[i as int]@ == s);
                    } else {
                        assert(distinct(done).contains(s));
                        let k = choose|k: int| 0 <= k < done.len() && (#[trigger] done[k])@ == s;
                        assert(next[k] == done[k]);
                    }
                }
                assert(seen@.dom() =~= distinct(next));
                assert(seen@.dom() == before.dom().insert(committer_emails[i as int]@));
            }
            i += 1;
        }
        assert(committer_emails@.take(i as int) =~= committer_emails@);
        RecentActivity {
            past_days,
            commits: committer_emails.len() as u64,
            committers: seen.len() as u64,
        }
    }
}

/// How lively a repository is.
#[derive(Debug, Clone, Copy, PartialEq, Eq, Structural)]
pub struct ActivityMetrics {
    pub days_since_last_commit: u64,
    pub days_since_last_open_issue: Option<u64>,
    pub open_issues_labeled_bug: u64,
    pub open_issues_labeled_security: u64,
    pub recent_activity: RecentActivity,
}

impl Default for ActivityMetrics {
    fn default() -> (metrics: ActivityMetrics)
        ensures
            metrics == (ActivityMetrics {
                days_since_last_commit: 0,
                days_since_last_open_issue: None,
                open_issues_labeled_bug: 0,
                open_issues_labeled_security: 0,
                recent_activity: RecentActivity { past_days: 0, commits: 0, committers: 0 },
            }),
    {
        ActivityMetrics {
            days_since_last_commit: 0,
            days_since_last_open_issue: None,
            open_issues_labeled_bug: 0,
            open_issues_labeled_security: 0,
            recent_activity: RecentActivity::default(),
        }
    }
}

/// What is known of the repository of a package.
#[derive(Debug)]
pub struct GitHubReport {
    pub name: String,
    pub repository: Option<String>,
    pub is_github_repo: bool,
    pub repo_stats: RepoStats,
    pub activity_metrics: ActivityMetrics,
}

impl GitHubReport {
    /// Whether the report is that of a package whose repository is not on
    /// GitHub: no figures, and nothing counted.
    pub open spec fn has_no_figures(self) -> bool {
        &&& !self.is_github_repo
        &&& self.repo_stats.full_name is None
        &&& self.repo_stats.default_branch is None
        &&& self.repo_stats.stargazers_count == 0
        &&& self.repo_stats.subscribers_count == 0
        &&& self.repo_stats.forks == 0
        &&& self.repo_stats.open_issues == 0
        &&& self.activity_metrics == (ActivityMetrics {
            days_since_last_commit: 0,
            days_since_last_open_issue: None,
            open_issues_labeled_bug: 0,
            open_issues_labeled_security: 0,
            recent_activity: RecentActivity { past_days: 0, commits: 0, committers: 0 },
        })
    }

    /// The report of a package whose repository is not on GitHub: no
    /// figures, and nothing counted.
    pub fn new(name: String, repository: Option<String>) -> (report: GitHubReport)
        ensures
            report.name == name,
            report.repository == repository,
            report.has_no_figures(),
    {
        GitHubReport {
            name,
            repository,
            is_github_repo: false,
            repo_stats: RepoStats::default(),
            activity_metrics: ActivityMetrics::default(),
        }
    }
}

/// Why the figures of a repository could not be had.
#[derive(Debug, Clone, Copy, PartialEq, Eq, Structural)]
pub enum GitHubError {
    /// GitHub answered a request with this status, which is neither a
    /// success nor "not found".
    RequestFailed { status: u16 },
    /// A date that GitHub gave lies in the future of this machine's clock.
    ClockNotSynced,
    /// A count does not fit its counter.
    Overflow,
}

impl GitHubError {
    /// What the error says, as a text.
    pub open spec fn text(self) -> Seq<char> {
        match self {
            GitHubError::RequestFailed { .. } => "the request was refused"@,
            GitHubError::ClockNotSynced => "time not synched with GitHub"@,
            GitHubError::Overflow => "a count does not fit its counter"@,
        }
    }

    /// What the error says, as a text.
    pub fn message(&self) -> (message: &'static str)
        ensures
            message@ == self.text(),
    {
        match self {
            GitHubError::RequestFailed { .. } => "the request was refused",
            GitHubError::ClockNotSynced => "time not synched with GitHub",
            GitHubError::Overflow => "a count does not fit its counter",
        }
    }
}

/// Whether an answer with this status says that the rate limit is used up,
/// so that the request is to be made again after a pause.
pub fn is_rate_limited(status: u16) -> (limited: bool)
    ensures
        limited == (status == 429 || status == 403),
{
    status == 429 || status == 403
}

/// Whether an answer with this status is a success.
pub fn is_success(status: u16) -> (success: bool)
    ensures
        success == (200 <= status < 300),
{
    200 <= status && status < 300
}

/// Whether a repository exists, given the status of the answer to a request
/// for it: a success says that it does, 404 that it does not, and any other
/// status that the request failed.
pub fn repo_exists(status: u16) -> (exists: Result<bool, GitHubError>)
    ensures
        exists == (if 200 <= status < 300 {
            Ok::<bool, GitHubError>(true)
        } else if status == 404 {
            Ok::<bool, GitHubError>(false)
        } else {
            Err::<bool, GitHubError>(GitHubError::RequestFailed { status })
        }),
{
    if is_success(status) {
        Ok(true)
    } else if status == 404 {
        Ok(false)
    } else {
        Err(GitHubError::RequestFailed { status })
    }
}

/// The whole days since a date, given the days that this machine's clock
/// counts since then: a date in the future is an error.
pub fn days_since(elapsed_days: i64) -> (days: Result<u64, GitHubError>)
    ensures
        days == (if elapsed_days < 0 {
            Err::<u64, GitHubError>(GitHubError::ClockNotSynced)
        } else {
            Ok::<u64, GitHubError>(elapsed_days as u64)
        }),
{
    if elapsed_days < 0 {
        Err(GitHubError::ClockNotSynced)
    } else {
        Ok(elapsed_days as u64)
    }
}

/// Where a walk through the pages of a listing stands: the items counted
/// so far, and the page to ask for next. Pages are numbered from one.
#[derive(Debug, Clone, Copy, PartialEq, Eq, Structural)]
pub struct PageWalk {
    pub total: u64,
    pub page: u64,
}

/// What to do after a page has come in.
#[derive(Debug, Clone, Copy, PartialEq, Eq, Structural)]
pub enum PageStep {
    /// The page held items: ask for the next one.
    Fetch(PageWalk),
    /// The page was empty: the listing holds this many items.
    Done(u64),
}

impl PageWalk {
    /// The start of a walk: nothing counted, the first page to ask for.
    pub fn start() -> (walk: PageWalk)
        ensures
            walk == (PageWalk { total: 0, page: 1 }),
    {
        PageWalk { total: 0, page: 1 }
    }

    /// Takes in a page of `received` items. An empty page ends the walk;
    /// any other adds its items to the count and moves on to the next
    /// page.
    pub fn step(self, received: usize) -> (next: Result<PageStep, GitHubError>)
        ensures
            next == (if received == 0 {
                Ok::<PageStep, GitHubError>(PageStep::Done(self.total))
            } else if self.total + received > u64::MAX || self.page == u64::MAX {
                Err::<PageStep, GitHubError>(GitHubError::Overflow)
            } else {
                Ok::<PageStep, GitHubError>(
                    PageStep::Fetch(
                        PageWalk { total: (self.total + received) as u64, page: (self.page + 1) as u64 },
                    ),
                )
            }),
    {
        if received == 0 {
            return Ok(PageStep::Done(self.total));
        }
        let total = match self.total.checked_add(received as u64) {
            Some(sum) => sum,
            None => { return Err(GitHubError::Overflow); },
        };
        let page = match self.page.checked_add(1) {
            Some(next) => next,
            None => { return Err(GitHubError::Overflow); },
        };
        Ok(PageStep::Fetch(PageWalk { total, page }))
    }
}

/// The host of the URL that `url` parses to, as `url::Url::host_str` gives
/// it; `None` where the text is no URL or the URL has no host.
pub uninterp spec fn url_host(url: Seq<char>) -> Option<Seq<char>>;

/// The path segments of the URL that `url` parses to, as
/// `url::Url::path_segments` yields them; `None` where the text is no URL
/// or the URL cannot be a base.
pub uninterp spec fn url_path_segments(url: Seq<char>) -> Option<Seq<Seq<char>>>;

/// The text of the URL that `url` parses to, as `url::Url::as_str` gives
/// it; `None` where the text is no URL.
pub uninterp spec fn url_text(url: Seq<char>) -> Option<Seq<char>>;

/// Parses `url` with `url::Url::parse` and calls `url::Url::as_str` on the
/// outcome. The contract names the result [`url_text`] and claims nothing
/// more of it.
#[verifier::external_body]
fn text_of(url: &str) -> (text: Option<String>)
    ensures
        match text {
            Some(t) => url_text(url@) == Some(t@),
            None => url_text(url@) is None,
        },
{
    match url::Url::parse(url) {
        Ok(parsed) => Some(parsed.as_str().to_string()),
        Err(_) => None,
    }
}

/// Parses `url` with `url::Url::parse` and calls `url::Url::host_str` on
/// the outcome. The contract names the result [`url_host`] and claims
/// nothing more of it.
#[verifier::external_body]
fn host_of(url: &str) -> (host: Option<String>)
    ensures
        match host {
            Some(h) => url_host(url@) == Some(h@),
            None => url_host(url@) is None,
        },
{
    match url::Url::parse(url) {
        Ok(parsed) => match parsed.host_str() {
            Some(host) => Some(host.to_string()),
            None => None,
        },
        Err(_) => None,
    }
}

/// Parses `url` with `url::Url::parse` and calls `url::Url::path_segments`
/// on the outcome. The contract names the result [`url_path_segments`] and
/// claims nothing more of it.
#[verifier::external_body]
fn path_segments_of(url: &str) -> (segments: Option<Vec<String>>)
    ensures
        match segments {
            Some(found) => url_path_segments(url@) is Some && url_path_segments(url@)->0.len()
                == found.len() && forall|i: int|
                0 <= i < found.len() ==> (#[trigger] found[i])@ == url_path_segments(url@)->0[i],
            None => url_path_segments(url@) is None,
        },
{
    match url::Url::parse(url) {
        Ok(parsed) => match parsed.path_segments() {
            Some(split) => {
                let mut found = Vec::new();
                for segment in split {
                    found.push(segment.to_string());
                }
                Some(found)
            },
            None => None,
        },
        Err(_) => None,
    }
}

/// Why a repository could not be named.
#[derive(Debug)]
pub enum GitHubRepoError {
    /// The address is not that of a repository on GitHub.
    InvalidUrl { url: String },
    /// GitHub knows no repository at the address.
    RepoNotFound { url: String },
    /// The request that asks GitHub for the repository failed.
    Unknown { error: GitHubError },
}

impl GitHubRepoError {
    /// What the error says, as a text.
    pub open spec fn text(self) -> Seq<char> {
        match self {
            GitHubRepoError::InvalidUrl { url } => url@ + " is not a valid github url"@,
            GitHubRepoError::RepoNotFound { url } => "repository not found: "@ + url@,
            GitHubRepoError::Unknown { error } => "http request to GitHub failed, "@ + error.text(),
        }
    }

    /// What the error says, as a text.
    pub fn message(&self) -> (message: String)
        ensures
            message@ == self.text(),
    {
        match self {
            GitHubRepoError::InvalidUrl { url } => {
                let mut message = url.clone();
                message.append(" is not a valid github url");
                message
            },
            GitHubRepoError::RepoNotFound { url } => {
                let mut message = String::from_str("repository not found: ");
                message.append(url.as_str());
                message
            },
            GitHubRepoError::Unknown { error } => {
                let mut message = String::from_str("http request to GitHub failed, ");
                message.append(error.message());
                message
            },
        }
    }
}

/// Whether `s` ends in `.git`.
pub open spec fn ends_in_git(s: Seq<char>) -> bool {
    &&& s.len() >= 4
    &&& s[s.len() - 4] == '.'
    &&& s[s.len() - 3] == 'g'
    &&& s[s.len() - 2] == 'i'
    &&& s[s.len() - 1] == 't'
}

/// `s` without any `.git` at its end, however often it is repeated there.
pub open spec fn strip_git(s: Seq<char>) -> Seq<char>
    decreases s.len(),
{
    if ends_in_git(s) {
        strip_git(s.take(s.len() - 4))
    } else {
        s
    }
}

/// The full name of the repository at the address `url`: its first two path
/// segments, owner and repository, with a slash between them and without
/// `.git` at the end. `None` where the host is not `github.com` or the path
/// has fewer than two segments.
pub open spec fn fullname_of(url: Seq<char>) -> Option<Seq<char>> {
    if url_host(url) != Some("github.com"@) {
        None
    } else {
        match url_path_segments(url) {
            None => None,
            Some(segments) => if segments.len() < 2 {
                None
            } else {
                Some(segments[0] + seq!['/'] + strip_git(segments[1]))
            },
        }
    }
}

/// `name` without any `.git` at its end.
pub fn trim_git_suffix(name: &str) -> (trimmed: String)
    ensures
        trimmed@ == strip_git(name@),
{
    let mut end = name.unicode_len();
    assert(name@.take(end as int) =~= name@);
    while end >= 4 && name.get_char(end - 4) == '.' && name.get_char(end - 3) == 'g'
        && name.get_char(end - 2) == 'i' && name.get_char(end - 1) == 't'
        invariant
            end <= name@.len(),
            strip_git(name@) == strip_git(name@.take(end as int)),
        decreases end,
    {
        proof {
            let head = name@.take(end as int);
            assert(ends_in_git(head));
            assert(head.take(head.len() - 4) =~= name@.take(end - 4));
        }
        end = end - 4;
    }
    proof {
        let head = name@.take(end as int);
        assert(!ends_in_git(head));
        assert(head =~= name@.subrange(0, end as int));
    }
    String::from_str(name.substring_char(0, end))
}

/// Whether the address is one on GitHub: whether its host is `github.com`.
pub fn is_github_url(url: &str) -> (github: bool)
    ensures
        github == (url_host(url@) == Some("github.com"@)),
{
    match host_of(url) {
        Some(host) => {
            let wanted = String::from_str("github.com");
            host == wanted
        },
        None => false,
    }
}

/// The full name, owner and repository, of the repository at the address
/// `url`. An address that is not on GitHub, or that names no repository,
/// is invalid. Whether GitHub has such a repository is not asked here.
pub fn github_repo_name(url: &str) -> (name: Result<String, GitHubRepoError>)
    ensures
        match name {
            Ok(fullname) => fullname_of(url@) == Some(fullname@),
            Err(GitHubRepoError::InvalidUrl { url: refused }) => fullname_of(url@) is None
                && refused@ == url@,
            Err(_) => false,
        },
{
    if !is_github_url(url) {
        return Err(GitHubRepoError::InvalidUrl { url: String::from_str(url) });
    }
    let segments = match path_segments_of(url) {
        Some(found) => found,
        None => { return Err(GitHubRepoError::InvalidUrl { url: String::from_str(url) }); },
    };
    if segments.len() < 2 {
        return Err(GitHubRepoError::InvalidUrl { url: String::from_str(url) });
    }
    let mut fullname = segments[0].clone();
    proof {
        reveal_strlit("/");
        assert("/"@ =~= seq!['/']);
    }
    fullname.append("/");
    let repo = trim_git_suffix(segments[1].as_str());
    fullname.append(repo.as_str());
    Ok(fullname)
}

/// The full name of the repository at the address `url`, given whether
/// GitHub has a repository of that name: the name where it has one,
/// `RepoNotFound` where it has none, and `Unknown` where asking failed.
pub fn get_github_repo_fullname(url: &str, fullname: String, exists: Result<bool, GitHubError>) -> (name:
    Result<String, GitHubRepoError>)
    ensures
        match name {
            Ok(found) => exists == Ok::<bool, GitHubError>(true) && found == fullname,
            Err(GitHubRepoError::RepoNotFound { url: missing }) => exists == Ok::<bool, GitHubError>(
                false,
            ) && missing@ == url@,
            Err(GitHubRepoError::Unknown { error }) => exists == Err::<bool, GitHubError>(error),
            Err(GitHubRepoError::InvalidUrl { .. }) => false,
        },
{
    match exists {
        Ok(true) => Ok(fullname),
        Ok(false) => Err(GitHubRepoError::RepoNotFound { url: String::from_str(url) }),
        Err(error) => Err(GitHubRepoError::Unknown { error }),
    }
}

/// How the analysis of a package's repository begins.
#[derive(Debug)]
pub enum RepoLookup {
    /// The package names no repository on GitHub: this is its report, and
    /// nothing is to be fetched.
    NotOnGitHub(GitHubReport),
    /// The repository is on GitHub, at `repository`, under the full name
    /// `fullname`: GitHub is to be asked whether it exists.
    Named { repository: String, fullname: String },
}

impl GitHubReport {
    /// Begins the analysis of the package `name`, whose manifest gives
    /// `repository` as the address of its repository.
    ///
    /// Without an address, or with one that is no URL, the report holds no
    /// address and no figures. With a URL that does not name a repository
    /// on GitHub, the report holds the URL and no figures.
    pub fn begin(name: &str, repository: Option<&str>) -> (lookup: RepoLookup)
        ensures
            match lookup {
                RepoLookup::NotOnGitHub(report) => {
                    &&& report.name@ == name@
                    &&& report.has_no_figures()
                    &&& match repository {
                        None => report.repository is None,
                        Some(given) => match url_text(given@) {
                            None => report.repository is None,
                            Some(text) => fullname_of(text) is None && report.repository is Some
                                && report.repository->0@ == text,
                        },
                    }
                },
                RepoLookup::Named { repository: address, fullname } => {
                    &&& repository is Some
                    &&& url_text(repository->0@) == Some(address@)
                    &&& fullname_of(address@) == Some(fullname@)
                },
            },
    {
        let given = match repository {
            Some(given) => given,
            None => { return RepoLookup::NotOnGitHub(GitHubReport::new(String::from_str(name), None)); },
        };
        let address = match text_of(given) {
            Some(text) => text,
            None => { return RepoLookup::NotOnGitHub(GitHubReport::new(String::from_str(name), None)); },
        };
        match github_repo_name(address.as_str()) {
            Ok(fullname) => RepoLookup::Named { repository: address, fullname },
            Err(_) => RepoLookup::NotOnGitHub(
                GitHubReport::new(String::from_str(name), Some(address)),
            ),
        }
    }

    /// The report of a package whose repository is on GitHub. A repository
    /// without a default branch has no activity to report: `None`.
    pub fn of_repository(
        name: String,
        repository: String,
        repo_stats: RepoStats,
        activity_metrics: ActivityMetrics,
    ) -> (report: Option<GitHubReport>)
        ensures
            report is Some <==> repo_stats.default_branch is Some,
            report is Some ==> report->0 == (GitHubReport {
                name,
                repository: Some(repository),
                is_github_repo: true,
                repo_stats,
                activity_metrics,
            }),
    {
        if repo_stats.default_branch.is_none() {
            return None;
        }
        Some(
            GitHubReport {
                name,
                repository: Some(repository),
                is_github_repo: true,
                repo_stats,
                activity_metrics,
            },
        )
    }
}

} // verus!
