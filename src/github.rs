//! Issues and comments as the library holds them, and the decisions of the
//! retrieval strategies: explicit numbers in batches, and a paged listing.
//!
//! The caller performs each remote call that a strategy asks for and hands
//! back what came of it.

use vstd::prelude::*;
use vstd::string::*;
use crate::error::GhError;
use crate::text::{append_decimal, decimal, same_text, views};

verus! {

/// The lifecycle state of an issue as the remote reports it.
#[derive(Clone, Copy, Debug, PartialEq, Eq, Structural)]
pub enum IssueState {
    Open,
    Closed,
    Unknown,
}

/// The label stored for a state.
pub open spec fn state_label(s: IssueState) -> Seq<char> {
    match s {
        IssueState::Open => "open"@,
        IssueState::Closed => "closed"@,
        IssueState::Unknown => "unknown"@,
    }
}

/// An issue, as plain values.
pub struct IssueView {
    pub number: u64,
    pub title: Seq<char>,
    pub state: Seq<char>,
    pub body: Option<Seq<char>>,
    pub labels: Seq<Seq<char>>,
    pub created_at: Seq<char>,
    pub updated_at: Seq<char>,
    pub assignees: Seq<Seq<char>>,
    pub user: Seq<char>,
    pub comments_url: Option<Seq<char>>,
}

/// A snapshot of one issue.
#[derive(Debug)]
pub struct IssueData {
    number: u64,
    title: String,
    state: String,
    body: Option<String>,
    labels: Vec<String>,
    created_at: String,
    updated_at: String,
    assignees: Vec<String>,
    user: String,
    comments_url: Option<String>,
}

pub open spec fn opt_view(o: Option<String>) -> Option<Seq<char>> {
    match o {
        Some(s) => Some(s@),
        None => None,
    }
}

impl View for IssueData {
    type V = IssueView;

    closed spec fn view(&self) -> IssueView {
        IssueView {
            number: self.number,
            title: self.title@,
            state: self.state@,
            body: opt_view(self.body),
            labels: views(self.labels@),
            created_at: self.created_at@,
            updated_at: self.updated_at@,
            assignees: views(self.assignees@),
            user: self.user@,
            comments_url: opt_view(self.comments_url),
        }
    }
}

fn state_text(s: IssueState) -> (r: String)
    ensures
        r@ == state_label(s),
{
    match s {
        IssueState::Open => String::from_str("open"),
        IssueState::Closed => String::from_str("closed"),
        IssueState::Unknown => String::from_str("unknown"),
    }
}

impl IssueData {
    /// Builds the snapshot of one remote record; the state is stored as its
    /// label `open`, `closed` or `unknown`.
    pub fn new(
        number: u64,
        title: String,
        state: IssueState,
        body: Option<String>,
        labels: Vec<String>,
        created_at: String,
        updated_at: String,
        assignees: Vec<String>,
        user: String,
        comments_url: Option<String>,
    ) -> (r: IssueData)
        ensures
            r@ == (IssueView {
                number,
                title: title@,
                state: state_label(state),
                body: opt_view(body),
                labels: views(labels@),
                created_at: created_at@,
                updated_at: updated_at@,
                assignees: views(assignees@),
                user: user@,
                comments_url: opt_view(comments_url),
            }),
    {
        IssueData {
            number,
            title,
            state: state_text(state),
            body,
            labels,
            created_at,
            updated_at,
            assignees,
            user,
            comments_url,
        }
    }

    pub fn number(&self) -> (r: u64)
        ensures
            r == self@.number,
    {
        self.number
    }

    pub fn title(&self) -> (r: &str)
        ensures
            r@ == self@.title,
    {
        self.title.as_str()
    }

    pub fn state(&self) -> (r: &str)
        ensures
            r@ == self@.state,
    {
        self.state.as_str()
    }

    pub fn body(&self) -> (r: Option<&str>)
        ensures
            match r {
                Some(b) => self@.body == Some(b@),
                None => self@.body is None,
            },
    {
        match &self.body {
            Some(b) => Some(b.as_str()),
            None => None,
        }
    }

    pub fn created_at(&self) -> (r: &str)
        ensures
            r@ == self@.created_at,
    {
        self.created_at.as_str()
    }

    pub fn updated_at(&self) -> (r: &str)
        ensures
            r@ == self@.updated_at,
    {
        self.updated_at.as_str()
    }

    pub fn labels(&self) -> (r: &[String])
        ensures
            views(r@) == self@.labels,
    {
        self.labels.as_slice()
    }

    pub fn assignees(&self) -> (r: &[String])
        ensures
            views(r@) == self@.assignees,
    {
        self.assignees.as_slice()
    }

    pub fn user(&self) -> (r: &str)
        ensures
            r@ == self@.user,
    {
        self.user.as_str()
    }
}

/// A snapshot of one comment. `updated_at` is `N/A` where the remote never
/// updated the comment.
#[derive(Debug)]
pub struct CommentData {
    pub user: String,
    pub body: String,
    pub created_at: String,
    pub updated_at: String,
}

/// The text stored for a timestamp the remote never set.
pub open spec fn not_applicable() -> Seq<char> {
    "N/A"@
}

impl CommentData {
    /// Builds the snapshot of one remote record: a missing body becomes the
    /// empty string, a missing update time becomes `N/A`.
    pub fn new(user: String, body: Option<String>, created_at: String, updated_at: Option<String>) -> (r: CommentData)
        ensures
            r.user@ == user@,
            r.body@ == (match body {
                Some(b) => b@,
                None => Seq::<char>::empty(),
            }),
            r.created_at@ == created_at@,
            r.updated_at@ == (match updated_at {
                Some(u) => u@,
                None => not_applicable(),
            }),
    {
        let body = match body {
            Some(b) => b,
            None => String::new(),
        };
        let updated_at = match updated_at {
            Some(u) => u,
            None => String::from_str("N/A"),
        };
        CommentData { user, body, created_at, updated_at }
    }
}

/// The views of a sequence of issues.
pub open spec fn issue_views(v: Seq<IssueData>) -> Seq<IssueView> {
    v.map_values(|i: IssueData| i@)
}

/// What the explicit-numbers strategy asks of its caller next.
#[derive(Clone, Copy, Debug, PartialEq, Eq, Structural)]
pub enum FetchStep {
    /// Fetch the issue with this number and report the outcome.
    Fetch(u32),
    /// A batch is complete: wait the courtesy delay, then report it.
    Pause,
    /// Every number has been processed.
    Done,
}

/// The state of an explicit-numbers retrieval, as plain values.
pub struct ExplicitFetchView {
    pub numbers: Seq<u32>,
    pub batch_size: nat,
    pub next: nat,
    pub in_batch: nat,
    pub issues: Seq<IssueView>,
}

/// The step that follows a state: a full batch, or a last partial one, is
/// closed by a pause; otherwise the next number is fetched.
pub open spec fn explicit_step(v: ExplicitFetchView) -> FetchStep {
    if v.in_batch == v.batch_size || (v.next == v.numbers.len() && v.in_batch > 0) {
        FetchStep::Pause
    } else if v.next < v.numbers.len() {
        FetchStep::Fetch(v.numbers[v.next as int])
    } else {
        FetchStep::Done
    }
}

/// Retrieval of issues given by number, in batches. A number whose fetch
/// fails is skipped; the others are kept in input order.
pub struct ExplicitFetch {
    numbers: Vec<u32>,
    batch_size: usize,
    next: usize,
    in_batch: usize,
    issues: Vec<IssueData>,
}

impl View for ExplicitFetch {
    type V = ExplicitFetchView;

    closed spec fn view(&self) -> ExplicitFetchView {
        ExplicitFetchView {
            numbers: self.numbers@,
            batch_size: self.batch_size as nat,
            next: self.next as nat,
            in_batch: self.in_batch as nat,
            issues: issue_views(self.issues@),
        }
    }
}

impl ExplicitFetch {
    /// Whether the state is one that the operations keep.
    pub open spec fn wf(&self) -> bool {
        &&& self@.batch_size > 0
        &&& self@.next <= self@.numbers.len()
        &&& self@.in_batch <= self@.batch_size
    }

    /// Starts a retrieval of `numbers` in batches of `batch_size`.
    pub fn new(numbers: Vec<u32>, batch_size: usize) -> (r: ExplicitFetch)
        requires
            batch_size > 0,
        ensures
            r.wf(),
            r@ == (ExplicitFetchView {
                numbers: numbers@,
                batch_size: batch_size as nat,
                next: 0,
                in_batch: 0,
                issues: Seq::empty(),
            }),
    {
        let r = ExplicitFetch { numbers, batch_size, next: 0, in_batch: 0, issues: Vec::new() };
        assert(issue_views(r.issues@) =~= Seq::empty());
        r
    }

    /// What the caller is to do next.
    pub fn next_step(&self) -> (r: FetchStep)
        requires
            self.wf(),
        ensures
            r == explicit_step(self@),
    {
        if self.in_batch == self.batch_size || (self.next == self.numbers.len() && self.in_batch > 0) {
            FetchStep::Pause
        } else if self.next < self.numbers.len() {
            FetchStep::Fetch(self.numbers[self.next])
        } else {
            FetchStep::Done
        }
    }

    /// Reports the outcome of the fetch asked for: `None` where it failed,
    /// which skips that number.
    pub fn record(&mut self, fetched: Option<IssueData>)
        requires
            old(self).wf(),
            explicit_step(old(self)@) is Fetch,
        ensures
            final(self).wf(),
            final(self)@ == (ExplicitFetchView {
                next: old(self)@.next + 1,
                in_batch: old(self)@.in_batch + 1,
                issues: match fetched {
                    Some(i) => old(self)@.issues.push(i@),
                    None => old(self)@.issues,
                },
                ..old(self)@
            }),
    {
        let n = self.numbers.len();
        assert(self.next < n && self.in_batch < self.batch_size);
        self.next = self.next + 1;
        self.in_batch = self.in_batch + 1;
        match fetched {
            Some(i) => {
                self.issues.push(i);
            },
            None => {},
        }
        assert(issue_views(self.issues@) =~= match fetched {
            Some(i) => issue_views(old(self).issues@).push(i@),
            None => issue_views(old(self).issues@),
        });
    }

    /// Reports that the pause asked for has passed: a new batch begins.
    pub fn paused(&mut self)
        requires
            old(self).wf(),
            explicit_step(old(self)@) is Pause,
        ensures
            final(self).wf(),
            final(self)@ == (ExplicitFetchView { in_batch: 0, ..old(self)@ }),
    {
        self.in_batch = 0;
    }

    /// The issues fetched so far, in input order.
    pub fn into_issues(self) -> (r: Vec<IssueData>)
        ensures
            issue_views(r@) == self@.issues,
    {
        self.issues
    }
}

/// One record of a listing page; the remote lists pull requests as issues.
pub struct ListedIssue {
    pub issue: IssueData,
    pub is_pull_request: bool,
}

/// The issues of `items` that are not pull requests, in order.
pub open spec fn non_pull_requests(items: Seq<ListedIssue>) -> Seq<IssueView>
    decreases items.len(),
{
    if items.len() == 0 {
        Seq::empty()
    } else {
        let rest = non_pull_requests(items.drop_last());
        if items.last().is_pull_request {
            rest
        } else {
            rest.push(items.last().issue@)
        }
    }
}

/// Why a remote page could not be had.
pub enum PageError {
    /// The remote answered with an error message; `detail` describes the
    /// whole failure.
    Remote { message: String, detail: String },
    /// The call failed without an answer from the remote.
    Transport(String),
}

/// The message with which the remote reports a missing resource.
pub open spec fn not_found_message() -> Seq<char> {
    "Not Found"@
}

/// Whether the remote reported the resource missing.
pub open spec fn is_not_found(e: PageError) -> bool {
    match e {
        PageError::Remote { message, .. } => message@ == not_found_message(),
        PageError::Transport(_) => false,
    }
}

/// The description of a page failure.
pub open spec fn page_error_detail(e: PageError) -> Seq<char> {
    match e {
        PageError::Remote { detail, .. } => detail@,
        PageError::Transport(detail) => detail@,
    }
}

/// Retrieval of all issues by listing pages. Pull requests are left out; a
/// missing first page means there are no issues; any other failure aborts.
pub struct IssueListing {
    issues: Vec<IssueData>,
    started: bool,
}

impl IssueListing {
    /// The issues kept so far, in page order.
    pub closed spec fn issues(&self) -> Seq<IssueView> {
        issue_views(self.issues@)
    }

    /// Whether a page has been accepted.
    pub closed spec fn started(&self) -> bool {
        self.started
    }

    pub fn new() -> (r: IssueListing)
        ensures
            r.issues() == Seq::<IssueView>::empty(),
            !r.started(),
    {
        let r = IssueListing { issues: Vec::new(), started: false };
        assert(issue_views(r.issues@) =~= Seq::empty());
        r
    }

    /// Takes one page: its issues that are not pull requests are kept.
    pub fn accept_page(&mut self, items: Vec<ListedIssue>)
        ensures
            final(self).issues() == old(self).issues() + non_pull_requests(items@),
            final(self).started(),
    {
        let ghost start = issue_views(self.issues@);
        let mut items = items;
        let ghost all = items@;
        let mut taken: Vec<ListedIssue> = Vec::new();
        let mut k: usize = 0;
        let n = items.len();
        // take the items from the back, then keep them front to back
        while k < n
            invariant
                n == all.len(),
                k <= n,
                items@ == all.subrange(0, n - k),
                taken@.len() == k,
                forall|j: int| 0 <= j < k ==> taken@[j] == all[n - 1 - j],
                issue_views(self.issues@) == start,
            decreases n - k,
        {
            let it = items.pop().unwrap();
            taken.push(it);
            k = k + 1;
        }
        let mut m: usize = 0;
        while m < n
            invariant
                n == all.len(),
                m <= n,
                taken@.len() == n - m,
                forall|j: int| 0 <= j < n - m ==> taken@[j] == all[n - 1 - j],
                issue_views(self.issues@) == start + non_pull_requests(all.subrange(0, m as int)),
            decreases n - m,
        {
            let it = taken.pop().unwrap();
            assert(it == all[m as int]);
            let ghost before = issue_views(self.issues@);
            let ghost pre = all.subrange(0, m as int);
            assert(all.subrange(0, m + 1).drop_last() =~= pre);
            if !it.is_pull_request {
                self.issues.push(it.issue);
                assert(issue_views(self.issues@) =~= before.push(all[m as int].issue@));
            }
            m = m + 1;
        }
        assert(all.subrange(0, n as int) =~= all);
        self.started = true;
    }

    /// Ends the listing on a failed page: a first page reported missing
    /// means no issues; every other failure is an `ApiError`.
    pub fn fail(self, error: PageError) -> (r: Result<Vec<IssueData>, GhError>)
        ensures
            !self.started() && is_not_found(error) ==> r is Ok && r->Ok_0@.len() == 0,
            !(!self.started() && is_not_found(error)) ==> (match r {
                Err(GhError::ApiError(d)) => d@ == page_error_detail(error),
                _ => false,
            }),
    {
        let missing = match &error {
            PageError::Remote { message, .. } => same_text(message.as_str(), "Not Found"),
            PageError::Transport(_) => false,
        };
        if !self.started && missing {
            return Ok(Vec::new());
        }
        match error {
            PageError::Remote { detail, .. } => Err(GhError::ApiError(detail)),
            PageError::Transport(detail) => Err(GhError::ApiError(detail)),
        }
    }

    /// The issues kept, once the remote reports no further page.
    pub fn into_issues(self) -> (r: Vec<IssueData>)
        ensures
            issue_views(r@) == self.issues(),
    {
        self.issues
    }
}

/// Retrieval of all comments of one issue by pages, in remote order. Any
/// failed page aborts.
pub struct CommentListing {
    comments: Vec<CommentData>,
    started: bool,
}

/// The prefix of the error detail when the first comment page fails.
pub open spec fn comment_failure_prefix() -> Seq<char> {
    "Failed to fetch comments: "@
}

impl CommentListing {
    /// The comments gathered so far.
    pub closed spec fn comments(&self) -> Seq<CommentData> {
        self.comments@
    }

    /// Whether a page has been accepted.
    pub closed spec fn started(&self) -> bool {
        self.started
    }

    pub fn new() -> (r: CommentListing)
        ensures
            r.comments() == Seq::<CommentData>::empty(),
            !r.started(),
    {
        CommentListing { comments: Vec::new(), started: false }
    }

    /// Takes one page of comments, appended in the order given.
    pub fn accept_page(&mut self, items: Vec<CommentData>)
        ensures
            final(self).comments() == old(self).comments() + items@,
            final(self).started(),
    {
        let mut items = items;
        self.comments.append(&mut items);
        self.started = true;
    }

    /// Ends the listing on a failed page: always an `ApiError`, whose detail
    /// says that comments failed where it was the first page.
    pub fn fail(self, detail: String) -> (r: GhError)
        ensures
            r matches GhError::ApiError(d) && d@ == if self.started() {
                detail@
            } else {
                comment_failure_prefix() + detail@
            },
    {
        if self.started {
            GhError::ApiError(detail)
        } else {
            let mut d = String::from_str("Failed to fetch comments: ");
            d.append(detail.as_str());
            GhError::ApiError(d)
        }
    }

    /// The comments gathered, once the remote reports no further page.
    pub fn into_comments(self) -> (r: Vec<CommentData>)
        ensures
            r@ == self.comments(),
    {
        self.comments
    }
}

/// What chrono's RFC 3339 rendering gives for the instant `secs` seconds
/// after the Unix epoch, in UTC.
pub uninterp spec fn rfc3339_of_epoch(secs: u64) -> Seq<char>;

/// The latest reset time, in seconds after the epoch, that is rendered; far
/// inside chrono's range of dates.
pub const MAX_RESET_SECS: u64 = 8_000_000_000_000;

/// Relies on chrono's `DateTime<Utc>: From<SystemTime>` and `to_rfc3339`: the
/// instant `secs` seconds after the epoch, in RFC 3339. The conversion panics
/// outside chrono's range of dates, which `requires` leaves out.
#[verifier::external_body]
fn epoch_to_rfc3339(secs: u64) -> (r: String)
    requires
        secs <= MAX_RESET_SECS,
    ensures
        r@ == rfc3339_of_epoch(secs),
{
    let t = std::time::UNIX_EPOCH + std::time::Duration::from_secs(secs);
    chrono::DateTime::<chrono::Utc>::from(t).to_rfc3339()
}

/// The one-line summary of the rate-limit status.
pub open spec fn rate_limit_text(remaining: u64, limit: u64, reset: u64) -> Seq<char> {
    "API Rate Limit: "@ + decimal(remaining as nat) + "/"@ + decimal(limit as nat)
        + " remaining. Reset at: "@ + rfc3339_of_epoch(reset)
}

/// Summarises the rate-limit status: requests remaining of the limit, and
/// when the window resets. A reset time beyond the range of dates is a
/// `RateLimitError`.
pub fn rate_limit_summary(remaining: u64, limit: u64, reset: u64) -> (r: Result<String, GhError>)
    ensures
        reset <= MAX_RESET_SECS ==> (r matches Ok(s) && s@ == rate_limit_text(remaining, limit, reset)),
        reset > MAX_RESET_SECS ==> (r matches Err(GhError::RateLimitError(_))),
{
    if reset > MAX_RESET_SECS {
        return Err(GhError::RateLimitError(String::from_str("reset time out of range")));
    }
    let mut s = String::from_str("API Rate Limit: ");
    append_decimal(&mut s, remaining);
    s.append("/");
    append_decimal(&mut s, limit);
    s.append(" remaining. Reset at: ");
    let when = epoch_to_rfc3339(reset);
    s.append(when.as_str());
    Ok(s)
}

} // verus!
