use ghif::github::{rate_limit_summary, CommentListing, ExplicitFetch, FetchStep, IssueListing, ListedIssue, PageError};
use ghif::{CommentData, GhError, IssueData, IssueState};

fn issue(n: u64) -> IssueData {
    IssueData::new(n, format!("issue {}", n), IssueState::Open, None, vec![], "c".to_string(), "u".to_string(), vec![], "me".to_string(), None)
}

#[test]
fn explicit_numbers_skip_failures_in_batches() {
    let mut f = ExplicitFetch::new(vec![1, 2, 3], 2);
    let mut pauses = 0;
    let mut asked = Vec::new();
    loop {
        match f.next_step() {
            FetchStep::Fetch(n) => {
                asked.push(n);
                f.record(if n == 2 { None } else { Some(issue(n as u64)) });
            }
            FetchStep::Pause => {
                pauses += 1;
                f.paused();
            }
            FetchStep::Done => break,
        }
    }
    assert_eq!(asked, vec![1, 2, 3]);
    assert_eq!(pauses, 2);
    let got: Vec<u64> = f.into_issues().iter().map(|i| i.number()).collect();
    assert_eq!(got, vec![1, 3]);
}

#[test]
fn explicit_numbers_empty_list() {
    let f = ExplicitFetch::new(vec![], 3);
    assert_eq!(f.next_step(), FetchStep::Done);
}

#[test]
fn listing_first_page_not_found_is_empty() {
    let l = IssueListing::new();
    let r = l.fail(PageError::Remote { message: "Not Found".to_string(), detail: "GitHub: Not Found".to_string() });
    assert!(r.unwrap().is_empty());
}

#[test]
fn listing_later_failure_aborts() {
    let mut l = IssueListing::new();
    l.accept_page(vec![
        ListedIssue { issue: issue(9), is_pull_request: false },
        ListedIssue { issue: issue(8), is_pull_request: true },
        ListedIssue { issue: issue(7), is_pull_request: false },
    ]);
    match l.fail(PageError::Remote { message: "Not Found".to_string(), detail: "gone".to_string() }) {
        Err(GhError::ApiError(d)) => assert_eq!(d, "gone"),
        other => panic!("unexpected {:?}", other),
    }
    let l2 = IssueListing::new();
    assert!(matches!(l2.fail(PageError::Transport("timeout".to_string())), Err(GhError::ApiError(d)) if d == "timeout"));
}

#[test]
fn listing_drops_pull_requests() {
    let mut l = IssueListing::new();
    l.accept_page(vec![
        ListedIssue { issue: issue(9), is_pull_request: false },
        ListedIssue { issue: issue(8), is_pull_request: true },
    ]);
    l.accept_page(vec![ListedIssue { issue: issue(5), is_pull_request: false }]);
    let got: Vec<u64> = l.into_issues().iter().map(|i| i.number()).collect();
    assert_eq!(got, vec![9, 5]);
}

#[test]
fn comment_pages_and_failures() {
    let mut c = CommentListing::new();
    c.accept_page(vec![CommentData::new("a".to_string(), None, "t1".to_string(), None)]);
    c.accept_page(vec![CommentData::new("b".to_string(), None, "t2".to_string(), None)]);
    let all = c.into_comments();
    assert_eq!(all.len(), 2);
    assert_eq!(all[0].user, "a");
    assert_eq!(all[1].user, "b");
    match CommentListing::new().fail("boom".to_string()) {
        GhError::ApiError(d) => assert_eq!(d, "Failed to fetch comments: boom"),
        other => panic!("unexpected {:?}", other),
    }
    let mut started = CommentListing::new();
    started.accept_page(vec![]);
    match started.fail("boom".to_string()) {
        GhError::ApiError(d) => assert_eq!(d, "boom"),
        other => panic!("unexpected {:?}", other),
    }
}

#[test]
fn rate_limit_text() {
    assert_eq!(
        rate_limit_summary(4999, 5000, 0).unwrap(),
        "API Rate Limit: 4999/5000 remaining. Reset at: 1970-01-01T00:00:00+00:00"
    );
    assert_eq!(
        rate_limit_summary(0, 60, 1700000000).unwrap(),
        "API Rate Limit: 0/60 remaining. Reset at: 2023-11-14T22:13:20+00:00"
    );
    assert!(matches!(rate_limit_summary(1, 1, u64::MAX), Err(GhError::RateLimitError(_))));
}
