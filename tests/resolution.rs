use ghif::output::{get_issue_file_name, needs_download, sanitize_filename, sanitize_lowered};
use ghif::repo::{parse_github_repo_url, parse_trimmed_repo_url, split_repo};
use ghif::selection::{parse_issue_numbers, parse_u32};
use ghif::{GhError, IssueData, IssueState, OutputFormat};

#[test]
fn https_and_ssh_urls_resolve() {
    assert_eq!(parse_github_repo_url("https://github.com/foo/bar.git").unwrap(), "foo/bar");
    assert_eq!(parse_github_repo_url("git@github.com:foo/bar.git").unwrap(), "foo/bar");
    assert_eq!(parse_github_repo_url("https://github.com/foo/bar").unwrap(), "foo/bar");
    assert_eq!(parse_github_repo_url("  git@github.com:foo/bar.git\n").unwrap(), "foo/bar");
    assert_eq!(parse_trimmed_repo_url("https://github.com/foo/bar.git.git").unwrap(), "foo/bar");
}

#[test]
fn other_url_shapes_are_refused() {
    match parse_github_repo_url("ftp://x/y") {
        Err(GhError::UnsupportedUrlFormat(m)) => assert_eq!(m, "Unsupported repository URL format: ftp://x/y"),
        other => panic!("unexpected {:?}", other),
    }
    assert!(matches!(parse_trimmed_repo_url("http://github.com/a/b"), Err(GhError::UnsupportedUrlFormat(_))));
    assert!(matches!(parse_trimmed_repo_url(""), Err(GhError::UnsupportedUrlFormat(_))));
}

#[test]
fn owner_and_name_split() {
    let (o, n) = split_repo("foo/bar/baz").unwrap();
    assert_eq!(o, "foo");
    assert_eq!(n, "bar/baz");
    match split_repo("foobar") {
        Err(GhError::InvalidRepoUrl(m)) => assert_eq!(m, "Repository should be in format 'owner/repo'"),
        other => panic!("unexpected {:?}", other),
    }
}

#[test]
fn title_sanitization() {
    assert_eq!(sanitize_filename("Fix: Bug #42!!"), "fix-bug-42");
    assert_eq!(sanitize_lowered("a---b"), "a--b");
    assert_eq!(sanitize_lowered("--x--"), "x");
    assert_eq!(sanitize_filename("ÉTÉ Crash"), "t-crash");
    assert_eq!(sanitize_filename(""), "");
    assert_eq!(sanitize_filename("!!!"), "");
}

#[test]
fn issue_file_names() {
    let i = IssueData::new(42, "Fix: Bug #42!!".to_string(), IssueState::Open, None, vec![], "c".to_string(), "u".to_string(), vec![], "me".to_string(), None);
    assert_eq!(get_issue_file_name(&i, OutputFormat::Markdown), "issue-42-fix-bug-42.md");
    assert_eq!(get_issue_file_name(&i, OutputFormat::Xml), "issue-42-fix-bug-42.xml");
}

#[test]
fn skip_existing_files() {
    assert!(!needs_download(true, true));
    assert!(needs_download(true, false));
    assert!(needs_download(false, true));
    assert!(needs_download(false, false));
}

#[test]
fn issue_number_lists() {
    let r = parse_issue_numbers("1, 2,x, +4,4294967296,");
    assert_eq!(r.len(), 6);
    assert_eq!(r[0], Ok(1));
    assert_eq!(r[1], Ok(2));
    assert_eq!(r[2], Err("x".to_string()));
    assert_eq!(r[3], Ok(4));
    assert_eq!(r[4], Err("4294967296".to_string()));
    assert_eq!(r[5], Err("".to_string()));
    assert_eq!(parse_u32("4294967295"), Some(4294967295));
    assert_eq!(parse_u32("+"), None);
    assert_eq!(parse_u32("0012"), Some(12));
}
