//! Resolution of the target repository from a remote URL or an
//! `owner/name` string.

use vstd::prelude::*;
use vstd::string::*;
use crate::error::GhError;
use crate::text::{ends_with, has_prefix, same_text, starts_with, trim, trim_of};

verus! {

/// The prefix of a repository URL over HTTPS.
pub open spec fn https_prefix() -> Seq<char> {
    "https://github.com/"@
}

/// The prefix of a repository URL over SSH.
pub open spec fn ssh_prefix() -> Seq<char> {
    "git@github.com:"@
}

/// The suffix that a clone URL may carry.
pub open spec fn git_suffix() -> Seq<char> {
    ".git"@
}

/// `s` with every leading copy of `p` removed.
pub open spec fn strip_leading(s: Seq<char>, p: Seq<char>) -> Seq<char>
    decreases s.len(),
{
    if p.len() > 0 && starts_with(s, p) {
        strip_leading(s.subrange(p.len() as int, s.len() as int), p)
    } else {
        s
    }
}

/// `s` with every trailing copy of `p` removed.
pub open spec fn strip_trailing(s: Seq<char>, p: Seq<char>) -> Seq<char>
    decreases s.len(),
{
    if p.len() > 0 && ends_with(s, p) {
        strip_trailing(s.subrange(0, s.len() - p.len()), p)
    } else {
        s
    }
}

/// The `owner/name` of a remote URL without surrounding white space, or
/// `None` where the URL has neither supported shape.
pub open spec fn repo_of_url(u: Seq<char>) -> Option<Seq<char>> {
    if starts_with(u, https_prefix()) {
        Some(strip_trailing(strip_leading(u, https_prefix()), git_suffix()))
    } else if starts_with(u, ssh_prefix()) {
        Some(strip_trailing(strip_leading(u, ssh_prefix()), git_suffix()))
    } else {
        None
    }
}

/// The start of the message for an unsupported URL.
pub open spec fn unsupported_message() -> Seq<char> {
    "Unsupported repository URL format: "@
}

/// Whether `s` ends with `p`.
fn has_suffix(s: &str, p: &str) -> (r: bool)
    ensures
        r == ends_with(s@, p@),
{
    let n = s.unicode_len();
    let m = p.unicode_len();
    if m > n {
        return false;
    }
    same_text(s.substring_char(n - m, n), p)
}

/// Removes every leading copy of `p` from `s`.
fn strip_leading_exec<'a>(s: &'a str, p: &str) -> (r: &'a str)
    ensures
        r@ == strip_leading(s@, p@),
{
    let m = p.unicode_len();
    if m == 0 {
        return s;
    }
    let mut rest = s;
    while has_prefix(rest, p)
        invariant
            m == p@.len(),
            m > 0,
            strip_leading(rest@, p@) == strip_leading(s@, p@),
        decreases rest@.len(),
    {
        let n = rest.unicode_len();
        rest = rest.substring_char(m, n);
    }
    rest
}

/// Removes every trailing copy of `p` from `s`.
fn strip_trailing_exec<'a>(s: &'a str, p: &str) -> (r: &'a str)
    ensures
        r@ == strip_trailing(s@, p@),
{
    let m = p.unicode_len();
    if m == 0 {
        return s;
    }
    let mut rest = s;
    while has_suffix(rest, p)
        invariant
            m == p@.len(),
            m > 0,
            strip_trailing(rest@, p@) == strip_trailing(s@, p@),
        decreases rest@.len(),
    {
        let n = rest.unicode_len();
        rest = rest.substring_char(0, n - m);
    }
    rest
}

/// Reads `owner/name` from a remote URL that has no surrounding white
/// space: `https://github.com/...` or `git@github.com:...`, without the
/// prefix and without a trailing `.git`.
pub fn parse_trimmed_repo_url(url: &str) -> (r: Result<String, GhError>)
    ensures
        repo_of_url(url@) matches Some(repo) ==> (r matches Ok(s) && s@ == repo),
        repo_of_url(url@) is None ==> (r matches Err(GhError::UnsupportedUrlFormat(m)) && m@
            == unsupported_message() + url@),
{
    let rest = if has_prefix(url, "https://github.com/") {
        strip_leading_exec(url, "https://github.com/")
    } else if has_prefix(url, "git@github.com:") {
        strip_leading_exec(url, "git@github.com:")
    } else {
        let mut m = String::from_str("Unsupported repository URL format: ");
        m.append(url);
        return Err(GhError::UnsupportedUrlFormat(m));
    };
    Ok(String::from_str(strip_trailing_exec(rest, ".git")))
}

/// Reads `owner/name` from a remote URL, as `parse_trimmed_repo_url` does
/// after white space around the URL is removed.
pub fn parse_github_repo_url(url: &str) -> (r: Result<String, GhError>)
    ensures
        repo_of_url(trim_of(url@)) matches Some(repo) ==> (r matches Ok(s) && s@ == repo),
        repo_of_url(trim_of(url@)) is None ==> (r matches Err(GhError::UnsupportedUrlFormat(m))
            && m@ == unsupported_message() + trim_of(url@)),
{
    parse_trimmed_repo_url(trim(url))
}

/// The message for a repository not given as `owner/name`.
pub open spec fn owner_name_message() -> Seq<char> {
    "Repository should be in format 'owner/repo'"@
}

/// Splits `owner/name` at its first `/`; a string without `/` is an
/// `InvalidRepoUrl`.
pub fn split_repo(repo: &str) -> (r: Result<(String, String), GhError>)
    ensures
        !repo@.contains('/') ==> (r matches Err(GhError::InvalidRepoUrl(m)) && m@ == owner_name_message()),
        repo@.contains('/') ==> (r matches Ok((owner, name)) && !owner@.contains('/') && repo@
            == owner@ + seq!['/'] + name@),
{
    let n = repo.unicode_len();
    let mut i: usize = 0;
    while i < n
        invariant
            n == repo@.len(),
            i <= n,
            forall|j: int| 0 <= j < i ==> repo@[j] != '/',
        decreases n - i,
    {
        if repo.get_char(i) == '/' {
            let owner = repo.substring_char(0, i);
            let name = repo.substring_char(i + 1, n);
            assert(repo@ =~= owner@ + seq!['/'] + name@);
            assert(!owner@.contains('/')) by {
                if owner@.contains('/') {
                    let j = choose|j: int| 0 <= j < owner@.len() && owner@[j] == '/';
                    assert(repo@[j] == '/');
                }
            }
            return Ok((String::from_str(owner), String::from_str(name)));
        }
        i = i + 1;
    }
    Err(GhError::InvalidRepoUrl(String::from_str("Repository should be in format 'owner/repo'")))
}

/// An owner or repository name as the host allows it: not empty, without
/// `/` or `:`.
pub open spec fn plain_component(s: Seq<char>) -> bool {
    s.len() > 0 && !s.contains('/') && !s.contains(':')
}

proof fn lemma_no_colon_no_prefix(s: Seq<char>)
    requires
        !s.contains(':'),
    ensures
        !starts_with(s, https_prefix()),
        !starts_with(s, ssh_prefix()),
{
    reveal_strlit("https://github.com/");
    reveal_strlit("git@github.com:");
    if starts_with(s, https_prefix()) {
        assert(s.subrange(0, https_prefix().len() as int)[5] == ':');
        assert(s[5] == ':');
    }
    if starts_with(s, ssh_prefix()) {
        assert(s.subrange(0, ssh_prefix().len() as int)[14] == ':');
        assert(s[14] == ':');
    }
}

proof fn lemma_strip_leading_once(p: Seq<char>, rest: Seq<char>)
    requires
        p.len() > 0,
        !starts_with(rest, p),
    ensures
        strip_leading(p + rest, p) == rest,
{
    let s = p + rest;
    assert(s.subrange(0, p.len() as int) =~= p);
    assert(s.subrange(p.len() as int, s.len() as int) =~= rest);
    assert(strip_leading(rest, p) == rest);
    assert(strip_leading(s, p) == strip_leading(s.subrange(p.len() as int, s.len() as int), p));
}

proof fn lemma_no_git_suffix(owner: Seq<char>, name: Seq<char>)
    requires
        plain_component(owner),
        plain_component(name),
        !ends_with(name, git_suffix()),
    ensures
        !ends_with(owner + seq!['/'] + name, git_suffix()),
{
    reveal_strlit(".git");
    let r = owner + seq!['/'] + name;
    if ends_with(r, git_suffix()) {
        let t = r.subrange(r.len() - 4, r.len() as int);
        if name.len() >= 4 {
            assert(t =~= name.subrange(name.len() - 4, name.len() as int));
        } else {
            let k = 3 - name.len();
            assert(t[k] == r[owner.len() as int]);
            assert(t[k] == '/');
        }
    }
}

proof fn lemma_strip_trailing_once(r: Seq<char>)
    requires
        !ends_with(r, git_suffix()),
    ensures
        strip_trailing(r + git_suffix(), git_suffix()) == r,
        strip_trailing(r, git_suffix()) == r,
{
    reveal_strlit(".git");
    let s = r + git_suffix();
    assert(s.subrange(s.len() - 4, s.len() as int) =~= git_suffix());
    assert(s.subrange(0, s.len() - 4) =~= r);
    assert(strip_trailing(r, git_suffix()) == r);
    assert(strip_trailing(s, git_suffix()) == strip_trailing(s.subrange(0, s.len() - 4), git_suffix()));
}

/// A URL of either supported shape, with or without `.git`, resolves to
/// exactly `owner/name`.
pub proof fn supported_urls_resolve(owner: Seq<char>, name: Seq<char>)
    requires
        plain_component(owner),
        plain_component(name),
        !ends_with(name, git_suffix()),
    ensures
        repo_of_url(https_prefix() + owner + seq!['/'] + name + git_suffix()) == Some(owner + seq!['/'] + name),
        repo_of_url(https_prefix() + owner + seq!['/'] + name) == Some(owner + seq!['/'] + name),
        repo_of_url(ssh_prefix() + owner + seq!['/'] + name + git_suffix()) == Some(owner + seq!['/'] + name),
        repo_of_url(ssh_prefix() + owner + seq!['/'] + name) == Some(owner + seq!['/'] + name),
{
    reveal_strlit("https://github.com/");
    reveal_strlit("git@github.com:");
    reveal_strlit(".git");
    let r = owner + seq!['/'] + name;
    assert(!r.contains(':')) by {
        if r.contains(':') {
            let j = choose|j: int| 0 <= j < r.len() && r[j] == ':';
            if j < owner.len() {
                assert(owner[j] == ':');
            } else if j > owner.len() {
                assert(name[j - owner.len() - 1] == ':');
            }
        }
    }
    let rg = r + git_suffix();
    assert(!rg.contains(':')) by {
        if rg.contains(':') {
            let j = choose|j: int| 0 <= j < rg.len() && rg[j] == ':';
            if j < r.len() {
                assert(r[j] == ':');
            }
        }
    }
    lemma_no_colon_no_prefix(r);
    lemma_no_colon_no_prefix(rg);
    lemma_no_git_suffix(owner, name);
    lemma_strip_trailing_once(r);
    lemma_strip_leading_once(https_prefix(), rg);
    lemma_strip_leading_once(https_prefix(), r);
    lemma_strip_leading_once(ssh_prefix(), rg);
    lemma_strip_leading_once(ssh_prefix(), r);
    assert(https_prefix() + owner + seq!['/'] + name + git_suffix() =~= https_prefix() + rg);
    assert(https_prefix() + owner + seq!['/'] + name =~= https_prefix() + r);
    assert(ssh_prefix() + owner + seq!['/'] + name + git_suffix() =~= ssh_prefix() + rg);
    assert(ssh_prefix() + owner + seq!['/'] + name =~= ssh_prefix() + r);
    let a = ssh_prefix() + rg;
    let b = ssh_prefix() + r;
    assert(starts_with(https_prefix() + rg, https_prefix())) by {
        assert((https_prefix() + rg).subrange(0, 19) =~= https_prefix());
    }
    assert(starts_with(https_prefix() + r, https_prefix())) by {
        assert((https_prefix() + r).subrange(0, 19) =~= https_prefix());
    }
    assert(!starts_with(a, https_prefix())) by {
        if starts_with(a, https_prefix()) {
            assert(a.subrange(0, 19)[0] == a[0]);
        }
    }
    assert(!starts_with(b, https_prefix())) by {
        if starts_with(b, https_prefix()) {
            assert(b.subrange(0, 19)[0] == b[0]);
        }
    }
    assert(starts_with(a, ssh_prefix())) by {
        assert(a.subrange(0, 15) =~= ssh_prefix());
    }
    assert(starts_with(b, ssh_prefix())) by {
        assert(b.subrange(0, 15) =~= ssh_prefix());
    }
}

/// A URL of neither supported shape is refused.
pub proof fn other_urls_refused(u: Seq<char>)
    requires
        !starts_with(u, https_prefix()),
        !starts_with(u, ssh_prefix()),
    ensures
        repo_of_url(u) is None,
{
}

} // verus!
