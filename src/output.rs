//! Names of the output files, and whether an issue is to be written.

use vstd::prelude::*;
use vstd::string::*;
use crate::format::{extension, get_file_extension, OutputFormat};
use crate::github::{IssueData, IssueView};
use crate::text::{append_decimal, decimal, lower_of, lowercase, push_char};

verus! {

/// Whether a character is kept as it is in a file name.
pub open spec fn keep_char(c: char) -> bool {
    ('a' <= c && c <= 'z') || ('0' <= c && c <= '9')
}

/// Every character but `[a-z0-9]` replaced by `-`.
pub open spec fn dash_others(s: Seq<char>) -> Seq<char> {
    s.map_values(|c: char| if keep_char(c) { c } else { '-' })
}

/// One left-to-right pass that replaces each `--` by `-`; a run of three
/// dashes leaves two.
pub open spec fn collapse_pairs(s: Seq<char>) -> Seq<char>
    decreases s.len(),
{
    if s.len() < 2 {
        s
    } else if s[0] == '-' && s[1] == '-' {
        seq!['-'] + collapse_pairs(s.subrange(2, s.len() as int))
    } else {
        seq![s[0]] + collapse_pairs(s.subrange(1, s.len() as int))
    }
}

/// `s` without leading dashes.
pub open spec fn trim_leading_dashes(s: Seq<char>) -> Seq<char>
    decreases s.len(),
{
    if s.len() > 0 && s[0] == '-' {
        trim_leading_dashes(s.subrange(1, s.len() as int))
    } else {
        s
    }
}

/// `s` without trailing dashes.
pub open spec fn trim_trailing_dashes(s: Seq<char>) -> Seq<char>
    decreases s.len(),
{
    if s.len() > 0 && s.last() == '-' {
        trim_trailing_dashes(s.drop_last())
    } else {
        s
    }
}

/// The file-name form of a title already in lower case.
pub open spec fn sanitized(lowered: Seq<char>) -> Seq<char> {
    trim_leading_dashes(trim_trailing_dashes(collapse_pairs(dash_others(lowered))))
}

fn chars_of(s: &str) -> (r: Vec<char>)
    ensures
        r@ == s@,
{
    let n = s.unicode_len();
    let mut r: Vec<char> = Vec::new();
    let mut i: usize = 0;
    while i < n
        invariant
            n == s@.len(),
            i <= n,
            r@ == s@.subrange(0, i as int),
        decreases n - i,
    {
        r.push(s.get_char(i));
        i = i + 1;
        assert(r@ =~= s@.subrange(0, i as int));
    }
    assert(s@ =~= s@.subrange(0, n as int));
    r
}

/// The file-name form of a title already in lower case: characters outside
/// `[a-z0-9]` become `-`, each `--` becomes `-` in one pass, and dashes at
/// either end go.
pub fn sanitize_lowered(lowered: &str) -> (r: String)
    ensures
        r@ == sanitized(lowered@),
{
    let src = chars_of(lowered);
    let n = src.len();
    let mut dashed: Vec<char> = Vec::new();
    let mut i: usize = 0;
    while i < n
        invariant
            n == src@.len(),
            i <= n,
            dashed@ == dash_others(src@.subrange(0, i as int)),
        decreases n - i,
    {
        let c = src[i];
        if ('a' <= c && c <= 'z') || ('0' <= c && c <= '9') {
            dashed.push(c);
        } else {
            dashed.push('-');
        }
        i = i + 1;
        assert(dashed@ =~= dash_others(src@.subrange(0, i as int)));
    }
    assert(src@.subrange(0, n as int) =~= src@);
    let ghost d = dashed@;
    let mut col: Vec<char> = Vec::new();
    let mut j: usize = 0;
    assert(d.subrange(0, n as int) =~= d);
    assert(col@ + collapse_pairs(d) =~= collapse_pairs(d));
    while j < n
        invariant
            n == d.len(),
            dashed@ == d,
            j <= n,
            col@ + collapse_pairs(d.subrange(j as int, n as int)) == collapse_pairs(d),
        decreases n - j,
    {
        let ghost rest = d.subrange(j as int, n as int);
        if j + 1 < n && dashed[j] == '-' && dashed[j + 1] == '-' {
            assert(rest.subrange(2, rest.len() as int) =~= d.subrange(j + 2, n as int));
            col.push('-');
            j = j + 2;
            assert(col@ + collapse_pairs(d.subrange(j as int, n as int)) =~= collapse_pairs(d));
        } else {
            col.push(dashed[j]);
            proof {
                if rest.len() >= 2 {
                    assert(rest.subrange(1, rest.len() as int) =~= d.subrange(j + 1, n as int));
                } else {
                    assert(d.subrange(j + 1, n as int) =~= Seq::<char>::empty());
                    assert(collapse_pairs(rest) == rest);
                    assert(collapse_pairs(d.subrange(j + 1, n as int)) == d.subrange(j + 1, n as int));
                }
            }
            j = j + 1;
            assert(col@ + collapse_pairs(d.subrange(j as int, n as int)) =~= collapse_pairs(d));
        }
    }
    assert(d.subrange(n as int, n as int) =~= Seq::<char>::empty());
    assert(col@ =~= collapse_pairs(d));
    let ghost c = col@;
    let mut hi: usize = col.len();
    assert(c.subrange(0, c.len() as int) =~= c);
    while hi > 0 && col[hi - 1] == '-'
        invariant
            hi <= c.len(),
            col@ == c,
            trim_trailing_dashes(c.subrange(0, hi as int)) == trim_trailing_dashes(c),
        decreases hi,
    {
        assert(c.subrange(0, hi as int).drop_last() =~= c.subrange(0, hi - 1));
        hi = hi - 1;
    }
    let ghost t = c.subrange(0, hi as int);
    let mut lo: usize = 0;
    while lo < hi && col[lo] == '-'
        invariant
            lo <= hi,
            hi <= c.len(),
            col@ == c,
            t == c.subrange(0, hi as int),
            trim_leading_dashes(c.subrange(lo as int, hi as int)) == trim_leading_dashes(t),
        decreases hi - lo,
    {
        let ghost u = c.subrange(lo as int, hi as int);
        assert(u.subrange(1, u.len() as int) =~= c.subrange(lo + 1, hi as int));
        lo = lo + 1;
    }
    assert(c.subrange(0, hi as int) =~= c.subrange(0 as int, hi as int));
    let ghost v = c.subrange(lo as int, hi as int);
    assert(trim_leading_dashes(v) == v);
    let mut out = String::new();
    let mut k: usize = lo;
    while k < hi
        invariant
            lo <= k <= hi,
            hi <= c.len(),
            col@ == c,
            out@ == c.subrange(lo as int, k as int),
        decreases hi - k,
    {
        push_char(&mut out, col[k]);
        k = k + 1;
        assert(out@ =~= c.subrange(lo as int, k as int));
    }
    out
}

/// The file-name form of a title: lower case, then as `sanitize_lowered`.
pub fn sanitize_filename(name: &str) -> (r: String)
    ensures
        r@ == sanitized(lower_of(name@)),
{
    let lowered = lowercase(name);
    sanitize_lowered(lowered.as_str())
}

/// The name of the file of an issue: `issue-<number>-<title>.<ext>`.
pub open spec fn issue_file_name_of(i: IssueView, format: OutputFormat) -> Seq<char> {
    "issue-"@ + decimal(i.number as nat) + "-"@ + sanitized(lower_of(i.title)) + "."@ + extension(format)
}

/// The name of the file an issue is written to, inside the output directory.
pub fn get_issue_file_name(issue: &IssueData, format: OutputFormat) -> (r: String)
    ensures
        r@ == issue_file_name_of(issue@, format),
{
    let mut s = String::from_str("issue-");
    append_decimal(&mut s, issue.number());
    s.append("-");
    let title = sanitize_filename(issue.title());
    s.append(title.as_str());
    s.append(".");
    s.append(get_file_extension(format));
    s
}

/// Whether an issue's comments are to be fetched and its document written:
/// not where its file exists and existing files are skipped.
pub fn needs_download(skip_existing: bool, file_exists: bool) -> (r: bool)
    ensures
        r == !(skip_existing && file_exists),
{
    !(skip_existing && file_exists)
}

} // verus!
