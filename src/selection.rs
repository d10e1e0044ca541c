//! The list of issue numbers a user asks for, written `1, 2,3`.

use vstd::prelude::*;
use vstd::string::*;
use crate::text::{push_char, trim, trim_of};

verus! {

/// The value of a digit character.
pub open spec fn digit_value(c: char) -> nat {
    (c as nat - '0' as nat) as nat
}

pub open spec fn is_digit(c: char) -> bool {
    '0' <= c && c <= '9'
}

/// The value of a string of decimal digits.
pub open spec fn digits_value(s: Seq<char>) -> nat
    decreases s.len(),
{
    if s.len() == 0 {
        0
    } else {
        digits_value(s.drop_last()) * 10 + digit_value(s.last())
    }
}

/// The digits of a number: without one leading `+`.
pub open spec fn unsigned_digits(s: Seq<char>) -> Seq<char> {
    if s.len() > 0 && s[0] == '+' {
        s.subrange(1, s.len() as int)
    } else {
        s
    }
}

/// The number that `s` denotes as a `u32`: an optional `+` then at least one
/// decimal digit, of a value that fits.
pub open spec fn u32_of(s: Seq<char>) -> Option<u32> {
    let d = unsigned_digits(s);
    if d.len() > 0 && (forall|k: int| 0 <= k < d.len() ==> is_digit(#[trigger] d[k]))
        && digits_value(d) <= u32::MAX {
        Some(digits_value(d) as u32)
    } else {
        None
    }
}

/// Reads a `u32` written in decimal, with an optional `+`.
pub fn parse_u32(s: &str) -> (r: Option<u32>)
    ensures
        r == u32_of(s@),
{
    let n = s.unicode_len();
    let start: usize = if n > 0 && s.get_char(0) == '+' { 1 } else { 0 };
    let ghost d = unsigned_digits(s@);
    assert(d =~= s@.subrange(start as int, n as int));
    if start == n {
        return None;
    }
    let mut acc: u32 = 0;
    let mut i: usize = start;
    while i < n
        invariant
            n == s@.len(),
            start <= i <= n,
            d == s@.subrange(start as int, n as int),
            d == unsigned_digits(s@),
            forall|k: int| 0 <= k < i - start ==> is_digit(#[trigger] d[k]),
            acc as nat == digits_value(d.subrange(0, i - start)),
        decreases n - i,
    {
        let c = s.get_char(i);
        assert(d[i - start] == c);
        if !('0' <= c && c <= '9') {
            assert(!is_digit(d[i - start]));
            return None;
        }
        let v: u32 = (c as u32) - ('0' as u32);
        let ghost prev = d.subrange(0, i - start);
        assert(d.subrange(0, i + 1 - start).drop_last() =~= prev);
        if acc > (u32::MAX - v) / 10 {
            proof {
                lemma_prefix_value_le(d, (i + 1 - start) as int);
                assert(digits_value(d.subrange(0, i + 1 - start)) == acc * 10 + v) by (nonlinear_arith)
                    requires
                        digits_value(d.subrange(0, i + 1 - start)) == digits_value(prev) * 10 + digit_value(c),
                        acc as nat == digits_value(prev),
                        v as nat == digit_value(c),
                ;
                assert(acc * 10 + v > u32::MAX) by (nonlinear_arith)
                    requires
                        acc > (u32::MAX - v) / 10,
                        v <= 9,
                ;
            }
            return None;
        }
        assert(acc * 10 + v <= u32::MAX) by (nonlinear_arith)
            requires
                acc <= (u32::MAX - v) / 10,
                v <= 9,
        ;
        acc = acc * 10 + v;
        i = i + 1;
    }
    assert(d.subrange(0, n - start) =~= d);
    Some(acc)
}

proof fn lemma_prefix_value_le(d: Seq<char>, m: int)
    requires
        0 <= m <= d.len(),
    ensures
        digits_value(d.subrange(0, m)) <= digits_value(d),
    decreases d.len(),
{
    if m < d.len() {
        lemma_prefix_value_le(d.drop_last(), m);
        assert(d.drop_last().subrange(0, m) =~= d.subrange(0, m));
        let x = digits_value(d.drop_last());
        assert(x <= x * 10) by (nonlinear_arith);
    } else {
        assert(d.subrange(0, m) =~= d);
    }
}

/// The pieces of `s` between commas, in order.
pub open spec fn comma_pieces(s: Seq<char>) -> Seq<Seq<char>>
    decreases s.len(),
{
    if s.len() == 0 {
        seq![Seq::<char>::empty()]
    } else {
        let rest = comma_pieces(s.drop_last());
        if s.last() == ',' {
            rest.push(Seq::<char>::empty())
        } else {
            rest.update(rest.len() - 1, rest.last().push(s.last()))
        }
    }
}

/// What becomes of one piece: its number, where it is one once trimmed, or
/// the piece itself, refused.
pub open spec fn piece_outcome(piece: Seq<char>, r: Result<u32, String>) -> bool {
    match u32_of(trim_of(piece)) {
        Some(v) => r == Ok::<u32, String>(v),
        None => r matches Err(e) && e@ == piece,
    }
}

fn read_piece(piece: String) -> (r: Result<u32, String>)
    ensures
        piece_outcome(piece@, r),
{
    match parse_u32(trim(piece.as_str())) {
        Some(v) => Ok(v),
        None => Err(piece),
    }
}

/// Reads a comma-separated list of issue numbers. Each piece between commas
/// gives its number, read after surrounding white space is removed, or is
/// handed back as refused; the order is kept.
pub fn parse_issue_numbers(s: &str) -> (r: Vec<Result<u32, String>>)
    ensures
        r@.len() == comma_pieces(s@).len(),
        forall|k: int| 0 <= k < r@.len() ==> piece_outcome(comma_pieces(s@)[k], #[trigger] r@[k]),
{
    let n = s.unicode_len();
    let mut out: Vec<Result<u32, String>> = Vec::new();
    let mut cur = String::new();
    let mut i: usize = 0;
    assert(s@.subrange(0, 0) =~= Seq::<char>::empty());
    while i < n
        invariant
            n == s@.len(),
            i <= n,
            comma_pieces(s@.subrange(0, i as int)).len() == out@.len() + 1,
            comma_pieces(s@.subrange(0, i as int)).last() == cur@,
            forall|k: int| 0 <= k < out@.len() ==> piece_outcome(
                comma_pieces(s@.subrange(0, i as int))[k],
                #[trigger] out@[k],
            ),
        decreases n - i,
    {
        let c = s.get_char(i);
        let ghost before = comma_pieces(s@.subrange(0, i as int));
        assert(s@.subrange(0, i + 1).drop_last() =~= s@.subrange(0, i as int));
        if c == ',' {
            let piece = cur;
            out.push(read_piece(piece));
            cur = String::new();
        } else {
            push_char(&mut cur, c);
        }
        i = i + 1;
        proof {
            let after = comma_pieces(s@.subrange(0, i as int));
            assert forall|k: int| 0 <= k < out@.len() implies piece_outcome(after[k], #[trigger] out@[k]) by {
                if k < before.len() - 1 {
                    assert(after[k] == before[k]);
                }
            }
        }
    }
    out.push(read_piece(cur));
    proof {
        assert(s@.subrange(0, n as int) =~= s@);
    }
    out
}

} // verus!
