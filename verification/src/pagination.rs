//! Reads the "Page X of Y" indicator of a listing page: the counts are the
//! fourth-from-last and second-from-last space-separated tokens of the
//! indicator element's text.
use vstd::prelude::*;

verus! {

use vstd::utf8::encode_utf8;

/// The element holding the page counts was absent, had too few tokens, or a
/// count token was not a number that fits.
#[derive(Clone, Copy, PartialEq, Eq, Structural, Debug)]
pub struct ParseError {}

/// The text split on single spaces, empty tokens kept, defined by peeling the
/// last byte: a space closes the current token, any other byte extends it.
pub open spec fn split_sp(s: Seq<u8>) -> Seq<Seq<u8>>
    decreases s.len(),
{
    if s.len() == 0 {
        seq![Seq::empty()]
    } else if s.last() == 32 {
        split_sp(s.drop_last()).push(Seq::empty())
    } else {
        let p = split_sp(s.drop_last());
        p.update(p.len() - 1, p.last().push(s.last()))
    }
}

/// A non-empty, all-decimal-digit token.
pub open spec fn is_digits(t: Seq<u8>) -> bool {
    t.len() > 0 && forall|i: int| 0 <= i < t.len() ==> 48 <= #[trigger] t[i] <= 57
}

/// The decimal value of a digit token, most significant digit first.
pub open spec fn dec_val(t: Seq<u8>) -> int
    decreases t.len(),
{
    if t.len() == 0 {
        0
    } else {
        dec_val(t.drop_last()) * 10 + (t.last() - 48)
    }
}

/// A token that reads as a page count: digits only, value in `u32` range.
pub open spec fn valid_count(t: Seq<u8>) -> bool {
    is_digits(t) && dec_val(t) <= u32::MAX
}

/// The tokens of the indicator text.
pub open spec fn page_tokens(s: Seq<char>) -> Seq<Seq<u8>> {
    split_sp(encode_utf8(s))
}

/// The text carries both counts: at least four tokens, and the two count
/// positions hold numbers.
pub open spec fn page_counts_readable(s: Seq<char>) -> bool {
    let ts = page_tokens(s);
    ts.len() >= 4 && valid_count(ts[ts.len() - 4]) && valid_count(ts[ts.len() - 2])
}

/// The current page count: fourth token from the end.
pub open spec fn current_count(s: Seq<char>) -> int {
    let ts = page_tokens(s);
    dec_val(ts[ts.len() - 4])
}

/// The total page count: second token from the end.
pub open spec fn total_count(s: Seq<char>) -> int {
    let ts = page_tokens(s);
    dec_val(ts[ts.len() - 2])
}

/// A digit prefix never exceeds the whole number it begins.
proof fn lemma_dec_val_prefix(t: Seq<u8>, i: int)
    requires
        0 <= i <= t.len(),
        dec_val(t.take(i)) >= 0,
        forall|j: int| i <= j < t.len() ==> 48 <= #[trigger] t[j] <= 57,
    ensures
        dec_val(t) >= dec_val(t.take(i)),
    decreases t.len() - i,
{
    if i == t.len() {
        assert(t.take(i) =~= t);
    } else {
        assert(t.take(i + 1).drop_last() =~= t.take(i));
        assert(dec_val(t.take(i + 1)) == dec_val(t.take(i)) * 10 + (t[i] - 48));
        lemma_dec_val_prefix(t, i + 1);
    }
}

/// Reads a page count from one token. Returns the token's value exactly when
/// the token is all digits and the value fits.
pub fn parse_count(t: &[u8]) -> (r: Option<u32>)
    ensures
        r is Some <==> valid_count(t@),
        r matches Some(v) ==> v == dec_val(t@),
{
    if t.len() == 0 {
        return None;
    }
    let mut acc: u64 = 0;
    let mut i: usize = 0;
    while i < t.len()
        invariant
            i <= t@.len(),
            forall|j: int| 0 <= j < i ==> 48 <= #[trigger] t@[j] <= 57,
            acc == dec_val(t@.take(i as int)),
            acc <= u32::MAX,
        decreases t@.len() - i,
    {
        let b = t[i];
        if b < 48 || b > 57 {
            assert(!is_digits(t@));
            return None;
        }
        proof {
            assert(t@.take(i + 1 as int).drop_last() =~= t@.take(i as int));
        }
        acc = acc * 10 + (b - 48) as u64;
        i += 1;
        if acc > u32::MAX as u64 {
            proof {
                if is_digits(t@) {
                    lemma_dec_val_prefix(t@, i as int);
                }
            }
            return None;
        }
    }
    proof {
        assert(t@.take(t@.len() as int) =~= t@);
    }
    Some(acc as u32)
}

/// The per-token views of a token list.
pub open spec fn token_views(ts: Seq<Vec<u8>>) -> Seq<Seq<u8>> {
    ts.map(|i: int, v: Vec<u8>| v@)
}

/// Reads the current and total page counts from the indicator element's text.
/// Succeeds exactly when the text carries both counts, and then returns them.
pub fn parse_current_page(text: &str) -> (r: Result<(u32, u32), ParseError>)
    ensures
        r is Ok <==> page_counts_readable(text@),
        r matches Ok(p) ==> p.0 == current_count(text@) && p.1 == total_count(text@),
{
    let bs: &[u8] = text.as_bytes();
    let mut done: Vec<Vec<u8>> = Vec::new();
    let mut cur: Vec<u8> = Vec::new();
    let mut i: usize = 0;
    while i < bs.len()
        invariant
            i <= bs@.len(),
            split_sp(bs@.take(i as int)) =~= token_views(done@).push(cur@),
        decreases bs@.len() - i,
    {
        let b = bs[i];
        proof {
            assert(bs@.take(i + 1 as int).drop_last() =~= bs@.take(i as int));
        }
        if b == 32 {
            done.push(cur);
            cur = Vec::new();
            proof {
                assert(token_views(done@) =~= token_views(done@.drop_last()).push(
                    done@.last()@,
                ));
                assert(split_sp(bs@.take(i + 1 as int)) =~= token_views(done@).push(cur@));
            }
        } else {
            let ghost cur0 = cur@;
            cur.push(b);
            proof {
                let p = token_views(done@).push(cur0);
                assert(split_sp(bs@.take(i + 1 as int)) =~= p.update(
                    p.len() - 1,
                    p.last().push(b),
                ));
                assert(p.update(p.len() - 1, p.last().push(b)) =~= token_views(done@).push(cur@));
            }
        }
        i += 1;
    }
    proof {
        assert(bs@.take(bs@.len() as int) =~= bs@);
        assert(page_tokens(text@) =~= token_views(done@).push(cur@));
    }
    // Both counted tokens lie before the final (possibly partial) token.
    if done.len() < 3 {
        return Err(ParseError {});
    }
    let ghost ts = page_tokens(text@);
    proof {
        assert(ts.len() == done@.len() + 1);
        assert(ts[ts.len() - 4] == done@[done@.len() - 3]@);
        assert(ts[ts.len() - 2] == done@[done@.len() - 1]@);
    }
    let cur_tok = parse_count(done[done.len() - 3].as_slice());
    let total_tok = parse_count(done[done.len() - 1].as_slice());
    match (cur_tok, total_tok) {
        (Some(c), Some(t)) => Ok((c, t)),
        _ => Err(ParseError {}),
    }
}

} // verus!
