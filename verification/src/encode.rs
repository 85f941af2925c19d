//! Byte-level query-string encoding: the standard form encoding used for URL
//! query parameters (unreserved bytes kept, space as `+`, anything else as
//! `%XX` with upper-case hex), plus decimal rendering of integers and
//! space-joining of word lists.
use vstd::prelude::*;

verus! {

use vstd::utf8::encode_utf8;

/// Bytes that the form encoding passes through unchanged: ASCII alphanumerics
/// and `*`, `-`, `.`, `_`.
pub open spec fn is_unreserved(b: u8) -> bool {
    (65 <= b && b <= 90)  // 'A'..='Z'
    || (97 <= b && b <= 122)  // 'a'..='z'
    || (48 <= b && b <= 57)  // '0'..='9'
    || b == 42  // '*'
    || b == 45  // '-'
    || b == 46  // '.'
    || b == 95  // '_'
}

/// Upper-case hex digit for a nibble.
pub open spec fn hex_digit(n: u8) -> u8
    recommends
        n < 16,
{
    if n < 10 {
        (48 + n) as u8  // '0' + n
    } else {
        (55 + n) as u8  // 'A' + (n - 10)
    }
}

/// The form encoding of a single byte.
pub open spec fn enc_byte(b: u8) -> Seq<u8> {
    if is_unreserved(b) {
        seq![b]
    } else if b == 32 {
        seq![43u8]  // space -> '+'
    } else {
        seq![37u8, hex_digit(b / 16), hex_digit(b % 16)]  // '%' XX
    }
}

/// The form encoding of a byte sequence, defined by peeling the last byte.
pub open spec fn enc_bytes(s: Seq<u8>) -> Seq<u8>
    decreases s.len(),
{
    if s.len() == 0 {
        Seq::empty()
    } else {
        enc_bytes(s.drop_last()) + enc_byte(s.last())
    }
}

/// Decimal digits of `n`, most significant first.
pub open spec fn dec_rep(n: nat) -> Seq<u8>
    decreases n,
{
    if n < 10 {
        seq![(48 + n) as u8]
    } else {
        dec_rep(n / 10) + seq![(48 + n % 10) as u8]
    }
}

/// The words joined with a single space between neighbours.
pub open spec fn join_bytes(items: Seq<Seq<u8>>) -> Seq<u8>
    decreases items.len(),
{
    if items.len() == 0 {
        Seq::empty()
    } else if items.len() == 1 {
        items[0]
    } else {
        join_bytes(items.drop_last()) + seq![32u8] + items.last()
    }
}

/// The UTF-8 bytes of each word of a list.
pub open spec fn words_bytes(ws: Seq<String>) -> Seq<Seq<u8>> {
    ws.map(|i: int, w: String| encode_utf8(w@))
}

/// All bytes are ASCII.
pub open spec fn all_ascii(s: Seq<u8>) -> bool {
    forall|i: int| 0 <= i < s.len() ==> s[i] < 128
}

pub proof fn lemma_enc_bytes_snoc(s: Seq<u8>, i: int)
    requires
        0 <= i < s.len(),
    ensures
        enc_bytes(s.take(i + 1)) == enc_bytes(s.take(i)) + enc_byte(s[i]),
{
    assert(s.take(i + 1).drop_last() =~= s.take(i));
    assert(s.take(i + 1).last() == s[i]);
}

/// The encoding of any byte sequence is ASCII.
pub proof fn lemma_enc_bytes_ascii(s: Seq<u8>)
    ensures
        all_ascii(enc_bytes(s)),
    decreases s.len(),
{
    if s.len() > 0 {
        lemma_enc_bytes_ascii(s.drop_last());
    }
}

fn hex_digit_ex(n: u8) -> (r: u8)
    requires
        n < 16,
    ensures
        r == hex_digit(n),
{
    if n < 10 {
        48 + n
    } else {
        55 + n
    }
}

fn is_unreserved_ex(b: u8) -> (r: bool)
    ensures
        r == is_unreserved(b),
{
    (65 <= b && b <= 90) || (97 <= b && b <= 122) || (48 <= b && b <= 57) || b == 42 || b == 45
        || b == 46 || b == 95
}

/// Appends the form encoding of `s` to `out`.
pub fn encode_append(out: &mut Vec<u8>, s: &[u8])
    ensures
        final(out)@ == old(out)@ + enc_bytes(s@),
{
    let ghost base = out@;
    let mut i: usize = 0;
    while i < s.len()
        invariant
            i <= s@.len(),
            out@ == base + enc_bytes(s@.take(i as int)),
        decreases s@.len() - i,
    {
        let b = s[i];
        proof {
            lemma_enc_bytes_snoc(s@, i as int);
        }
        if is_unreserved_ex(b) {
            out.push(b);
        } else if b == 32 {
            out.push(43);
        } else {
            out.push(37);
            out.push(hex_digit_ex(b / 16));
            out.push(hex_digit_ex(b % 16));
        }
        proof {
            assert(out@ =~= base + enc_bytes(s@.take(i + 1 as int)));
        }
        i += 1;
    }
    proof {
        assert(s@.take(s@.len() as int) =~= s@);
    }
}

/// Appends the decimal rendering of `n` to `out`.
pub fn push_decimal(out: &mut Vec<u8>, n: u32)
    ensures
        final(out)@ == old(out)@ + dec_rep(n as nat),
    decreases n,
{
    if n < 10 {
        out.push(48 + n as u8);
        proof {
            assert(out@ =~= old(out)@ + dec_rep(n as nat));
        }
    } else {
        push_decimal(out, n / 10);
        out.push(48 + (n % 10) as u8);
        proof {
            assert(out@ =~= old(out)@ + dec_rep(n as nat));
        }
    }
}

/// The decimal rendering of `n`, as bytes.
pub fn decimal_bytes(n: u32) -> (r: Vec<u8>)
    ensures
        r@ == dec_rep(n as nat),
{
    let mut out: Vec<u8> = Vec::new();
    push_decimal(&mut out, n);
    proof {
        assert(out@ =~= dec_rep(n as nat));
    }
    out
}

/// Joins the words of `ws` with single spaces, as UTF-8 bytes.
pub fn join_words(ws: &Vec<String>) -> (r: Vec<u8>)
    ensures
        r@ == join_bytes(words_bytes(ws@)),
{
    let mut out: Vec<u8> = Vec::new();
    let mut i: usize = 0;
    while i < ws.len()
        invariant
            i <= ws@.len(),
            out@ == join_bytes(words_bytes(ws@).take(i as int)),
        decreases ws@.len() - i,
    {
        if i > 0 {
            out.push(32);
        }
        let w: &String = &ws[i];
        let bs: &[u8] = w.as_str().as_bytes();
        let mut j: usize = 0;
        let ghost mid = out@;
        while j < bs.len()
            invariant
                j <= bs@.len(),
                out@ == mid + bs@.take(j as int),
            decreases bs@.len() - j,
        {
            out.push(bs[j]);
            proof {
                assert(out@ =~= mid + bs@.take(j + 1 as int));
            }
            j += 1;
        }
        proof {
            assert(bs@.take(bs@.len() as int) =~= bs@);
            let full = words_bytes(ws@);
            assert(full.take(i + 1 as int).drop_last() =~= full.take(i as int));
            assert(full.take(i + 1 as int).last() == encode_utf8(ws@[i as int]@));
            if i > 0 {
                assert(full.take(i + 1 as int).len() > 1);
                assert(out@ =~= join_bytes(full.take(i + 1 as int)));
            } else {
                assert(out@ =~= join_bytes(full.take(i + 1 as int)));
            }
        }
        i += 1;
    }
    proof {
        assert(words_bytes(ws@).take(ws@.len() as int) =~= words_bytes(ws@));
    }
    out
}

} // verus!
