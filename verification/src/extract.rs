//! Field extraction for a detail page. The HTML engine outside this library
//! selects the elements; their text arrives here, one optional string per
//! selector, and becomes a `(Company, Job)` record. A selector that matched
//! nothing yields `None` and the record keeps an empty field — a missing
//! element is never an error.
//!
//! The salary text is read as follows: commas are dropped, then the first
//! run of digits is the amount; the text names an hourly wage when the
//! letters `hour` appear in it, and then the amount is taken as whole units
//! and held in cents. Text without digits, or with an amount too large to
//! hold, reads as an unspecified salary.
use vstd::prelude::*;

verus! {

use vstd::utf8::encode_utf8;
use crate::pagination::dec_val;
use crate::records::{Company, Job, Salary};

/// A decimal digit byte.
pub open spec fn is_digit(b: u8) -> bool {
    48 <= b && b <= 57
}

/// The text with every comma removed.
pub open spec fn strip_commas(s: Seq<u8>) -> Seq<u8>
    decreases s.len(),
{
    if s.len() == 0 {
        Seq::empty()
    } else if s.last() == 44 {
        strip_commas(s.drop_last())
    } else {
        strip_commas(s.drop_last()).push(s.last())
    }
}

/// The length of the leading digit run.
pub open spec fn lead_len(t: Seq<u8>) -> nat
    decreases t.len(),
{
    if t.len() > 0 && is_digit(t[0]) {
        1 + lead_len(t.drop_first())
    } else {
        0
    }
}

/// The first number in the text: the value of the first digit run.
pub open spec fn first_num(t: Seq<u8>) -> Option<int>
    decreases t.len(),
{
    if t.len() == 0 {
        None
    } else if is_digit(t[0]) {
        Some(dec_val(t.take(lead_len(t) as int)))
    } else {
        first_num(t.drop_first())
    }
}

/// The letters `hour` appear somewhere in the text.
pub open spec fn mentions_hour(s: Seq<u8>) -> bool {
    exists|i: int|
        0 <= i && i + 4 <= s.len() && (#[trigger] s[i]) == 104 && s[i + 1] == 111 && s[i + 2]
            == 117 && s[i + 3] == 114
}

/// What a salary text means.
pub open spec fn salary_of(text: Seq<char>) -> Salary {
    let b = strip_commas(encode_utf8(text));
    match first_num(b) {
        Option::None => Salary::Unspecified,
        Option::Some(v) => {
            if mentions_hour(b) {
                if v * 100 <= u32::MAX {
                    Salary::HourlyFixed((v * 100) as u32)
                } else {
                    Salary::Unspecified
                }
            } else {
                if v <= u32::MAX {
                    Salary::AnnualFixed(v as u32)
                } else {
                    Salary::Unspecified
                }
            }
        },
    }
}

/// The whole leading digit run is digits, and it ends at the first
/// non-digit.
proof fn lemma_lead_len_eq(t: Seq<u8>, m: int)
    requires
        0 <= m <= t.len(),
        forall|k: int| 0 <= k < m ==> is_digit(#[trigger] t[k]),
        m == t.len() || !is_digit(t[m]),
    ensures
        lead_len(t) == m,
    decreases m,
{
    if m == 0 {
    } else {
        assert(is_digit(t[0]));
        let u = t.drop_first();
        assert(forall|k: int| 0 <= k < m - 1 ==> #[trigger] u[k] == t[k + 1]);
        lemma_lead_len_eq(u, m - 1);
    }
}

/// A digit prefix of the leading run never exceeds the run's whole value.
proof fn lemma_run_prefix_le(t: Seq<u8>, m: int, l: int)
    requires
        0 <= m <= l <= t.len(),
        forall|k: int| 0 <= k < l ==> is_digit(#[trigger] t[k]),
    ensures
        dec_val(t.take(m)) <= dec_val(t.take(l)),
    decreases l - m,
{
    if m < l {
        assert(t.take(m + 1).drop_last() =~= t.take(m));
        assert(dec_val(t.take(m)) >= 0) by {
            lemma_dec_val_nonneg(t, m);
        }
        assert(dec_val(t.take(m + 1)) == dec_val(t.take(m)) * 10 + (t[m] - 48));
        lemma_run_prefix_le(t, m + 1, l);
    }
}

/// The value of an all-digit prefix is not negative.
proof fn lemma_dec_val_nonneg(t: Seq<u8>, m: int)
    requires
        0 <= m <= t.len(),
        forall|k: int| 0 <= k < m ==> is_digit(#[trigger] t[k]),
    ensures
        dec_val(t.take(m)) >= 0,
    decreases m,
{
    if m > 0 {
        assert(t.take(m).drop_last() =~= t.take(m - 1));
        lemma_dec_val_nonneg(t, m - 1);
    }
}

/// Removes every comma byte.
fn strip_commas_ex(s: &[u8]) -> (r: Vec<u8>)
    ensures
        r@ == strip_commas(s@),
{
    let mut out: Vec<u8> = Vec::new();
    let mut i: usize = 0;
    while i < s.len()
        invariant
            i <= s@.len(),
            out@ == strip_commas(s@.take(i as int)),
        decreases s@.len() - i,
    {
        proof {
            assert(s@.take(i + 1 as int).drop_last() =~= s@.take(i as int));
        }
        if s[i] != 44 {
            out.push(s[i]);
        }
        i += 1;
    }
    proof {
        assert(s@.take(s@.len() as int) =~= s@);
    }
    out
}

/// Whether the letters `hour` appear in the text.
fn mentions_hour_ex(s: &[u8]) -> (r: bool)
    ensures
        r == mentions_hour(s@),
{
    if s.len() < 4 {
        return false;
    }
    let mut i: usize = 0;
    while i <= s.len() - 4
        invariant
            s@.len() >= 4,
            i <= s@.len() - 3,
            forall|x: int|
                0 <= x < i ==> !((#[trigger] s@[x]) == 104 && s@[x + 1] == 111 && s@[x + 2] == 117
                    && s@[x + 3] == 114),
        decreases s@.len() - i,
    {
        if s[i] == 104 && s[i + 1] == 111 && s[i + 2] == 117 && s[i + 3] == 114 {
            return true;
        }
        i += 1;
    }
    false
}

/// The first number of the text, unless it does not fit `u32`.
/// `None` means: no digit at all, or a first number past `u32::MAX`; the
/// two cases are told apart by `found`.
fn first_num_ex(t: &[u8]) -> (r: (bool, Option<u32>))
    ensures
        r.0 == (first_num(t@) is Some),
        r.1 is Some <==> (first_num(t@) matches Some(v) && v <= u32::MAX),
        r.1 matches Some(v) ==> first_num(t@) == Some(v as int),
{
    let mut i: usize = 0;
    proof {
        assert(t@.skip(0) =~= t@);
    }
    while i < t.len() && !(48 <= t[i] && t[i] <= 57)
        invariant
            i <= t@.len(),
            first_num(t@) == first_num(t@.skip(i as int)),
        decreases t@.len() - i,
    {
        proof {
            assert(t@.skip(i as int).drop_first() =~= t@.skip(i + 1 as int));
            assert(t@.skip(i as int)[0] == t@[i as int]);
        }
        i += 1;
    }
    proof {
        assert(t@.skip(i as int).len() == t@.len() - i);
    }
    if i == t.len() {
        proof {
            assert(first_num(t@.skip(i as int)) is None);
        }
        return (false, None);
    }
    let ghost u = t@.skip(i as int);
    proof {
        assert(is_digit(u[0]));
        assert(first_num(t@) == Some(dec_val(u.take(lead_len(u) as int))));
    }
    let start = i;
    let mut acc: u64 = 0;
    let mut j: usize = i;
    while j < t.len() && 48 <= t[j] && t[j] <= 57
        invariant
            start <= j <= t@.len(),
            start < t@.len(),
            u == t@.skip(start as int),
            forall|k: int| 0 <= k < j - start ==> is_digit(#[trigger] u[k]),
            acc == dec_val(u.take(j - start)),
            acc <= u32::MAX,
            first_num(t@) == Some(dec_val(u.take(lead_len(u) as int))),
        decreases t@.len() - j,
    {
        let b = t[j];
        proof {
            assert(u[j - start] == t@[j as int]);
            assert(u.take(j - start + 1).drop_last() =~= u.take(j - start));
        }
        let d: u64 = (b - 48) as u64;
        let next: u64 = acc * 10 + d;
        j += 1;
        if next > u32::MAX as u64 {
            proof {
                let m = j - start;
                assert(dec_val(u.take(m as int)) > u32::MAX);
                assert(forall|k: int| 0 <= k < m ==> is_digit(#[trigger] u[k]));
                lemma_lead_ge(u, m as int);
                lemma_lead_digits(u);
                lemma_run_prefix_le(u, m as int, lead_len(u) as int);
            }
            return (true, None);
        }
        acc = next;
    }
    proof {
        let m = j - start;
        assert(m == u.len() || !is_digit(u[m as int]));
        lemma_lead_len_eq(u, m as int);
    }
    (true, Some(acc as u32))
}

/// The first `m` bytes being digits, the leading run is at least `m` long.
proof fn lemma_lead_ge(t: Seq<u8>, m: int)
    requires
        0 <= m <= t.len(),
        forall|k: int| 0 <= k < m ==> is_digit(#[trigger] t[k]),
    ensures
        lead_len(t) >= m,
    decreases m,
{
    if m > 0 {
        let u = t.drop_first();
        assert(forall|k: int| 0 <= k < m - 1 ==> #[trigger] u[k] == t[k + 1]);
        lemma_lead_ge(u, m - 1);
    }
}

/// The leading run lies inside the text.
proof fn lemma_lead_le(t: Seq<u8>)
    ensures
        lead_len(t) <= t.len(),
    decreases t.len(),
{
    if t.len() > 0 && is_digit(t[0]) {
        lemma_lead_le(t.drop_first());
    }
}

/// Every byte of the leading run is a digit.
proof fn lemma_lead_digits(t: Seq<u8>)
    ensures
        lead_len(t) <= t.len(),
        forall|k: int| 0 <= k < lead_len(t) ==> is_digit(#[trigger] t[k]),
    decreases t.len(),
{
    lemma_lead_le(t);
    if t.len() > 0 && is_digit(t[0]) {
        let u = t.drop_first();
        lemma_lead_digits(u);
        assert(forall|k: int| 1 <= k < lead_len(t) ==> #[trigger] t[k] == u[k - 1]);
    }
}

/// Reads a salary text. Returns exactly what the text means.
pub fn parse_salary(text: &str) -> (r: Salary)
    ensures
        r == salary_of(text@),
{
    let stripped = strip_commas_ex(text.as_bytes());
    let hourly = mentions_hour_ex(stripped.as_slice());
    let (found, num) = first_num_ex(stripped.as_slice());
    if !found {
        return Salary::Unspecified;
    }
    match num {
        Some(v) => {
            if hourly {
                if v <= u32::MAX / 100 {
                    Salary::HourlyFixed(v * 100)
                } else {
                    Salary::Unspecified
                }
            } else {
                Salary::AnnualFixed(v)
            }
        },
        None => Salary::Unspecified,
    }
}

/// What the HTML engine found on one detail page: the text of each selector,
/// `None` where the selector matched nothing.
pub struct DetailFields {
    pub job_title: Option<String>,
    pub company_name: Option<String>,
    pub location: Option<String>,
    pub salary_text: Option<String>,
    pub homepage: Option<String>,
    /// The company's rating, in hundredths of a star.
    pub rating: Option<u32>,
}

/// The field's text, or empty where its selector matched nothing.
pub open spec fn field_or_empty(f: Option<String>) -> Seq<char> {
    match f {
        Option::Some(s) => s@,
        Option::None => Seq::empty(),
    }
}

fn take_or_empty(f: Option<String>) -> (r: String)
    ensures
        r@ == field_or_empty(f),
{
    match f {
        Some(s) => s,
        None => String::new(),
    }
}

fn clone_or_empty(f: &Option<String>) -> (r: String)
    ensures
        r@ == field_or_empty(*f),
{
    match f {
        Some(s) => s.clone(),
        None => String::new(),
    }
}

/// Builds the `(Company, Job)` record of one detail page. Every field is
/// the selector's text (empty where missing); the salary is read from the
/// salary text, and a missing salary element yields no annual salary and an
/// unspecified salary — never a failure.
pub fn extract_fields(fields: DetailFields, url: String, date_posted: i64) -> (r: (Company, Job))
    ensures
        r.0.name@ == field_or_empty(fields.company_name),
        r.0.location@ == field_or_empty(fields.location),
        r.0.homepage@ == field_or_empty(fields.homepage),
        r.0.rating == (match fields.rating {
            Option::Some(v) => v,
            Option::None => 0u32,
        }),
        r.1.job_title@ == field_or_empty(fields.job_title),
        r.1.location@ == field_or_empty(fields.location),
        r.1.url == url,
        r.1.date_posted == date_posted,
        r.1.salary == (match fields.salary_text {
            Option::Some(t) => salary_of(t@),
            Option::None => Salary::Unspecified,
        }),
        r.1.annual_salary == (match r.1.salary {
            Salary::AnnualFixed(v) => Some(v),
            _ => None::<u32>,
        }),
        fields.salary_text is None ==> r.1.annual_salary is None && r.1.salary
            == Salary::Unspecified,
{
    let location_c = clone_or_empty(&fields.location);
    let location_j = take_or_empty(fields.location);
    let salary = match &fields.salary_text {
        Some(t) => parse_salary(t.as_str()),
        None => Salary::Unspecified,
    };
    let annual_salary = match salary {
        Salary::AnnualFixed(v) => Some(v),
        _ => None,
    };
    let company = Company {
        name: take_or_empty(fields.company_name),
        location: location_c,
        homepage: take_or_empty(fields.homepage),
        rating: match fields.rating {
            Some(r) => r,
            None => 0,
        },
    };
    let job = Job {
        job_title: take_or_empty(fields.job_title),
        location: location_j,
        annual_salary,
        salary,
        date_posted,
        url,
    };
    (company, job)
}

} // verus!
