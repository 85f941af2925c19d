//! The search query value object and its rendering into the site's search URL.
//!
//! A query never mutates: advancing to the next result page produces a new
//! query whose `start` offset has grown by `limit`.
use vstd::prelude::*;

verus! {

use vstd::utf8::encode_utf8;
use crate::encode::{
    enc_bytes,
    dec_rep,
    join_bytes,
    words_bytes,
    all_ascii,
    encode_append,
    decimal_bytes,
    join_words,
    lemma_enc_bytes_ascii,
};

/// Ordering of search results.
#[allow(non_camel_case_types)]
#[derive(Clone, Copy, PartialEq, Eq, Structural, Debug)]
pub enum Sort {
    relevance,
    date,
}

/// Which posters' jobs to show.
#[allow(non_camel_case_types)]
#[derive(Clone, Copy, PartialEq, Eq, Structural, Debug)]
pub enum ShowJobsFrom {
    all,
    jobsite,
    employer,
}

/// Employment type filter.
#[allow(non_camel_case_types)]
#[derive(Clone, Copy, PartialEq, Eq, Structural, Debug)]
pub enum JobType {
    fulltime,
    contract,
    parttime,
    temporary,
    internship,
    commission,
}

/// Seniority filter.
#[allow(non_camel_case_types)]
#[derive(Clone, Copy, PartialEq, Eq, Structural, Debug)]
pub enum Level {
    entry_level,
    mid_level,
    senior_level,
}

impl Sort {
    /// The query-string token of this variant.
    pub open spec fn token(self) -> Seq<char> {
        match self {
            Sort::relevance => "relevance"@,
            Sort::date => "date"@,
        }
    }

    /// Explicit, exhaustive token table.
    pub fn as_str(self) -> (r: &'static str)
        ensures
            r@ == self.token(),
    {
        match self {
            Sort::relevance => "relevance",
            Sort::date => "date",
        }
    }
}

impl ShowJobsFrom {
    /// The query-string token of this variant.
    pub open spec fn token(self) -> Seq<char> {
        match self {
            ShowJobsFrom::all => "all"@,
            ShowJobsFrom::jobsite => "jobsite"@,
            ShowJobsFrom::employer => "employer"@,
        }
    }

    /// Explicit, exhaustive token table.
    pub fn as_str(self) -> (r: &'static str)
        ensures
            r@ == self.token(),
    {
        match self {
            ShowJobsFrom::all => "all",
            ShowJobsFrom::jobsite => "jobsite",
            ShowJobsFrom::employer => "employer",
        }
    }
}

impl JobType {
    /// The query-string token of this variant.
    pub open spec fn token(self) -> Seq<char> {
        match self {
            JobType::fulltime => "fulltime"@,
            JobType::contract => "contract"@,
            JobType::parttime => "parttime"@,
            JobType::temporary => "temporary"@,
            JobType::internship => "internship"@,
            JobType::commission => "commission"@,
        }
    }

    /// Explicit, exhaustive token table.
    pub fn as_str(self) -> (r: &'static str)
        ensures
            r@ == self.token(),
    {
        match self {
            JobType::fulltime => "fulltime",
            JobType::contract => "contract",
            JobType::parttime => "parttime",
            JobType::temporary => "temporary",
            JobType::internship => "internship",
            JobType::commission => "commission",
        }
    }
}

impl Level {
    /// The query-string token of this variant.
    pub open spec fn token(self) -> Seq<char> {
        match self {
            Level::entry_level => "entry_level"@,
            Level::mid_level => "mid_level"@,
            Level::senior_level => "senior_level"@,
        }
    }

    /// Explicit, exhaustive token table.
    pub fn as_str(self) -> (r: &'static str)
        ensures
            r@ == self.token(),
    {
        match self {
            Level::entry_level => "entry_level",
            Level::mid_level => "mid_level",
            Level::senior_level => "senior_level",
        }
    }
}

/// The only way building a URL can fail: the pagination offset for the
/// requested page does not fit the offset field. The URL text itself is
/// always well formed.
#[derive(Clone, Copy, PartialEq, Eq, Structural, Debug)]
pub struct EncodeError {}

/// An immutable description of one search against the job site.
pub struct IndeedQuery {
    pub radius: u32,
    pub city: String,
    pub level: Level,
    pub max_age: u32,
    pub sort: Sort,
    pub job_type: JobType,
    pub min_salary: u32,
    pub contains_all_words: Vec<String>,
    pub has_exact_phrase: String,
    pub has_any_words: Vec<String>,
    pub excludes_all_words: Vec<String>,
    pub has_words_in_title: Vec<String>,
    pub company: String,
    pub exclude_staffing_agencies: bool,
    pub show_jobs_from: ShowJobsFrom,
    pub limit: u32,
    pub start: u32,
}

/// The UTF-8 bytes of a string slice, for contracts over literal text.
pub open spec fn text_bytes(s: &str) -> Seq<u8> {
    encode_utf8(s@)
}

/// One `key=value` query pair: both sides form-encoded, joined by `=`.
pub open spec fn pair_bytes(k: &str, v: Seq<u8>) -> Seq<u8> {
    enc_bytes(text_bytes(k)) + seq![61u8] + enc_bytes(v)
}

impl IndeedQuery {
    /// The `sr` parameter value: `directhire` excludes staffing agencies.
    pub open spec fn sr_bytes(self) -> Seq<u8> {
        if self.exclude_staffing_agencies {
            text_bytes("directhire")
        } else {
            Seq::empty()
        }
    }

    /// The exact byte text of the search URL this query renders to: the fixed
    /// host and path, then every query parameter in its fixed order.
    pub open spec fn url_bytes(self) -> Seq<u8> {
        text_bytes("https://www.indeed.com/jobs?") + pair_bytes(
            "as_and",
            join_bytes(words_bytes(self.contains_all_words@)),
        ) + seq![38u8] + pair_bytes("as_phr", encode_utf8(self.has_exact_phrase@)) + seq![38u8]
            + pair_bytes("as_any", join_bytes(words_bytes(self.has_any_words@))) + seq![38u8]
            + pair_bytes("as_not", join_bytes(words_bytes(self.excludes_all_words@))) + seq![38u8]
            + pair_bytes("as_ttl", join_bytes(words_bytes(self.has_words_in_title@))) + seq![38u8]
            + pair_bytes("as_cmp", encode_utf8(self.company@)) + seq![38u8] + pair_bytes(
            "jt",
            encode_utf8(self.job_type.token()),
        ) + seq![38u8] + pair_bytes("st", encode_utf8(self.show_jobs_from.token())) + seq![38u8]
            + pair_bytes("sr", self.sr_bytes()) + seq![38u8] + pair_bytes(
            "salary",
            dec_rep(self.min_salary as nat),
        ) + seq![38u8] + pair_bytes("radius", dec_rep(self.radius as nat)) + seq![38u8]
            + pair_bytes("l", encode_utf8(self.city@)) + seq![38u8] + pair_bytes(
            "fromage",
            dec_rep(self.max_age as nat),
        ) + seq![38u8] + pair_bytes("limit", dec_rep(self.limit as nat)) + seq![38u8] + pair_bytes(
            "sort",
            encode_utf8(self.sort.token()),
        ) + seq![38u8] + pair_bytes("psf", text_bytes("advsrch")) + seq![38u8] + pair_bytes(
            "from",
            text_bytes("advancedsearch"),
        )
    }

    /// The characters of the search URL: its bytes are all ASCII, read one
    /// character per byte.
    pub open spec fn url_chars(self) -> Seq<char> {
        self.url_bytes().map(|i: int, b: u8| b as char)
    }

    /// A query with the site's default filters for the given city and level.
    pub fn with_defaults(city: String, level: Level) -> (r: IndeedQuery)
        ensures
            r.radius == 0,
            r.city == city,
            r.level == level,
            r.max_age == 14,
            r.sort == Sort::relevance,
            r.job_type == JobType::fulltime,
            r.min_salary == 0,
            r.contains_all_words@ == Seq::<String>::empty(),
            r.has_exact_phrase@ == Seq::<char>::empty(),
            r.has_any_words@ == Seq::<String>::empty(),
            r.excludes_all_words@ == Seq::<String>::empty(),
            r.has_words_in_title@ == Seq::<String>::empty(),
            r.company@ == Seq::<char>::empty(),
            r.exclude_staffing_agencies,
            r.show_jobs_from == ShowJobsFrom::all,
            r.limit == 50,
            r.start == 0,
    {
        IndeedQuery {
            radius: 0,
            city,
            level,
            max_age: 14,
            sort: Sort::relevance,
            job_type: JobType::fulltime,
            min_salary: 0,
            contains_all_words: Vec::new(),
            has_exact_phrase: String::new(),
            has_any_words: Vec::new(),
            excludes_all_words: Vec::new(),
            has_words_in_title: Vec::new(),
            company: String::new(),
            exclude_staffing_agencies: true,
            show_jobs_from: ShowJobsFrom::all,
            limit: 50,
            start: 0,
        }
    }

    /// The successor query in spec form: every field kept, the offset grown
    /// by one page.
    pub open spec fn advanced(self) -> IndeedQuery {
        IndeedQuery { start: (self.start + self.limit) as u32, ..self }
    }

    /// The next page's query: the same search, offset advanced by one page.
    /// The receiver is shared and never changes.
    pub fn increment_page(&self) -> (r: IndeedQuery)
        requires
            self.start + self.limit <= u32::MAX,
        ensures
            r.start == self.start + self.limit,
            r.radius == self.radius,
            r.city == self.city,
            r.level == self.level,
            r.max_age == self.max_age,
            r.sort == self.sort,
            r.job_type == self.job_type,
            r.min_salary == self.min_salary,
            r.contains_all_words@ == self.contains_all_words@,
            r.has_exact_phrase == self.has_exact_phrase,
            r.has_any_words@ == self.has_any_words@,
            r.excludes_all_words@ == self.excludes_all_words@,
            r.has_words_in_title@ == self.has_words_in_title@,
            r.company == self.company,
            r.exclude_staffing_agencies == self.exclude_staffing_agencies,
            r.show_jobs_from == self.show_jobs_from,
            r.limit == self.limit,
    {
        let mut r = self.clone_query();
        r.start = self.start + self.limit;
        r
    }

    /// A field-for-field copy.
    pub fn clone_query(&self) -> (r: IndeedQuery)
        ensures
            r.radius == self.radius,
            r.city == self.city,
            r.level == self.level,
            r.max_age == self.max_age,
            r.sort == self.sort,
            r.job_type == self.job_type,
            r.min_salary == self.min_salary,
            r.contains_all_words@ == self.contains_all_words@,
            r.has_exact_phrase == self.has_exact_phrase,
            r.has_any_words@ == self.has_any_words@,
            r.excludes_all_words@ == self.excludes_all_words@,
            r.has_words_in_title@ == self.has_words_in_title@,
            r.company == self.company,
            r.exclude_staffing_agencies == self.exclude_staffing_agencies,
            r.show_jobs_from == self.show_jobs_from,
            r.limit == self.limit,
            r.start == self.start,
    {
        IndeedQuery {
            radius: self.radius,
            city: clone_string(&self.city),
            level: self.level,
            max_age: self.max_age,
            sort: self.sort,
            job_type: self.job_type,
            min_salary: self.min_salary,
            contains_all_words: clone_words(&self.contains_all_words),
            has_exact_phrase: clone_string(&self.has_exact_phrase),
            has_any_words: clone_words(&self.has_any_words),
            excludes_all_words: clone_words(&self.excludes_all_words),
            has_words_in_title: clone_words(&self.has_words_in_title),
            company: clone_string(&self.company),
            exclude_staffing_agencies: self.exclude_staffing_agencies,
            show_jobs_from: self.show_jobs_from,
            limit: self.limit,
            start: self.start,
        }
    }

    /// Renders the full search URL. Always succeeds and returns exactly the
    /// URL text that `url_chars` describes.
    #[verifier::rlimit(100)]
    pub fn build_url(&self) -> (r: Result<String, EncodeError>)
        ensures
            r is Ok,
            r matches Ok(u) ==> u@ == self.url_chars(),
    {
        let mut out: Vec<u8> = Vec::new();
        push_text(&mut out, "https://www.indeed.com/jobs?");
        let v_as_and = join_words(&self.contains_all_words);
        push_pair(&mut out, "as_and", v_as_and.as_slice());
        out.push(38);
        push_pair(&mut out, "as_phr", self.has_exact_phrase.as_str().as_bytes());
        out.push(38);
        let v_as_any = join_words(&self.has_any_words);
        push_pair(&mut out, "as_any", v_as_any.as_slice());
        out.push(38);
        let v_as_not = join_words(&self.excludes_all_words);
        push_pair(&mut out, "as_not", v_as_not.as_slice());
        out.push(38);
        let v_as_ttl = join_words(&self.has_words_in_title);
        push_pair(&mut out, "as_ttl", v_as_ttl.as_slice());
        out.push(38);
        push_pair(&mut out, "as_cmp", self.company.as_str().as_bytes());
        out.push(38);
        push_pair(&mut out, "jt", self.job_type.as_str().as_bytes());
        out.push(38);
        push_pair(&mut out, "st", self.show_jobs_from.as_str().as_bytes());
        out.push(38);
        let sr: &str = if self.exclude_staffing_agencies {
            "directhire"
        } else {
            ""
        };
        proof {
            reveal_strlit("");
            assert(text_bytes("") =~= Seq::<u8>::empty());
            assert(sr@ == "directhire"@ || sr@ == ""@);
        }
        push_pair(&mut out, "sr", sr.as_bytes());
        out.push(38);
        let v_salary = decimal_bytes(self.min_salary);
        push_pair(&mut out, "salary", v_salary.as_slice());
        out.push(38);
        let v_radius = decimal_bytes(self.radius);
        push_pair(&mut out, "radius", v_radius.as_slice());
        out.push(38);
        push_pair(&mut out, "l", self.city.as_str().as_bytes());
        out.push(38);
        let v_fromage = decimal_bytes(self.max_age);
        push_pair(&mut out, "fromage", v_fromage.as_slice());
        out.push(38);
        let v_limit = decimal_bytes(self.limit);
        push_pair(&mut out, "limit", v_limit.as_slice());
        out.push(38);
        push_pair(&mut out, "sort", self.sort.as_str().as_bytes());
        out.push(38);
        push_pair(&mut out, "psf", "advsrch".as_bytes());
        out.push(38);
        push_pair(&mut out, "from", "advancedsearch".as_bytes());
        proof {
            assert(out@ =~= self.url_bytes());
            lemma_url_bytes_ascii(*self);
        }
        let s = ascii_to_string(out);
        Ok(s)
    }
}

/// Law: advancing a query to its next page moves the offset forward by
/// exactly one page's `limit` and renders the very same search URL — the
/// offset is carried by the crawl loop, not by the URL text.
pub proof fn lemma_advance_keeps_url(q: IndeedQuery)
    requires
        q.start + q.limit <= u32::MAX,
    ensures
        q.advanced().start == q.start + q.limit,
        q.advanced().url_bytes() == q.url_bytes(),
        q.advanced().limit == q.limit,
{
}

/// ASCII text stays ASCII under concatenation.
pub proof fn lemma_all_ascii_concat(a: Seq<u8>, b: Seq<u8>)
    requires
        all_ascii(a),
        all_ascii(b),
    ensures
        all_ascii(a + b),
{
}

/// An encoded `key=value` pair is ASCII text.
pub proof fn lemma_pair_bytes_ascii(k: &str, v: Seq<u8>)
    ensures
        all_ascii(pair_bytes(k, v)),
{
    lemma_enc_bytes_ascii(text_bytes(k));
    lemma_enc_bytes_ascii(v);
    assert(all_ascii(seq![61u8]));
    lemma_all_ascii_concat(enc_bytes(text_bytes(k)), seq![61u8]);
    lemma_all_ascii_concat(enc_bytes(text_bytes(k)) + seq![61u8], enc_bytes(v));
}

/// Appending one encoded pair and a `&` separator keeps the text ASCII.
proof fn lemma_ascii_step(prefix: Seq<u8>, k: &str, v: Seq<u8>)
    requires
        all_ascii(prefix),
    ensures
        all_ascii(prefix + pair_bytes(k, v) + seq![38u8]),
{
    lemma_pair_bytes_ascii(k, v);
    lemma_all_ascii_concat(prefix, pair_bytes(k, v));
    assert(all_ascii(seq![38u8]));
    lemma_all_ascii_concat(prefix + pair_bytes(k, v), seq![38u8]);
}

/// The whole URL text is ASCII: the fixed part by inspection, the encoded
/// parameters because the form encoding only emits ASCII bytes.
#[verifier::rlimit(60)]
pub proof fn lemma_url_bytes_ascii(q: IndeedQuery)
    ensures
        all_ascii(q.url_bytes()),
{
    reveal_strlit("https://www.indeed.com/jobs?");
    vstd::utf8::is_ascii_chars_encode_utf8("https://www.indeed.com/jobs?"@);
    let s0 = text_bytes("https://www.indeed.com/jobs?");
    assert(all_ascii(s0));
    let s1 = s0 + pair_bytes("as_and", join_bytes(words_bytes(q.contains_all_words@))) + seq![38u8];
    lemma_ascii_step(s0, "as_and", join_bytes(words_bytes(q.contains_all_words@)));
    let s2 = s1 + pair_bytes("as_phr", encode_utf8(q.has_exact_phrase@)) + seq![38u8];
    lemma_ascii_step(s1, "as_phr", encode_utf8(q.has_exact_phrase@));
    let s3 = s2 + pair_bytes("as_any", join_bytes(words_bytes(q.has_any_words@))) + seq![38u8];
    lemma_ascii_step(s2, "as_any", join_bytes(words_bytes(q.has_any_words@)));
    let s4 = s3 + pair_bytes("as_not", join_bytes(words_bytes(q.excludes_all_words@))) + seq![38u8];
    lemma_ascii_step(s3, "as_not", join_bytes(words_bytes(q.excludes_all_words@)));
    let s5 = s4 + pair_bytes("as_ttl", join_bytes(words_bytes(q.has_words_in_title@))) + seq![38u8];
    lemma_ascii_step(s4, "as_ttl", join_bytes(words_bytes(q.has_words_in_title@)));
    let s6 = s5 + pair_bytes("as_cmp", encode_utf8(q.company@)) + seq![38u8];
    lemma_ascii_step(s5, "as_cmp", encode_utf8(q.company@));
    let s7 = s6 + pair_bytes("jt", encode_utf8(q.job_type.token())) + seq![38u8];
    lemma_ascii_step(s6, "jt", encode_utf8(q.job_type.token()));
    let s8 = s7 + pair_bytes("st", encode_utf8(q.show_jobs_from.token())) + seq![38u8];
    lemma_ascii_step(s7, "st", encode_utf8(q.show_jobs_from.token()));
    let s9 = s8 + pair_bytes("sr", q.sr_bytes()) + seq![38u8];
    lemma_ascii_step(s8, "sr", q.sr_bytes());
    let s10 = s9 + pair_bytes("salary", dec_rep(q.min_salary as nat)) + seq![38u8];
    lemma_ascii_step(s9, "salary", dec_rep(q.min_salary as nat));
    let s11 = s10 + pair_bytes("radius", dec_rep(q.radius as nat)) + seq![38u8];
    lemma_ascii_step(s10, "radius", dec_rep(q.radius as nat));
    let s12 = s11 + pair_bytes("l", encode_utf8(q.city@)) + seq![38u8];
    lemma_ascii_step(s11, "l", encode_utf8(q.city@));
    let s13 = s12 + pair_bytes("fromage", dec_rep(q.max_age as nat)) + seq![38u8];
    lemma_ascii_step(s12, "fromage", dec_rep(q.max_age as nat));
    let s14 = s13 + pair_bytes("limit", dec_rep(q.limit as nat)) + seq![38u8];
    lemma_ascii_step(s13, "limit", dec_rep(q.limit as nat));
    let s15 = s14 + pair_bytes("sort", encode_utf8(q.sort.token())) + seq![38u8];
    lemma_ascii_step(s14, "sort", encode_utf8(q.sort.token()));
    let s16 = s15 + pair_bytes("psf", text_bytes("advsrch")) + seq![38u8];
    lemma_ascii_step(s15, "psf", text_bytes("advsrch"));
    lemma_pair_bytes_ascii("from", text_bytes("advancedsearch"));
    lemma_all_ascii_concat(s16, pair_bytes("from", text_bytes("advancedsearch")));
    assert(q.url_bytes() == s16 + pair_bytes("from", text_bytes("advancedsearch")));
}

/// Appends the raw UTF-8 bytes of `s` to `out`.
fn push_text(out: &mut Vec<u8>, s: &str)
    ensures
        final(out)@ == old(out)@ + text_bytes(s),
{
    let bs: &[u8] = s.as_bytes();
    let ghost base = out@;
    let mut j: usize = 0;
    while j < bs.len()
        invariant
            j <= bs@.len(),
            out@ == base + bs@.take(j as int),
            bs@ == text_bytes(s),
        decreases bs@.len() - j,
    {
        out.push(bs[j]);
        proof {
            assert(out@ =~= base + bs@.take(j + 1 as int));
        }
        j += 1;
    }
    proof {
        assert(bs@.take(bs@.len() as int) =~= bs@);
    }
}

/// Appends one encoded `key=value` pair to `out`.
fn push_pair(out: &mut Vec<u8>, key: &str, value: &[u8])
    ensures
        final(out)@ == old(out)@ + pair_bytes(key, value@),
{
    encode_append(out, key.as_bytes());
    out.push(61);
    encode_append(out, value);
    proof {
        assert(out@ =~= old(out)@ + pair_bytes(key, value@));
    }
}

/// A `String` from each ASCII byte in turn.
fn clone_string(s: &String) -> (r: String)
    ensures
        r == s,
{
    s.clone()
}

/// A fresh copy of a word list.
fn clone_words(ws: &Vec<String>) -> (r: Vec<String>)
    ensures
        r@ == ws@,
{
    let mut r: Vec<String> = Vec::new();
    let mut i: usize = 0;
    while i < ws.len()
        invariant
            i <= ws@.len(),
            r@ == ws@.take(i as int),
        decreases ws@.len() - i,
    {
        r.push(clone_string(&ws[i]));
        proof {
            assert(r@ =~= ws@.take(i + 1 as int));
        }
        i += 1;
    }
    proof {
        assert(ws@.take(ws@.len() as int) =~= ws@);
    }
    r
}

/// Relies on `String::from_utf8`: ASCII bytes are valid UTF-8, and the
/// characters of the result are the bytes, one for one.
#[verifier::external_body]
fn ascii_to_string(v: Vec<u8>) -> (r: String)
    requires
        all_ascii(v@),
    ensures
        r@ == v@.map(|i: int, b: u8| b as char),
{
    String::from_utf8(v).unwrap()
}

} // verus!
