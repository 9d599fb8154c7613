//! Annual reports filed with the SEC: the company index key of a ticker and
//! the links to a company's latest Form 10-K filings.
use vstd::prelude::*;
use crate::text::{chars_of, decimal, push_decimal, string_of, str_eq, remove_all, remove_all_chars, views};

verus! {

/// A field of a JSON object as it was read.
#[derive(Debug, Clone)]
pub enum JsonField<T> {
    /// The object has no such field (or the value is no object).
    Missing,
    /// The field holds a value of another type.
    Mismatched,
    /// The field holds this value.
    Present(T),
}

/// A company of the SEC's ticker index, with its `cik_str` and `ticker`
/// fields.
#[derive(Debug, Clone)]
pub struct CompanyEntry {
    pub cik_str: JsonField<u64>,
    pub ticker: JsonField<String>,
}

/// A character with ASCII capitals made small, as a code point.
pub open spec fn fold_ascii(c: char) -> u32 {
    if 'A' <= c && c <= 'Z' {
        (c as u32 + 32) as u32
    } else {
        c as u32
    }
}

/// Two texts are equal once ASCII letters are compared without case.
pub open spec fn eq_ignore_ascii_case(a: Seq<char>, b: Seq<char>) -> bool {
    &&& a.len() == b.len()
    &&& forall|i: int| 0 <= i < a.len() ==> fold_ascii(#[trigger] a[i]) == fold_ascii(b[i])
}

/// `s` padded on the left with zeros to ten characters.
pub open spec fn pad_ten(s: Seq<char>) -> Seq<char> {
    if s.len() >= 10 {
        s
    } else {
        Seq::new((10 - s.len()) as nat, |i: int| '0') + s
    }
}

/// The index key of the first company in `entries` whose ticker is `ticker`
/// (without regard to ASCII case), as ten digits. The search stops with
/// nothing at an entry that lacks either field.
pub open spec fn cik_lookup(entries: Seq<CompanyEntry>, ticker: Seq<char>) -> Option<Seq<char>>
    decreases entries.len(),
{
    if entries.len() == 0 {
        None
    } else {
        let e = entries[0];
        if e.cik_str is Missing || e.ticker is Missing {
            None
        } else if e.cik_str is Present && e.ticker is Present && eq_ignore_ascii_case(
            e.ticker->Present_0@,
            ticker,
        ) {
            Some(pad_ten(decimal(e.cik_str->Present_0 as nat)))
        } else {
            cik_lookup(entries.drop_first(), ticker)
        }
    }
}

/// An index key as the SEC writes it: ten digits, zero-padded.
pub fn cik_digits(cik: u64) -> (s: String)
    ensures
        s@ == pad_ten(decimal(cik as nat)),
{
    let mut ds: Vec<char> = Vec::new();
    push_decimal(&mut ds, cik);
    assert(ds@ == decimal(cik as nat));
    let mut out: Vec<char> = Vec::new();
    if ds.len() < 10 {
        let pad = 10 - ds.len();
        let mut i: usize = 0;
        while i < pad
            invariant
                i <= pad,
                out@ == Seq::new(i as nat, |k: int| '0'),
            decreases pad - i,
        {
            out.push('0');
            assert(out@ =~= Seq::new((i + 1) as nat, |k: int| '0'));
            i = i + 1;
        }
    }
    let mut j: usize = 0;
    let ghost prefix = out@;
    while j < ds.len()
        invariant
            j <= ds.len(),
            out@ == prefix + ds@.take(j as int),
        decreases ds.len() - j,
    {
        out.push(ds[j]);
        assert(out@ =~= prefix + ds@.take(j + 1));
        j = j + 1;
    }
    assert(ds@.take(ds.len() as int) == ds@);
    assert(out@ =~= pad_ten(decimal(cik as nat)));
    string_of(&out)
}

/// A character with ASCII capitals made small, as a code point.
fn fold_char(c: char) -> (u: u32)
    ensures
        u == fold_ascii(c),
{
    if 'A' <= c && c <= 'Z' {
        c as u32 + 32
    } else {
        c as u32
    }
}

/// Whether two texts are equal without regard to ASCII case.
pub fn eq_ignore_case(a: &str, b: &str) -> (r: bool)
    ensures
        r == eq_ignore_ascii_case(a@, b@),
{
    let av = chars_of(a);
    let bv = chars_of(b);
    if av.len() != bv.len() {
        return false;
    }
    let mut i: usize = 0;
    while i < av.len()
        invariant
            i <= av.len() == bv.len(),
            av@ == a@,
            bv@ == b@,
            forall|k: int| 0 <= k < i ==> fold_ascii(#[trigger] av@[k]) == fold_ascii(bv@[k]),
        decreases av.len() - i,
    {
        if fold_char(av[i]) != fold_char(bv[i]) {
            return false;
        }
        i = i + 1;
    }
    true
}

/// The index key of the company with the ticker `ticker`, as ten digits.
pub fn cik_for_ticker(entries: &Vec<CompanyEntry>, ticker: &str) -> (r: Option<String>)
    ensures
        r matches Some(s) ==> cik_lookup(entries@, ticker@) == Some(s@),
        r is None ==> cik_lookup(entries@, ticker@) is None,
{
    let mut k: usize = 0;
    assert(entries@.skip(0) == entries@);
    while k < entries.len()
        invariant
            k <= entries.len(),
            cik_lookup(entries@, ticker@) == cik_lookup(entries@.skip(k as int), ticker@),
        decreases entries.len() - k,
    {
        let ghost rest = entries@.skip(k as int);
        assert(rest[0] == entries@[k as int]);
        assert(rest.drop_first() == entries@.skip(k + 1));
        let e = &entries[k];
        match (&e.cik_str, &e.ticker) {
            (JsonField::Missing, _) => {
                return None;
            },
            (_, JsonField::Missing) => {
                return None;
            },
            (JsonField::Present(cik), JsonField::Present(t)) => {
                if eq_ignore_case(t.as_str(), ticker) {
                    return Some(cik_digits(*cik));
                }
            },
            _ => {},
        }
        k = k + 1;
    }
    None
}

/// Where the SEC keeps the filings of companies.
pub open spec fn archive_base() -> Seq<char> {
    "https://www.sec.gov/Archives/edgar/data"@
}

/// The link to a filing's primary document.
pub open spec fn filing_link(cik: Seq<char>, accession: Seq<char>, doc: Seq<char>) -> Seq<char> {
    archive_base() + "/"@ + cik + "/"@ + remove_all(accession, "-"@) + "/"@ + doc
}

/// The links to the Form 10-K filings among the first `i` recent filings:
/// the form, primary document and accession number of each filing are at
/// the same position of the three lists.
pub open spec fn ten_k_links_upto(
    cik: Seq<char>,
    forms: Seq<Seq<char>>,
    docs: Seq<Seq<char>>,
    accessions: Seq<Seq<char>>,
    i: int,
) -> Seq<Seq<char>>
    decreases i,
{
    if i <= 0 {
        seq![]
    } else {
        let prev = ten_k_links_upto(cik, forms, docs, accessions, i - 1);
        let j = i - 1;
        if forms[j] == "10-K"@ && j < docs.len() && j < accessions.len() {
            prev.push(filing_link(cik, accessions[j], docs[j]))
        } else {
            prev
        }
    }
}

/// The links to the latest three Form 10-K filings, in the order the SEC
/// lists them.
pub open spec fn latest_ten_k_links(
    cik: Seq<char>,
    forms: Seq<Seq<char>>,
    docs: Seq<Seq<char>>,
    accessions: Seq<Seq<char>>,
) -> Seq<Seq<char>> {
    let all = ten_k_links_upto(cik, forms, docs, accessions, forms.len() as int);
    if all.len() <= 3 {
        all
    } else {
        all.take(3)
    }
}

/// The link to a filing's primary document.
pub fn filing_link_of(cik: &str, accession: &str, doc: &str) -> (l: String)
    ensures
        l@ == filing_link(cik@, accession@, doc@),
{
    let clean = string_of(&remove_all_chars(&chars_of(accession), "-"));
    let mut l = String::from_str("https://www.sec.gov/Archives/edgar/data");
    l.append("/");
    l.append(cik);
    l.append("/");
    l.append(clean.as_str());
    l.append("/");
    l.append(doc);
    l
}

/// The links to the latest three Form 10-K filings of the company `cik`.
pub fn latest_filing_links(
    cik: &str,
    forms: &Vec<String>,
    docs: &Vec<String>,
    accessions: &Vec<String>,
) -> (r: Vec<String>)
    ensures
        views(r@) == latest_ten_k_links(cik@, views(forms@), views(docs@), views(accessions@)),
{
    let ghost fs = views(forms@);
    let ghost ds = views(docs@);
    let ghost acs = views(accessions@);
    let mut links: Vec<String> = Vec::new();
    let mut i: usize = 0;
    while i < forms.len()
        invariant
            i <= forms.len(),
            fs == views(forms@),
            ds == views(docs@),
            acs == views(accessions@),
            views(links@) == ten_k_links_upto(cik@, fs, ds, acs, i as int),
        decreases forms.len() - i,
    {
        if str_eq(forms[i].as_str(), "10-K") && i < docs.len() && i < accessions.len() {
            let link = filing_link_of(cik, accessions[i].as_str(), docs[i].as_str());
            let ghost before = links@;
            links.push(link);
            assert(views(links@) =~= views(before).push(link@));
        }
        i = i + 1;
    }
    if links.len() <= 3 {
        links
    } else {
        let mut first: Vec<String> = Vec::new();
        let mut k: usize = 0;
        while k < 3
            invariant
                k <= 3 < links.len(),
                views(first@) == views(links@).take(k as int),
            decreases 3 - k,
        {
            let ghost before = first@;
            first.push(links[k].clone());
            assert(views(first@) =~= views(before).push(links@[k as int]@));
            assert(views(links@).take(k + 1) =~= views(links@).take(k as int).push(links@[k as int]@));
            k = k + 1;
        }
        first
    }
}

/// What a search for filings answers: an error when the filings could not
/// be read or none was found, otherwise the links.
pub fn filing_links_outcome(links: Option<Vec<String>>) -> (r: Result<Vec<String>, String>)
    ensures
        links is None ==> (r matches Err(e) && e@ == "Error retrieving filings"@),
        links matches Some(v) ==> (v.len() == 0 ==> (r matches Err(e) && e@ == "No filings found"@)),
        links matches Some(v) ==> (v.len() > 0 ==> r == Ok::<Vec<String>, String>(v)),
{
    match links {
        None => Err(String::from_str("Error retrieving filings")),
        Some(v) => if v.len() == 0 {
            Err(String::from_str("No filings found"))
        } else {
            Ok(v)
        },
    }
}

/// The error when no company has the ticker.
pub fn ticker_not_found() -> (e: String)
    ensures
        e@ == "Ticker not found"@,
{
    String::from_str("Ticker not found")
}

/// A link is to the primary document of a Form 10-K filing of the company.
pub open spec fn is_ten_k_link(
    cik: Seq<char>,
    forms: Seq<Seq<char>>,
    docs: Seq<Seq<char>>,
    accessions: Seq<Seq<char>>,
    j: int,
    link: Seq<char>,
) -> bool {
    &&& 0 <= j < forms.len()
    &&& forms[j] == "10-K"@
    &&& j < docs.len()
    &&& j < accessions.len()
    &&& link == filing_link(cik, accessions[j], docs[j])
}

/// `link` is to the primary document of one of the first `i` filings,
/// a Form 10-K.
pub open spec fn links_a_ten_k(
    cik: Seq<char>,
    forms: Seq<Seq<char>>,
    docs: Seq<Seq<char>>,
    accessions: Seq<Seq<char>>,
    i: int,
    link: Seq<char>,
) -> bool {
    exists|j: int| 0 <= j < i && #[trigger] is_ten_k_link(cik, forms, docs, accessions, j, link)
}

/// Every link found among the first `i` filings is to a Form 10-K filing
/// among them.
proof fn lemma_links_upto(
    cik: Seq<char>,
    forms: Seq<Seq<char>>,
    docs: Seq<Seq<char>>,
    accessions: Seq<Seq<char>>,
    i: int,
)
    requires
        i <= forms.len(),
    ensures
        forall|m: int|
            0 <= m < ten_k_links_upto(cik, forms, docs, accessions, i).len() ==> #[trigger] links_a_ten_k(
                cik,
                forms,
                docs,
                accessions,
                i,
                ten_k_links_upto(cik, forms, docs, accessions, i)[m],
            ),
    decreases i,
{
    if i > 0 {
        lemma_links_upto(cik, forms, docs, accessions, i - 1);
        let prev = ten_k_links_upto(cik, forms, docs, accessions, i - 1);
        let cur = ten_k_links_upto(cik, forms, docs, accessions, i);
        assert forall|m: int| 0 <= m < cur.len() implies #[trigger] links_a_ten_k(
            cik,
            forms,
            docs,
            accessions,
            i,
            cur[m],
        ) by {
            if m < prev.len() {
                assert(cur[m] == prev[m]);
                assert(links_a_ten_k(cik, forms, docs, accessions, i - 1, prev[m]));
                let j = choose|j: int|
                    0 <= j < i - 1 && #[trigger] is_ten_k_link(cik, forms, docs, accessions, j, prev[m]);
                assert(is_ten_k_link(cik, forms, docs, accessions, j, cur[m]));
            } else {
                assert(is_ten_k_link(cik, forms, docs, accessions, i - 1, cur[m]));
            }
        }
    }
}

/// At most three links are given, and each is to the primary document of a
/// Form 10-K filing of the company.
pub proof fn lemma_latest_links(
    cik: Seq<char>,
    forms: Seq<Seq<char>>,
    docs: Seq<Seq<char>>,
    accessions: Seq<Seq<char>>,
)
    ensures
        latest_ten_k_links(cik, forms, docs, accessions).len() <= 3,
        forall|m: int|
            0 <= m < latest_ten_k_links(cik, forms, docs, accessions).len() ==> #[trigger] links_a_ten_k(
                cik,
                forms,
                docs,
                accessions,
                forms.len() as int,
                latest_ten_k_links(cik, forms, docs, accessions)[m],
            ),
{
    lemma_links_upto(cik, forms, docs, accessions, forms.len() as int);
    let all = ten_k_links_upto(cik, forms, docs, accessions, forms.len() as int);
    let l = latest_ten_k_links(cik, forms, docs, accessions);
    assert forall|m: int| 0 <= m < l.len() implies #[trigger] links_a_ten_k(
        cik,
        forms,
        docs,
        accessions,
        forms.len() as int,
        l[m],
    ) by {
        assert(l[m] == all[m]);
        assert(links_a_ten_k(cik, forms, docs, accessions, forms.len() as int, all[m]));
    }
}

} // verus!
