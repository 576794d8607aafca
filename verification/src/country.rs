//! The country book and the region listing.
//!
//! A `CountryService` holds the known country codes with their display
//! names. It decides which countries a run processes, resolves names, and
//! serves the region listing: filtered by a search string against code and
//! name (case folded), joined with each country's locality count, countries
//! without localities dropped, sorted by folded name, and paginated.

use crate::paging::{paginate, spec_page_hi, spec_page_lo};
use crate::text::{
    contains_chars, contains_seq, lemma_lex_le_total, lemma_lex_le_trans, lex_le, lower_of,
    lowercase, str_eq,
};
use vstd::multiset::Multiset;
use vstd::prelude::*;

verus! {

/// One row of the region listing.
#[derive(Debug, Clone)]
pub struct CountryInfo {
    pub country_code: String,
    pub country_name: String,
    pub locality_count: u32,
}

/// The plain values of a listing row.
pub open spec fn info_view(ci: CountryInfo) -> (Seq<char>, Seq<char>, u32) {
    (ci.country_code@, ci.country_name@, ci.locality_count)
}

/// The name stored under `code`, first entry winning.
pub open spec fn spec_lookup(book: Seq<(String, String)>, code: Seq<char>) -> Option<Seq<char>>
    decreases book.len(),
{
    if book.len() == 0 {
        None
    } else if book.first().0@ == code {
        Some(book.first().1@)
    } else {
        spec_lookup(book.drop_first(), code)
    }
}

/// Some entry carries `code`.
pub open spec fn spec_has_code(book: Seq<(String, String)>, code: Seq<char>) -> bool {
    exists|i: int| 0 <= i < book.len() && (#[trigger] book[i]).0@ == code
}

/// The lookup finds the first entry carrying the code, and nothing when no
/// entry carries it.
proof fn lemma_lookup_first_match(book: Seq<(String, String)>, code: Seq<char>, i: int)
    requires
        0 <= i < book.len(),
        book[i].0@ == code,
        forall|k: int| 0 <= k < i ==> (#[trigger] book[k]).0@ != code,
    ensures
        spec_lookup(book, code) == Some(book[i].1@),
    decreases i,
{
    if i > 0 {
        lemma_lookup_first_match(book.drop_first(), code, i - 1);
    }
}

proof fn lemma_lookup_no_match(book: Seq<(String, String)>, code: Seq<char>)
    requires
        forall|k: int| 0 <= k < book.len() ==> (#[trigger] book[k]).0@ != code,
    ensures
        spec_lookup(book, code) == None::<Seq<char>>,
    decreases book.len(),
{
    if book.len() > 0 {
        lemma_lookup_no_match(book.drop_first(), code);
    }
}

/// The codes of the book's entries, in order.
pub open spec fn spec_codes_of(book: Seq<(String, String)>) -> Seq<Seq<char>> {
    book.map_values(|p: (String, String)| p.0@)
}

/// A run processes every known country when no targets are named or the
/// special target `ALL` appears; otherwise the named targets that the book
/// knows, in the order named.
pub open spec fn spec_wants_all(targets: Seq<Seq<char>>) -> bool {
    targets.len() == 0 || targets.contains("ALL"@)
}

pub open spec fn spec_selected_codes(
    book: Seq<(String, String)>,
    targets: Seq<Seq<char>>,
) -> Seq<Seq<char>> {
    if spec_wants_all(targets) {
        spec_codes_of(book)
    } else {
        targets.filter(|c: Seq<char>| spec_has_code(book, c))
    }
}

/// The country book: codes with display names.
pub struct CountryService {
    country_codes: Vec<(String, String)>,
}

impl CountryService {
    /// The entries, in the order given.
    pub closed spec fn book(&self) -> Seq<(String, String)> {
        self.country_codes@
    }

    /// Build the service from already-loaded code/name pairs.
    pub fn new(country_codes: Vec<(String, String)>) -> (r: Self)
        ensures
            r.book() == country_codes@,
    {
        Self { country_codes }
    }

    /// Whether the book knows `code`.
    fn contains_code(&self, code: &str) -> (r: bool)
        ensures
            r == spec_has_code(self.book(), code@),
    {
        let n = self.country_codes.len();
        let mut i: usize = 0;
        while i < n
            invariant
                n == self.book().len(),
                i <= n,
                forall|k: int| 0 <= k < i ==> (#[trigger] self.book()[k]).0@ != code@,
            decreases n - i,
        {
            if str_eq(self.country_codes[i].0.as_str(), code) {
                return true;
            }
            i = i + 1;
        }
        false
    }

    /// The display name stored for a country code, if any.
    pub fn get_country_name(&self, country_code: &str) -> (r: Option<&String>)
        ensures
            match r {
                Some(n) => spec_lookup(self.book(), country_code@) == Some(n@),
                None => spec_lookup(self.book(), country_code@) == None::<Seq<char>>,
            },
    {
        let n = self.country_codes.len();
        let mut i: usize = 0;
        while i < n
            invariant
                n == self.book().len(),
                i <= n,
                forall|k: int| 0 <= k < i ==> (#[trigger] self.book()[k]).0@ != country_code@,
            decreases n - i,
        {
            if str_eq(self.country_codes[i].0.as_str(), country_code) {
                proof {
                    lemma_lookup_first_match(self.book(), country_code@, i as int);
                }
                return Some(&self.country_codes[i].1);
            }
            i = i + 1;
        }
        proof {
            lemma_lookup_no_match(self.book(), country_code@);
        }
        None
    }

    /// The countries a run processes: all of them when no target is named
    /// or `ALL` is, otherwise the named targets the book knows.
    pub fn get_countries_to_process(&self, target_countries: &Vec<String>) -> (r: Vec<String>)
        ensures
            r.deep_view() == spec_selected_codes(self.book(), target_countries.deep_view()),
    {
        proof {
            reveal_strlit("ALL");
        }
        let ghost targets = target_countries.deep_view();
        let mut wants_all = target_countries.len() == 0;
        let n = target_countries.len();
        let mut i: usize = 0;
        while i < n
            invariant
                n == targets.len(),
                i <= n,
                targets == target_countries.deep_view(),
                wants_all == (targets.len() == 0 || exists|k: int|
                    0 <= k < i && targets[k] == "ALL"@),
            decreases n - i,
        {
            if str_eq(target_countries[i].as_str(), "ALL") {
                proof {
                    assert(target_countries@[i as int]@ == targets[i as int]);
                }
                wants_all = true;
                i = n;
            } else {
                proof {
                    assert(target_countries@[i as int]@ == targets[i as int]);
                }
                i = i + 1;
            }
        }
        if wants_all {
            let m = self.country_codes.len();
            let mut out: Vec<String> = Vec::new();
            let mut j: usize = 0;
            while j < m
                invariant
                    m == self.book().len(),
                    j <= m,
                    out.deep_view() == spec_codes_of(self.book().take(j as int)),
                decreases m - j,
            {
                let code = self.country_codes[j].0.clone();
                proof {
                    assert(code@ == self.book()[j as int].0@);
                    assert(spec_codes_of(self.book().take(j as int)).len() == j);
                    assert(out@.len() == j);
                }
                out.push(code);
                proof {
                    assert(spec_codes_of(self.book().take(j + 1)).len() == j + 1);
                    assert(out@[j as int].deep_view() == code@);
                    assert(forall|k: int|
                        0 <= k < j ==> out.deep_view()[k] == spec_codes_of(
                            self.book().take(j as int),
                        )[k]);
                    assert(out.deep_view() =~~= spec_codes_of(self.book().take(j + 1)));
                }
                j = j + 1;
            }
            proof {
                assert(self.book().take(m as int) =~= self.book());
                assert(spec_codes_of(self.book().take(m as int)) =~~= spec_codes_of(self.book()));
            }
            out
        } else {
            let ghost pred = |c: Seq<char>| spec_has_code(self.book(), c);
            let mut out: Vec<String> = Vec::new();
            let mut j: usize = 0;
            proof {
                reveal(Seq::filter);
                assert(targets.take(0) =~~= Seq::<Seq<char>>::empty());
            }
            while j < n
                invariant
                    n == targets.len(),
                    j <= n,
                    targets == target_countries.deep_view(),
                    pred == (|c: Seq<char>| spec_has_code(self.book(), c)),
                    out.deep_view() == targets.take(j as int).filter(pred),
                decreases n - j,
            {
                proof {
                    reveal(Seq::filter);
                    assert(targets.take(j + 1).drop_last() =~~= targets.take(j as int));
                    assert(targets.take(j + 1).last() == targets[j as int]);
                    assert(target_countries@[j as int]@ == targets[j as int]);
                }
                if self.contains_code(target_countries[j].as_str()) {
                    out.push(target_countries[j].clone());
                    proof {
                        assert(out.deep_view() =~~= targets.take(j + 1).filter(pred));
                    }
                }
                j = j + 1;
            }
            proof {
                assert(targets.take(n as int) =~~= targets);
            }
            out
        }
    }

    /// Keep the codes that pass the search filter, in order.
    pub fn filter_countries(&self, codes: Vec<String>, query: Option<&String>) -> (r: Vec<String>)
        ensures
            r.deep_view() == spec_filtered_codes(self.book(), codes.deep_view(), spec_opt_str(query)),
    {
        let q = match query {
            None => {
                return codes;
            },
            Some(q) => q,
        };
        let ghost cs = codes.deep_view();
        let ghost qv = Some(q@);
        let ghost pred = |c: Seq<char>| spec_code_passes(self.book(), c, qv);
        let q_lower = lowercase(q.as_str());
        let n = codes.len();
        let mut out: Vec<String> = Vec::new();
        let mut i: usize = 0;
        proof {
            reveal(Seq::filter);
            assert(cs.take(0) =~~= Seq::<Seq<char>>::empty());
        }
        while i < n
            invariant
                n == cs.len(),
                i <= n,
                cs == codes.deep_view(),
                q_lower@ == lower_of(q@),
                qv == Some(q@),
                pred == (|c: Seq<char>| spec_code_passes(self.book(), c, qv)),
                out.deep_view() == cs.take(i as int).filter(pred),
            decreases n - i,
        {
            proof {
                reveal(Seq::filter);
                assert(cs.take(i + 1).drop_last() =~~= cs.take(i as int));
                assert(cs.take(i + 1).last() == cs[i as int]);
                assert(codes@[i as int]@ == cs[i as int]);
            }
            let passes = match self.get_country_name(codes[i].as_str()) {
                Some(name) => {
                    let name_lower = lowercase(name.as_str());
                    let code_lower = lowercase(codes[i].as_str());
                    contains_chars(name_lower.as_str(), q_lower.as_str()) || contains_chars(
                        code_lower.as_str(),
                        q_lower.as_str(),
                    )
                },
                None => false,
            };
            proof {
                assert(passes == spec_code_passes(self.book(), cs[i as int], qv));
            }
            if passes {
                out.push(codes[i].clone());
                proof {
                    assert(cs.take(i + 1).filter(pred).len() == cs.take(i as int).filter(
                        pred,
                    ).len() + 1);
                    assert(out.deep_view() =~~= cs.take(i + 1).filter(pred));
                }
            }
            i = i + 1;
        }
        proof {
            assert(cs.take(n as int) =~~= cs);
        }
        out
    }

    /// The listing rows for the given codes: one per code the book knows
    /// whose recorded locality count is positive.
    pub fn build_country_infos(&self, codes: &Vec<String>, counts: &Vec<(String, u32)>) -> (r: Vec<
        CountryInfo,
    >)
        ensures
            infos_view(r@) == spec_country_infos(self.book(), counts@, codes.deep_view()),
    {
        let ghost cs = codes.deep_view();
        let n = codes.len();
        let mut out: Vec<CountryInfo> = Vec::new();
        let mut i: usize = 0;
        proof {
            assert(cs.take(0) =~~= Seq::<Seq<char>>::empty());
            assert(infos_view(out@) =~~= spec_country_infos(
                self.book(),
                counts@,
                cs.take(0),
            ));
        }
        while i < n
            invariant
                n == cs.len(),
                i <= n,
                cs == codes.deep_view(),
                infos_view(out@) == spec_country_infos(self.book(), counts@, cs.take(i as int)),
            decreases n - i,
        {
            proof {
                assert(cs.take(i + 1).drop_last() =~~= cs.take(i as int));
                assert(cs.take(i + 1).last() == cs[i as int]);
                assert(codes@[i as int]@ == cs[i as int]);
            }
            match self.get_country_name(codes[i].as_str()) {
                Some(name) => {
                    let count = count_of(counts, codes[i].as_str());
                    if count > 0 {
                        let row = CountryInfo {
                            country_code: codes[i].clone(),
                            country_name: name.clone(),
                            locality_count: count,
                        };
                        proof {
                            assert(info_view(row) == (cs[i as int], name@, count));
                        }
                        out.push(row);
                        proof {
                            assert(spec_country_infos(
                                self.book(),
                                counts@,
                                cs.take(i as int),
                            ).len() == infos_view(out@).len() - 1);
                            assert(infos_view(out@) =~~= spec_country_infos(
                                self.book(),
                                counts@,
                                cs.take(i + 1),
                            ));
                        }
                    }
                },
                None => {},
            }
            i = i + 1;
        }
        proof {
            assert(cs.take(n as int) =~~= cs);
        }
        out
    }

    /// The region listing page: the known countries of the run, filtered by
    /// the search string, joined with their locality counts, those without
    /// localities dropped, ordered by folded name, and cut to the page.
    pub fn get_countries_paginated(
        &self,
        target_countries: &Vec<String>,
        counts: &Vec<(String, u32)>,
        page: u32,
        limit: u32,
        query: Option<&String>,
    ) -> (r: Vec<CountryInfo>)
        requires
            page >= 1,
        ensures
            spec_is_countries_page(
                self.book(),
                counts@,
                target_countries.deep_view(),
                spec_opt_str(query),
                page,
                limit,
                r@,
            ),
    {
        let codes = self.get_countries_to_process(target_countries);
        let filtered = self.filter_countries(codes, query);
        let infos = self.build_country_infos(&filtered, counts);
        let sorted = sort_country_infos(infos);
        let ghost witness = sorted@;
        let r = paginate(sorted, page, limit);
        proof {
            assert(infos_view(witness).to_multiset() == spec_country_infos(
                self.book(),
                counts@,
                spec_filtered_codes(
                    self.book(),
                    spec_selected_codes(self.book(), target_countries.deep_view()),
                    spec_opt_str(query),
                ),
            ).to_multiset());
            assert(spec_is_countries_page(
                self.book(),
                counts@,
                target_countries.deep_view(),
                spec_opt_str(query),
                page,
                limit,
                r@,
            ));
        }
        r
    }

    /// How many countries the listing holds in all: those of the run that
    /// pass the search filter, are known, and have localities.
    pub fn get_countries_count(
        &self,
        target_countries: &Vec<String>,
        counts: &Vec<(String, u32)>,
        query: Option<&String>,
    ) -> (r: u32)
        requires
            target_countries.deep_view().len() <= u32::MAX,
            self.book().len() <= u32::MAX,
        ensures
            r == spec_positive_count(
                self.book(),
                counts@,
                spec_filtered_codes(
                    self.book(),
                    spec_selected_codes(self.book(), target_countries.deep_view()),
                    spec_opt_str(query),
                ),
            ),
    {
        let codes = self.get_countries_to_process(target_countries);
        proof {
            broadcast use Seq::lemma_filter_len;

            assert(codes.deep_view().len() <= u32::MAX);
        }
        let filtered = self.filter_countries(codes, query);
        let ghost fs = filtered.deep_view();
        proof {
            broadcast use Seq::lemma_filter_len;

            assert(fs.len() <= u32::MAX);
        }
        let n = filtered.len();
        let mut count: u32 = 0;
        let mut i: usize = 0;
        proof {
            assert(fs.take(0) =~~= Seq::<Seq<char>>::empty());
        }
        while i < n
            invariant
                n == fs.len() <= u32::MAX,
                i <= n,
                fs == filtered.deep_view(),
                count == spec_positive_count(self.book(), counts@, fs.take(i as int)),
                count <= i,
            decreases n - i,
        {
            proof {
                assert(fs.take(i + 1).drop_last() =~~= fs.take(i as int));
                assert(fs.take(i + 1).last() == fs[i as int]);
                assert(filtered@[i as int]@ == fs[i as int]);
            }
            if self.contains_code(filtered[i].as_str()) {
                let c = count_of(counts, filtered[i].as_str());
                if c > 0 {
                    count = count + 1;
                }
            }
            i = i + 1;
        }
        proof {
            assert(fs.take(n as int) =~~= fs);
        }
        count
    }

    /// The book a fresh installation starts from.
    pub fn create_default_country_codes() -> (r: Vec<(String, String)>)
        ensures
            r.deep_view() =~= spec_default_country_codes(),
    {
        let mut codes: Vec<(String, String)> = Vec::new();
        codes.push((String::from_str("US"), String::from_str("United States")));
        codes.push((String::from_str("CA"), String::from_str("Canada")));
        codes.push((String::from_str("GB"), String::from_str("United Kingdom")));
        codes.push((String::from_str("DE"), String::from_str("Germany")));
        codes.push((String::from_str("FR"), String::from_str("France")));
        codes.push((String::from_str("IT"), String::from_str("Italy")));
        codes.push((String::from_str("ES"), String::from_str("Spain")));
        codes.push((String::from_str("AU"), String::from_str("Australia")));
        codes.push((String::from_str("JP"), String::from_str("Japan")));
        codes.push((String::from_str("CN"), String::from_str("China")));
        codes.push((String::from_str("IN"), String::from_str("India")));
        codes.push((String::from_str("BR"), String::from_str("Brazil")));
        codes.push((String::from_str("MX"), String::from_str("Mexico")));
        codes.push((String::from_str("RU"), String::from_str("Russia")));
        proof {
            assert(codes.deep_view() =~~= spec_default_country_codes());
        }
        codes
    }
}

/// A search string against a row: the folded name or the folded code must
/// contain the folded query.
pub open spec fn spec_matches_query(code: Seq<char>, name: Seq<char>, q: Seq<char>) -> bool {
    contains_seq(lower_of(name), lower_of(q)) || contains_seq(lower_of(code), lower_of(q))
}

/// Whether a code passes the search filter; a code the book does not know
/// never does.
pub open spec fn spec_code_passes(
    book: Seq<(String, String)>,
    code: Seq<char>,
    q: Option<Seq<char>>,
) -> bool {
    match q {
        None => true,
        Some(qs) => match spec_lookup(book, code) {
            Some(name) => spec_matches_query(code, name, qs),
            None => false,
        },
    }
}

/// The codes left after the search filter; no search leaves them all.
pub open spec fn spec_filtered_codes(
    book: Seq<(String, String)>,
    codes: Seq<Seq<char>>,
    q: Option<Seq<char>>,
) -> Seq<Seq<char>> {
    match q {
        None => codes,
        Some(_) => codes.filter(|c: Seq<char>| spec_code_passes(book, c, q)),
    }
}

/// The plain value of an optional search string.
pub open spec fn spec_opt_str(q: Option<&String>) -> Option<Seq<char>> {
    match q {
        Some(s) => Some(s@),
        None => None,
    }
}

/// The locality count recorded for a country, zero when none is.
pub open spec fn spec_count_of(counts: Seq<(String, u32)>, code: Seq<char>) -> u32
    decreases counts.len(),
{
    if counts.len() == 0 {
        0
    } else if counts.first().0@ == code {
        counts.first().1
    } else {
        spec_count_of(counts.drop_first(), code)
    }
}

proof fn lemma_count_of_first_match(counts: Seq<(String, u32)>, code: Seq<char>, i: int)
    requires
        0 <= i < counts.len(),
        counts[i].0@ == code,
        forall|k: int| 0 <= k < i ==> (#[trigger] counts[k]).0@ != code,
    ensures
        spec_count_of(counts, code) == counts[i].1,
    decreases i,
{
    if i > 0 {
        lemma_count_of_first_match(counts.drop_first(), code, i - 1);
    }
}

proof fn lemma_count_of_no_match(counts: Seq<(String, u32)>, code: Seq<char>)
    requires
        forall|k: int| 0 <= k < counts.len() ==> (#[trigger] counts[k]).0@ != code,
    ensures
        spec_count_of(counts, code) == 0,
    decreases counts.len(),
{
    if counts.len() > 0 {
        lemma_count_of_no_match(counts.drop_first(), code);
    }
}

/// Look a country's locality count up, zero when absent.
pub fn count_of(counts: &Vec<(String, u32)>, code: &str) -> (r: u32)
    ensures
        r == spec_count_of(counts@, code@),
{
    let n = counts.len();
    let mut i: usize = 0;
    while i < n
        invariant
            n == counts@.len(),
            i <= n,
            forall|k: int| 0 <= k < i ==> (#[trigger] counts@[k]).0@ != code@,
        decreases n - i,
    {
        if str_eq(counts[i].0.as_str(), code) {
            proof {
                lemma_count_of_first_match(counts@, code@, i as int);
            }
            return counts[i].1;
        }
        i = i + 1;
    }
    proof {
        lemma_count_of_no_match(counts@, code@);
    }
    0
}

/// The listing rows for a run of codes: one row per code the book knows
/// whose locality count is positive, in the codes' order.
pub open spec fn spec_country_infos(
    book: Seq<(String, String)>,
    counts: Seq<(String, u32)>,
    codes: Seq<Seq<char>>,
) -> Seq<(Seq<char>, Seq<char>, u32)>
    decreases codes.len(),
{
    if codes.len() == 0 {
        Seq::empty()
    } else {
        let rest = spec_country_infos(book, counts, codes.drop_last());
        let c = codes.last();
        match spec_lookup(book, c) {
            Some(name) => {
                let n = spec_count_of(counts, c);
                if n > 0 {
                    rest.push((c, name, n))
                } else {
                    rest
                }
            },
            None => rest,
        }
    }
}

/// The plain values of a row sequence.
pub open spec fn infos_view(s: Seq<CountryInfo>) -> Seq<(Seq<char>, Seq<char>, u32)> {
    s.map_values(|ci: CountryInfo| info_view(ci))
}

/// What a page of the region listing is: a window of some ordering of the
/// run's filtered, counted rows — rows with equal folded names may stand in
/// either order, and nothing else about the page is left open.
pub open spec fn spec_is_countries_page(
    book: Seq<(String, String)>,
    counts: Seq<(String, u32)>,
    targets: Seq<Seq<char>>,
    q: Option<Seq<char>>,
    page: u32,
    limit: u32,
    data: Seq<CountryInfo>,
) -> bool {
    exists|sorted: Seq<CountryInfo>|
        {
            &&& #[trigger] infos_view(sorted).to_multiset() == spec_country_infos(
                book,
                counts,
                spec_filtered_codes(book, spec_selected_codes(book, targets), q),
            ).to_multiset()
            &&& infos_sorted(sorted)
            &&& data == sorted.subrange(
                spec_page_lo(sorted.len() as int, page, limit),
                spec_page_hi(sorted.len() as int, page, limit),
            )
        }
}

/// How many of the codes are known to the book and have localities.
pub open spec fn spec_positive_count(
    book: Seq<(String, String)>,
    counts: Seq<(String, u32)>,
    codes: Seq<Seq<char>>,
) -> int
    decreases codes.len(),
{
    if codes.len() == 0 {
        0
    } else {
        spec_positive_count(book, counts, codes.drop_last()) + (if spec_has_code(book, codes.last())
            && spec_count_of(counts, codes.last()) > 0 {
            1int
        } else {
            0int
        })
    }
}

/// A code is carried by some entry exactly when looking it up finds a name.
proof fn lemma_has_code_iff_lookup(book: Seq<(String, String)>, code: Seq<char>)
    ensures
        spec_has_code(book, code) <==> spec_lookup(book, code) is Some,
    decreases book.len(),
{
    if book.len() == 0 {
        assert(!spec_has_code(book, code));
    } else if book.first().0@ == code {
        assert(spec_has_code(book, code)) by {
            assert(book[0].0@ == code);
        }
    } else {
        lemma_has_code_iff_lookup(book.drop_first(), code);
        assert forall|i: int|
            0 <= i < book.len() && (#[trigger] book[i]).0@ == code implies spec_has_code(
            book.drop_first(),
            code,
        ) by {
            assert(book.drop_first()[i - 1] == book[i]);
        }
        if spec_has_code(book.drop_first(), code) {
            let i = choose|i: int|
                0 <= i < book.drop_first().len() && (#[trigger] book.drop_first()[i]).0@ == code;
            assert(book[i + 1].0@ == code);
        }
    }
}

/// The total the pagination block reports counts exactly the rows the
/// listing holds: one per known country with localities.
pub proof fn lemma_total_counts_the_rows(
    book: Seq<(String, String)>,
    counts: Seq<(String, u32)>,
    codes: Seq<Seq<char>>,
)
    ensures
        spec_positive_count(book, counts, codes) == spec_country_infos(book, counts, codes).len(),
    decreases codes.len(),
{
    if codes.len() > 0 {
        lemma_total_counts_the_rows(book, counts, codes.drop_last());
        lemma_has_code_iff_lookup(book, codes.last());
    }
}

/// Rows sort by their folded display name.
pub open spec fn info_le(a: CountryInfo, b: CountryInfo) -> bool {
    lex_le(lower_of(a.country_name@), lower_of(b.country_name@))
}

pub open spec fn infos_sorted(s: Seq<CountryInfo>) -> bool {
    forall|i: int, j: int| 0 <= i < j < s.len() ==> info_le(#[trigger] s[i], #[trigger] s[j])
}

fn info_le_exec(a: &CountryInfo, b: &CountryInfo) -> (r: bool)
    ensures
        r == info_le(*a, *b),
{
    let la = lowercase(a.country_name.as_str());
    let lb = lowercase(b.country_name.as_str());
    crate::text::lex_le_str(la.as_str(), lb.as_str())
}

/// Sort listing rows by folded name: the result is a reordering of the
/// input (nothing added, dropped or changed) in which every row is ordered
/// before each later one.
pub fn sort_country_infos(v: Vec<CountryInfo>) -> (r: Vec<CountryInfo>)
    ensures
        r@.to_multiset() == v@.to_multiset(),
        infos_view(r@).to_multiset() == infos_view(v@).to_multiset(),
        infos_sorted(r@),
{
    broadcast use vstd::seq_lib::group_to_multiset_ensures, vstd::seq_lib::to_multiset_insert;

    let mut rest = v;
    let mut out: Vec<CountryInfo> = Vec::new();
    loop
        invariant
            infos_sorted(out@),
            out@.to_multiset().add(rest@.to_multiset()) =~= v@.to_multiset(),
            infos_view(out@).to_multiset().add(
                infos_view(rest@).to_multiset(),
            ) =~= infos_view(v@).to_multiset(),
        ensures
            rest@.len() == 0,
            infos_sorted(out@),
            out@.to_multiset().add(rest@.to_multiset()) =~= v@.to_multiset(),
            infos_view(out@).to_multiset().add(
                infos_view(rest@).to_multiset(),
            ) =~= infos_view(v@).to_multiset(),
        decreases rest@.len(),
    {
        let ghost old_rest = rest@;
        let ghost old_out = out@;
        let x = match rest.pop() {
            Some(x) => x,
            None => {
                break ;
            },
        };
        proof {
            assert(rest@.push(x) =~= old_rest);
            vstd::seq_lib::to_multiset_build(rest@, x);
            assert(infos_view(rest@).push(info_view(x)) =~~= infos_view(old_rest));
            vstd::seq_lib::to_multiset_build(infos_view(rest@), info_view(x));
        }
        // find the first position whose row does not come before `x`
        let mut p: usize = 0;
        loop
            invariant
                p <= out@.len(),
                forall|k: int| 0 <= k < p ==> info_le(#[trigger] out@[k], x),
                out@ == old_out,
            ensures
                p <= out@.len(),
                forall|k: int| 0 <= k < p ==> info_le(#[trigger] out@[k], x),
                p < out@.len() ==> !info_le(out@[p as int], x),
                out@ == old_out,
            decreases out@.len() - p,
        {
            if p >= out.len() {
                break ;
            }
            if !info_le_exec(&out[p], &x) {
                break ;
            }
            p = p + 1;
        }
        proof {
            if p < out@.len() {
                lemma_lex_le_total(
                    lower_of(out@[p as int].country_name@),
                    lower_of(x.country_name@),
                );
            }
        }
        let ghost xv = info_view(x);
        out.insert(p, x);
        proof {
            assert(out@ == old_out.insert(p as int, x));
            vstd::seq_lib::to_multiset_insert(old_out, p as int, x);
            assert(infos_view(out@) =~~= infos_view(old_out).insert(p as int, xv));
            vstd::seq_lib::to_multiset_insert(infos_view(old_out), p as int, xv);
            old_out.insert_ensures(p as int, x);
            assert forall|i: int, j: int|
                0 <= i < j < out@.len() implies info_le(#[trigger] out@[i], #[trigger] out@[j]) by {
                if j == p {
                    if i < p {
                        assert(info_le(out@[i], out@[j]));
                    }
                } else if i == p {
                    assert(out@[j] == old_out[j - 1]);
                    assert(info_le(x, old_out[p as int]));
                    if j - 1 > p {
                        assert(info_le(old_out[p as int], old_out[j - 1]));
                        lemma_lex_le_trans(
                            lower_of(x.country_name@),
                            lower_of(old_out[p as int].country_name@),
                            lower_of(old_out[j - 1].country_name@),
                        );
                    }
                } else if i < p && j > p {
                    assert(out@[i] == old_out[i]);
                    assert(out@[j] == old_out[j - 1]);
                } else if j < p {
                    assert(out@[i] == old_out[i]);
                    assert(out@[j] == old_out[j]);
                } else {
                    assert(out@[i] == old_out[i - 1]);
                    assert(out@[j] == old_out[j - 1]);
                }
            }
        }
    }
    proof {
        assert(rest@.to_multiset() =~= Multiset::<CountryInfo>::empty());
        assert(infos_view(rest@).to_multiset() =~~= Multiset::<(Seq<char>, Seq<char>, u32)>::empty());
        assert(out@.to_multiset() =~= v@.to_multiset());
        assert(infos_view(out@).to_multiset() =~~= infos_view(v@).to_multiset());
    }
    out
}

/// The default book's contents.
pub open spec fn spec_default_country_codes() -> Seq<(Seq<char>, Seq<char>)> {
    seq![
        ("US"@, "United States"@),
        ("CA"@, "Canada"@),
        ("GB"@, "United Kingdom"@),
        ("DE"@, "Germany"@),
        ("FR"@, "France"@),
        ("IT"@, "Italy"@),
        ("ES"@, "Spain"@),
        ("AU"@, "Australia"@),
        ("JP"@, "Japan"@),
        ("CN"@, "China"@),
        ("IN"@, "India"@),
        ("BR"@, "Brazil"@),
        ("MX"@, "Mexico"@),
        ("RU"@, "Russia"@),
    ]
}

} // verus!
