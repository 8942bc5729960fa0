//! Subdomain enumeration backed by a historical-web-archive index
//! service.  The service answers a query URL with rows of archived URLs
//! (the first row is a header whose single cell is the literal
//! `original`); this module keeps, for every archived URL, the bare host
//! name, without duplicates.

use vstd::prelude::*;

use crate::error::Error;
use crate::modules::{EnumeratorResponse, Module, SubdomainModule};
use crate::strutil::{distinct_seq, str_eq, vec_contains_string};

verus! {

/// The historical-web-archive enumerator.
#[derive(Debug)]
pub struct WebArchive {}

/// The host component of the URL written `s`, if `s` parses as an
/// absolute URL with a host; a function of `s` alone.
pub uninterp spec fn url_host(s: Seq<char>) -> Option<Seq<char>>;

/// Relies on url::Url::parse and url::Url::host_str: `s` parsed as an
/// absolute URL and, on success, the URL's host component.  Both depend
/// on `s` alone, so the composition is the value named by `url_host`.
#[verifier::external_body]
fn parse_url_host(s: &str) -> (r: Option<String>)
    ensures
        (r is Some) == (url_host(s@) is Some),
        r matches Some(h) ==> url_host(s@) == Some(h@),
{
    match url::Url::parse(s) {
        Ok(u) => match u.host_str() {
            Some(h) => Some(h.to_owned()),
            None => None,
        },
        Err(_) => None,
    }
}

/// Whether `s` is one of the hosts the archive rows yield: the host of
/// some archived URL other than the literal header cell `original`.
pub open spec fn web_archive_candidate(rows: Seq<Seq<Seq<char>>>, s: Seq<char>) -> bool {
    exists|i: int, j: int|
        0 <= i < rows.len() && 0 <= j < rows[i].len() && #[trigger] rows[i][j] != "original"@
            && url_host(rows[i][j]) == Some(s)
}

/// The set of hosts the archive rows yield.
pub open spec fn web_archive_candidates(rows: Seq<Seq<Seq<char>>>) -> Set<Seq<char>> {
    Set::new(|s: Seq<char>| web_archive_candidate(rows, s))
}

impl WebArchive {
    pub fn new() -> (r: Self) {
        WebArchive {  }
    }
}

impl Module for WebArchive {
    open spec fn spec_name(&self) -> Seq<char> {
        "subdomains/web_archive"@
    }

    open spec fn spec_description(&self) -> Seq<char> {
        "Subdomain enumeration using web.archive.org"@
    }

    fn name(&self) -> (r: String) {
        String::from_str("subdomains/web_archive")
    }

    fn description(&self) -> (r: String) {
        String::from_str("Subdomain enumeration using web.archive.org")
    }
}

impl SubdomainModule for WebArchive {
    open spec fn spec_query_url(&self, target: Seq<char>) -> Seq<char> {
        "https://web.archive.org/cdx/search/cdx?matchType=domain&fl=original&collapse=urlkey&url="@
            + target + "&output=json"@
    }

    open spec fn accepts(&self, response: EnumeratorResponse) -> bool {
        response is WebArchive
    }

    open spec fn spec_candidates(&self, response: EnumeratorResponse, target: Seq<char>) -> Set<
        Seq<char>,
    > {
        match response {
            EnumeratorResponse::WebArchive(rows) => web_archive_candidates(rows.deep_view()),
            _ => Set::empty(),
        }
    }

    fn query_url(&self, target: &str) -> (r: String) {
        let mut s = String::from_str(
            "https://web.archive.org/cdx/search/cdx?matchType=domain&fl=original&collapse=urlkey&url=",
        );
        s.append(target);
        s.append("&output=json");
        proof {
            assert(s@ =~= self.spec_query_url(target@));
        }
        s
    }

    fn extract(&self, response: &EnumeratorResponse, target: &str) -> (r: Result<
        Vec<String>,
        Error,
    >) {
        match response {
            EnumeratorResponse::WebArchive(rows) => {
                let ghost rv = rows.deep_view();
                let mut out: Vec<String> = Vec::new();
                let mut i: usize = 0;
                while i < rows.len()
                    invariant
                        i <= rows@.len(),
                        rv == rows.deep_view(),
                        distinct_seq(out.deep_view()),
                        forall|k: int|
                            0 <= k < out.deep_view().len() ==> web_archive_candidate(
                                rv,
                                #[trigger] out.deep_view()[k],
                            ),
                        forall|ii: int, j: int|
                            0 <= ii < i && 0 <= j < rv[ii].len() && #[trigger] rv[ii][j]
                                != "original"@ && url_host(rv[ii][j]) is Some
                                ==> out.deep_view().contains(url_host(rv[ii][j])->Some_0),
                    decreases rows@.len() - i,
                {
                    let row = &rows[i];
                    assert(row.deep_view() == rv[i as int]);
                    let mut j: usize = 0;
                    while j < row.len()
                        invariant
                            0 <= i < rows@.len(),
                            j <= row@.len(),
                            rv == rows.deep_view(),
                            row.deep_view() == rv[i as int],
                            distinct_seq(out.deep_view()),
                            forall|k: int|
                                0 <= k < out.deep_view().len() ==> web_archive_candidate(
                                    rv,
                                    #[trigger] out.deep_view()[k],
                                ),
                            forall|ii: int, jj: int|
                                0 <= ii < i && 0 <= jj < rv[ii].len() && #[trigger] rv[ii][jj]
                                    != "original"@ && url_host(rv[ii][jj]) is Some
                                    ==> out.deep_view().contains(url_host(rv[ii][jj])->Some_0),
                            forall|jj: int|
                                0 <= jj < j && #[trigger] rv[i as int][jj] != "original"@
                                    && url_host(rv[i as int][jj]) is Some
                                    ==> out.deep_view().contains(url_host(rv[i as int][jj])->Some_0),
                        decreases row@.len() - j,
                    {
                        let url = &row[j];
                        assert(url@ == rv[i as int][j as int]);
                        if !str_eq(url.as_str(), "original") {
                            match parse_url_host(url.as_str()) {
                                Some(host) => {
                                    if !vec_contains_string(&out, host.as_str()) {
                                        let ghost old_dv = out.deep_view();
                                        let ghost hv = host@;
                                        assert(web_archive_candidate(rv, hv));
                                        out.push(host);
                                        proof {
                                            assert(out.deep_view() =~= old_dv.push(hv));
                                            crate::sequtil::lemma_push_preserves_contains(
                                                old_dv,
                                                hv,
                                            );
                                        }
                                    }
                                },
                                None => {},
                            }
                        }
                        j += 1;
                    }
                    i += 1;
                }
                proof {
                    assert forall|s: Seq<char>| #[trigger]
                        web_archive_candidates(rv).contains(s) implies out.deep_view().to_set()
                        .contains(s) by {
                        let (ii, j) = choose|ii: int, j: int|
                            0 <= ii < rv.len() && 0 <= j < rv[ii].len() && #[trigger] rv[ii][j]
                                != "original"@ && url_host(rv[ii][j]) == Some(s);
                        assert(out.deep_view().contains(s));
                    }
                    assert forall|s: Seq<char>| out.deep_view().to_set().contains(
                        s,
                    ) implies web_archive_candidates(rv).contains(s) by {
                        let k = choose|k: int|
                            0 <= k < out.deep_view().len() && out.deep_view()[k] == s;
                    }
                    assert(out.deep_view().to_set() =~= web_archive_candidates(rv));
                }
                Ok(out)
            },
            _ => Err(Error::InvalidHttpResponse(self.name())),
        }
    }
}

} // verus!
