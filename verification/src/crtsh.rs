//! Subdomain enumeration backed by a certificate-transparency log
//! service.  The service answers a query URL with rows that each carry a
//! newline-separated list of names; this module turns those rows into a
//! duplicate-free list of trimmed candidate names, dropping the target
//! itself and names with a wildcard.

use vstd::prelude::*;

use crate::error::Error;
use crate::modules::{CrtShEntry, EnumeratorResponse, Module, SubdomainModule};
use crate::strutil::{
    contains_char, distinct_seq, split_char, split_seq, str_eq, trim_seq, trim_str,
    vec_contains_string,
};

verus! {

/// The certificate-transparency enumerator.
#[derive(Debug)]
pub struct Crtsh {}

/// Whether `s` is one of the candidates the certificate-transparency rows
/// `entries` yield for `target`: a trimmed piece of some row, split on
/// newlines, that is neither the target itself nor a wildcard name.
pub open spec fn crtsh_candidate(entries: Seq<Seq<char>>, target: Seq<char>, s: Seq<char>) -> bool {
    &&& exists|i: int, j: int|
        0 <= i < entries.len() && 0 <= j < split_seq(entries[i], '\n').len() && s == trim_seq(
            #[trigger] split_seq(entries[i], '\n')[j],
        )
    &&& s != target
    &&& !s.contains('*')
}

/// The set of candidates the rows `entries` yield for `target`.
pub open spec fn crtsh_candidates(entries: Seq<Seq<char>>, target: Seq<char>) -> Set<Seq<char>> {
    Set::new(|s: Seq<char>| crtsh_candidate(entries, target, s))
}

/// The view of a row list: each row as its characters.
pub open spec fn entry_views(entries: Seq<CrtShEntry>) -> Seq<Seq<char>> {
    entries.map_values(|e: CrtShEntry| e.name_value@)
}

impl Crtsh {
    pub fn new() -> (r: Self) {
        Crtsh {  }
    }
}

impl Module for Crtsh {
    open spec fn spec_name(&self) -> Seq<char> {
        "subdomains/crtsh"@
    }

    open spec fn spec_description(&self) -> Seq<char> {
        "Subdomain enumeration using crt.sh"@
    }

    fn name(&self) -> (r: String) {
        String::from_str("subdomains/crtsh")
    }

    fn description(&self) -> (r: String) {
        String::from_str("Subdomain enumeration using crt.sh")
    }
}

impl SubdomainModule for Crtsh {
    open spec fn spec_query_url(&self, target: Seq<char>) -> Seq<char> {
        "https://crt.sh/?q=%25."@ + target + "&output=json"@
    }

    open spec fn accepts(&self, response: EnumeratorResponse) -> bool {
        response is Crtsh
    }

    open spec fn spec_candidates(&self, response: EnumeratorResponse, target: Seq<char>) -> Set<
        Seq<char>,
    > {
        match response {
            EnumeratorResponse::Crtsh(entries) => crtsh_candidates(entry_views(entries@), target),
            _ => Set::empty(),
        }
    }

    fn query_url(&self, target: &str) -> (r: String) {
        let mut s = String::from_str("https://crt.sh/?q=%25.");
        s.append(target);
        s.append("&output=json");
        proof {
            assert(s@ =~= self.spec_query_url(target@));
        }
        s
    }

    fn extract(&self, response: &EnumeratorResponse, target: &str) -> (r: Result<
        Vec<String>,
        Error,
    >) {
        match response {
            EnumeratorResponse::Crtsh(entries) => {
                let ghost e = entry_views(entries@);
                let ghost tgt = target@;
                let mut out: Vec<String> = Vec::new();
                let mut i: usize = 0;
                while i < entries.len()
                    invariant
                        i <= entries@.len(),
                        e == entry_views(entries@),
                        tgt == target@,
                        distinct_seq(out.deep_view()),
                        forall|k: int|
                            0 <= k < out.deep_view().len() ==> crtsh_candidate(
                                e,
                                tgt,
                                #[trigger] out.deep_view()[k],
                            ),
                        forall|ii: int, j: int|
                            0 <= ii < i && 0 <= j < split_seq(e[ii], '\n').len() && crtsh_candidate(
                                e,
                                tgt,
                                trim_seq(#[trigger] split_seq(e[ii], '\n')[j]),
                            ) ==> out.deep_view().contains(trim_seq(split_seq(e[ii], '\n')[j])),
                    decreases entries@.len() - i,
                {
                    let pieces = split_char(entries[i].name_value.as_str(), '\n');
                    assert(pieces.deep_view() == split_seq(e[i as int], '\n'));
                    let mut j: usize = 0;
                    while j < pieces.len()
                        invariant
                            0 <= i < entries@.len(),
                            j <= pieces@.len(),
                            e == entry_views(entries@),
                            tgt == target@,
                            pieces.deep_view() == split_seq(e[i as int], '\n'),
                            distinct_seq(out.deep_view()),
                            forall|k: int|
                                0 <= k < out.deep_view().len() ==> crtsh_candidate(
                                    e,
                                    tgt,
                                    #[trigger] out.deep_view()[k],
                                ),
                            forall|ii: int, jj: int|
                                0 <= ii < i && 0 <= jj < split_seq(e[ii], '\n').len()
                                    && crtsh_candidate(
                                    e,
                                    tgt,
                                    trim_seq(#[trigger] split_seq(e[ii], '\n')[jj]),
                                ) ==> out.deep_view().contains(trim_seq(split_seq(e[ii], '\n')[jj])),
                            forall|jj: int|
                                0 <= jj < j && crtsh_candidate(
                                    e,
                                    tgt,
                                    trim_seq(#[trigger] split_seq(e[i as int], '\n')[jj]),
                                ) ==> out.deep_view().contains(
                                    trim_seq(split_seq(e[i as int], '\n')[jj]),
                                ),
                        decreases pieces@.len() - j,
                    {
                        let piece = trim_str(pieces[j].as_str());
                        assert(piece@ == trim_seq(split_seq(e[i as int], '\n')[j as int]));
                        if !str_eq(piece.as_str(), target) && !contains_char(piece.as_str(), '*')
                            && !vec_contains_string(&out, piece.as_str()) {
                            let ghost old_dv = out.deep_view();
                            let ghost pv = piece@;
                            assert(crtsh_candidate(e, tgt, pv));
                            out.push(piece);
                            proof {
                                assert(out.deep_view() =~= old_dv.push(pv));
                                crate::sequtil::lemma_push_preserves_contains(old_dv, pv);
                            }
                        }
                        j += 1;
                    }
                    i += 1;
                }
                proof {
                    assert forall|s: Seq<char>| #[trigger]
                        crtsh_candidates(e, tgt).contains(s) implies out.deep_view().to_set()
                        .contains(s) by {
                        let (ii, j) = choose|ii: int, j: int|
                            0 <= ii < e.len() && 0 <= j < split_seq(e[ii], '\n').len() && s
                                == trim_seq(#[trigger] split_seq(e[ii], '\n')[j]);
                        assert(out.deep_view().contains(s));
                    }
                    assert forall|s: Seq<char>| out.deep_view().to_set().contains(
                        s,
                    ) implies crtsh_candidates(e, tgt).contains(s) by {
                        let k = choose|k: int|
                            0 <= k < out.deep_view().len() && out.deep_view()[k] == s;
                    }
                    assert(out.deep_view().to_set() =~= crtsh_candidates(e, tgt));
                }
                Ok(out)
            },
            _ => Err(Error::InvalidHttpResponse(self.name())),
        }
    }
}

} // verus!
