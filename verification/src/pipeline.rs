//! The pipeline orchestrator's verified logic: the linear stage machine,
//! the dedupe-and-filter step between enumeration and DNS resolution, the
//! DNS filtering decision, the vulnerability-scan fan-out and fan-in, and
//! the report counts.  The caller drives the network work of each stage
//! and hands its outcomes to the functions here.

use vstd::prelude::*;

use crate::error::Error;
use crate::modules::{get_http_modules, HttpCheck, HttpFinding, Port, Subdomain};
use crate::sequtil::lemma_push_preserves_contains;
use crate::strutil::{
    contains_seq, contains_substr, distinct_seq, endpoint_seq, make_endpoint, occurs_at,
    vec_contains_string,
};

verus! {

/// How a scan is run: how many common ports to probe, and whether the
/// enumeration and vulnerability stages are wanted.
#[derive(Debug, Clone, Copy, PartialEq, Eq)]
pub struct ScanConfig {
    pub ports: u16,
    pub enumerate: bool,
    pub vuln: bool,
}

/// The stages of one run, in their fixed forward order.
#[derive(Debug, Clone, Copy, PartialEq, Eq)]
pub enum PipelineStage {
    Start,
    Enumerate,
    DedupeFilter,
    Resolve,
    PortScan,
    VulnScan,
    Report,
    Done,
}

/// The position of a stage in the forward order.
pub open spec fn stage_rank(s: PipelineStage) -> int {
    match s {
        PipelineStage::Start => 0,
        PipelineStage::Enumerate => 1,
        PipelineStage::DedupeFilter => 2,
        PipelineStage::Resolve => 3,
        PipelineStage::PortScan => 4,
        PipelineStage::VulnScan => 5,
        PipelineStage::Report => 6,
        PipelineStage::Done => 7,
    }
}

/// The stage that follows `s` under `config`: enumeration is skipped in
/// single-target mode, the vulnerability scan when it was not asked for.
pub open spec fn spec_next_stage(s: PipelineStage, config: ScanConfig) -> PipelineStage {
    match s {
        PipelineStage::Start => if config.enumerate {
            PipelineStage::Enumerate
        } else {
            PipelineStage::DedupeFilter
        },
        PipelineStage::Enumerate => PipelineStage::DedupeFilter,
        PipelineStage::DedupeFilter => PipelineStage::Resolve,
        PipelineStage::Resolve => PipelineStage::PortScan,
        PipelineStage::PortScan => if config.vuln {
            PipelineStage::VulnScan
        } else {
            PipelineStage::Report
        },
        PipelineStage::VulnScan => PipelineStage::Report,
        PipelineStage::Report => PipelineStage::Done,
        PipelineStage::Done => PipelineStage::Done,
    }
}

/// Advance the pipeline: the successor stage is the fixed next one, never
/// an earlier one, and a finished run stays finished.
pub fn next_stage(s: &PipelineStage, config: &ScanConfig) -> (r: PipelineStage)
    ensures
        r == spec_next_stage(*s, *config),
        !(*s is Done) ==> stage_rank(r) > stage_rank(*s),
        *s is Done ==> r is Done,
{
    match s {
        PipelineStage::Start => if config.enumerate {
            PipelineStage::Enumerate
        } else {
            PipelineStage::DedupeFilter
        },
        PipelineStage::Enumerate => PipelineStage::DedupeFilter,
        PipelineStage::DedupeFilter => PipelineStage::Resolve,
        PipelineStage::Resolve => PipelineStage::PortScan,
        PipelineStage::PortScan => if config.vuln {
            PipelineStage::VulnScan
        } else {
            PipelineStage::Report
        },
        PipelineStage::VulnScan => PipelineStage::Report,
        PipelineStage::Report => PipelineStage::Done,
        PipelineStage::Done => PipelineStage::Done,
    }
}

/// Whether `s` is a candidate kept by the dedupe-and-filter step for
/// `target`: the target itself or some enumerator's output, holding the
/// target as a substring.
pub open spec fn kept_candidate(
    lists: Seq<Seq<Seq<char>>>,
    target: Seq<char>,
    s: Seq<char>,
) -> bool {
    &&& (s == target || exists|i: int, j: int|
        0 <= i < lists.len() && 0 <= j < lists[i].len() && #[trigger] lists[i][j] == s)
    &&& contains_seq(s, target)
}

/// The set the dedupe-and-filter step keeps: the union of all enumerator
/// outputs and the target, restricted to names that hold the target.
pub open spec fn dedupe_filter_set(lists: Seq<Seq<Seq<char>>>, target: Seq<char>) -> Set<
    Seq<char>,
> {
    Set::new(|s: Seq<char>| kept_candidate(lists, target, s))
}

/// Union the enumerators' candidate lists with the target itself, drop
/// names that do not hold the target as a substring, and collapse
/// duplicates.
pub fn dedupe_and_filter(lists: &Vec<Vec<String>>, target: &str) -> (r: Vec<String>)
    ensures
        distinct_seq(r.deep_view()),
        r.deep_view().to_set() == dedupe_filter_set(lists.deep_view(), target@),
        forall|k: int|
            0 <= k < r.deep_view().len() ==> contains_seq(#[trigger] r.deep_view()[k], target@),
{
    let ghost lv = lists.deep_view();
    let ghost tgt = target@;
    let mut out: Vec<String> = Vec::new();
    let mut i: usize = 0;
    while i < lists.len()
        invariant
            i <= lists@.len(),
            lv == lists.deep_view(),
            tgt == target@,
            distinct_seq(out.deep_view()),
            forall|k: int|
                0 <= k < out.deep_view().len() ==> kept_candidate(
                    lv,
                    tgt,
                    #[trigger] out.deep_view()[k],
                ) && out.deep_view()[k] != tgt,
            forall|ii: int, j: int|
                0 <= ii < i && 0 <= j < lv[ii].len() && contains_seq(#[trigger] lv[ii][j], tgt)
                    && lv[ii][j] != tgt ==> out.deep_view().contains(lv[ii][j]),
        decreases lists@.len() - i,
    {
        let row = &lists[i];
        assert(row.deep_view() == lv[i as int]);
        let mut j: usize = 0;
        while j < row.len()
            invariant
                0 <= i < lists@.len(),
                j <= row@.len(),
                lv == lists.deep_view(),
                tgt == target@,
                row.deep_view() == lv[i as int],
                distinct_seq(out.deep_view()),
                forall|k: int|
                    0 <= k < out.deep_view().len() ==> kept_candidate(
                        lv,
                        tgt,
                        #[trigger] out.deep_view()[k],
                    ) && out.deep_view()[k] != tgt,
                forall|ii: int, jj: int|
                    0 <= ii < i && 0 <= jj < lv[ii].len() && contains_seq(#[trigger] lv[ii][jj], tgt)
                        && lv[ii][jj] != tgt ==> out.deep_view().contains(lv[ii][jj]),
                forall|jj: int|
                    0 <= jj < j && contains_seq(#[trigger] lv[i as int][jj], tgt) && lv[i as int][jj]
                        != tgt ==> out.deep_view().contains(lv[i as int][jj]),
            decreases row@.len() - j,
        {
            let name = &row[j];
            assert(name@ == lv[i as int][j as int]);
            if contains_substr(name.as_str(), target) && !crate::strutil::str_eq(
                name.as_str(),
                target,
            ) && !vec_contains_string(&out, name.as_str()) {
                let ghost old_dv = out.deep_view();
                let ghost nv = name@;
                assert(kept_candidate(lv, tgt, nv));
                out.push(name.clone());
                proof {
                    assert(out.deep_view() =~= old_dv.push(nv));
                    lemma_push_preserves_contains(old_dv, nv);
                }
            }
            j += 1;
        }
        i += 1;
    }
    // The target is always a candidate and always holds itself.
    let ghost old_dv = out.deep_view();
    out.push(target.to_owned());
    proof {
        assert(out.deep_view() =~= old_dv.push(tgt));
        lemma_push_preserves_contains(old_dv, tgt);
        assert(tgt.subrange(0, tgt.len() as int) =~= tgt);
        assert(occurs_at(tgt, tgt, 0));
        assert(kept_candidate(lv, tgt, tgt));
        assert forall|s: Seq<char>| #[trigger]
            dedupe_filter_set(lv, tgt).contains(s) implies out.deep_view().to_set().contains(
            s,
        ) by {
            if s != tgt {
                let (ii, j) = choose|ii: int, j: int|
                    0 <= ii < lv.len() && 0 <= j < lv[ii].len() && #[trigger] lv[ii][j] == s;
                assert(old_dv.contains(s));
            }
        }
        assert forall|s: Seq<char>| out.deep_view().to_set().contains(
            s,
        ) implies dedupe_filter_set(lv, tgt).contains(s) by {
            let k = choose|k: int| 0 <= k < out.deep_view().len() && out.deep_view()[k] == s;
        }
        assert(out.deep_view().to_set() =~= dedupe_filter_set(lv, tgt));
    }
    out
}

/// The DNS resolution decision for one candidate: kept exactly when its
/// lookup succeeded; a failed lookup filters, it is no error.
pub fn resolves(domain: Subdomain, lookup_ok: bool) -> (r: Option<Subdomain>)
    ensures
        lookup_ok ==> (r matches Some(d) && d == domain),
        !lookup_ok ==> r is None,
{
    if lookup_ok {
        Some(domain)
    } else {
        None
    }
}

/// The candidates among the first `n` whose lookups succeeded, in order.
pub open spec fn keep_resolved_upto(c: Seq<Subdomain>, ok: Seq<bool>, n: int) -> Seq<Subdomain>
    decreases n,
{
    if n <= 0 {
        Seq::empty()
    } else {
        keep_resolved_upto(c, ok, n - 1) + if ok[n - 1] {
            seq![c[n - 1]]
        } else {
            Seq::empty()
        }
    }
}

/// The candidates whose lookups succeeded, in order.
pub open spec fn keep_resolved(c: Seq<Subdomain>, ok: Seq<bool>) -> Seq<Subdomain> {
    keep_resolved_upto(c, ok, c.len() as int)
}

/// Keep each candidate exactly when its lookup succeeded: `resolved[k]`
/// is the outcome of the lookup for `candidates[k]`.
pub fn filter_resolved(candidates: Vec<Subdomain>, resolved: &Vec<bool>) -> (r: Vec<Subdomain>)
    requires
        candidates@.len() == resolved@.len(),
    ensures
        r@ == keep_resolved(candidates@, resolved@),
{
    let ghost all = candidates@;
    let ghost oks = resolved@;
    let mut input = candidates;
    let mut r: Vec<Subdomain> = Vec::new();
    let mut idx: usize = 0;
    let total = resolved.len();
    proof {
        assert(all.skip(0) =~= all);
    }
    while input.len() > 0
        invariant
            oks == resolved@,
            oks.len() == all.len(),
            all.len() == total,
            idx == all.len() - input@.len(),
            input@.len() <= all.len(),
            input@ == all.skip(idx as int),
            r@ == keep_resolved_upto(all, oks, idx as int),
        decreases input@.len(),
    {
        let p = input.remove(0);
        proof {
            assert(all.skip(idx as int)[0] == all[idx as int]);
            assert(input@ =~= all.skip(idx + 1));
        }
        if resolved[idx] {
            r.push(p);
        }
        proof {
            assert(r@ =~= keep_resolved_upto(all, oks, idx + 1));
        }
        idx += 1;
    }
    r
}

/// Some candidate among the first `n` has these contents and a
/// successful lookup.
pub open spec fn resolved_among(c: Seq<Subdomain>, ok: Seq<bool>, n: int, d: Subdomain) -> bool {
    exists|i: int| 0 <= i < n && c[i] == d && ok[i]
}

/// The DNS stage only filters: every entry of its output is an entry of
/// its input whose lookup succeeded, and every input entry whose lookup
/// succeeded is in the output.
pub proof fn lemma_dns_stage_filters(c: Seq<Subdomain>, ok: Seq<bool>)
    requires
        c.len() == ok.len(),
    ensures
        forall|k: int|
            0 <= k < keep_resolved(c, ok).len() ==> c.contains(#[trigger] keep_resolved(c, ok)[k]),
        forall|k: int|
            0 <= k < keep_resolved(c, ok).len() ==> resolved_among(
                c,
                ok,
                c.len() as int,
                #[trigger] keep_resolved(c, ok)[k],
            ),
        forall|i: int|
            0 <= i < c.len() && ok[i] ==> keep_resolved(c, ok).contains(#[trigger] c[i]),
{
    lemma_keep_resolved_upto(c, ok, c.len() as int);
    assert forall|k: int| 0 <= k < keep_resolved(c, ok).len() implies resolved_among(
        c,
        ok,
        c.len() as int,
        #[trigger] keep_resolved(c, ok)[k],
    ) by {
        assert(keep_resolved(c, ok)[k] == keep_resolved_upto(c, ok, c.len() as int)[k]);
    }
    assert forall|k: int| 0 <= k < keep_resolved(c, ok).len() implies c.contains(
        #[trigger] keep_resolved(c, ok)[k],
    ) by {
        let i = choose|i: int|
            0 <= i < c.len() && c[i] == keep_resolved(c, ok)[k] && ok[i];
        assert(c[i] == keep_resolved(c, ok)[k]);
    }
    assert forall|i: int| 0 <= i < c.len() && ok[i] implies keep_resolved(c, ok).contains(
        #[trigger] c[i],
    ) by {
        assert(keep_resolved_upto(c, ok, c.len() as int).contains(c[i]));
    }
}

proof fn lemma_keep_resolved_upto(c: Seq<Subdomain>, ok: Seq<bool>, n: int)
    requires
        c.len() == ok.len(),
        0 <= n <= c.len(),
    ensures
        forall|k: int|
            0 <= k < keep_resolved_upto(c, ok, n).len() ==> resolved_among(
                c,
                ok,
                n,
                #[trigger] keep_resolved_upto(c, ok, n)[k],
            ),
        forall|i: int|
            0 <= i < n && ok[i] ==> keep_resolved_upto(c, ok, n).contains(#[trigger] c[i]),
    decreases n,
{
    if n > 0 {
        lemma_keep_resolved_upto(c, ok, n - 1);
        assert forall|k: int| 0 <= k < keep_resolved_upto(c, ok, n).len() implies resolved_among(
            c,
            ok,
            n,
            #[trigger] keep_resolved_upto(c, ok, n)[k],
        ) by {
            if k < keep_resolved_upto(c, ok, n - 1).len() {
                assert(keep_resolved_upto(c, ok, n)[k] == keep_resolved_upto(c, ok, n - 1)[k]);
                assert(resolved_among(c, ok, n - 1, keep_resolved_upto(c, ok, n - 1)[k]));
                let i = choose|i: int|
                    0 <= i < n - 1 && c[i] == keep_resolved_upto(c, ok, n - 1)[k] && ok[i];
                assert(0 <= i < n && c[i] == keep_resolved_upto(c, ok, n)[k] && ok[i]);
            } else {
                assert(ok[n - 1] && keep_resolved_upto(c, ok, n)[k] == c[n - 1]);
                assert(0 <= n - 1 < n && c[n - 1] == keep_resolved_upto(c, ok, n)[k] && ok[n - 1]);
            }
        }
        assert forall|i: int| 0 <= i < n && ok[i] implies keep_resolved_upto(c, ok, n).contains(
            #[trigger] c[i],
        ) by {
            if i < n - 1 {
                assert(keep_resolved_upto(c, ok, n - 1).contains(c[i]));
                let k = choose|k: int|
                    0 <= k < keep_resolved_upto(c, ok, n - 1).len() && #[trigger] keep_resolved_upto(
                        c,
                        ok,
                        n - 1,
                    )[k] == c[i];
                assert(keep_resolved_upto(c, ok, n)[k] == c[i]);
            } else {
                assert(keep_resolved_upto(c, ok, n)[keep_resolved_upto(c, ok, n - 1).len() as int]
                    == c[n - 1]);
            }
        }
    } else {
        assert(keep_resolved_upto(c, ok, n) =~= Seq::<Subdomain>::empty());
    }
}

/// One task's contribution to the findings: a successful detection is
/// emitted, a clean pass and a failed check contribute nothing.
pub open spec fn finding_of_result(r: Result<Option<HttpFinding>, Error>) -> Seq<HttpFinding> {
    match r {
        Ok(Some(f)) => seq![f],
        _ => Seq::empty(),
    }
}

/// The findings emitted for a batch of check outcomes, in batch order.
pub open spec fn findings_of(results: Seq<Result<Option<HttpFinding>, Error>>) -> Seq<HttpFinding>
    decreases results.len(),
{
    if results.len() == 0 {
        Seq::empty()
    } else {
        findings_of(results.drop_last()) + finding_of_result(results.last())
    }
}

/// Collect the findings of a vulnerability-scan batch: each outcome is
/// handled independently, a detection is kept, a clean pass or an error
/// is discarded.
pub fn collect_findings(results: Vec<Result<Option<HttpFinding>, Error>>) -> (r: Vec<HttpFinding>)
    ensures
        r@ == findings_of(results@),
{
    let ghost all = results@;
    let mut input = results;
    let mut r: Vec<HttpFinding> = Vec::new();
    proof {
        assert(all.skip(0) =~= all);
        assert(all.take(0) =~= Seq::<Result<Option<HttpFinding>, Error>>::empty());
    }
    while input.len() > 0
        invariant
            input@.len() <= all.len(),
            input@ == all.skip(all.len() - input@.len()),
            r@ == findings_of(all.take(all.len() - input@.len())),
        decreases input@.len(),
    {
        let ghost k = all.len() - input@.len();
        let outcome = input.remove(0);
        proof {
            assert(all.skip(k)[0] == all[k]);
            assert(input@ =~= all.skip(k + 1));
            assert(all.take(k + 1).drop_last() =~= all.take(k));
            assert(all.take(k + 1).last() == all[k]);
        }
        match outcome {
            Ok(Some(f)) => {
                r.push(f);
            },
            _ => {},
        }
        proof {
            assert(r@ =~= findings_of(all.take(k + 1)));
        }
    }
    proof {
        assert(all.take(all.len() as int) =~= all);
    }
    r
}

/// A task whose check errored, or ran clean, contributes no finding and
/// takes none away: the batch emits exactly what it would emit without
/// that task.
pub proof fn lemma_check_failure_isolated(
    before: Seq<Result<Option<HttpFinding>, Error>>,
    outcome: Result<Option<HttpFinding>, Error>,
    after: Seq<Result<Option<HttpFinding>, Error>>,
)
    requires
        finding_of_result(outcome) == Seq::<HttpFinding>::empty(),
    ensures
        findings_of(before + seq![outcome] + after) == findings_of(before + after),
    decreases after.len(),
{
    if after.len() == 0 {
        assert((before + seq![outcome] + after).drop_last() =~= before);
        assert((before + seq![outcome] + after).last() == outcome);
        assert(findings_of(before) + finding_of_result(outcome) =~= findings_of(before));
        assert(before + after =~= before);
    } else {
        lemma_check_failure_isolated(before, outcome, after.drop_last());
        assert((before + seq![outcome] + after).drop_last() =~= before + seq![outcome]
            + after.drop_last());
        assert((before + seq![outcome] + after).last() == after.last());
        assert((before + after).drop_last() =~= before + after.drop_last());
        assert((before + after).last() == after.last());
    }
}

/// The base URLs probed for one host: one per open port, in order.
pub open spec fn subdomain_endpoints(s: Subdomain) -> Seq<Seq<char>> {
    s.open_ports@.map_values(|p: Port| endpoint_seq(s.domain@, p.port))
}

/// The base URLs probed for a list of hosts, host by host.
pub open spec fn endpoints_of(subs: Seq<Subdomain>) -> Seq<Seq<char>>
    decreases subs.len(),
{
    if subs.len() == 0 {
        Seq::empty()
    } else {
        endpoints_of(subs.drop_last()) + subdomain_endpoints(subs.last())
    }
}

/// Build the vulnerability stage's input: one base URL for every open
/// port of every host.
pub fn build_endpoints(subs: &Vec<Subdomain>) -> (r: Vec<String>)
    ensures
        r.deep_view() == endpoints_of(subs@),
{
    let mut r: Vec<String> = Vec::new();
    let mut i: usize = 0;
    proof {
        assert(subs@.take(0) =~= Seq::<Subdomain>::empty());
        assert(r.deep_view() =~= endpoints_of(subs@.take(0)));
    }
    while i < subs.len()
        invariant
            i <= subs@.len(),
            r.deep_view() == endpoints_of(subs@.take(i as int)),
        decreases subs@.len() - i,
    {
        let sub = &subs[i];
        let ghost sv = subs@[i as int];
        let mut j: usize = 0;
        while j < sub.open_ports.len()
            invariant
                0 <= i < subs@.len(),
                j <= sub.open_ports@.len(),
                sub == subs@[i as int],
                sv == subs@[i as int],
                r.deep_view() == endpoints_of(subs@.take(i as int)) + subdomain_endpoints(
                    sv,
                ).take(j as int),
            decreases sub.open_ports@.len() - j,
        {
            let ghost old_dv = r.deep_view();
            let endpoint = make_endpoint(sub.domain.as_str(), sub.open_ports[j].port);
            let ghost ev = endpoint@;
            r.push(endpoint);
            proof {
                assert(subdomain_endpoints(sv)[j as int] == ev);
                assert(r.deep_view() =~= old_dv.push(ev));
                assert(subdomain_endpoints(sv).take(j + 1) =~= subdomain_endpoints(sv).take(
                    j as int,
                ).push(ev));
                assert(r.deep_view() =~= endpoints_of(subs@.take(i as int)) + subdomain_endpoints(
                    sv,
                ).take(j + 1));
            }
            j += 1;
        }
        proof {
            assert(subdomain_endpoints(sv).take(sub.open_ports@.len() as int) =~= subdomain_endpoints(
                sv,
            ));
            assert(subs@.take(i + 1).drop_last() =~= subs@.take(i as int));
            assert(subs@.take(i + 1).last() == sv);
            assert(r.deep_view() =~= endpoints_of(subs@.take(i + 1)));
        }
        i += 1;
    }
    proof {
        assert(subs@.take(subs@.len() as int) =~= subs@);
    }
    r
}

/// The vulnerability stage's task list: the cross product of every base
/// URL with every registered check.  The registry holds one check, the
/// directory-listing disclosure, so each endpoint yields one task
/// carrying that check.
pub fn vuln_tasks(endpoints: Vec<String>) -> (r: Vec<(HttpCheck, String)>)
    ensures
        r@.len() == endpoints@.len(),
        forall|k: int|
            0 <= k < r@.len() ==> (#[trigger] r@[k]).0 is DirectoryListing && r@[k].1@
                == endpoints.deep_view()[k],
{
    let ghost dv = endpoints.deep_view();
    let mut r: Vec<(HttpCheck, String)> = Vec::new();
    let mut i: usize = 0;
    while i < endpoints.len()
        invariant
            i <= endpoints@.len(),
            dv == endpoints.deep_view(),
            r@.len() == i,
            forall|k: int|
                0 <= k < r@.len() ==> (#[trigger] r@[k]).0 is DirectoryListing && r@[k].1@ == dv[k],
        decreases endpoints@.len() - i,
    {
        let mut checks = get_http_modules();
        let check = checks.pop().unwrap();
        r.push((check, endpoints[i].clone()));
        i += 1;
    }
    r
}

/// The single-candidate list used when enumeration is skipped: the target
/// itself, with no ports attached yet.
pub fn single_target(target: &str) -> (r: Vec<Subdomain>)
    ensures
        r@.len() == 1,
        r@[0].domain@ == target@,
        r@[0].open_ports@.len() == 0,
{
    let mut r: Vec<Subdomain> = Vec::new();
    r.push(Subdomain { domain: target.to_owned(), open_ports: Vec::new() });
    r
}

/// Wrap candidate names as hosts with no ports attached yet.
pub fn to_subdomains(names: Vec<String>) -> (r: Vec<Subdomain>)
    ensures
        r@.len() == names@.len(),
        forall|k: int|
            0 <= k < r@.len() ==> (#[trigger] r@[k]).domain@ == names.deep_view()[k]
                && r@[k].open_ports@.len() == 0,
{
    let ghost all = names@;
    let ghost dv = names.deep_view();
    let mut input = names;
    let mut r: Vec<Subdomain> = Vec::new();
    proof {
        assert(all.skip(0) =~= all);
    }
    while input.len() > 0
        invariant
            dv.len() == all.len(),
            input@.len() <= all.len(),
            input@ == all.skip(all.len() - input@.len()),
            r@.len() == all.len() - input@.len(),
            forall|k: int| 0 <= k < all.len() ==> #[trigger] dv[k] == all[k]@,
            forall|k: int|
                0 <= k < r@.len() ==> (#[trigger] r@[k]).domain@ == dv[k]
                    && r@[k].open_ports@.len() == 0,
        decreases input@.len(),
    {
        let ghost k = all.len() - input@.len();
        let name = input.remove(0);
        proof {
            assert(all.skip(k)[0] == all[k]);
            assert(input@ =~= all.skip(k + 1));
        }
        r.push(Subdomain { domain: name, open_ports: Vec::new() });
    }
    r
}

/// The total number of open ports found, summed over all hosts.
pub open spec fn total_open_ports(subs: Seq<Subdomain>) -> int
    decreases subs.len(),
{
    if subs.len() == 0 {
        0
    } else {
        total_open_ports(subs.drop_last()) + subs.last().open_ports@.len()
    }
}

/// Count the open ports found, for the end-of-stage report.
pub fn count_open_ports(subs: &Vec<Subdomain>) -> (r: usize)
    requires
        total_open_ports(subs@) <= usize::MAX,
    ensures
        r == total_open_ports(subs@),
{
    let mut r: usize = 0;
    let mut i: usize = 0;
    proof {
        assert(subs@.take(0) =~= Seq::<Subdomain>::empty());
        lemma_total_open_ports_bound(subs@, 0);
    }
    while i < subs.len()
        invariant
            i <= subs@.len(),
            r == total_open_ports(subs@.take(i as int)),
            total_open_ports(subs@) <= usize::MAX,
        decreases subs@.len() - i,
    {
        proof {
            assert(subs@.take(i + 1).drop_last() =~= subs@.take(i as int));
            assert(subs@.take(i + 1).last() == subs@[i as int]);
            lemma_total_open_ports_bound(subs@, i + 1);
        }
        r = r + subs[i].open_ports.len();
        i += 1;
    }
    proof {
        assert(subs@.take(subs@.len() as int) =~= subs@);
    }
    r
}

/// Every prefix's count is at most the whole count.
proof fn lemma_total_open_ports_bound(subs: Seq<Subdomain>, n: int)
    requires
        0 <= n <= subs.len(),
    ensures
        0 <= total_open_ports(subs.take(n)) <= total_open_ports(subs),
    decreases subs.len() - n,
{
    lemma_total_open_ports_nonneg(subs.take(n));
    if n == subs.len() {
        assert(subs.take(n) =~= subs);
    } else {
        lemma_total_open_ports_bound(subs, n + 1);
        assert(subs.take(n + 1).drop_last() =~= subs.take(n));
        lemma_total_open_ports_nonneg(subs.take(n + 1));
    }
}

proof fn lemma_total_open_ports_nonneg(subs: Seq<Subdomain>)
    ensures
        total_open_ports(subs) >= 0,
    decreases subs.len(),
{
    if subs.len() > 0 {
        lemma_total_open_ports_nonneg(subs.drop_last());
    }
}

} // verus!
