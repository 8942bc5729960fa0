//! The module abstraction of the pipeline and its data model.
//!
//! Two capabilities exist: subdomain enumerators (given a target domain,
//! propose candidate names) and HTTP checks (given a fetched response,
//! decide whether a finding is present).  Every module carries a name and
//! a description used for reporting.  The registries return fixed,
//! statically-known lists of instances; dispatch is a match over a closed
//! set of variants.
//!
//! A module's network traffic is performed by the caller: an enumerator
//! states here which URL it wants fetched (`query_url`) and how the
//! decoded response is turned into candidate names (`extract`); a check
//! states which URL it probes (`check_url`) and what it concludes from
//! the fetched body (`check_response`).

use vstd::prelude::*;

use crate::crtsh::Crtsh;
use crate::directory_listing_disclosure::DirectoryListingDisclosure;
use crate::error::Error;
use crate::strutil::distinct_seq;

verus! {

/// A port probed on one host, with the findings later attached to it.
#[derive(Debug, Clone, PartialEq, Eq)]
pub struct Port {
    pub port: u16,
    pub is_open: bool,
    pub findings: Vec<HttpFinding>,
}

impl Port {
    /// Findings are only ever attached to an open port.
    pub open spec fn wf(&self) -> bool {
        !self.is_open ==> self.findings@.len() == 0
    }
}

/// A candidate subdomain and, once the port scanner has run, its open ports.
#[derive(Debug, Clone, PartialEq, Eq)]
pub struct Subdomain {
    pub domain: String,
    pub open_ports: Vec<Port>,
}

impl Subdomain {
    /// Every port retained in `open_ports` accepted a connection; closed
    /// ports are filtered out, never stored.
    pub open spec fn wf(&self) -> bool {
        forall|i: int|
            0 <= i < self.open_ports@.len() ==> (#[trigger] self.open_ports@[i]).is_open
                && self.open_ports@[i].wf()
    }
}

/// One row of the certificate-transparency log service's response: a
/// newline-separated list of names.
#[derive(Debug, Clone, PartialEq, Eq)]
pub struct CrtShEntry {
    pub name_value: String,
}

/// A structured report that a check detected its condition at an endpoint.
/// One variant per registered check; the payload is the affected URL.
#[derive(Debug, Clone, PartialEq, Eq)]
pub enum HttpFinding {
    DirectoryListingDisclosure(String),
    DotEnvDisclosure(String),
    DsStoreDisclosure(String),
    TraefikDashboardUnauthenticatedAccess(String),
    PrometheusDashboardUnauthenticatedAccess(String),
    KibanaUnauthenticatedAccess(String),
    GitlabOpenRegistrations(String),
    GitHeadDisclosure(String),
    GitDirectoryDisclosure(String),
    GitConfigDisclosure(String),
    EtcdUnauthenticatedAccess(String),
    Cve2017_9506(String),
    Cve2018_7600(String),
    ElasticsearchUnauthenticatedAccess(String),
}

/// An enumerator's HTTP response, decoded by the caller into the plain
/// shape that the module's schema prescribes.
#[derive(Debug, Clone, PartialEq, Eq)]
pub enum EnumeratorResponse {
    /// Rows of the certificate-transparency log service.
    Crtsh(Vec<CrtShEntry>),
    /// Rows of the historical-web-archive index service.
    WebArchive(Vec<Vec<String>>),
}

/// The capability common to all modules: a name and a description,
/// used only for reporting, never for dispatch.
pub trait Module {
    spec fn spec_name(&self) -> Seq<char>;

    spec fn spec_description(&self) -> Seq<char>;

    fn name(&self) -> (r: String)
        ensures
            r@ == self.spec_name(),
    ;

    fn description(&self) -> (r: String)
        ensures
            r@ == self.spec_description(),
    ;
}

/// A subdomain enumerator: it names the URL to fetch for a target and
/// turns the decoded response into a duplicate-free list of candidates.
pub trait SubdomainModule: Module {
    /// The URL whose response the module wants to inspect.
    spec fn spec_query_url(&self, target: Seq<char>) -> Seq<char>;

    /// Whether the decoded response has the shape this module's service
    /// produces; any other shape is a per-module error.
    spec fn accepts(&self, response: EnumeratorResponse) -> bool;

    /// The set of candidate names the module extracts from a response.
    spec fn spec_candidates(&self, response: EnumeratorResponse, target: Seq<char>) -> Set<
        Seq<char>,
    >;

    fn query_url(&self, target: &str) -> (r: String)
        ensures
            r@ == self.spec_query_url(target@),
    ;

    fn extract(&self, response: &EnumeratorResponse, target: &str) -> (r: Result<
        Vec<String>,
        Error,
    >)
        ensures
            self.accepts(*response) ==> (r matches Ok(v) && v.deep_view().to_set()
                == self.spec_candidates(*response, target@) && distinct_seq(v.deep_view())),
            !self.accepts(*response) ==> (r matches Err(e) && (e matches Error::InvalidHttpResponse(
                m,
            ) && m@ == self.spec_name())),
    ;
}

/// An HTTP check: it names the URL to probe under an endpoint and decides,
/// from the fetched response, whether its condition is present.
pub trait HttpModule: Module {
    /// Whether a response body exhibits the condition this check detects.
    spec fn spec_detects(&self, body: Seq<char>) -> bool;

    /// The finding this check emits for an affected URL.
    spec fn spec_finding(&self, url: Seq<char>, f: HttpFinding) -> bool;

    /// The URL probed under `endpoint`.
    fn check_url(&self, endpoint: &str) -> (r: String)
        ensures
            r@ == endpoint@ + "/"@,
    ;

    /// The check's verdict on a fetched response: a finding exactly when
    /// the request succeeded and the body exhibits the condition.
    fn check_response(&self, url: String, success: bool, body: &str) -> (r: Option<HttpFinding>)
        ensures
            (r is Some) == (success && self.spec_detects(body@)),
            r matches Some(f) ==> self.spec_finding(url@, f),
    ;
}

/// The registered subdomain enumerators, as a closed set of variants.
#[derive(Debug)]
pub enum SubdomainEnumerator {
    Crtsh(Crtsh),
    WebArchive(crate::web_archive::WebArchive),
}

impl Module for SubdomainEnumerator {
    open spec fn spec_name(&self) -> Seq<char> {
        match self {
            SubdomainEnumerator::Crtsh(m) => m.spec_name(),
            SubdomainEnumerator::WebArchive(m) => m.spec_name(),
        }
    }

    open spec fn spec_description(&self) -> Seq<char> {
        match self {
            SubdomainEnumerator::Crtsh(m) => m.spec_description(),
            SubdomainEnumerator::WebArchive(m) => m.spec_description(),
        }
    }

    fn name(&self) -> (r: String) {
        match self {
            SubdomainEnumerator::Crtsh(m) => m.name(),
            SubdomainEnumerator::WebArchive(m) => m.name(),
        }
    }

    fn description(&self) -> (r: String) {
        match self {
            SubdomainEnumerator::Crtsh(m) => m.description(),
            SubdomainEnumerator::WebArchive(m) => m.description(),
        }
    }
}

impl SubdomainModule for SubdomainEnumerator {
    open spec fn spec_query_url(&self, target: Seq<char>) -> Seq<char> {
        match self {
            SubdomainEnumerator::Crtsh(m) => m.spec_query_url(target),
            SubdomainEnumerator::WebArchive(m) => m.spec_query_url(target),
        }
    }

    open spec fn accepts(&self, response: EnumeratorResponse) -> bool {
        match self {
            SubdomainEnumerator::Crtsh(m) => m.accepts(response),
            SubdomainEnumerator::WebArchive(m) => m.accepts(response),
        }
    }

    open spec fn spec_candidates(&self, response: EnumeratorResponse, target: Seq<char>) -> Set<
        Seq<char>,
    > {
        match self {
            SubdomainEnumerator::Crtsh(m) => m.spec_candidates(response, target),
            SubdomainEnumerator::WebArchive(m) => m.spec_candidates(response, target),
        }
    }

    fn query_url(&self, target: &str) -> (r: String) {
        match self {
            SubdomainEnumerator::Crtsh(m) => m.query_url(target),
            SubdomainEnumerator::WebArchive(m) => m.query_url(target),
        }
    }

    fn extract(&self, response: &EnumeratorResponse, target: &str) -> (r: Result<
        Vec<String>,
        Error,
    >) {
        match self {
            SubdomainEnumerator::Crtsh(m) => m.extract(response, target),
            SubdomainEnumerator::WebArchive(m) => m.extract(response, target),
        }
    }
}

/// The registered HTTP checks, as a closed set of variants.
#[derive(Debug)]
pub enum HttpCheck {
    DirectoryListing(DirectoryListingDisclosure),
}

impl Module for HttpCheck {
    open spec fn spec_name(&self) -> Seq<char> {
        match self {
            HttpCheck::DirectoryListing(m) => m.spec_name(),
        }
    }

    open spec fn spec_description(&self) -> Seq<char> {
        match self {
            HttpCheck::DirectoryListing(m) => m.spec_description(),
        }
    }

    fn name(&self) -> (r: String) {
        match self {
            HttpCheck::DirectoryListing(m) => m.name(),
        }
    }

    fn description(&self) -> (r: String) {
        match self {
            HttpCheck::DirectoryListing(m) => m.description(),
        }
    }
}

impl HttpModule for HttpCheck {
    open spec fn spec_detects(&self, body: Seq<char>) -> bool {
        match self {
            HttpCheck::DirectoryListing(m) => m.spec_detects(body),
        }
    }

    open spec fn spec_finding(&self, url: Seq<char>, f: HttpFinding) -> bool {
        match self {
            HttpCheck::DirectoryListing(m) => m.spec_finding(url, f),
        }
    }

    fn check_url(&self, endpoint: &str) -> (r: String) {
        match self {
            HttpCheck::DirectoryListing(m) => m.check_url(endpoint),
        }
    }

    fn check_response(&self, url: String, success: bool, body: &str) -> (r: Option<HttpFinding>) {
        match self {
            HttpCheck::DirectoryListing(m) => m.check_response(url, success, body),
        }
    }
}

/// The fixed list of registered subdomain enumerators.
pub fn get_subdomain_modules() -> (r: Vec<SubdomainEnumerator>)
    ensures
        r@.len() == 2,
        r@[0] is Crtsh,
        r@[1] is WebArchive,
{
    let mut r: Vec<SubdomainEnumerator> = Vec::new();
    r.push(SubdomainEnumerator::Crtsh(Crtsh::new()));
    r.push(SubdomainEnumerator::WebArchive(crate::web_archive::WebArchive::new()));
    r
}

/// The fixed list of registered HTTP checks.
pub fn get_http_modules() -> (r: Vec<HttpCheck>)
    ensures
        r@.len() == 1,
        r@[0] is DirectoryListing,
{
    let mut r: Vec<HttpCheck> = Vec::new();
    r.push(HttpCheck::DirectoryListing(DirectoryListingDisclosure::new()));
    r
}

} // verus!
