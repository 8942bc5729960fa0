use modular_scanner::common_ports::{select_ports, MOST_COMMON_PORTS};
use modular_scanner::modules::{
    get_http_modules, get_subdomain_modules, CrtShEntry, EnumeratorResponse, HttpFinding,
    HttpModule, Module, Port, SubdomainModule,
};
use modular_scanner::pipeline::{
    build_endpoints, collect_findings, dedupe_and_filter, filter_resolved, next_stage, resolves,
    single_target, count_open_ports, PipelineStage, ScanConfig,
};
use modular_scanner::ports::{scan_port, scan_ports};
use modular_scanner::Error;

fn sorted(mut v: Vec<String>) -> Vec<String> {
    v.sort();
    v
}

#[test]
fn dedupe_and_filter_collapses_duplicates_and_keeps_only_matches() {
    let lists = vec![
        vec![
            "a.example.test".to_string(),
            "b.example.test".to_string(),
            "a.example.test".to_string(),
            "unrelated.org".to_string(),
        ],
        vec!["a.example.test".to_string(), "example.test".to_string()],
    ];
    let out = dedupe_and_filter(&lists, "example.test");
    assert_eq!(
        sorted(out),
        vec![
            "a.example.test".to_string(),
            "b.example.test".to_string(),
            "example.test".to_string(),
        ]
    );
}

#[test]
fn dedupe_and_filter_always_keeps_the_target() {
    let out = dedupe_and_filter(&vec![], "example.test");
    assert_eq!(out, vec!["example.test".to_string()]);
}

#[test]
fn dns_stage_keeps_exactly_the_resolving_candidates() {
    let candidates = single_target("a.example.test")
        .into_iter()
        .chain(single_target("b.example.test"))
        .chain(single_target("c.example.test"))
        .collect::<Vec<_>>();
    let resolved = vec![true, false, true];
    let kept = filter_resolved(candidates, &resolved);
    let names: Vec<String> = kept.iter().map(|s| s.domain.clone()).collect();
    assert_eq!(names, vec!["a.example.test".to_string(), "c.example.test".to_string()]);
}

#[test]
fn resolves_is_a_filter_not_an_error() {
    let sub = single_target("example.test").pop().unwrap();
    assert!(resolves(sub.clone(), true).is_some());
    assert!(resolves(sub, false).is_none());
}

#[test]
fn select_ports_takes_a_prefix_of_the_common_list() {
    assert_eq!(select_ports(0), Vec::<u16>::new());
    assert_eq!(select_ports(2), vec![80, 23]);
    assert_eq!(select_ports(5), vec![80, 23, 443, 21, 22]);
    // A request beyond the list scans only what exists.
    let all = select_ports(u16::MAX);
    assert_eq!(all.len(), MOST_COMMON_PORTS.len());
    assert_eq!(all.as_slice(), MOST_COMMON_PORTS.as_slice());
}

#[test]
fn scan_keeps_only_open_ports() {
    let sub = single_target("example.test").pop().unwrap();
    let probed = vec![scan_port(80, true), scan_port(23, false), scan_port(443, true)];
    let scanned = scan_ports(sub, probed);
    assert_eq!(scanned.domain, "example.test");
    let numbers: Vec<u16> = scanned.open_ports.iter().map(|p| p.port).collect();
    assert_eq!(numbers, vec![80, 443]);
    assert!(scanned.open_ports.iter().all(|p| p.is_open && p.findings.is_empty()));
}

#[test]
fn port_scan_is_idempotent_against_a_static_server() {
    // A server with ports 80 and 443 open and everything else refused:
    // two runs whose probes complete in different orders agree on the
    // open-port set.
    let open = |port: u16| port == 80 || port == 443;
    let first: Vec<Port> =
        vec![scan_port(80, open(80)), scan_port(23, open(23)), scan_port(443, open(443))];
    let second: Vec<Port> =
        vec![scan_port(443, open(443)), scan_port(23, open(23)), scan_port(80, open(80))];
    let run1 = scan_ports(single_target("example.test").pop().unwrap(), first);
    let run2 = scan_ports(single_target("example.test").pop().unwrap(), second);
    let mut set1: Vec<u16> = run1.open_ports.iter().map(|p| p.port).collect();
    let mut set2: Vec<u16> = run2.open_ports.iter().map(|p| p.port).collect();
    set1.sort();
    set2.sort();
    assert_eq!(set1, set2);
    assert_eq!(set1, vec![80, 443]);
}

#[test]
fn vuln_stage_isolates_erroring_checks() {
    // A batch that mixes detections, clean passes and failures: the
    // errors contribute nothing and take nothing away.
    let f1 = HttpFinding::DirectoryListingDisclosure("http://a.example.test:80/".to_string());
    let f2 = HttpFinding::GitConfigDisclosure("http://b.example.test:80/.git/config".to_string());
    let with_errors: Vec<Result<Option<HttpFinding>, Error>> = vec![
        Ok(Some(f1.clone())),
        Err(Error::Reqwest("connection reset".to_string())),
        Ok(None),
        Err(Error::InvalidHttpResponse("http/directory_listing".to_string())),
        Ok(Some(f2.clone())),
    ];
    let without_errors: Vec<Result<Option<HttpFinding>, Error>> =
        vec![Ok(Some(f1.clone())), Ok(None), Ok(Some(f2.clone()))];
    assert_eq!(collect_findings(with_errors), vec![f1.clone(), f2.clone()]);
    assert_eq!(collect_findings(without_errors), vec![f1, f2]);
}

#[test]
fn end_to_end_single_target_two_ports() {
    // Target example.test, enumeration disabled, ports=2, vuln disabled,
    // against a stub resolver that resolves the target and a stub
    // listener open only on port 80 among the first two common ports.
    let target = "example.test";
    let candidates = single_target(target);
    let resolved_flags = vec![true];
    let resolved = filter_resolved(candidates, &resolved_flags);
    assert_eq!(resolved.len(), 1);

    let ports = select_ports(2);
    assert_eq!(ports, vec![80, 23]);
    let listener_open = |port: u16| port == 80;
    let probed: Vec<Port> = ports.iter().map(|p| scan_port(*p, listener_open(*p))).collect();
    let sub = scan_ports(resolved.into_iter().next().unwrap(), probed);

    assert_eq!(sub.domain, "example.test");
    assert_eq!(sub.open_ports, vec![Port { port: 80, is_open: true, findings: vec![] }]);
}

#[test]
fn end_to_end_enumeration_with_stub_services() {
    // A stub certificate-transparency service and a stub archive index
    // service feed the dedupe-and-filter step together with the target.
    let target = "example.test";
    let crtsh = modular_scanner::crtsh::Crtsh::new();
    let crtsh_response = EnumeratorResponse::Crtsh(vec![CrtShEntry {
        name_value: "a.example.test\nb.example.test".to_string(),
    }]);
    let crtsh_names = crtsh.extract(&crtsh_response, target).unwrap();
    assert_eq!(
        sorted(crtsh_names.clone()),
        vec!["a.example.test".to_string(), "b.example.test".to_string()]
    );

    let archive = modular_scanner::web_archive::WebArchive::new();
    let archive_response = EnumeratorResponse::WebArchive(vec![
        vec!["original".to_string()],
        vec!["https://c.example.test/x".to_string()],
    ]);
    let archive_names = archive.extract(&archive_response, target).unwrap();
    assert_eq!(archive_names, vec!["c.example.test".to_string()]);

    let out = dedupe_and_filter(&vec![crtsh_names, archive_names], target);
    assert_eq!(
        sorted(out),
        vec![
            "a.example.test".to_string(),
            "b.example.test".to_string(),
            "c.example.test".to_string(),
            "example.test".to_string(),
        ]
    );
}

#[test]
fn crtsh_extract_trims_and_drops_wildcards_and_the_target() {
    let crtsh = modular_scanner::crtsh::Crtsh::new();
    let response = EnumeratorResponse::Crtsh(vec![
        CrtShEntry { name_value: "  a.example.test \n*.example.test\nexample.test".to_string() },
        CrtShEntry { name_value: "a.example.test".to_string() },
    ]);
    let names = crtsh.extract(&response, "example.test").unwrap();
    assert_eq!(names, vec!["a.example.test".to_string()]);
}

#[test]
fn enumerator_rejects_a_response_of_the_wrong_shape() {
    let crtsh = modular_scanner::crtsh::Crtsh::new();
    let err = crtsh.extract(&EnumeratorResponse::WebArchive(vec![]), "example.test").unwrap_err();
    assert_eq!(err, Error::InvalidHttpResponse("subdomains/crtsh".to_string()));

    let archive = modular_scanner::web_archive::WebArchive::new();
    let err = archive.extract(&EnumeratorResponse::Crtsh(vec![]), "example.test").unwrap_err();
    assert_eq!(err, Error::InvalidHttpResponse("subdomains/web_archive".to_string()));
}

#[test]
fn registry_lists_the_fixed_modules() {
    let subs = get_subdomain_modules();
    let names: Vec<String> = subs.iter().map(|m| m.name()).collect();
    assert_eq!(names, vec!["subdomains/crtsh".to_string(), "subdomains/web_archive".to_string()]);
    assert_eq!(subs[0].description(), "Subdomain enumeration using crt.sh");
    assert_eq!(subs[1].description(), "Subdomain enumeration using web.archive.org");
    assert_eq!(
        subs[0].query_url("example.test"),
        "https://crt.sh/?q=%25.example.test&output=json"
    );
    assert_eq!(
        subs[1].query_url("example.test"),
        "https://web.archive.org/cdx/search/cdx?matchType=domain&fl=original&collapse=urlkey&url=example.test&output=json"
    );

    let checks = get_http_modules();
    let names: Vec<String> = checks.iter().map(|m| m.name()).collect();
    assert_eq!(names, vec!["http/directory_listing".to_string()]);
}

#[test]
fn stage_machine_runs_forward_and_honours_the_flags() {
    let full = ScanConfig { ports: 100, enumerate: true, vuln: true };
    let mut stage = PipelineStage::Start;
    let mut seen = vec![stage];
    while stage != PipelineStage::Done {
        stage = next_stage(&stage, &full);
        seen.push(stage);
    }
    assert_eq!(
        seen,
        vec![
            PipelineStage::Start,
            PipelineStage::Enumerate,
            PipelineStage::DedupeFilter,
            PipelineStage::Resolve,
            PipelineStage::PortScan,
            PipelineStage::VulnScan,
            PipelineStage::Report,
            PipelineStage::Done,
        ]
    );

    let minimal = ScanConfig { ports: 100, enumerate: false, vuln: false };
    assert_eq!(next_stage(&PipelineStage::Start, &minimal), PipelineStage::DedupeFilter);
    assert_eq!(next_stage(&PipelineStage::PortScan, &minimal), PipelineStage::Report);
    assert_eq!(next_stage(&PipelineStage::Done, &minimal), PipelineStage::Done);
}

#[test]
fn endpoints_cover_every_open_port_of_every_host() {
    let mut a = single_target("a.example.test").pop().unwrap();
    a.open_ports =
        vec![Port { port: 80, is_open: true, findings: vec![] }, Port {
            port: 8443,
            is_open: true,
            findings: vec![],
        }];
    let b = single_target("b.example.test").pop().unwrap();
    let mut c = single_target("c.example.test").pop().unwrap();
    c.open_ports = vec![Port { port: 8080, is_open: true, findings: vec![] }];
    let subs = vec![a, b, c];
    assert_eq!(count_open_ports(&subs), 3);
    assert_eq!(
        build_endpoints(&subs),
        vec![
            "http://a.example.test:80".to_string(),
            "http://a.example.test:8443".to_string(),
            "http://c.example.test:8080".to_string(),
        ]
    );
}

#[test]
fn vuln_tasks_cross_every_endpoint_with_every_check() {
    let endpoints =
        vec!["http://a.example.test:80".to_string(), "http://c.example.test:8080".to_string()];
    let tasks = modular_scanner::pipeline::vuln_tasks(endpoints.clone());
    assert_eq!(tasks.len(), endpoints.len());
    for (k, (check, endpoint)) in tasks.iter().enumerate() {
        assert_eq!(check.name(), "http/directory_listing");
        assert_eq!(endpoint, &endpoints[k]);
    }
}

#[test]
fn error_messages_name_their_cause() {
    assert_eq!(
        Error::Reqwest("timed out".to_string()).message(),
        "Reqwest: timed out"
    );
    assert_eq!(
        Error::InvalidHttpResponse("subdomains/crtsh".to_string()).message(),
        "Invalid Http Response: subdomains/crtsh"
    );
    assert_eq!(
        Error::TokioJoinError("cancelled".to_string()).message(),
        "Tokio join error: cancelled"
    );
    assert!(Error::CgiUsage.message().contains("usage"));
}
