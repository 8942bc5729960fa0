use modular_scanner::directory_listing_disclosure::DirectoryListingDisclosure;
use modular_scanner::modules::{HttpFinding, HttpModule, Module};

#[test]
fn is_directory_listing_1() {
    let module = DirectoryListingDisclosure::new();
    let body = "<html><head><title>Index of /</title></head><body></body></html>";
    assert!(module.is_directory_listing(body.to_string()).unwrap());
}

#[test]
fn is_directory_listing_2() {
    let module = DirectoryListingDisclosure::new();
    let body = "Content <title>Index of /foo</title>";
    assert!(module.is_directory_listing(body.to_string()).unwrap());
}

#[test]
fn is_not_directory_listing_1() {
    let module = DirectoryListingDisclosure::new();
    let body = "<html><head><title>Not a directory listing</title></head><body></body></html>";
    assert!(!module.is_directory_listing(body.to_string()).unwrap());
}

#[test]
fn is_not_directory_listing_2() {
    let module = DirectoryListingDisclosure::new();
    let body = "Content <title>Not a Index of</title>";
    assert!(!module.is_directory_listing(body.to_string()).unwrap());
}

#[test]
fn title_interrupted_by_newline_is_not_a_listing() {
    let module = DirectoryListingDisclosure::new();
    let body = "<title>Index of /foo\n</title>";
    assert!(!module.is_directory_listing(body.to_string()).unwrap());
}

#[test]
fn check_response_reports_the_probed_url() {
    let module = DirectoryListingDisclosure::new();
    let url = module.check_url("http://example.test:80");
    assert_eq!(url, "http://example.test:80/");
    let body = "<title>Index of /</title>";
    let finding = module.check_response(url.clone(), true, body);
    assert_eq!(
        finding,
        Some(HttpFinding::DirectoryListingDisclosure("http://example.test:80/".to_string()))
    );
    // A non-success response yields nothing, whatever the body says.
    assert_eq!(module.check_response(url, false, body), None);
}

#[test]
fn module_descriptor() {
    let module = DirectoryListingDisclosure::new();
    assert_eq!(module.name(), "http/directory_listing");
    assert_eq!(
        module.description(),
        "Checks for directory listing, which can potentially leak info"
    );
}
