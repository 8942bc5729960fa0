//! An HTTP check for directory-listing disclosure: a response body whose
//! title tag announces a directory index (`<title>Index of ...</title>`,
//! with no newline inside the title) can leak the served file tree.

use vstd::prelude::*;

use crate::error::Error;
use crate::modules::{HttpFinding, HttpModule, Module};
use crate::strutil::{matches_at, occurs_at};

verus! {

/// The directory-listing check.
#[derive(Debug)]
pub struct DirectoryListingDisclosure {}

/// A directory-listing title starts at `i` and closes at `j`: the opening
/// text at `i`, the closing tag at `j`, and no newline between them.
pub open spec fn dir_listing_at(body: Seq<char>, i: int, j: int) -> bool {
    &&& occurs_at(body, "<title>Index of "@, i)
    &&& i + 16 <= j
    &&& occurs_at(body, "</title>"@, j)
    &&& forall|k: int| i + 16 <= k < j ==> body[k] != '\n'
}

/// Whether `body` holds a directory-listing title anywhere.
pub open spec fn dir_listing_in(body: Seq<char>) -> bool {
    exists|i: int, j: int| dir_listing_at(body, i, j)
}

impl DirectoryListingDisclosure {
    pub fn new() -> (r: Self) {
        DirectoryListingDisclosure {  }
    }

    /// Whether `body` announces a directory index in its title.
    pub fn is_directory_listing(&self, body: String) -> (r: Result<bool, Error>)
        ensures
            r matches Ok(b) && b == dir_listing_in(body@),
    {
        let opening = "<title>Index of ";
        let closing = "</title>";
        proof {
            reveal_strlit("<title>Index of ");
            reveal_strlit("</title>");
        }
        let s = body.as_str();
        let len = s.unicode_len();
        if len < 16 {
            proof {
                assert forall|i: int, j: int| !dir_listing_at(s@, i, j) by {}
            }
            return Ok(false);
        }
        let mut i: usize = 0;
        while i <= len - 16
            invariant
                s@ == body@,
                len == s@.len(),
                16 <= len <= usize::MAX,
                opening@ == "<title>Index of "@,
                closing@ == "</title>"@,
                opening@.len() == 16,
                closing@.len() == 8,
                i <= len - 16 + 1,
                forall|ii: int, j: int| ii < i ==> !dir_listing_at(s@, ii, j),
            decreases len - i,
        {
            if matches_at(s, opening, i) {
                // The opening text stands at `i`; look for the closing tag
                // before the next newline.
                let mut j: usize = i + 16;
                let mut blocked = false;
                while j <= len - 8 && !blocked
                    invariant
                        s@ == body@,
                        len == s@.len(),
                        16 <= len <= usize::MAX,
                        opening@ == "<title>Index of "@,
                        closing@ == "</title>"@,
                        opening@.len() == 16,
                        closing@.len() == 8,
                        i + 16 <= j <= len,
                        occurs_at(s@, opening@, i as int),
                        forall|k: int| i + 16 <= k < j ==> s@[k] != '\n',
                        forall|jj: int| i + 16 <= jj < j ==> !occurs_at(s@, closing@, jj),
                        blocked ==> j + 8 <= len && s@[j as int] == '\n' && !occurs_at(
                            s@,
                            closing@,
                            j as int,
                        ),
                    decreases len - j, 1int - if blocked { 1int } else { 0int },
                {
                    if matches_at(s, closing, j) {
                        proof {
                            assert(dir_listing_at(s@, i as int, j as int));
                            assert(dir_listing_in(body@));
                        }
                        return Ok(true);
                    }
                    if s.get_char(j) == '\n' {
                        // No closing tag can follow this newline for this
                        // opening position.
                        blocked = true;
                    } else {
                        j += 1;
                    }
                }
                proof {
                    if blocked {
                        assert forall|jj: int| !dir_listing_at(s@, i as int, jj) by {
                            if jj > j {
                                assert(i + 16 <= j < jj && s@[j as int] == '\n');
                            }
                        }
                    } else {
                        assert forall|jj: int| !dir_listing_at(s@, i as int, jj) by {
                            if occurs_at(s@, closing@, jj) {
                                assert(jj + 8 <= len);
                            }
                        }
                    }
                }
            }
            i += 1;
        }
        proof {
            assert forall|ii: int, j: int| !dir_listing_at(s@, ii, j) by {
                if occurs_at(s@, opening@, ii) {
                    assert(0 <= ii && ii + 16 <= len);
                }
            }
        }
        Ok(false)
    }
}

impl Module for DirectoryListingDisclosure {
    open spec fn spec_name(&self) -> Seq<char> {
        "http/directory_listing"@
    }

    open spec fn spec_description(&self) -> Seq<char> {
        "Checks for directory listing, which can potentially leak info"@
    }

    fn name(&self) -> (r: String) {
        String::from_str("http/directory_listing")
    }

    fn description(&self) -> (r: String) {
        String::from_str("Checks for directory listing, which can potentially leak info")
    }
}

impl HttpModule for DirectoryListingDisclosure {
    open spec fn spec_detects(&self, body: Seq<char>) -> bool {
        dir_listing_in(body)
    }

    open spec fn spec_finding(&self, url: Seq<char>, f: HttpFinding) -> bool {
        f matches HttpFinding::DirectoryListingDisclosure(u) && u@ == url
    }

    fn check_url(&self, endpoint: &str) -> (r: String) {
        let mut s = endpoint.to_owned();
        s.append("/");
        s
    }

    fn check_response(&self, url: String, success: bool, body: &str) -> (r: Option<HttpFinding>) {
        if !success {
            return None;
        }
        match self.is_directory_listing(body.to_owned()) {
            Ok(true) => Some(HttpFinding::DirectoryListingDisclosure(url)),
            _ => None,
        }
    }
}

} // verus!
