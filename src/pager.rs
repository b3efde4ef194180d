//! Who may page: callers whose certificate names exactly one URI that the
//! access list holds.

use vstd::prelude::*;

verus! {

/// The access list of the paging endpoint.
pub struct PagerServiceArgs {
    pub allow_spiffe: Vec<String>,
}

/// One subject alternative name of a client certificate.
pub enum GeneralName {
    Uri(String),
    Other,
}

/// Why a page was refused.
#[derive(Debug, Clone, Copy, PartialEq, Eq, Structural)]
pub enum PageDenied {
    NoClientCertificate,
    UnreadableCertificate,
    /// The certificate does not name exactly one subject alternative name,
    /// or that name is not a URI.
    NoUriSan,
    NotInAcl,
}

/// The paging endpoint's admission rule.
pub struct PagerService {
    acl: Vec<String>,
}

/// The views of some strings.
pub open spec fn string_views(v: Seq<String>) -> Seq<Seq<char>> {
    v.map_values(|s: String| s@)
}

/// The text of a successful outcome, or its error.
pub open spec fn text_result(r: Result<String, PageDenied>) -> Result<Seq<char>, PageDenied> {
    match r {
        Ok(u) => Ok(u@),
        Err(e) => Err(e),
    }
}

/// The outcome for a certificate's subject alternative names (none when it
/// has no such extension) against an access list.
pub open spec fn admission(acl: Seq<Seq<char>>, sans: Option<Vec<GeneralName>>) -> Result<
    Seq<char>,
    PageDenied,
> {
    match sans {
        Some(names) => if names@.len() == 1 {
            match names@[0] {
                GeneralName::Uri(u) => if acl.contains(u@) {
                    Ok(u@)
                } else {
                    Err(PageDenied::NotInAcl)
                },
                GeneralName::Other => Err(PageDenied::NoUriSan),
            }
        } else {
            Err(PageDenied::NoUriSan)
        },
        None => Err(PageDenied::NoUriSan),
    }
}

impl PagerService {
    pub closed spec fn acl(&self) -> Seq<Seq<char>> {
        string_views(self.acl@)
    }

    pub fn new(args: PagerServiceArgs) -> (r: PagerService)
        ensures
            r.acl() == string_views(args.allow_spiffe@),
    {
        PagerService { acl: args.allow_spiffe }
    }

    /// Whether the access list holds `uri`.
    pub fn admits(&self, uri: &String) -> (r: bool)
        ensures
            r == self.acl().contains(uri@),
    {
        let mut i: usize = 0;
        while i < self.acl.len()
            invariant
                i <= self.acl@.len(),
                forall|j: int| 0 <= j < i ==> self.acl@[j]@ != uri@,
            decreases self.acl.len() - i,
        {
            if self.acl[i] == *uri {
                assert(self.acl()[i as int] == uri@);
                return true;
            }
            i = i + 1;
        }
        proof {
            if self.acl().contains(uri@) {
                let k = choose|k: int| 0 <= k < self.acl().len() && self.acl()[k] == uri@;
                assert(self.acl@[k]@ == uri@);
            }
        }
        false
    }

    /// Decides a page from the certificate's subject alternative names;
    /// on admission gives the URI that was admitted.
    pub fn authorize(&self, sans: Option<Vec<GeneralName>>) -> (r: Result<String, PageDenied>)
        ensures
            text_result(r) == admission(self.acl(), sans),
    {
        match sans {
            None => Err(PageDenied::NoUriSan),
            Some(names) => {
                if names.len() != 1 {
                    return Err(PageDenied::NoUriSan);
                }
                match &names[0] {
                    GeneralName::Uri(u) => {
                        if self.admits(u) {
                            Ok(u.clone())
                        } else {
                            Err(PageDenied::NotInAcl)
                        }
                    },
                    GeneralName::Other => Err(PageDenied::NoUriSan),
                }
            },
        }
    }
}

} // verus!
