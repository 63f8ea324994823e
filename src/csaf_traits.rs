//! Capabilities of a CSAF document that the tests read. Each specification
//! version implements them for its own document types.

use vstd::prelude::*;

verus! {

/// A vulnerability entry of a document.
pub trait VulnerabilityTrait {
    /// The CVE identifier of the entry, if it has one.
    spec fn cve_view(&self) -> Option<Seq<char>>;

    fn get_cve(&self) -> (r: Option<&String>)
        ensures
            match r {
                Some(c) => self.cve_view() == Some(c@),
                None => self.cve_view() is None,
            },
    ;
}

/// A CSAF document.
pub trait CsafTrait {
    type VulnerabilityType: VulnerabilityTrait;

    /// The vulnerability entries, in document order.
    spec fn vulnerabilities_view(&self) -> Seq<Self::VulnerabilityType>;

    fn get_vulnerabilities(&self) -> (r: &Vec<Self::VulnerabilityType>)
        ensures
            r@ == self.vulnerabilities_view(),
    ;
}

/// The CVE identifiers of the vulnerability entries of `doc`, by position.
pub open spec fn cves_of<D: CsafTrait>(doc: &D) -> Seq<Option<Seq<char>>> {
    doc.vulnerabilities_view().map_values(|v: D::VulnerabilityType| v.cve_view())
}

} // verus!
