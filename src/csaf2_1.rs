//! CSAF 2.1 documents and their test catalogues.

use vstd::prelude::*;
use crate::catalogue::TierLayout;
use crate::csaf_traits::{cves_of, CsafTrait, VulnerabilityTrait};
use crate::registry::{lemma_preset_ids_distinct, lemma_resolve_findings_bounded, Registry};
use crate::validation::{
    string_views, Outcome, TestResult, TestRun, Tier, Validatable, Validate, ValidationPreset,
    ValidationResult,
};
use crate::validation;
use crate::validation::{counts_fit, findings_count, lemma_counts_fit_by_length, lemma_counts_fit_distinct};

verus! {

/// A vulnerability entry of a CSAF 2.1 document.
#[derive(Debug, Clone)]
pub struct Vulnerability {
    pub cve: Option<String>,
}

/// A CSAF 2.1 document, as far as the tests read it.
#[derive(Debug, Clone)]
pub struct CommonSecurityAdvisoryFramework {
    pub vulnerabilities: Vec<Vulnerability>,
}

impl VulnerabilityTrait for Vulnerability {
    open spec fn cve_view(&self) -> Option<Seq<char>> {
        match self.cve {
            Some(c) => Some(c@),
            None => None,
        }
    }

    fn get_cve(&self) -> (r: Option<&String>) {
        self.cve.as_ref()
    }
}

impl CsafTrait for CommonSecurityAdvisoryFramework {
    type VulnerabilityType = Vulnerability;

    open spec fn vulnerabilities_view(&self) -> Seq<Vulnerability> {
        self.vulnerabilities@
    }

    fn get_vulnerabilities(&self) -> (r: &Vec<Vulnerability>) {
        &self.vulnerabilities
    }
}

/// The catalogues of this version are well formed, so the laws of
/// [`Registry`] hold of them.
pub proof fn lemma_registry_wf()
    ensures
        registry().wf(),
{
}

/// A preset validation of a document counts its findings in a `usize`: only
/// the test `6.1.23` reports findings, at most one per vulnerability entry,
/// and a preset runs it at most once.
pub proof fn lemma_preset_counts_fit(doc: &CommonSecurityAdvisoryFramework, preset: ValidationPreset)
    requires
        doc.vulnerabilities@.len() <= usize::MAX,
    ensures
        counts_fit(doc, doc.preset_test_ids(preset)),
{
    let cves = cves_of(doc);
    assert forall|id: Seq<char>| findings_count(#[trigger] doc.test_outcome(id)) <= cves.len() && (id
        != "6.1.23"@ ==> findings_count(doc.test_outcome(id)) == 0) by {
        lemma_resolve_findings_bounded(registry(), cves, id);
    }
    lemma_preset_ids_distinct(registry(), preset);
    lemma_counts_fit_distinct(doc, doc.preset_test_ids(preset), "6.1.23"@, cves.len());
}

/// A validation of a document by explicit test IDs counts its findings in a
/// `usize` when the number of IDs times the number of vulnerability entries
/// fits in one.
pub proof fn lemma_tests_counts_fit(doc: &CommonSecurityAdvisoryFramework, ids: Seq<Seq<char>>)
    requires
        ids.len() * doc.vulnerabilities@.len() <= usize::MAX,
    ensures
        counts_fit(doc, ids),
{
    let cves = cves_of(doc);
    assert forall|id: Seq<char>| findings_count(#[trigger] doc.test_outcome(id)) <= cves.len() by {
        lemma_resolve_findings_bounded(registry(), cves, id);
    }
    lemma_counts_fit_by_length(doc, ids, cves.len());
}

/// The catalogues of CSAF 2.1.
pub open spec fn registry() -> Registry {
    Registry {
        mandatory: TierLayout { section: 1, last: 56, split: 27, split_count: 19, skipped: 0 },
        recommended: TierLayout { section: 2, last: 47, split: 39, split_count: 4, skipped: 10 },
        informative: TierLayout { section: 3, last: 18, split: 0, split_count: 0, skipped: 0 },
    }
}

/// The catalogues of CSAF 2.1.
pub fn tests_registry() -> (r: Registry)
    ensures
        r == registry(),
        r.wf(),
{
    Registry {
        mandatory: TierLayout { section: 1, last: 56, split: 27, split_count: 19, skipped: 0 },
        recommended: TierLayout { section: 2, last: 47, split: 39, split_count: 4, skipped: 10 },
        informative: TierLayout { section: 3, last: 18, split: 0, split_count: 0, skipped: 0 },
    }
}

/// The identifiers of the mandatory tests.
pub fn mandatory_tests() -> (r: Vec<String>)
    ensures
        string_views(r@) == registry().ids(Tier::Mandatory),
{
    tests_registry().tier_tests(Tier::Mandatory)
}

/// The identifiers of the recommended tests.
pub fn recommended_tests() -> (r: Vec<String>)
    ensures
        string_views(r@) == registry().ids(Tier::Recommended),
{
    tests_registry().tier_tests(Tier::Recommended)
}

/// The identifiers of the informative tests.
pub fn informative_tests() -> (r: Vec<String>)
    ensures
        string_views(r@) == registry().ids(Tier::Informative),
{
    tests_registry().tier_tests(Tier::Informative)
}

impl Validatable<CommonSecurityAdvisoryFramework> for CommonSecurityAdvisoryFramework {
    open spec fn preset_test_ids(&self, preset: ValidationPreset) -> Seq<Seq<char>> {
        registry().preset_ids(preset)
    }

    open spec fn test_outcome(&self, test_id: Seq<char>) -> Outcome {
        registry().resolve(cves_of(self), test_id)
    }

    fn tests_in_preset(&self, preset: &ValidationPreset) -> (r: Vec<String>) {
        tests_registry().tests_in_preset(preset)
    }

    fn run_test(&self, test_id: &str) -> (r: TestResult) {
        tests_registry().run_test(self, test_id)
    }
}

impl Validate<CommonSecurityAdvisoryFramework> for CommonSecurityAdvisoryFramework {
    fn validate_by_test(&self, test_id: &str) -> (r: TestResult) {
        validation::validate_by_test(self, test_id)
    }

    fn validate_by_tests(&self, version: &str, preset: ValidationPreset, test_ids: &[&str]) -> (r:
        ValidationResult) {
        validation::validate_by_tests(self, version, preset, test_ids)
    }

    fn validate_by_preset(&self, version: &str, preset: ValidationPreset) -> (r: ValidationResult) {
        validation::validate_by_preset(self, version, preset)
    }
}

} // verus!
