//! The tests of one specification version: the catalogues of its three
//! tiers, preset expansion, and the resolution of a test identifier to the
//! outcome of its check.

use vstd::prelude::*;
use crate::catalogue::{catalogue, id_prefix, lemma_catalogue, tier_catalogue, tier_contains, TierLayout};
use crate::text::{decimal, digit_char};
use crate::csaf_traits::{cves_of, CsafTrait};
use crate::text::str_equal;
use crate::validation::{
    findings_count, findings_of, string_views, tier_outcome, Finding, Outcome, TestResult, TestResultStatus,
    TestRun, Tier, ValidationError, ValidationPreset,
};
use crate::validations::test_6_1_23::{
    lemma_findings_bounded, multiple_use_of_same_cve, test_6_1_23_multiple_use_of_same_cve,
};

verus! {

/// The catalogue layouts of the three tiers of a version.
#[derive(Debug, Clone, Copy)]
pub struct Registry {
    pub mandatory: TierLayout,
    pub recommended: TierLayout,
    pub informative: TierLayout,
}

impl Registry {
    /// Each tier's identifiers lie in its own section: 1, 2 and 3.
    pub open spec fn wf(&self) -> bool {
        &&& self.mandatory.wf() && self.mandatory.section == 1
        &&& self.recommended.wf() && self.recommended.section == 2
        &&& self.informative.wf() && self.informative.section == 3
    }

    pub open spec fn layout(&self, tier: Tier) -> TierLayout {
        match tier {
            Tier::Mandatory => self.mandatory,
            Tier::Recommended => self.recommended,
            Tier::Informative => self.informative,
        }
    }

    /// The catalogue of a tier.
    pub open spec fn ids(&self, tier: Tier) -> Seq<Seq<char>> {
        catalogue(self.layout(tier))
    }

    /// The first tier, in priority order, whose catalogue holds `id`.
    pub open spec fn tier_of(&self, id: Seq<char>) -> Option<Tier> {
        if self.ids(Tier::Mandatory).contains(id) {
            Some(Tier::Mandatory)
        } else if self.ids(Tier::Recommended).contains(id) {
            Some(Tier::Recommended)
        } else if self.ids(Tier::Informative).contains(id) {
            Some(Tier::Informative)
        } else {
            None
        }
    }

    /// The identifiers run for a preset: the catalogues of its tiers, in priority order.
    pub open spec fn preset_ids(&self, preset: ValidationPreset) -> Seq<Seq<char>> {
        match preset {
            ValidationPreset::Basic => self.ids(Tier::Mandatory),
            ValidationPreset::Extended => self.ids(Tier::Mandatory) + self.ids(Tier::Recommended),
            ValidationPreset::Full => self.ids(Tier::Mandatory) + self.ids(Tier::Recommended)
                + self.ids(Tier::Informative),
        }
    }

    /// The outcome of the test `id` on a document whose CVE identifiers are `cves`.
    pub open spec fn resolve(&self, cves: Seq<Option<Seq<char>>>, id: Seq<char>) -> Outcome {
        match self.tier_of(id) {
            Some(t) => match implemented_check(t, id, cves) {
                Some(res) => tier_outcome(t, res),
                None => Outcome::NotFound,
            },
            None => Outcome::NotFound,
        }
    }
}

/// The result of the check implemented for `id` in `tier`, if there is one,
/// on a document whose CVE identifiers are `cves`.
pub open spec fn implemented_check(tier: Tier, id: Seq<char>, cves: Seq<Option<Seq<char>>>) -> Option<
    Result<(), Seq<Finding>>,
> {
    if tier == Tier::Mandatory && id == "6.1.23"@ {
        Some(multiple_use_of_same_cve(cves))
    } else {
        None
    }
}

pub open spec fn result_view(res: Result<(), Vec<ValidationError>>) -> Result<(), Seq<Finding>> {
    match res {
        Ok(()) => Ok(()),
        Err(v) => Err(findings_of(v@)),
    }
}

/// Runs the check implemented for `id` in `tier`, if there is one.
fn run_check<D: CsafTrait>(tier: Tier, doc: &D, id: &str) -> (r: Option<
    Result<(), Vec<ValidationError>>,
>)
    ensures
        match r {
            Some(res) => implemented_check(tier, id@, cves_of(doc)) == Some(result_view(res)),
            None => implemented_check(tier, id@, cves_of(doc)) is None,
        },
{
    if tier == Tier::Mandatory && str_equal(id, "6.1.23") {
        let res = test_6_1_23_multiple_use_of_same_cve(doc);
        Some(res)
    } else {
        None
    }
}

/// Wraps the result of a check of `tier`: its findings go to that tier's bucket.
fn status_of(tier: Tier, res: Option<Result<(), Vec<ValidationError>>>) -> (r: TestResultStatus)
    ensures
        r@ == match res {
            Some(x) => tier_outcome(tier, result_view(x)),
            None => Outcome::NotFound,
        },
{
    match res {
        None => TestResultStatus::NotFound,
        Some(Ok(())) => TestResultStatus::Success,
        Some(Err(findings)) => {
            let r = match tier {
                Tier::Mandatory => TestResultStatus::Failure {
                    errors: findings,
                    warnings: Vec::new(),
                    infos: Vec::new(),
                },
                Tier::Recommended => TestResultStatus::Failure {
                    errors: Vec::new(),
                    warnings: findings,
                    infos: Vec::new(),
                },
                Tier::Informative => TestResultStatus::Failure {
                    errors: Vec::new(),
                    warnings: Vec::new(),
                    infos: findings,
                },
            };
            assert(findings_of(Seq::<ValidationError>::empty()) =~= Seq::<Finding>::empty());
            r
        },
    }
}

impl Registry {
    /// Returns the catalogue of a tier.
    pub fn tier_tests(&self, tier: Tier) -> (r: Vec<String>)
        requires
            self.wf(),
        ensures
            string_views(r@) == self.ids(tier),
    {
        match tier {
            Tier::Mandatory => tier_catalogue(&self.mandatory),
            Tier::Recommended => tier_catalogue(&self.recommended),
            Tier::Informative => tier_catalogue(&self.informative),
        }
    }

    /// Returns the test IDs belonging to a preset.
    pub fn tests_in_preset(&self, preset: &ValidationPreset) -> (r: Vec<String>)
        requires
            self.wf(),
        ensures
            string_views(r@) == self.preset_ids(*preset),
    {
        let mut r = self.tier_tests(Tier::Mandatory);
        let ghost m = r@;
        if *preset != ValidationPreset::Basic {
            let mut rec = self.tier_tests(Tier::Recommended);
            let ghost rv = rec@;
            r.append(&mut rec);
            assert(string_views(r@) =~= string_views(m) + string_views(rv));
            if *preset == ValidationPreset::Full {
                let ghost mr = r@;
                let mut inf = self.tier_tests(Tier::Informative);
                let ghost iv = inf@;
                r.append(&mut inf);
                assert(string_views(r@) =~= string_views(mr) + string_views(iv));
            }
        }
        r
    }

    /// Runs a test by test ID: the first tier whose catalogue holds the ID
    /// decides, and an ID without an implementation in that tier is not found.
    /// Membership is decided from the ID's numbers and the tier layouts, so no
    /// catalogue is built.
    pub fn run_test<D: CsafTrait>(&self, doc: &D, test_id: &str) -> (r: TestResult)
        requires
            self.wf(),
        ensures
            r@ == (TestRun { test_id: test_id@, outcome: self.resolve(cves_of(doc), test_id@) }),
    {
        let status = if tier_contains(&self.mandatory, test_id) {
            status_of(Tier::Mandatory, run_check(Tier::Mandatory, doc, test_id))
        } else if tier_contains(&self.recommended, test_id) {
            status_of(Tier::Recommended, run_check(Tier::Recommended, doc, test_id))
        } else if tier_contains(&self.informative, test_id) {
            status_of(Tier::Informative, run_check(Tier::Informative, doc, test_id))
        } else {
            TestResultStatus::NotFound
        };
        TestResult { test_id: test_id.to_string(), status }
    }
}

/// A test reports at most one finding per vulnerability entry, and only the
/// test `6.1.23` reports any.
pub proof fn lemma_resolve_findings_bounded(reg: Registry, cves: Seq<Option<Seq<char>>>, id: Seq<char>)
    ensures
        findings_count(reg.resolve(cves, id)) <= cves.len(),
        id != "6.1.23"@ ==> findings_count(reg.resolve(cves, id)) == 0,
{
    lemma_findings_bounded(cves);
}

/// Identifiers of different tiers of a registry differ: each starts with the
/// section of its tier.
proof fn lemma_tiers_disjoint(reg: Registry, t1: Tier, t2: Tier, i: int, j: int)
    requires
        reg.wf(),
        t1 != t2,
        0 <= i < reg.ids(t1).len(),
        0 <= j < reg.ids(t2).len(),
    ensures
        reg.ids(t1)[i] != reg.ids(t2)[j],
{
    let l1 = reg.layout(t1);
    let l2 = reg.layout(t2);
    lemma_catalogue(l1);
    lemma_catalogue(l2);
    let x = reg.ids(t1)[i];
    let y = reg.ids(t2)[j];
    let p1 = id_prefix(l1.section as nat);
    let p2 = id_prefix(l2.section as nat);
    assert(decimal(l1.section as nat) == seq![digit_char(l1.section as nat)]);
    assert(decimal(l2.section as nat) == seq![digit_char(l2.section as nat)]);
    assert(p1[2] == digit_char(l1.section as nat));
    assert(p2[2] == digit_char(l2.section as nat));
    if x == y {
        assert(x.subrange(0, p1.len() as int)[2] == x[2]);
        assert(y.subrange(0, p2.len() as int)[2] == y[2]);
    }
}

/// The identifiers that a preset runs are pairwise distinct: no identifier
/// repeats within a tier's catalogue, and no two tiers share one. Together
/// with `preset_ids`, which concatenates the catalogues of the preset's tiers
/// in priority order, this is what `tests_in_preset` returns.
pub proof fn lemma_preset_ids_distinct(reg: Registry, preset: ValidationPreset)
    requires
        reg.wf(),
    ensures
        reg.preset_ids(preset).no_duplicates(),
        reg.ids(Tier::Mandatory).no_duplicates(),
        reg.ids(Tier::Recommended).no_duplicates(),
        reg.ids(Tier::Informative).no_duplicates(),
{
    let m = reg.ids(Tier::Mandatory);
    let r = reg.ids(Tier::Recommended);
    let f = reg.ids(Tier::Informative);
    lemma_catalogue(reg.mandatory);
    lemma_catalogue(reg.recommended);
    lemma_catalogue(reg.informative);
    let all = reg.preset_ids(preset);
    assert forall|a: int, b: int| 0 <= a < all.len() && 0 <= b < all.len() && a != b implies all[a]
        != all[b] by {
        let (ta, ia) = if a < m.len() {
            (Tier::Mandatory, a)
        } else if a < m.len() + r.len() {
            (Tier::Recommended, a - m.len())
        } else {
            (Tier::Informative, a - m.len() - r.len())
        };
        let (tb, ib) = if b < m.len() {
            (Tier::Mandatory, b)
        } else if b < m.len() + r.len() {
            (Tier::Recommended, b - m.len())
        } else {
            (Tier::Informative, b - m.len() - r.len())
        };
        assert(all[a] == reg.ids(ta)[ia]);
        assert(all[b] == reg.ids(tb)[ib]);
        if ta != tb {
            lemma_tiers_disjoint(reg, ta, tb, ia, ib);
        }
    }
}

/// Resolving an identifier of a tier's catalogue consults that tier alone:
/// the outcome is its check's result, or not found where the tier has no
/// check for it, and findings land only in the bucket of that tier
/// (errors for mandatory, warnings for recommended, infos for informative).
pub proof fn lemma_findings_match_tier(
    reg: Registry,
    cves: Seq<Option<Seq<char>>>,
    tier: Tier,
    id: Seq<char>,
)
    requires
        reg.wf(),
        reg.ids(tier).contains(id),
    ensures
        reg.tier_of(id) == Some(tier),
        reg.resolve(cves, id) == match implemented_check(tier, id, cves) {
            Some(res) => tier_outcome(tier, res),
            None => Outcome::NotFound,
        },
        match reg.resolve(cves, id) {
            Outcome::Failure { errors, warnings, infos } => {
                &&& tier != Tier::Mandatory ==> errors.len() == 0
                &&& tier != Tier::Recommended ==> warnings.len() == 0
                &&& tier != Tier::Informative ==> infos.len() == 0
            },
            _ => true,
        },
{
    let i = choose|i: int| 0 <= i < reg.ids(tier).len() && reg.ids(tier)[i] == id;
    if tier != Tier::Mandatory && reg.ids(Tier::Mandatory).contains(id) {
        let j = choose|j: int|
            0 <= j < reg.ids(Tier::Mandatory).len() && reg.ids(Tier::Mandatory)[j] == id;
        lemma_tiers_disjoint(reg, tier, Tier::Mandatory, i, j);
    }
    if tier == Tier::Informative && reg.ids(Tier::Recommended).contains(id) {
        let j = choose|j: int|
            0 <= j < reg.ids(Tier::Recommended).len() && reg.ids(Tier::Recommended)[j] == id;
        lemma_tiers_disjoint(reg, tier, Tier::Recommended, i, j);
    }
}

} // verus!
