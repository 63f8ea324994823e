//! Result types, validation presets, the `Validatable` interface that each
//! document version implements, and the aggregation of test runs into a
//! validation report.

use vstd::prelude::*;
use crate::text::str_equal;

verus! {

/// One located violation found by a test.
#[derive(Debug, PartialEq, Eq, Hash, Clone)]
pub struct ValidationError {
    pub message: String,
    pub instance_path: String,
}

/// Mathematical value of a [`ValidationError`].
pub struct Finding {
    pub message: Seq<char>,
    pub instance_path: Seq<char>,
}

impl View for ValidationError {
    type V = Finding;

    open spec fn view(&self) -> Finding {
        Finding { message: self.message@, instance_path: self.instance_path@ }
    }
}

impl ValidationError {
    /// The text form of the finding: `ValidationError: <message> at <instance path>`.
    pub fn to_string(&self) -> (r: String)
        ensures
            r@ == "ValidationError: "@ + self.message@ + " at "@ + self.instance_path@,
    {
        let mut r = String::from_str("ValidationError: ");
        r.append(self.message.as_str());
        r.append(" at ");
        r.append(self.instance_path.as_str());
        r
    }
}

pub open spec fn findings_of(v: Seq<ValidationError>) -> Seq<Finding> {
    v.map_values(|e: ValidationError| e@)
}

/// Result of executing a single test.
#[derive(Debug, Clone)]
pub struct TestResult {
    /// The test ID that was executed
    pub test_id: String,
    /// The status of the test execution
    pub status: TestResultStatus,
}

#[derive(Debug, Clone)]
pub enum TestResultStatus {
    Success,
    Failure {
        errors: Vec<ValidationError>,
        warnings: Vec<ValidationError>,
        infos: Vec<ValidationError>,
    },
    NotFound,
}

/// Mathematical value of a [`TestResultStatus`].
pub enum Outcome {
    Success,
    Failure { errors: Seq<Finding>, warnings: Seq<Finding>, infos: Seq<Finding> },
    NotFound,
}

impl View for TestResultStatus {
    type V = Outcome;

    open spec fn view(&self) -> Outcome {
        match self {
            TestResultStatus::Success => Outcome::Success,
            TestResultStatus::Failure { errors, warnings, infos } => Outcome::Failure {
                errors: findings_of(errors@),
                warnings: findings_of(warnings@),
                infos: findings_of(infos@),
            },
            TestResultStatus::NotFound => Outcome::NotFound,
        }
    }
}

/// Mathematical value of a [`TestResult`].
pub struct TestRun {
    pub test_id: Seq<char>,
    pub outcome: Outcome,
}

impl View for TestResult {
    type V = TestRun;

    open spec fn view(&self) -> TestRun {
        TestRun { test_id: self.test_id@, outcome: self.status@ }
    }
}

/// Severity tier of a test; the order of the variants is the priority order.
#[derive(Debug, PartialEq, Eq, Clone, Copy, Structural)]
pub enum Tier {
    Mandatory,
    Recommended,
    Informative,
}

/// The outcome of a test of tier `tier` whose check returned `res`: the
/// findings of a failed check go to the bucket of that tier.
pub open spec fn tier_outcome(tier: Tier, res: Result<(), Seq<Finding>>) -> Outcome {
    match res {
        Ok(()) => Outcome::Success,
        Err(f) => match tier {
            Tier::Mandatory => Outcome::Failure { errors: f, warnings: seq![], infos: seq![] },
            Tier::Recommended => Outcome::Failure { errors: seq![], warnings: f, infos: seq![] },
            Tier::Informative => Outcome::Failure { errors: seq![], warnings: seq![], infos: f },
        },
    }
}

/// A named bundle of tiers.
#[derive(Debug, PartialEq, Eq, Hash, Clone, Copy, Structural)]
pub enum ValidationPreset {
    Basic,
    Extended,
    Full,
}

pub open spec fn preset_name(preset: ValidationPreset) -> Seq<char> {
    match preset {
        ValidationPreset::Basic => "basic"@,
        ValidationPreset::Extended => "extended"@,
        ValidationPreset::Full => "full"@,
    }
}

/// The preset whose lower-case name is `s`, if there is one.
pub open spec fn preset_from_name(s: Seq<char>) -> Result<ValidationPreset, ()> {
    if s == "basic"@ {
        Ok(ValidationPreset::Basic)
    } else if s == "extended"@ {
        Ok(ValidationPreset::Extended)
    } else if s == "full"@ {
        Ok(ValidationPreset::Full)
    } else {
        Err(())
    }
}

/// Reading back the name of a preset gives the same preset.
pub proof fn lemma_preset_name_round_trip(preset: ValidationPreset)
    ensures
        preset_from_name(preset_name(preset)) == Ok::<ValidationPreset, ()>(preset),
{
    reveal_strlit("basic");
    reveal_strlit("extended");
    reveal_strlit("full");
    assert("basic"@.len() != "extended"@.len());
    assert("basic"@.len() != "full"@.len());
    assert("extended"@.len() != "full"@.len());
}

impl ValidationPreset {
    /// Reads a preset from its lower-case name.
    pub fn parse(input: &str) -> (r: Result<ValidationPreset, ()>)
        ensures
            r == Ok::<ValidationPreset, ()>(ValidationPreset::Basic) <==> input@ == "basic"@,
            r == Ok::<ValidationPreset, ()>(ValidationPreset::Extended) <==> input@ == "extended"@,
            r == Ok::<ValidationPreset, ()>(ValidationPreset::Full) <==> input@ == "full"@,
            r is Err <==> (input@ != "basic"@ && input@ != "extended"@ && input@ != "full"@),
            r == preset_from_name(input@),
    {
        proof {
            reveal_strlit("basic");
            reveal_strlit("extended");
            reveal_strlit("full");
            assert("basic"@.len() != "extended"@.len());
            assert("basic"@.len() != "full"@.len());
            assert("extended"@.len() != "full"@.len());
        }
        if str_equal(input, "basic") {
            Ok(ValidationPreset::Basic)
        } else if str_equal(input, "extended") {
            Ok(ValidationPreset::Extended)
        } else if str_equal(input, "full") {
            Ok(ValidationPreset::Full)
        } else {
            Err(())
        }
    }

    /// The lower-case name of the preset.
    pub fn as_str(&self) -> (r: &'static str)
        ensures
            r@ == preset_name(*self),
    {
        match self {
            ValidationPreset::Basic => "basic",
            ValidationPreset::Extended => "extended",
            ValidationPreset::Full => "full",
        }
    }
}

impl core::str::FromStr for ValidationPreset {
    type Err = ();

    fn from_str(input: &str) -> (r: Result<ValidationPreset, ()>)
        ensures
            r == Ok::<ValidationPreset, ()>(ValidationPreset::Basic) <==> input@ == "basic"@,
            r == Ok::<ValidationPreset, ()>(ValidationPreset::Extended) <==> input@ == "extended"@,
            r == Ok::<ValidationPreset, ()>(ValidationPreset::Full) <==> input@ == "full"@,
            r is Err <==> (input@ != "basic"@ && input@ != "extended"@ && input@ != "full"@),
            r == preset_from_name(input@),
    {
        ValidationPreset::parse(input)
    }
}

/// Result of a CSAF validation.
#[derive(Debug, Clone)]
pub struct ValidationResult {
    /// Whether the validation was successful (no errors)
    pub success: bool,
    /// The CSAF version of the document
    pub version: String,
    /// The validation preset that was used
    pub preset: ValidationPreset,
    /// Individual test results, in the order the tests were requested
    pub test_results: Vec<TestResult>,
    /// The total number of errors found during validation
    pub num_errors: usize,
    /// The total number of warnings found during validation
    pub num_warnings: usize,
    /// The total number of infos found during validation
    pub num_infos: usize,
    /// The total number of tests not found
    pub num_not_found: usize,
}

/// Mathematical value of a [`ValidationResult`].
pub struct Report {
    pub success: bool,
    pub version: Seq<char>,
    pub preset: ValidationPreset,
    pub results: Seq<TestRun>,
    pub num_errors: nat,
    pub num_warnings: nat,
    pub num_infos: nat,
    pub num_not_found: nat,
}

impl View for ValidationResult {
    type V = Report;

    open spec fn view(&self) -> Report {
        Report {
            success: self.success,
            version: self.version@,
            preset: self.preset,
            results: self.test_results@.map_values(|t: TestResult| t@),
            num_errors: self.num_errors as nat,
            num_warnings: self.num_warnings as nat,
            num_infos: self.num_infos as nat,
            num_not_found: self.num_not_found as nat,
        }
    }
}

/// What is counted in a report.
pub enum Count {
    Errors,
    Warnings,
    Infos,
    NotFound,
}

/// How much an outcome contributes to a count.
pub open spec fn contribution(o: Outcome, c: Count) -> nat {
    match o {
        Outcome::Success => 0,
        Outcome::Failure { errors, warnings, infos } => match c {
            Count::Errors => errors.len(),
            Count::Warnings => warnings.len(),
            Count::Infos => infos.len(),
            Count::NotFound => 0,
        },
        Outcome::NotFound => match c {
            Count::NotFound => 1,
            _ => 0,
        },
    }
}

/// The sum of the contributions of a sequence of test runs to a count.
pub open spec fn total(runs: Seq<TestRun>, c: Count) -> nat
    decreases runs.len(),
{
    if runs.len() == 0 {
        0
    } else {
        total(runs.drop_last(), c) + contribution(runs.last().outcome, c)
    }
}

/// The report for the given runs.
pub open spec fn report_of(version: Seq<char>, preset: ValidationPreset, runs: Seq<TestRun>) -> Report {
    Report {
        success: total(runs, Count::Errors) == 0,
        version,
        preset,
        results: runs,
        num_errors: total(runs, Count::Errors),
        num_warnings: total(runs, Count::Warnings),
        num_infos: total(runs, Count::Infos),
        num_not_found: total(runs, Count::NotFound),
    }
}

pub open spec fn id_views(ids: Seq<&str>) -> Seq<Seq<char>> {
    ids.map_values(|s: &str| s@)
}

pub open spec fn string_views(ids: Seq<String>) -> Seq<Seq<char>> {
    ids.map_values(|s: String| s@)
}

/// Represents something which is validatable according to the CSAF standard.
/// This trait is implemented by the type that represents a CSAF document in
/// the respective version.
pub trait Validatable<VersionedDocument> {
    /// The identifiers of the tests that `preset` runs, in order.
    spec fn preset_test_ids(&self, preset: ValidationPreset) -> Seq<Seq<char>>;

    /// The outcome of the test `test_id` on this document.
    spec fn test_outcome(&self, test_id: Seq<char>) -> Outcome;

    /// Returns the test IDs belonging to a preset
    fn tests_in_preset(&self, preset: &ValidationPreset) -> (r: Vec<String>)
        ensures
            string_views(r@) == self.preset_test_ids(*preset),
    ;

    /// Runs a test by test ID
    fn run_test(&self, test_id: &str) -> (r: TestResult)
        ensures
            r@ == (TestRun { test_id: test_id@, outcome: self.test_outcome(test_id@) }),
    ;
}

/// The validation entry points as methods of a document.
pub trait Validate<VersionedDocument>: Validatable<VersionedDocument> + Sized {
    /// Validates this object according to a single test.
    fn validate_by_test(&self, test_id: &str) -> (r: TestResult)
        ensures
            r@ == (TestRun { test_id: test_id@, outcome: self.test_outcome(test_id@) }),
    ;

    /// Validates this object according to specific test IDs and returns detailed results.
    fn validate_by_tests(&self, version: &str, preset: ValidationPreset, test_ids: &[&str]) -> (r:
        ValidationResult)
        requires
            counts_fit(self, id_views(test_ids@)),
        ensures
            r@ == report_of(version@, preset, runs_of(self, id_views(test_ids@))),
            r.success == (r.num_errors == 0),
    ;

    /// Validates this object according to a validation preset and returns detailed results.
    fn validate_by_preset(&self, version: &str, preset: ValidationPreset) -> (r: ValidationResult)
        requires
            counts_fit(self, self.preset_test_ids(preset)),
        ensures
            r@ == report_of(version@, preset, runs_of(self, self.preset_test_ids(preset))),
            r.success == (r.num_errors == 0),
    ;
}

/// The runs of the tests `ids` on `target`, in order.
pub open spec fn runs_of<D, T: Validatable<D>>(target: &T, ids: Seq<Seq<char>>) -> Seq<TestRun> {
    ids.map_values(|id: Seq<char>| TestRun { test_id: id, outcome: target.test_outcome(id) })
}

/// Whether the findings of all the tests `ids` on `target` can be counted in a `usize`.
pub open spec fn counts_fit<D, T: Validatable<D>>(target: &T, ids: Seq<Seq<char>>) -> bool {
    let runs = runs_of(target, ids);
    total(runs, Count::Errors) + total(runs, Count::Warnings) + total(runs, Count::Infos)
        <= usize::MAX
}

/// The number of findings of an outcome, in all three buckets.
pub open spec fn findings_count(o: Outcome) -> nat {
    contribution(o, Count::Errors) + contribution(o, Count::Warnings) + contribution(o, Count::Infos)
}

proof fn lemma_runs_of_drop_last<D, T: Validatable<D>>(target: &T, ids: Seq<Seq<char>>)
    requires
        ids.len() > 0,
    ensures
        runs_of(target, ids).drop_last() == runs_of(target, ids.drop_last()),
        runs_of(target, ids).last().outcome == target.test_outcome(ids.last()),
{
    assert(runs_of(target, ids).drop_last() =~= runs_of(target, ids.drop_last()));
}

/// The findings of all the runs, each at most `bound`, number at most
/// `ids.len() * bound`.
proof fn lemma_findings_by_length<D, T: Validatable<D>>(target: &T, ids: Seq<Seq<char>>, bound: nat)
    requires
        forall|id: Seq<char>| findings_count(#[trigger] target.test_outcome(id)) <= bound,
    ensures
        total(runs_of(target, ids), Count::Errors) + total(runs_of(target, ids), Count::Warnings)
            + total(runs_of(target, ids), Count::Infos) <= ids.len() * bound,
    decreases ids.len(),
{
    if ids.len() > 0 {
        lemma_runs_of_drop_last(target, ids);
        lemma_findings_by_length(target, ids.drop_last(), bound);
        let n = ids.len() as int;
        assert((n - 1) * bound + bound == n * bound) by (nonlinear_arith);
        assert(findings_count(target.test_outcome(ids.last())) <= bound);
    }
}

/// The findings of distinct tests of which only `special` reports any.
proof fn lemma_findings_distinct<D, T: Validatable<D>>(
    target: &T,
    ids: Seq<Seq<char>>,
    special: Seq<char>,
    bound: nat,
)
    requires
        ids.no_duplicates(),
        forall|id: Seq<char>| id != special ==> findings_count(#[trigger] target.test_outcome(id)) == 0,
        findings_count(target.test_outcome(special)) <= bound,
    ensures
        total(runs_of(target, ids), Count::Errors) + total(runs_of(target, ids), Count::Warnings)
            + total(runs_of(target, ids), Count::Infos) <= if ids.contains(special) {
            bound
        } else {
            0
        },
    decreases ids.len(),
{
    if ids.len() > 0 {
        let rest = ids.drop_last();
        assert(rest.no_duplicates());
        lemma_runs_of_drop_last(target, ids);
        lemma_findings_distinct(target, rest, special, bound);
        if rest.contains(special) {
            let k = choose|k: int| 0 <= k < rest.len() && rest[k] == special;
            assert(ids[k] == special);
            if ids.last() == special {
                assert(ids[ids.len() - 1] == ids[k]);
            }
        }
        if ids.last() == special {
            assert(ids.contains(special));
        }
    }
}

/// The counts of a report fit in a `usize` when no test reports more than
/// `bound` findings and `ids.len() * bound` fits.
pub proof fn lemma_counts_fit_by_length<D, T: Validatable<D>>(target: &T, ids: Seq<Seq<char>>, bound: nat)
    requires
        forall|id: Seq<char>| findings_count(#[trigger] target.test_outcome(id)) <= bound,
        ids.len() * bound <= usize::MAX,
    ensures
        counts_fit(target, ids),
{
    lemma_findings_by_length(target, ids, bound);
}

/// The counts of a report fit in a `usize` when the tests are distinct, only
/// `special` reports findings, and it reports at most `bound <= usize::MAX`.
pub proof fn lemma_counts_fit_distinct<D, T: Validatable<D>>(
    target: &T,
    ids: Seq<Seq<char>>,
    special: Seq<char>,
    bound: nat,
)
    requires
        ids.no_duplicates(),
        forall|id: Seq<char>| id != special ==> findings_count(#[trigger] target.test_outcome(id)) == 0,
        findings_count(target.test_outcome(special)) <= bound,
        bound <= usize::MAX,
    ensures
        counts_fit(target, ids),
{
    lemma_findings_distinct(target, ids, special, bound);
}

/// A count over a prefix of the runs is at most the count over all of them.
pub proof fn lemma_total_prefix(runs: Seq<TestRun>, i: int, c: Count)
    requires
        0 <= i <= runs.len(),
    ensures
        total(runs.take(i), c) <= total(runs, c),
    decreases runs.len(),
{
    if i < runs.len() {
        lemma_total_prefix(runs.drop_last(), i, c);
        assert(runs.drop_last().take(i) =~= runs.take(i));
    } else {
        assert(runs.take(i) =~= runs);
    }
}

/// A report is successful exactly when it counts no error, whatever its
/// warnings, infos and tests not found.
pub proof fn lemma_success_iff_no_errors(version: Seq<char>, preset: ValidationPreset, runs: Seq<TestRun>)
    ensures
        report_of(version, preset, runs).success <==> report_of(version, preset, runs).num_errors
            == 0,
{
}

/// Validating the same document with the same preset twice gives the same
/// report: the report is a function of the document, the version and the
/// preset alone.
pub proof fn lemma_preset_report_deterministic<D, T: Validatable<D>>(
    target: &T,
    version: Seq<char>,
    preset: ValidationPreset,
    first: ValidationResult,
    second: ValidationResult,
)
    requires
        first@ == report_of(version, preset, runs_of(target, target.preset_test_ids(preset))),
        second@ == report_of(version, preset, runs_of(target, target.preset_test_ids(preset))),
    ensures
        first@ == second@,
        first.test_results@.len() == second.test_results@.len(),
        forall|i: int|
            0 <= i < first.test_results@.len() ==> (#[trigger] first.test_results@[i])@
                == second.test_results@[i]@,
{
    assert forall|i: int| 0 <= i < first.test_results@.len() implies (
    #[trigger] first.test_results@[i])@ == second.test_results@[i]@ by {
        assert(first@.results[i] == first.test_results@[i]@);
        assert(second@.results[i] == second.test_results@[i]@);
        assert(first@.results[i] == second@.results[i]);
    }
}

/// Execute a single test and return the test result.
pub fn validate_by_test<VersionedDocument, T: Validatable<VersionedDocument>>(
    target: &T,
    test_id: &str,
) -> (r: TestResult)
    ensures
        r@ == (TestRun { test_id: test_id@, outcome: target.test_outcome(test_id@) }),
{
    target.run_test(test_id)
}

/// Validate document with specific tests and return detailed results.
pub fn validate_by_tests<VersionedDocument, T: Validatable<VersionedDocument>>(
    target: &T,
    version: &str,
    preset: ValidationPreset,
    test_ids: &[&str],
) -> (r: ValidationResult)
    requires
        counts_fit(target, id_views(test_ids@)),
    ensures
        r@ == report_of(version@, preset, runs_of(target, id_views(test_ids@))),
        r.success == (r.num_errors == 0),
{
    let ghost ids = id_views(test_ids@);
    let ghost runs = runs_of(target, ids);
    let mut test_results: Vec<TestResult> = Vec::new();
    let mut num_errors: usize = 0;
    let mut num_warnings: usize = 0;
    let mut num_infos: usize = 0;
    let mut num_not_found: usize = 0;
    let mut i: usize = 0;
    while i < test_ids.len()
        invariant
            i <= test_ids@.len(),
            ids == id_views(test_ids@),
            runs == runs_of(target, ids),
            counts_fit(target, ids),
            test_results@.map_values(|t: TestResult| t@) == runs.take(i as int),
            num_errors == total(runs.take(i as int), Count::Errors),
            num_warnings == total(runs.take(i as int), Count::Warnings),
            num_infos == total(runs.take(i as int), Count::Infos),
            num_not_found == total(runs.take(i as int), Count::NotFound),
            num_not_found <= i,
        decreases test_ids@.len() - i,
    {
        let test_result = validate_by_test(target, test_ids[i]);
        let ghost next = runs.take(i + 1);
        proof {
            assert(next.drop_last() =~= runs.take(i as int));
            assert(next.last() == test_result@);
            lemma_total_prefix(runs, i + 1, Count::Errors);
            lemma_total_prefix(runs, i + 1, Count::Warnings);
            lemma_total_prefix(runs, i + 1, Count::Infos);
        }
        match &test_result.status {
            TestResultStatus::Failure { errors, warnings, infos } => {
                num_errors = num_errors + errors.len();
                num_warnings = num_warnings + warnings.len();
                num_infos = num_infos + infos.len();
            },
            TestResultStatus::NotFound => {
                num_not_found = num_not_found + 1;
            },
            TestResultStatus::Success => {},
        }
        test_results.push(test_result);
        i = i + 1;
        proof {
            assert(test_results@.map_values(|t: TestResult| t@) =~= runs.take(i as int));
        }
    }
    proof {
        assert(runs.take(i as int) =~= runs);
    }
    ValidationResult {
        success: num_errors == 0,
        version: version.to_string(),
        preset,
        test_results,
        num_errors,
        num_warnings,
        num_infos,
        num_not_found,
    }
}

/// Validate document with a preset and return detailed results.
pub fn validate_by_preset<VersionedDocument, T: Validatable<VersionedDocument>>(
    target: &T,
    version: &str,
    preset: ValidationPreset,
) -> (r: ValidationResult)
    requires
        counts_fit(target, target.preset_test_ids(preset)),
    ensures
        r@ == report_of(version@, preset, runs_of(target, target.preset_test_ids(preset))),
        r.success == (r.num_errors == 0),
{
    let test_ids = target.tests_in_preset(&preset);
    let mut refs: Vec<&str> = Vec::new();
    let mut k: usize = 0;
    while k < test_ids.len()
        invariant
            k <= test_ids@.len(),
            refs@.len() == k,
            forall|j: int| 0 <= j < k ==> (#[trigger] refs@[j])@ == test_ids@[j]@,
        decreases test_ids@.len() - k,
    {
        refs.push(test_ids[k].as_str());
        k = k + 1;
    }
    proof {
        assert(id_views(refs@) =~= string_views(test_ids@));
    }
    validate_by_tests(target, version, preset, refs.as_slice())
}

} // verus!
