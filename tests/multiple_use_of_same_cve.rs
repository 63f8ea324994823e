use csaf::csaf2_0;
use csaf::csaf2_1;
use csaf::validation::ValidationError;
use csaf::validations::test_6_1_23::{generate_duplicate_cve_error, test_6_1_23_multiple_use_of_same_cve};

fn doc_2_0(cves: &[Option<&str>]) -> csaf2_0::CommonSecurityAdvisoryFramework {
    csaf2_0::CommonSecurityAdvisoryFramework {
        vulnerabilities: cves
            .iter()
            .map(|c| csaf2_0::Vulnerability { cve: c.map(|s| s.to_string()) })
            .collect(),
    }
}

fn doc_2_1(cves: &[Option<&str>]) -> csaf2_1::CommonSecurityAdvisoryFramework {
    csaf2_1::CommonSecurityAdvisoryFramework {
        vulnerabilities: cves
            .iter()
            .map(|c| csaf2_1::Vulnerability { cve: c.map(|s| s.to_string()) })
            .collect(),
    }
}

fn expect_both(cves: &[Option<&str>], expected: Result<(), Vec<ValidationError>>) {
    assert_eq!(test_6_1_23_multiple_use_of_same_cve(&doc_2_0(cves)), expected);
    assert_eq!(test_6_1_23_multiple_use_of_same_cve(&doc_2_1(cves)), expected);
}

#[test]
fn test_test_6_1_23() {
    // Case 01: Two vulnerabilities, same CVE identifier
    let case_01 = Err(vec![
        generate_duplicate_cve_error("CVE-2017-0145", 0),
        generate_duplicate_cve_error("CVE-2017-0145", 1),
    ]);

    // Case S01: Three vulnerabilities, same CVE identifier
    let case_s01 = Err(vec![
        generate_duplicate_cve_error("CVE-2017-0145", 0),
        generate_duplicate_cve_error("CVE-2017-0145", 1),
        generate_duplicate_cve_error("CVE-2017-0145", 2),
    ]);
    // Case S02: Four vulnerabilities, 2 pairs with same CVE identifier
    let case_s02 = Err(vec![
        generate_duplicate_cve_error("CVE-2017-0145", 0),
        generate_duplicate_cve_error("CVE-2017-0145", 2),
        generate_duplicate_cve_error("CVE-2017-0146", 1),
        generate_duplicate_cve_error("CVE-2017-0146", 3),
    ]);
    // Case S03: Three vulnerabilities, two with same CVE identifier
    let case_s03 = Err(vec![
        generate_duplicate_cve_error("CVE-2017-0145", 0),
        generate_duplicate_cve_error("CVE-2017-0145", 2),
    ]);

    expect_both(&[Some("CVE-2017-0145"), Some("CVE-2017-0145")], case_01);
    expect_both(
        &[Some("CVE-2017-0145"), Some("CVE-2017-0145"), Some("CVE-2017-0145")],
        case_s01,
    );
    expect_both(
        &[
            Some("CVE-2017-0145"),
            Some("CVE-2017-0146"),
            Some("CVE-2017-0145"),
            Some("CVE-2017-0146"),
        ],
        case_s02,
    );
    expect_both(
        &[Some("CVE-2017-0145"), Some("CVE-2017-0146"), Some("CVE-2017-0145")],
        case_s03,
    );
    // Case S11: Two vulnerabilities, different CVE identifiers (valid)
    expect_both(&[Some("CVE-2017-0145"), Some("CVE-2017-0146")], Ok(()));
}

#[test]
fn duplicate_error_text() {
    let e = generate_duplicate_cve_error("CVE-2017-0145", 12);
    assert_eq!(e.message, "Duplicate usage of same CVE identifier 'CVE-2017-0145'");
    assert_eq!(e.instance_path, "/vulnerabilities/12/cve");
}

#[test]
fn two_entries_same_cve_give_two_findings() {
    let r = test_6_1_23_multiple_use_of_same_cve(&doc_2_0(&[Some("CVE-2017-0145"), Some("CVE-2017-0145")]));
    let errors = r.unwrap_err();
    assert_eq!(errors.len(), 2);
    for (i, e) in errors.iter().enumerate() {
        assert!(e.message.contains("CVE-2017-0145"));
        assert_eq!(e.instance_path, format!("/vulnerabilities/{i}/cve"));
    }
}

#[test]
fn mixed_duplicates_keep_position_order_per_cve() {
    let r = test_6_1_23_multiple_use_of_same_cve(&doc_2_1(&[
        Some("CVE-2017-0145"),
        Some("CVE-2017-0146"),
        Some("CVE-2017-0145"),
        Some("CVE-2017-0146"),
    ]));
    let errors = r.unwrap_err();
    assert_eq!(errors.len(), 4);
    for cve in ["CVE-2017-0145", "CVE-2017-0146"] {
        let paths: Vec<&str> = errors
            .iter()
            .filter(|e| e.message.contains(cve))
            .map(|e| e.instance_path.as_str())
            .collect();
        let expected = if cve == "CVE-2017-0145" {
            vec!["/vulnerabilities/0/cve", "/vulnerabilities/2/cve"]
        } else {
            vec!["/vulnerabilities/1/cve", "/vulnerabilities/3/cve"]
        };
        assert_eq!(paths, expected);
    }
}

#[test]
fn no_vulnerabilities_pass() {
    expect_both(&[], Ok(()));
}

#[test]
fn vulnerabilities_without_cve_pass() {
    expect_both(&[None, None, None], Ok(()));
}

#[test]
fn entries_without_cve_are_not_duplicates() {
    expect_both(&[None, Some("CVE-2017-0145"), None], Ok(()));
    expect_both(
        &[None, Some("CVE-2017-0145"), None, Some("CVE-2017-0145")],
        Err(vec![
            generate_duplicate_cve_error("CVE-2017-0145", 1),
            generate_duplicate_cve_error("CVE-2017-0145", 3),
        ]),
    );
}
