use csaf::catalogue::{tier_catalogue, tier_contains};
use csaf::csaf2_0;
use csaf::csaf2_1;
use csaf::validation::{
    validate_by_preset, validate_by_test, validate_by_tests, TestResultStatus, Validatable, Validate,
    ValidationPreset,
};

fn doc_2_0(cves: &[Option<&str>]) -> csaf2_0::CommonSecurityAdvisoryFramework {
    csaf2_0::CommonSecurityAdvisoryFramework {
        vulnerabilities: cves
            .iter()
            .map(|c| csaf2_0::Vulnerability { cve: c.map(|s| s.to_string()) })
            .collect(),
    }
}

fn doc_2_1(cves: &[Option<&str>]) -> csaf2_1::CommonSecurityAdvisoryFramework {
    csaf2_1::CommonSecurityAdvisoryFramework {
        vulnerabilities: cves
            .iter()
            .map(|c| csaf2_1::Vulnerability { cve: c.map(|s| s.to_string()) })
            .collect(),
    }
}

#[test]
fn unknown_identifier_is_not_found() {
    let doc = doc_2_0(&[Some("CVE-2017-0145"), Some("CVE-2017-0145")]);
    let r = validate_by_tests(&doc, "2.0", ValidationPreset::Basic, &["9.9.9"]);
    assert_eq!(r.test_results.len(), 1);
    assert_eq!(r.test_results[0].test_id, "9.9.9");
    assert!(matches!(r.test_results[0].status, TestResultStatus::NotFound));
    assert_eq!(r.num_not_found, 1);
    assert_eq!(r.num_errors, 0);
    assert!(r.success);
}

#[test]
fn basic_preset_on_passing_document() {
    let doc = doc_2_0(&[Some("CVE-2017-0145"), Some("CVE-2017-0146")]);
    let r = validate_by_preset(&doc, "2.0", ValidationPreset::Basic);
    assert!(r.success);
    assert_eq!(r.version, "2.0");
    assert_eq!(r.preset, ValidationPreset::Basic);
    assert_eq!(r.num_errors, 0);
    assert_eq!(r.num_warnings, 0);
    assert_eq!(r.num_infos, 0);
    let mandatory = csaf2_0::mandatory_tests();
    assert_eq!(r.test_results.len(), mandatory.len());
    for (t, id) in r.test_results.iter().zip(mandatory.iter()) {
        assert_eq!(&t.test_id, id);
        match t.status {
            TestResultStatus::Success => assert_eq!(t.test_id, "6.1.23"),
            TestResultStatus::NotFound => assert_ne!(t.test_id, "6.1.23"),
            TestResultStatus::Failure { .. } => panic!("unexpected failure"),
        }
    }
    assert_eq!(r.num_not_found, mandatory.len() - 1);
}

#[test]
fn duplicate_cve_fails_the_report() {
    let doc = doc_2_1(&[Some("CVE-2017-0145"), Some("CVE-2017-0145")]);
    let r = validate_by_preset(&doc, "2.1", ValidationPreset::Full);
    assert!(!r.success);
    assert_eq!(r.num_errors, 2);
    assert_eq!(r.num_warnings, 0);
    assert_eq!(r.num_infos, 0);
    let t = r.test_results.iter().find(|t| t.test_id == "6.1.23").unwrap();
    match &t.status {
        TestResultStatus::Failure { errors, warnings, infos } => {
            assert_eq!(errors.len(), 2);
            assert!(warnings.is_empty());
            assert!(infos.is_empty());
        },
        _ => panic!("expected a failure"),
    }
}

#[test]
fn warnings_and_not_found_do_not_affect_success() {
    let doc = doc_2_0(&[]);
    let r = validate_by_tests(&doc, "2.0", ValidationPreset::Full, &["6.2.1", "6.3.1", "x", "6.1.23"]);
    assert!(r.success);
    assert_eq!(r.num_not_found, 3);
    assert!(matches!(r.test_results[3].status, TestResultStatus::Success));
}

#[test]
fn results_follow_requested_order() {
    let doc = doc_2_0(&[Some("A"), Some("A")]);
    let ids = ["6.1.1", "6.1.23", "9.9.9", "6.1.23"];
    let r = validate_by_tests(&doc, "2.0", ValidationPreset::Basic, &ids);
    let got: Vec<&str> = r.test_results.iter().map(|t| t.test_id.as_str()).collect();
    assert_eq!(got, ids);
    assert_eq!(r.num_errors, 4);
    assert_eq!(r.num_not_found, 2);
}

#[test]
fn same_run_twice_is_identical() {
    let doc = doc_2_1(&[Some("B"), Some("A"), Some("B"), Some("A"), None]);
    let a = validate_by_preset(&doc, "2.1", ValidationPreset::Extended);
    let b = validate_by_preset(&doc, "2.1", ValidationPreset::Extended);
    assert_eq!(format!("{a:?}"), format!("{b:?}"));
}

#[test]
fn single_test_runs_by_identifier() {
    let doc = doc_2_0(&[Some("A"), Some("A")]);
    let t = validate_by_test(&doc, "6.1.23");
    assert_eq!(t.test_id, "6.1.23");
    assert!(matches!(t.status, TestResultStatus::Failure { .. }));
}

#[test]
fn preset_expansion_2_0() {
    let doc = doc_2_0(&[]);
    let m = csaf2_0::mandatory_tests();
    let r = csaf2_0::recommended_tests();
    let i = csaf2_0::informative_tests();
    assert_eq!(m.len(), 43);
    assert_eq!(r.len(), 20);
    assert_eq!(i.len(), 11);
    assert_eq!(m[0], "6.1.1");
    assert_eq!(m[25], "6.1.26");
    assert_eq!(m[26], "6.1.27.1");
    assert_eq!(m[36], "6.1.27.11");
    assert_eq!(m[37], "6.1.28");
    assert_eq!(m[42], "6.1.33");
    assert_eq!(r[19], "6.2.20");
    assert_eq!(i[10], "6.3.11");
    assert_eq!(doc.tests_in_preset(&ValidationPreset::Basic), m);
    assert_eq!(doc.tests_in_preset(&ValidationPreset::Extended), [m.clone(), r.clone()].concat());
    assert_eq!(doc.tests_in_preset(&ValidationPreset::Full), [m, r, i].concat());
}

#[test]
fn preset_expansion_2_1() {
    let m = csaf2_1::mandatory_tests();
    let r = csaf2_1::recommended_tests();
    let i = csaf2_1::informative_tests();
    assert_eq!(m.len(), 74);
    assert_eq!(m[26], "6.1.27.1");
    assert_eq!(m[44], "6.1.27.19");
    assert_eq!(m[73], "6.1.56");
    assert_eq!(r.len(), 49);
    assert!(!r.iter().any(|s| s == "6.2.10"));
    assert_eq!(r[8], "6.2.9");
    assert_eq!(r[9], "6.2.11");
    assert_eq!(r[36], "6.2.38");
    assert_eq!(r[37], "6.2.39.1");
    assert_eq!(r[40], "6.2.39.4");
    assert_eq!(r[48], "6.2.47");
    assert_eq!(i.len(), 18);
    let all = [m, r, i].concat();
    let mut sorted = all.clone();
    sorted.sort();
    sorted.dedup();
    assert_eq!(sorted.len(), all.len());
}

#[test]
fn catalogued_but_unimplemented_is_not_found() {
    let doc = doc_2_1(&[]);
    let t = validate_by_test(&doc, "6.1.27.19");
    assert!(matches!(t.status, TestResultStatus::NotFound));
    let t = validate_by_test(&doc, "6.2.10");
    assert!(matches!(t.status, TestResultStatus::NotFound));
}

#[test]
fn preset_names() {
    assert_eq!("basic".parse::<ValidationPreset>(), Ok(ValidationPreset::Basic));
    assert_eq!("extended".parse::<ValidationPreset>(), Ok(ValidationPreset::Extended));
    assert_eq!("full".parse::<ValidationPreset>(), Ok(ValidationPreset::Full));
    assert_eq!("Basic".parse::<ValidationPreset>(), Err(()));
    assert_eq!("".parse::<ValidationPreset>(), Err(()));
    assert_eq!(ValidationPreset::Basic.as_str(), "basic");
    assert_eq!(ValidationPreset::Extended.as_str(), "extended");
    assert_eq!(ValidationPreset::Full.as_str(), "full");
}

#[test]
fn lookup_agrees_with_catalogues() {
    for reg in [csaf2_0::tests_registry(), csaf2_1::tests_registry()] {
        let layouts = [reg.mandatory, reg.recommended, reg.informative];
        for l in layouts.iter() {
            for id in tier_catalogue(l) {
                for other in layouts.iter() {
                    assert_eq!(tier_contains(other, &id), other.section == l.section, "{id}");
                }
            }
        }
        for bad in [
            "", "6", "6.1", "6.1.", "6.1.0", "6.1.01", "06.1.1", "6.1.1.", "6.1.27", "6.1.27.0",
            "6.1.27.01", "6.1.1.1", "6.1.99999", "6.1.100000", "6.1.1x", "6.4.1", "7.1.1", "6.1.23 ",
        ] {
            for l in layouts.iter() {
                assert!(!tier_contains(l, bad), "{bad}");
            }
        }
    }
    let r20 = csaf2_0::tests_registry();
    assert!(!tier_contains(&r20.mandatory, "6.1.27.12"));
    assert!(tier_contains(&r20.mandatory, "6.1.27.11"));
    let r21 = csaf2_1::tests_registry();
    assert!(tier_contains(&r21.mandatory, "6.1.27.19"));
    assert!(!tier_contains(&r21.recommended, "6.2.10"));
    assert!(tier_contains(&r21.recommended, "6.2.39.4"));
}

#[test]
fn non_canonical_identifier_is_not_found() {
    let doc = doc_2_0(&[Some("A"), Some("A")]);
    assert!(matches!(validate_by_test(&doc, "6.1.023").status, TestResultStatus::NotFound));
    assert!(matches!(validate_by_test(&doc, "6.1.23.1").status, TestResultStatus::NotFound));
    assert!(matches!(validate_by_test(&doc, "6.1.23").status, TestResultStatus::Failure { .. }));
}

#[test]
fn validation_error_text_form() {
    let e = csaf::validation::ValidationError {
        message: "Duplicate".to_string(),
        instance_path: "/vulnerabilities/0/cve".to_string(),
    };
    assert_eq!(e.to_string(), "ValidationError: Duplicate at /vulnerabilities/0/cve");
}

#[test]
fn preset_name_round_trip() {
    for p in [ValidationPreset::Basic, ValidationPreset::Extended, ValidationPreset::Full] {
        assert_eq!(p.as_str().parse::<ValidationPreset>(), Ok(p));
        assert_eq!(ValidationPreset::parse(p.as_str()), Ok(p));
    }
    assert_eq!(" basic".parse::<ValidationPreset>(), Err(()));
}

#[test]
fn validate_methods_match_functions() {
    let doc = doc_2_1(&[Some("A"), Some("B"), Some("A")]);
    let a = doc.validate_by_preset("2.1", ValidationPreset::Basic);
    let b = validate_by_preset(&doc, "2.1", ValidationPreset::Basic);
    assert_eq!(format!("{a:?}"), format!("{b:?}"));
    assert_eq!(a.num_errors, 2);
    let t = Validate::validate_by_tests(&doc, "2.1", ValidationPreset::Basic, &["6.1.23", "9.9.9"]);
    assert_eq!(t.num_errors, 2);
    assert_eq!(t.num_not_found, 1);
    let one = Validate::validate_by_test(&doc, "6.1.23");
    assert_eq!(one.test_id, "6.1.23");
}
