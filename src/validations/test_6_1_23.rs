//! Test 6.1.23: Multiple Use of Same CVE.
//!
//! Vulnerability items must not contain the same string in the
//! `/vulnerabilities[]/cve` field.

use vstd::prelude::*;
use crate::csaf_traits::{cves_of, CsafTrait, VulnerabilityTrait};
use crate::text::{decimal, push_decimal};
use crate::validation::{findings_of, string_views, Finding, ValidationError};

verus! {

/// The positions below `n` whose CVE identifier is `c`, ascending.
pub open spec fn occurrences(cves: Seq<Option<Seq<char>>>, c: Seq<char>, n: nat) -> Seq<nat>
    decreases n,
{
    if n == 0 {
        seq![]
    } else {
        let prev = occurrences(cves, c, (n - 1) as nat);
        if cves[n - 1] == Some(c) {
            prev.push((n - 1) as nat)
        } else {
            prev
        }
    }
}

/// The CVE identifiers found below position `n`, in order of first appearance.
pub open spec fn first_seen(cves: Seq<Option<Seq<char>>>, n: nat) -> Seq<Seq<char>>
    decreases n,
{
    if n == 0 {
        seq![]
    } else {
        let prev = first_seen(cves, (n - 1) as nat);
        match cves[n - 1] {
            Some(c) => if prev.contains(c) {
                prev
            } else {
                prev.push(c)
            },
            None => prev,
        }
    }
}

/// The finding for the CVE identifier `cve` used at position `pos`.
pub open spec fn duplicate_cve_error(cve: Seq<char>, pos: nat) -> Finding {
    Finding {
        message: "Duplicate usage of same CVE identifier '"@ + cve + "'"@,
        instance_path: "/vulnerabilities/"@ + decimal(pos) + "/cve"@,
    }
}

/// The findings for the identifier `c`: one per occurrence if it occurs more than once.
pub open spec fn key_errors(cves: Seq<Option<Seq<char>>>, c: Seq<char>) -> Seq<Finding> {
    let occ = occurrences(cves, c, cves.len());
    if occ.len() > 1 {
        occ.map_values(|p: nat| duplicate_cve_error(c, p))
    } else {
        seq![]
    }
}

/// The findings for the identifiers `keys`, key by key.
pub open spec fn keys_errors(cves: Seq<Option<Seq<char>>>, keys: Seq<Seq<char>>) -> Seq<Finding>
    decreases keys.len(),
{
    if keys.len() == 0 {
        seq![]
    } else {
        keys_errors(cves, keys.drop_last()) + key_errors(cves, keys.last())
    }
}

/// All findings of the test, grouped by identifier in order of first appearance.
pub open spec fn duplicate_cve_errors(cves: Seq<Option<Seq<char>>>) -> Seq<Finding> {
    keys_errors(cves, first_seen(cves, cves.len()))
}

/// The result of the test on a document with the CVE identifiers `cves`.
pub open spec fn multiple_use_of_same_cve(cves: Seq<Option<Seq<char>>>) -> Result<(), Seq<Finding>> {
    if duplicate_cve_errors(cves).len() == 0 {
        Ok(())
    } else {
        Err(duplicate_cve_errors(cves))
    }
}

pub open spec fn nat_seq(v: Seq<usize>) -> Seq<nat> {
    v.map_values(|x: usize| x as nat)
}

/// An identifier is among the first-seen ones exactly when it occurs below `n`;
/// the first-seen identifiers are pairwise distinct.
pub proof fn lemma_first_seen(cves: Seq<Option<Seq<char>>>, n: nat)
    requires
        n <= cves.len(),
    ensures
        forall|c: Seq<char>|
            #![trigger first_seen(cves, n).contains(c)]
            first_seen(cves, n).contains(c) <==> exists|j: int| 0 <= j < n && cves[j] == Some(c),
        first_seen(cves, n).no_duplicates(),
    decreases n,
{
    if n > 0 {
        lemma_first_seen(cves, (n - 1) as nat);
        let prev = first_seen(cves, (n - 1) as nat);
        assert forall|c: Seq<char>|
            #![trigger first_seen(cves, n).contains(c)]
            first_seen(cves, n).contains(c) <==> exists|j: int| 0 <= j < n && cves[j] == Some(c) by {
            if first_seen(cves, n).contains(c) {
                if prev.contains(c) {
                    let j = choose|j: int| 0 <= j < n - 1 && cves[j] == Some(c);
                } else {
                    assert(cves[n - 1] == Some(c));
                }
            }
            if exists|j: int| 0 <= j < n && cves[j] == Some(c) {
                let j = choose|j: int| 0 <= j < n && cves[j] == Some(c);
                if j < n - 1 {
                    assert(prev.contains(c));
                } else {
                    assert(first_seen(cves, n).last() == c || prev.contains(c));
                }
                if prev.contains(c) {
                    let k = choose|k: int| 0 <= k < prev.len() && prev[k] == c;
                    assert(first_seen(cves, n)[k] == c);
                }
            }
        }
    }
}

proof fn lemma_nothing_seen(cves: Seq<Option<Seq<char>>>, n: nat)
    requires
        n <= cves.len(),
        forall|j: int| 0 <= j < n ==> cves[j] is None,
    ensures
        first_seen(cves, n) == Seq::<Seq<char>>::empty(),
    decreases n,
{
    if n > 0 {
        lemma_nothing_seen(cves, (n - 1) as nat);
    }
}

/// A document without vulnerability entries passes.
pub proof fn lemma_no_vulnerabilities_pass(cves: Seq<Option<Seq<char>>>)
    requires
        cves.len() == 0,
    ensures
        multiple_use_of_same_cve(cves) == Ok::<(), Seq<Finding>>(()),
{
    lemma_nothing_seen(cves, 0);
}

/// A document whose vulnerability entries carry no CVE identifier passes.
pub proof fn lemma_no_cves_pass(cves: Seq<Option<Seq<char>>>)
    requires
        forall|j: int| 0 <= j < cves.len() ==> cves[j] is None,
    ensures
        multiple_use_of_same_cve(cves) == Ok::<(), Seq<Finding>>(()),
{
    lemma_nothing_seen(cves, cves.len());
}

/// Whether two vulnerability entries carry the same CVE identifier.
pub open spec fn cve_used_twice(cves: Seq<Option<Seq<char>>>) -> bool {
    exists|i: int, j: int| 0 <= i < j < cves.len() && cves[i] is Some && #[trigger] cves[i] == #[trigger] cves[j]
}

/// The occurrences below `n` are exactly the positions below `n` that carry
/// `c`, in strictly increasing order.
proof fn lemma_occurrences(cves: Seq<Option<Seq<char>>>, c: Seq<char>, n: nat)
    requires
        n <= cves.len(),
    ensures
        forall|k: int|
            0 <= k < occurrences(cves, c, n).len() ==> (#[trigger] occurrences(cves, c, n)[k]) < n
                && cves[occurrences(cves, c, n)[k] as int] == Some(c),
        forall|p: int|
            0 <= p < n && cves[p] == Some(c) ==> #[trigger] occurrences(cves, c, n).contains(
                p as nat,
            ),
        forall|a: int, b: int|
            0 <= a < b < occurrences(cves, c, n).len() ==> (#[trigger] occurrences(cves, c, n)[a])
                < (#[trigger] occurrences(cves, c, n)[b]),
    decreases n,
{
    if n > 0 {
        let prev = occurrences(cves, c, (n - 1) as nat);
        lemma_occurrences(cves, c, (n - 1) as nat);
        let occ = occurrences(cves, c, n);
        assert forall|p: int| 0 <= p < n && cves[p] == Some(c) implies #[trigger] occ.contains(
            p as nat,
        ) by {
            if p < n - 1 {
                assert(prev.contains(p as nat));
                let k = choose|k: int| 0 <= k < prev.len() && prev[k] == p as nat;
                assert(occ[k] == p as nat);
            } else {
                assert(occ.last() == p as nat);
            }
        }
    }
}

/// The findings for a list of identifiers are empty exactly when those for
/// each identifier are.
proof fn lemma_keys_errors_empty(cves: Seq<Option<Seq<char>>>, keys: Seq<Seq<char>>)
    ensures
        keys_errors(cves, keys).len() == 0 <==> forall|i: int|
            0 <= i < keys.len() ==> (#[trigger] key_errors(cves, keys[i])).len() == 0,
    decreases keys.len(),
{
    if keys.len() > 0 {
        lemma_keys_errors_empty(cves, keys.drop_last());
        if keys_errors(cves, keys).len() == 0 {
            assert forall|i: int| 0 <= i < keys.len() implies (#[trigger] key_errors(
                cves,
                keys[i],
            )).len() == 0 by {
                if i < keys.len() - 1 {
                    assert(keys.drop_last()[i] == keys[i]);
                }
            }
        } else {
            if forall|i: int| 0 <= i < keys.len() ==> (#[trigger] key_errors(cves, keys[i])).len()
                == 0 {
                assert forall|i: int| 0 <= i < keys.drop_last().len() implies (
                #[trigger] key_errors(cves, keys.drop_last()[i])).len() == 0 by {
                    assert(keys.drop_last()[i] == keys[i]);
                }
                assert(key_errors(cves, keys[keys.len() - 1]).len() == 0);
            }
        }
    }
}

/// The test passes exactly when no CVE identifier is used by two
/// vulnerability entries; otherwise it fails with the findings of
/// `duplicate_cve_errors`.
pub proof fn lemma_passes_iff_no_cve_used_twice(cves: Seq<Option<Seq<char>>>)
    ensures
        multiple_use_of_same_cve(cves) is Ok <==> !cve_used_twice(cves),
{
    let n = cves.len();
    let keys = first_seen(cves, n);
    lemma_first_seen(cves, n);
    lemma_keys_errors_empty(cves, keys);
    if cve_used_twice(cves) {
        let (i, j) = choose|i: int, j: int|
            0 <= i < j < cves.len() && cves[i] is Some && #[trigger] cves[i] == #[trigger] cves[j];
        let c = cves[i]->Some_0;
        lemma_occurrences(cves, c, n);
        let occ = occurrences(cves, c, n);
        assert(occ.contains(i as nat));
        assert(occ.contains(j as nat));
        let a = choose|a: int| 0 <= a < occ.len() && occ[a] == i as nat;
        let b = choose|b: int| 0 <= b < occ.len() && occ[b] == j as nat;
        assert(occ.len() > 1);
        assert(keys.contains(c));
        let k = choose|k: int| 0 <= k < keys.len() && keys[k] == c;
        assert(key_errors(cves, keys[k]).len() > 0);
    } else {
        assert forall|k: int| 0 <= k < keys.len() implies (#[trigger] key_errors(cves, keys[k])).len()
            == 0 by {
            let c = keys[k];
            assert(keys.contains(c));
            let p = choose|p: int| 0 <= p < n && cves[p] == Some(c);
            lemma_occurrences(cves, c, n);
            let occ = occurrences(cves, c, n);
            if occ.len() > 1 {
                assert(occ[0] < occ[1]);
                assert(cves[occ[0] as int] == cves[occ[1] as int]);
                assert(cve_used_twice(cves));
            }
        }
    }
}

/// The number of occurrences below `m` of the identifiers `keys`, summed.
pub open spec fn occurrence_sum(cves: Seq<Option<Seq<char>>>, keys: Seq<Seq<char>>, m: nat) -> nat
    decreases keys.len(),
{
    if keys.len() == 0 {
        0
    } else {
        occurrence_sum(cves, keys.drop_last(), m) + occurrences(cves, keys.last(), m).len()
    }
}

proof fn lemma_occurrence_sum_zero(cves: Seq<Option<Seq<char>>>, keys: Seq<Seq<char>>)
    ensures
        occurrence_sum(cves, keys, 0) == 0,
    decreases keys.len(),
{
    if keys.len() > 0 {
        lemma_occurrence_sum_zero(cves, keys.drop_last());
    }
}

/// One more position adds at most one occurrence to distinct identifiers.
proof fn lemma_occurrence_sum_step(cves: Seq<Option<Seq<char>>>, keys: Seq<Seq<char>>, m: nat)
    requires
        m < cves.len(),
        keys.no_duplicates(),
    ensures
        occurrence_sum(cves, keys, m + 1) <= occurrence_sum(cves, keys, m) + 1,
        (cves[m as int] is None || !keys.contains(cves[m as int]->Some_0)) ==> occurrence_sum(
            cves,
            keys,
            m + 1,
        ) == occurrence_sum(cves, keys, m),
    decreases keys.len(),
{
    if keys.len() > 0 {
        let rest = keys.drop_last();
        assert(rest.no_duplicates());
        lemma_occurrence_sum_step(cves, rest, m);
        if cves[m as int] == Some(keys.last()) {
            if rest.contains(keys.last()) {
                let k = choose|k: int| 0 <= k < rest.len() && rest[k] == keys.last();
                assert(keys[k] == keys[keys.len() - 1]);
            }
        } else if cves[m as int] is Some && rest.contains(cves[m as int]->Some_0) {
            let k = choose|k: int| 0 <= k < rest.len() && rest[k] == cves[m as int]->Some_0;
            assert(keys[k] == rest[k]);
        }
    }
}

/// Distinct identifiers occur below `m` at most `m` times in all.
proof fn lemma_occurrence_sum_bound(cves: Seq<Option<Seq<char>>>, keys: Seq<Seq<char>>, m: nat)
    requires
        m <= cves.len(),
        keys.no_duplicates(),
    ensures
        occurrence_sum(cves, keys, m) <= m,
    decreases m,
{
    if m == 0 {
        lemma_occurrence_sum_zero(cves, keys);
    } else {
        lemma_occurrence_sum_bound(cves, keys, (m - 1) as nat);
        lemma_occurrence_sum_step(cves, keys, (m - 1) as nat);
    }
}

proof fn lemma_keys_errors_len(cves: Seq<Option<Seq<char>>>, keys: Seq<Seq<char>>)
    ensures
        keys_errors(cves, keys).len() <= occurrence_sum(cves, keys, cves.len()),
    decreases keys.len(),
{
    if keys.len() > 0 {
        lemma_keys_errors_len(cves, keys.drop_last());
    }
}

/// The test reports at most one finding per vulnerability entry.
pub proof fn lemma_findings_bounded(cves: Seq<Option<Seq<char>>>)
    ensures
        duplicate_cve_errors(cves).len() <= cves.len(),
{
    let keys = first_seen(cves, cves.len());
    lemma_first_seen(cves, cves.len());
    lemma_keys_errors_len(cves, keys);
    lemma_occurrence_sum_bound(cves, keys, cves.len());
}

/// Occurrences of an identifier that is absent below `n`.
proof fn lemma_no_occurrences(cves: Seq<Option<Seq<char>>>, c: Seq<char>, n: nat)
    requires
        n <= cves.len(),
        forall|j: int| 0 <= j < n ==> cves[j] != Some(c),
    ensures
        occurrences(cves, c, n) == Seq::<nat>::empty(),
    decreases n,
{
    if n > 0 {
        lemma_no_occurrences(cves, c, (n - 1) as nat);
    }
}

/// Builds the finding for the CVE identifier `cve` used at position `path`.
pub fn generate_duplicate_cve_error(cve: &str, path: usize) -> (r: ValidationError)
    ensures
        r@ == duplicate_cve_error(cve@, path as nat),
{
    let mut message = String::from_str("Duplicate usage of same CVE identifier '");
    message.append(cve);
    message.append("'");
    let mut instance_path = String::from_str("/vulnerabilities/");
    push_decimal(&mut instance_path, path);
    instance_path.append("/cve");
    ValidationError { message, instance_path }
}

/// Index of `c` in `keys`, if it is there.
fn find_key(keys: &Vec<String>, c: &String) -> (r: Option<usize>)
    ensures
        match r {
            Some(k) => k < keys@.len() && keys@[k as int]@ == c@,
            None => !string_views(keys@).contains(c@),
        },
{
    let mut k: usize = 0;
    while k < keys.len()
        invariant
            k <= keys@.len(),
            forall|j: int| 0 <= j < k ==> keys@[j]@ != c@,
        decreases keys@.len() - k,
    {
        if keys[k] == *c {
            return Some(k);
        }
        k = k + 1;
    }
    proof {
        if string_views(keys@).contains(c@) {
            let j = choose|j: int| 0 <= j < string_views(keys@).len() && string_views(keys@)[j] == c@;
            assert(keys@[j]@ == c@);
        }
    }
    None
}

/// Test 6.1.23: Multiple Use of Same CVE
///
/// Vulnerability items must not contain the same string in the `/vulnerabilities[]/cve` field.
pub fn test_6_1_23_multiple_use_of_same_cve<D: CsafTrait>(doc: &D) -> (r: Result<
    (),
    Vec<ValidationError>,
>)
    ensures
        match r {
            Ok(()) => multiple_use_of_same_cve(cves_of(doc)) == Ok::<(), Seq<Finding>>(()),
            Err(e) => multiple_use_of_same_cve(cves_of(doc)) == Err::<(), Seq<Finding>>(
                findings_of(e@),
            ),
        },
{
    let vulnerabilities = doc.get_vulnerabilities();
    let ghost cves = cves_of(doc);

    // Check if there are any vulnerabilities, if there aren't, this test can be skipped
    if vulnerabilities.len() == 0 {
        assert(first_seen(cves, 0) =~= Seq::<Seq<char>>::empty());
        return Ok(());
    }

    // Map occurrence paths indexes to CVE identifiers
    let mut keys: Vec<String> = Vec::new();
    let mut paths: Vec<Vec<usize>> = Vec::new();
    let mut i: usize = 0;
    while i < vulnerabilities.len()
        invariant
            cves == cves_of(doc),
            vulnerabilities@ == doc.vulnerabilities_view(),
            i <= vulnerabilities@.len(),
            string_views(keys@) == first_seen(cves, i as nat),
            paths@.len() == keys@.len(),
            forall|k: int|
                0 <= k < keys@.len() ==> nat_seq(#[trigger] paths@[k]@) == occurrences(
                    cves,
                    keys@[k]@,
                    i as nat,
                ),
        decreases vulnerabilities@.len() - i,
    {
        proof {
            lemma_first_seen(cves, i as nat);
            assert(cves[i as int] == vulnerabilities@[i as int].cve_view());
        }
        let ghost keys_before = keys@;
        let ghost paths_before = paths@;
        if let Some(cve) = vulnerabilities[i].get_cve() {
            match find_key(&keys, cve) {
                Some(k) => {
                    let mut p = Vec::new();
                    paths.set_and_swap(k, &mut p);
                    p.push(i);
                    paths.set_and_swap(k, &mut p);
                    proof {
                        assert(string_views(keys@).contains(cve@)) by {
                            assert(string_views(keys@)[k as int] == cve@);
                        }
                        assert forall|q: int|
                            0 <= q < keys@.len() implies nat_seq(#[trigger] paths@[q]@)
                            == occurrences(cves, keys@[q]@, (i + 1) as nat) by {
                            if q == k {
                                assert(nat_seq(paths@[q]@) =~= nat_seq(paths_before[q]@).push(
                                    i as nat,
                                ));
                            } else {
                                assert(string_views(keys@)[q] != string_views(keys@)[k as int]);
                            }
                        }
                    }
                },
                None => {
                    let mut p = Vec::new();
                    p.push(i);
                    keys.push(cve.clone());
                    paths.push(p);
                    proof {
                        assert(string_views(keys@) =~= string_views(keys_before).push(cve@));
                        assert forall|q: int|
                            0 <= q < keys@.len() implies nat_seq(#[trigger] paths@[q]@)
                            == occurrences(cves, keys@[q]@, (i + 1) as nat) by {
                            if q == keys_before.len() {
                                assert(forall|j: int| 0 <= j < i ==> cves[j] != Some(cve@));
                                lemma_no_occurrences(cves, cve@, i as nat);
                                assert(nat_seq(paths@[q]@) =~= seq![i as nat]);
                            } else {
                                assert(keys@[q] == keys_before[q]);
                                assert(string_views(keys_before)[q] != cve@);
                            }
                        }
                    }
                },
            }
        } else {
            proof {
                assert forall|q: int|
                    0 <= q < keys@.len() implies nat_seq(#[trigger] paths@[q]@) == occurrences(
                        cves,
                        keys@[q]@,
                        (i + 1) as nat,
                    ) by {}
            }
        }
        i = i + 1;
    }

    // Check if there are any CVE identifiers, if there aren't, this test can be skipped
    if keys.len() == 0 {
        assert(string_views(keys@) =~= Seq::<Seq<char>>::empty());
        return Ok(());
    }

    // Generate errors for CVE identifiers with multiple occurrence paths indexes
    let ghost ks = first_seen(cves, cves.len());
    let mut errors: Vec<ValidationError> = Vec::new();
    let mut k: usize = 0;
    while k < keys.len()
        invariant
            cves == cves_of(doc),
            i == cves.len(),
            string_views(keys@) == ks,
            ks == first_seen(cves, cves.len()),
            paths@.len() == keys@.len(),
            forall|q: int|
                0 <= q < keys@.len() ==> nat_seq(#[trigger] paths@[q]@) == occurrences(
                    cves,
                    keys@[q]@,
                    i as nat,
                ),
            k <= keys@.len(),
            findings_of(errors@) == keys_errors(cves, ks.take(k as int)),
        decreases keys@.len() - k,
    {
        let ghost c = keys@[k as int]@;
        let ghost occ = occurrences(cves, c, cves.len());
        let ghost before = findings_of(errors@);
        assert(nat_seq(paths@[k as int]@) == occ);
        assert(ks.take(k + 1).drop_last() =~= ks.take(k as int));
        assert(ks.take(k + 1).last() == c);
        let key = keys[k].as_str();
        let positions = &paths[k];
        if positions.len() > 1 {
            let mut q: usize = 0;
            while q < positions.len()
                invariant
                    nat_seq(positions@) == occ,
                    key@ == c,
                    q <= positions@.len(),
                    findings_of(errors@) == before + occ.take(q as int).map_values(
                        |p: nat| duplicate_cve_error(c, p),
                    ),
                decreases positions@.len() - q,
            {
                let e = generate_duplicate_cve_error(key, positions[q]);
                let ghost prev = errors@;
                errors.push(e);
                proof {
                    assert(findings_of(errors@) =~= findings_of(prev).push(e@));
                    assert(occ.take(q + 1) =~= occ.take(q as int).push(positions@[q as int] as nat));
                    assert(occ.take(q + 1).map_values(|p: nat| duplicate_cve_error(c, p))
                        =~= occ.take(q as int).map_values(|p: nat| duplicate_cve_error(c, p)).push(
                        duplicate_cve_error(c, positions@[q as int] as nat),
                    ));
                }
                q = q + 1;
            }
            assert(occ.take(q as int) =~= occ);
        } else {
            assert(key_errors(cves, c) =~= Seq::<Finding>::empty());
            assert(findings_of(errors@) =~= before + key_errors(cves, c));
        }
        k = k + 1;
    }
    assert(ks.take(k as int) =~= ks);
    if errors.len() == 0 {
        Ok(())
    } else {
        Err(errors)
    }
}

} // verus!
