//! Test catalogues. The identifiers of one severity tier of a version are
//! `6.<section>.<n>` for `n` from 1 up to a last number, where one number may
//! be left out and one number may be split into the sub-identifiers
//! `6.<section>.<n>.<m>` for `m` from 1 up to a count.

use vstd::prelude::*;
use vstd::string::*;
use crate::text::{
    decimal, digit_at, digit_char, digit_char_of, digits_value, is_digit, lemma_decimal_digits,
    lemma_decimal_injective, lemma_decimal_len, lemma_digits_value_decimal, pow10, push_decimal,
    str_equal,
};
use crate::validation::string_views;

verus! {

/// Shape of the catalogue of one tier. `split` and `skipped` are 0 where no
/// number is split or left out.
#[derive(Debug, Clone, Copy)]
pub struct TierLayout {
    pub section: usize,
    pub last: usize,
    pub split: usize,
    pub split_count: usize,
    pub skipped: usize,
}

impl TierLayout {
    pub open spec fn wf(&self) -> bool {
        1 <= self.section < 10 && self.last < 10000 && self.split_count < 10000
    }
}

/// The identifier of `6.<section>.<key.0>`, followed by `.<key.1>` where `key.1 != 0`.
pub open spec fn id_text(section: nat, key: (nat, nat)) -> Seq<char> {
    seq!['6', '.'] + decimal(section) + seq!['.'] + decimal(key.0) + id_suffix(key.1)
}

pub open spec fn id_suffix(minor: nat) -> Seq<char> {
    if minor == 0 {
        seq![]
    } else {
        seq!['.'] + decimal(minor)
    }
}

/// The keys that the number `n` contributes to the catalogue.
pub open spec fn keys_at(l: TierLayout, n: nat) -> Seq<(nat, nat)> {
    if n == l.skipped {
        seq![]
    } else if n == l.split {
        Seq::new(l.split_count as nat, |k: int| (n, (k + 1) as nat))
    } else {
        seq![(n, 0nat)]
    }
}

/// The keys contributed by the numbers `1..=n`, in order.
pub open spec fn keys_upto(l: TierLayout, n: nat) -> Seq<(nat, nat)>
    decreases n,
{
    if n == 0 {
        seq![]
    } else {
        keys_upto(l, (n - 1) as nat) + keys_at(l, n)
    }
}

pub open spec fn ids_of(section: nat, keys: Seq<(nat, nat)>) -> Seq<Seq<char>> {
    keys.map_values(|k: (nat, nat)| id_text(section, k))
}

/// The identifiers of a tier, in catalogue order.
pub open spec fn catalogue(l: TierLayout) -> Seq<Seq<char>> {
    ids_of(l.section as nat, keys_upto(l, l.last as nat))
}

proof fn lemma_ids_of_push(section: nat, keys: Seq<(nat, nat)>, k: (nat, nat))
    ensures
        ids_of(section, keys.push(k)) == ids_of(section, keys).push(id_text(section, k)),
{
    assert(ids_of(section, keys.push(k)) =~= ids_of(section, keys).push(id_text(section, k)));
}

proof fn lemma_ids_of_concat(section: nat, a: Seq<(nat, nat)>, b: Seq<(nat, nat)>)
    ensures
        ids_of(section, a + b) == ids_of(section, a) + ids_of(section, b),
{
    assert(ids_of(section, a + b) =~= ids_of(section, a) + ids_of(section, b));
}

proof fn lemma_string_views_push(v: Seq<String>, x: String)
    ensures
        string_views(v.push(x)) == string_views(v).push(x@),
{
    assert(string_views(v.push(x)) =~= string_views(v).push(x@));
}

pub open spec fn key_lt(a: (nat, nat), b: (nat, nat)) -> bool {
    a.0 < b.0 || (a.0 == b.0 && a.1 < b.1)
}

/// The keys of the numbers `1..=n` are strictly increasing and their major
/// numbers lie in `1..=n`.
proof fn lemma_keys_sorted(l: TierLayout, n: nat)
    ensures
        forall|i: int|
            0 <= i < keys_upto(l, n).len() ==> 1 <= (#[trigger] keys_upto(l, n)[i]).0 <= n,
        forall|i: int, j: int|
            0 <= i < j < keys_upto(l, n).len() ==> key_lt(
                #[trigger] keys_upto(l, n)[i],
                #[trigger] keys_upto(l, n)[j],
            ),
    decreases n,
{
    if n > 0 {
        let prev = keys_upto(l, (n - 1) as nat);
        let at = keys_at(l, n);
        lemma_keys_sorted(l, (n - 1) as nat);
        assert(keys_upto(l, n) == prev + at);
        assert forall|i: int| 0 <= i < at.len() implies (#[trigger] at[i]).0 == n by {}
        assert forall|i: int, j: int| 0 <= i < j < at.len() implies key_lt(
            #[trigger] at[i],
            #[trigger] at[j],
        ) by {}
        assert forall|i: int|
            0 <= i < keys_upto(l, n).len() implies 1 <= (#[trigger] keys_upto(l, n)[i]).0 <= n by {
            if i >= prev.len() {
                assert(keys_upto(l, n)[i] == at[i - prev.len()]);
            } else {
                assert(keys_upto(l, n)[i] == prev[i]);
            }
        }
        assert forall|i: int, j: int|
            0 <= i < j < keys_upto(l, n).len() implies key_lt(
                #[trigger] keys_upto(l, n)[i],
                #[trigger] keys_upto(l, n)[j],
            ) by {
            if j < prev.len() {
                assert(keys_upto(l, n)[i] == prev[i]);
                assert(keys_upto(l, n)[j] == prev[j]);
            } else if i >= prev.len() {
                assert(keys_upto(l, n)[i] == at[i - prev.len()]);
                assert(keys_upto(l, n)[j] == at[j - prev.len()]);
            } else {
                assert(keys_upto(l, n)[i] == prev[i]);
                assert(keys_upto(l, n)[j] == at[j - prev.len()]);
            }
        }
    }
}

/// The prefix `6.<section>.` shared by all identifiers of a section.
pub open spec fn id_prefix(section: nat) -> Seq<char> {
    seq!['6', '.'] + decimal(section) + seq!['.']
}

/// Identifiers of one section are equal only for equal keys.
pub proof fn lemma_id_text_injective(section: nat, a: (nat, nat), b: (nat, nat))
    requires
        id_text(section, a) == id_text(section, b),
    ensures
        a == b,
{
    let x = id_text(section, a);
    let p = id_prefix(section).len() as int;
    let da = decimal(a.0);
    let db = decimal(b.0);
    let sa = id_suffix(a.1);
    let sb = id_suffix(b.1);
    assert(x =~= id_prefix(section) + (da + sa));
    assert(x =~= id_prefix(section) + (db + sb));
    let ra = da + sa;
    let rb = db + sb;
    assert(ra =~= x.subrange(p, x.len() as int));
    assert(rb =~= x.subrange(p, x.len() as int));
    lemma_decimal_digits(a.0);
    lemma_decimal_digits(b.0);
    if da.len() < db.len() {
        assert(is_digit(db[da.len() as int]));
        assert(rb[da.len() as int] == db[da.len() as int]);
        if a.1 == 0 {
            assert(ra.len() == da.len());
        } else {
            assert(ra[da.len() as int] == '.');
        }
        assert(false);
    }
    if db.len() < da.len() {
        assert(is_digit(da[db.len() as int]));
        assert(ra[db.len() as int] == da[db.len() as int]);
        if b.1 == 0 {
            assert(rb.len() == db.len());
        } else {
            assert(rb[db.len() as int] == '.');
        }
        assert(false);
    }
    assert(da =~= ra.subrange(0, da.len() as int));
    assert(db =~= rb.subrange(0, db.len() as int));
    lemma_decimal_injective(a.0, b.0);
    assert(sa =~= ra.subrange(da.len() as int, ra.len() as int));
    assert(sb =~= rb.subrange(db.len() as int, rb.len() as int));
    if a.1 != 0 || b.1 != 0 {
        if a.1 == 0 {
            lemma_decimal_digits(b.1);
            assert(sb.len() >= 2);
        } else if b.1 == 0 {
            lemma_decimal_digits(a.1);
            assert(sa.len() >= 2);
        } else {
            assert(decimal(a.1) =~= sa.subrange(1, sa.len() as int));
            assert(decimal(b.1) =~= sb.subrange(1, sb.len() as int));
            lemma_decimal_injective(a.1, b.1);
        }
    }
}

/// The identifiers of a tier are pairwise distinct, and each starts with the
/// prefix of its section.
pub proof fn lemma_catalogue(l: TierLayout)
    ensures
        catalogue(l).no_duplicates(),
        forall|i: int|
            0 <= i < catalogue(l).len() ==> (#[trigger] catalogue(l)[i]).len() > id_prefix(
                l.section as nat,
            ).len() && catalogue(l)[i].subrange(0, id_prefix(l.section as nat).len() as int)
                == id_prefix(l.section as nat),
{
    let keys = keys_upto(l, l.last as nat);
    let ids = catalogue(l);
    let sec = l.section as nat;
    lemma_keys_sorted(l, l.last as nat);
    assert forall|i: int, j: int| 0 <= i < ids.len() && 0 <= j < ids.len() && i != j implies ids[i]
        != ids[j] by {
        if ids[i] == ids[j] {
            lemma_id_text_injective(sec, keys[i], keys[j]);
            if i < j {
                assert(key_lt(keys[i], keys[j]));
            } else {
                assert(key_lt(keys[j], keys[i]));
            }
        }
    }
    assert forall|i: int| 0 <= i < ids.len() implies (#[trigger] ids[i]).len() > id_prefix(sec).len()
        && ids[i].subrange(0, id_prefix(sec).len() as int) == id_prefix(sec) by {
        lemma_decimal_digits(keys[i].0);
        assert(ids[i] =~= id_prefix(sec) + (decimal(keys[i].0) + id_suffix(keys[i].1)));
        assert(ids[i].subrange(0, id_prefix(sec).len() as int) =~= id_prefix(sec));
    }
}

/// The identifier `6.<section>.<major>` (and `.<minor>` where `minor != 0`).
pub fn id_string(section: usize, major: usize, minor: usize) -> (r: String)
    ensures
        r@ == id_text(section as nat, (major as nat, minor as nat)),
{
    proof {
        reveal_strlit("6.");
        reveal_strlit(".");
    }
    let mut s = String::from_str("6.");
    push_decimal(&mut s, section);
    s.append(".");
    push_decimal(&mut s, major);
    if minor != 0 {
        s.append(".");
        push_decimal(&mut s, minor);
    }
    assert(s@ =~= id_text(section as nat, (major as nat, minor as nat)));
    s
}

/// Builds the identifiers of a tier.
pub fn tier_catalogue(l: &TierLayout) -> (r: Vec<String>)
    requires
        l.wf(),
    ensures
        string_views(r@) == catalogue(*l),
{
    let mut r: Vec<String> = Vec::new();
    let mut n: usize = 1;
    while n <= l.last
        invariant
            l.wf(),
            1 <= n <= l.last + 1,
            string_views(r@) == ids_of(l.section as nat, keys_upto(*l, (n - 1) as nat)),
        decreases l.last + 1 - n,
    {
        let ghost before = r@;
        proof {
            assert(keys_upto(*l, n as nat) == keys_upto(*l, (n - 1) as nat) + keys_at(*l, n as nat));
        }
        if n == l.skipped {
        } else if n == l.split {
            let mut m: usize = 1;
            while m <= l.split_count
                invariant
                    l.wf(),
                    n == l.split,
                    n != l.skipped,
                    1 <= m <= l.split_count + 1,
                    string_views(r@) == string_views(before) + ids_of(
                        l.section as nat,
                        keys_at(*l, n as nat).take(m - 1),
                    ),
                decreases l.split_count + 1 - m,
            {
                let ghost prev = r@;
                let id = id_string(l.section, n, m);
                r.push(id);
                proof {
                    let sec = l.section as nat;
                    let ks = keys_at(*l, n as nat);
                    assert(ks.take(m as int) =~= ks.take(m - 1).push((n as nat, m as nat)));
                    lemma_string_views_push(prev, id);
                    lemma_ids_of_push(sec, ks.take(m - 1), (n as nat, m as nat));
                    assert(string_views(r@) =~= string_views(before) + ids_of(sec, ks.take(m as int)));
                }
                m = m + 1;
            }
            assert(keys_at(*l, n as nat).take(m - 1) =~= keys_at(*l, n as nat));
        } else {
            let id = id_string(l.section, n, 0);
            r.push(id);
            proof {
                lemma_string_views_push(before, id);
                assert(keys_at(*l, n as nat) =~= seq![(n as nat, 0nat)]);
                assert(ids_of(l.section as nat, keys_at(*l, n as nat)) =~= seq![id@]);
            }
        }
        proof {
            lemma_ids_of_concat(l.section as nat, keys_upto(*l, (n - 1) as nat), keys_at(*l, n as nat));
            if n == l.skipped {
                assert(keys_at(*l, n as nat) =~= Seq::<(nat, nat)>::empty());
                assert(ids_of(l.section as nat, keys_at(*l, n as nat)) =~= Seq::<Seq<char>>::empty());
            }
            assert(string_views(r@) =~= ids_of(l.section as nat, keys_upto(*l, n as nat)));
        }
        n = n + 1;
    }
    r
}

/// Whether `k` is a key that the numbers `1..=n` contribute.
pub open spec fn key_in_layout(l: TierLayout, k: (nat, nat), n: nat) -> bool {
    &&& 1 <= k.0 <= n
    &&& k.0 != l.skipped
    &&& if k.0 == l.split {
        1 <= k.1 <= l.split_count
    } else {
        k.1 == 0
    }
}

proof fn lemma_keys_upto_member(l: TierLayout, n: nat, k: (nat, nat))
    ensures
        keys_upto(l, n).contains(k) <==> key_in_layout(l, k, n),
    decreases n,
{
    if n > 0 {
        let prev = keys_upto(l, (n - 1) as nat);
        let at = keys_at(l, n);
        let all = keys_upto(l, n);
        lemma_keys_upto_member(l, (n - 1) as nat, k);
        assert(all == prev + at);
        if all.contains(k) {
            let j = choose|j: int| 0 <= j < all.len() && all[j] == k;
            if j < prev.len() {
                assert(prev[j] == k);
            } else {
                assert(at[j - prev.len()] == k);
            }
        }
        if key_in_layout(l, k, n) {
            if k.0 < n {
                let j = choose|j: int| 0 <= j < prev.len() && prev[j] == k;
                assert(all[j] == k);
            } else if k.0 == l.split {
                assert(at[k.1 - 1] == k);
                assert(all[prev.len() + k.1 - 1] == k);
            } else {
                assert(at[0] == k);
                assert(all[prev.len() as int] == k);
            }
        }
    }
}

/// Reads the run of at most four digits of `id` that starts at `start`.
/// Returns its value and the position after it; `None` where no digit
/// starts there or the run is longer.
fn read_number(id: &str, len: usize, start: usize) -> (r: Option<(usize, usize)>)
    requires
        len == id@.len(),
        start <= len,
    ensures
        match r {
            Some((v, e)) => {
                &&& start < e <= len
                &&& e - start <= 4
                &&& forall|j: int| start <= j < e ==> is_digit(#[trigger] id@[j])
                &&& (e == len || !is_digit(id@[e as int]))
                &&& v as nat == digits_value(id@.subrange(start as int, e as int))
            },
            None => start == len || !is_digit(id@[start as int]) || (start + 5 <= len && forall|
                j: int,
            |
                start <= j < start + 5 ==> is_digit(#[trigger] id@[j])),
        },
{
    proof {
        assert(pow10(0) == 1);
        assert(pow10(1) == 10 * pow10(0));
        assert(pow10(2) == 10 * pow10(1));
        assert(pow10(3) == 10 * pow10(2));
        assert(pow10(4) == 10 * pow10(3));
        assert(pow10(5) == 10 * pow10(4));
        assert(id@.subrange(start as int, start as int) =~= Seq::<char>::empty());
    }
    let mut v: usize = 0;
    let mut i: usize = start;
    while i < len && i - start < 5
        invariant
            len == id@.len(),
            start <= i <= len,
            i - start <= 5,
            pow10(0) == 1,
            pow10(1) == 10,
            pow10(2) == 100,
            pow10(3) == 1000,
            pow10(4) == 10000,
            pow10(5) == 100000,
            forall|j: int| start <= j < i ==> is_digit(#[trigger] id@[j]),
            v as nat == digits_value(id@.subrange(start as int, i as int)),
            v < pow10((i - start) as nat),
            pow10((i - start) as nat) <= 100000,
        ensures
            start <= i <= len,
            i - start <= 5,
            forall|j: int| start <= j < i ==> is_digit(#[trigger] id@[j]),
            v as nat == digits_value(id@.subrange(start as int, i as int)),
            i == len || i - start == 5 || !is_digit(id@[i as int]),
        decreases len - i,
    {
        let c = id.get_char(i);
        if !('0' <= c && c <= '9') {
            break;
        }
        let ghost k = (i - start) as nat;
        let ghost p = pow10(k);
        proof {
            assert(pow10(k + 1) == 10 * p);
            assert(k < 5);
            assert(pow10(k + 1) <= 100000);
            assert(10 * (v as nat) + 9 < 10 * p) by (nonlinear_arith)
                requires
                    (v as nat) < p,
            ;
            assert(id@.subrange(start as int, i + 1).drop_last() =~= id@.subrange(start as int, i as int));
        }
        v = 10 * v + digit_at(c);
        i = i + 1;
    }
    if i == start || i - start == 5 {
        None
    } else {
        Some((v, i))
    }
}

/// Whether `id` is an identifier of the tier's catalogue. The identifier is
/// read as a key and checked against the layout, without building the
/// catalogue.
pub fn tier_contains(l: &TierLayout, id: &str) -> (r: bool)
    requires
        l.wf(),
    ensures
        r == catalogue(*l).contains(id@),
{
    let ghost sec = l.section as nat;
    let ghost keys = keys_upto(*l, l.last as nat);
    let len = id.unicode_len();
    let ghost member = catalogue(*l).contains(id@);
    // the key of `id`, where `id` is in the catalogue
    let ghost k: (nat, nat) = if member {
        let j = choose|j: int| 0 <= j < catalogue(*l).len() && catalogue(*l)[j] == id@;
        keys[j]
    } else {
        (0, 0)
    };
    let ghost d0 = decimal(k.0);
    let ghost suffix = id_suffix(k.1);
    proof {
        if member {
            let j = choose|j: int| 0 <= j < catalogue(*l).len() && catalogue(*l)[j] == id@;
            assert(keys.contains(k)) by {
                assert(keys[j] == k);
            }
            lemma_keys_upto_member(*l, l.last as nat, k);
            assert(pow10(1) == 10 * pow10(0));
            assert(pow10(2) == 10 * pow10(1));
            assert(pow10(3) == 10 * pow10(2));
            assert(pow10(4) == 10 * pow10(3));
            lemma_decimal_len(k.0, 4);
            lemma_decimal_digits(k.0);
            lemma_digits_value_decimal(k.0);
            if k.1 != 0 {
                lemma_decimal_len(k.1, 4);
                lemma_decimal_digits(k.1);
                lemma_digits_value_decimal(k.1);
            }
            assert(decimal(sec) == seq![digit_char(sec)]);
            assert(id@ =~= seq!['6', '.', digit_char(sec), '.'] + d0 + suffix);
        }
    }
    if len < 5 {
        return false;
    }
    if id.get_char(0) != '6' || id.get_char(1) != '.' || id.get_char(2) != digit_char_of(l.section)
        || id.get_char(3) != '.' {
        return false;
    }
    let (major, end) = match read_number(id, len, 4) {
        Some(x) => x,
        None => {
            proof {
                if member {
                    assert(id@[4] == d0[0]);
                    if 4 + d0.len() < len {
                        assert(id@[4 + d0.len() as int] == '.');
                    }
                }
            }
            return false;
        },
    };
    proof {
        if member {
            if end < 4 + d0.len() {
                assert(id@[end as int] == d0[end - 4]);
            }
            if end > 4 + d0.len() {
                assert(id@[4 + d0.len() as int] == '.');
            }
            assert(id@.subrange(4, end as int) =~= d0);
        }
    }
    let minor: usize = if end == len {
        0
    } else if id.get_char(end) == '.' {
        match read_number(id, len, end + 1) {
            Some((m, e)) => {
                if e != len {
                    proof {
                        if member {
                            assert(id@.len() == end + 1 + decimal(k.1).len());
                            assert(id@[e as int] == decimal(k.1)[e - end - 1]);
                        }
                    }
                    return false;
                }
                proof {
                    if member {
                        assert(id@.subrange(end + 1, e as int) =~= decimal(k.1));
                    }
                }
                m
            },
            None => {
                proof {
                    if member {
                        assert(id@[end + 1] == decimal(k.1)[0]);
                        assert(id@.len() <= end + 5);
                    }
                }
                return false;
            },
        }
    } else {
        return false;
    };
    let valid = 1 <= major && major <= l.last && major != l.skipped && if major == l.split {
        1 <= minor && minor <= l.split_count
    } else {
        minor == 0
    };
    if !valid {
        return false;
    }
    let candidate = id_string(l.section, major, minor);
    let r = str_equal(candidate.as_str(), id);
    proof {
        let kk = (major as nat, minor as nat);
        if r {
            lemma_keys_upto_member(*l, l.last as nat, kk);
            let j = choose|j: int| 0 <= j < keys.len() && keys[j] == kk;
            assert(catalogue(*l)[j] == id@);
        }
    }
    r
}

} // verus!
