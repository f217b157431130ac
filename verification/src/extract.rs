//! Price extraction: locate the fixed marker in the raw page bytes and read
//! the run of ASCII decimal digits that starts immediately after it.
//!
//! The scan is a deliberately brittle textual heuristic: the page is not a
//! stable contract, so when its shape drifts the scan must fail cleanly
//! rather than guess. A missing marker, an empty digit run, or a run whose
//! value does not fit in `u64` all yield `None`.

use vstd::prelude::*;

verus! {

/// The literal marker that precedes the numeric price field in the page's
/// embedded data blob: the bytes of `{"name":"Bitcoin","price":`.
pub open spec fn marker() -> Seq<u8> {
    seq![
        123u8, 34u8, 110u8, 97u8, 109u8, 101u8, 34u8, 58u8, 34u8, 66u8, 105u8, 116u8, 99u8,
        111u8, 105u8, 110u8, 34u8, 44u8, 34u8, 112u8, 114u8, 105u8, 99u8, 101u8, 34u8, 58u8,
    ]
}

/// The marker occurs in `t` starting at index `i`.
pub open spec fn occurs_at(t: Seq<u8>, i: int) -> bool {
    &&& 0 <= i
    &&& i + 26 <= t.len()
    &&& forall|j: int| 0 <= j < 26 ==> t[i + j] == marker()[j]
}

/// The marker occurs somewhere in `t`.
pub open spec fn has_marker(t: Seq<u8>) -> bool {
    exists|i: int| occurs_at(t, i)
}

/// Index of the first marker occurrence at or after `i`, if any.
pub open spec fn first_marker_from(t: Seq<u8>, i: int) -> Option<int>
    recommends
        0 <= i,
    decreases t.len() + 26 - i,
{
    if i + 26 > t.len() {
        None
    } else if occurs_at(t, i) {
        Some(i)
    } else {
        first_marker_from(t, i + 1)
    }
}

/// An ASCII decimal digit.
pub open spec fn is_digit(b: u8) -> bool {
    48 <= b && b <= 57
}

/// First index at or after `i` that ends the run of consecutive digits
/// starting at `i` (the index of the first non-digit, or the end of `t`).
pub open spec fn digit_run_end(t: Seq<u8>, i: int) -> int
    decreases t.len() - i,
{
    if 0 <= i < t.len() && is_digit(t[i]) {
        digit_run_end(t, i + 1)
    } else {
        i
    }
}

/// Numeric value of a sequence of ASCII decimal digits, most significant
/// digit first.
pub open spec fn digits_val(s: Seq<u8>) -> nat
    decreases s.len(),
{
    if s.len() == 0 {
        0
    } else {
        (digits_val(s.drop_last()) * 10 + (s.last() - 48)) as nat
    }
}

/// What extraction yields on page bytes `t`: the digit run that starts
/// immediately after the first marker occurrence, parsed as a number.
/// `None` when the marker is absent, the run is empty, or the value does
/// not fit in `u64`.
pub open spec fn price_of(t: Seq<u8>) -> Option<u64> {
    match first_marker_from(t, 0) {
        None => None,
        Some(m) => {
            let s = m + 26;
            let e = digit_run_end(t, s);
            if e == s {
                None
            } else if digits_val(t.subrange(s, e)) > u64::MAX {
                None
            } else {
                Some(digits_val(t.subrange(s, e)) as u64)
            }
        },
    }
}

/// The marker as page bytes.
pub fn marker_bytes() -> (m: Vec<u8>)
    ensures
        m@ == marker(),
{
    let mut m: Vec<u8> = Vec::new();
    m.push(123);
    m.push(34);
    m.push(110);
    m.push(97);
    m.push(109);
    m.push(101);
    m.push(34);
    m.push(58);
    m.push(34);
    m.push(66);
    m.push(105);
    m.push(116);
    m.push(99);
    m.push(111);
    m.push(105);
    m.push(110);
    m.push(34);
    m.push(44);
    m.push(34);
    m.push(112);
    m.push(114);
    m.push(105);
    m.push(99);
    m.push(101);
    m.push(34);
    m.push(58);
    proof {
        assert(m@ =~= marker());
    }
    m
}

proof fn lemma_first_marker_from_correct(t: Seq<u8>, i: int)
    requires
        0 <= i,
    ensures
        match first_marker_from(t, i) {
            Some(k) => i <= k && occurs_at(t, k) && forall|j: int| i <= j < k ==> !occurs_at(t, j),
            None => forall|j: int| i <= j ==> !occurs_at(t, j),
        },
    decreases t.len() + 26 - i,
{
    if i + 26 > t.len() {
        assert forall|j: int| i <= j implies !occurs_at(t, j) by {}
    } else if occurs_at(t, i) {
    } else {
        lemma_first_marker_from_correct(t, i + 1);
    }
}

/// The first marker occurrence, characterized without recursion: if `i` is
/// an occurrence and nothing occurs before it, the scan finds `i`.
pub proof fn lemma_first_marker_some(t: Seq<u8>, i: int)
    requires
        occurs_at(t, i),
        forall|j: int| 0 <= j < i ==> !occurs_at(t, j),
    ensures
        first_marker_from(t, 0) == Some(i),
{
    lemma_first_marker_from_correct(t, 0);
    match first_marker_from(t, 0) {
        Some(k) => {
            if k < i {
                assert(!occurs_at(t, k));
            } else if k > i {
                assert(!occurs_at(t, i));
            }
        },
        None => {
            assert(!occurs_at(t, i));
        },
    }
}

/// Without any marker occurrence the scan finds nothing.
pub proof fn lemma_first_marker_none(t: Seq<u8>)
    requires
        forall|j: int| !occurs_at(t, j),
    ensures
        first_marker_from(t, 0) is None,
{
    lemma_first_marker_from_correct(t, 0);
    if let Some(k) = first_marker_from(t, 0) {
        assert(!occurs_at(t, k));
    }
}

/// Shape of the digit run: it sits between `i` and `digit_run_end(t, i)`,
/// every byte in it is a digit, and the byte that ends it (if any) is not.
proof fn lemma_digit_run_end_props(t: Seq<u8>, i: int)
    requires
        0 <= i <= t.len(),
    ensures
        i <= digit_run_end(t, i) <= t.len(),
        forall|k: int| i <= k < digit_run_end(t, i) ==> is_digit(t[k]),
        digit_run_end(t, i) < t.len() ==> !is_digit(t[digit_run_end(t, i)]),
    decreases t.len() - i,
{
    if i < t.len() && is_digit(t[i]) {
        lemma_digit_run_end_props(t, i + 1);
    }
}

/// A digit run keeps the same end when entered anywhere along its digits.
proof fn lemma_digit_run_end_advance(t: Seq<u8>, i: int, m: int)
    requires
        0 <= i <= m <= t.len(),
        forall|k: int| i <= k < m ==> is_digit(t[k]),
    ensures
        digit_run_end(t, i) == digit_run_end(t, m),
    decreases m - i,
{
    if i < m {
        assert(is_digit(t[i]));
        lemma_digit_run_end_advance(t, i + 1, m);
    }
}

/// Appending further digits to a digit run never shrinks its value.
proof fn lemma_digits_val_grows(t: Seq<u8>, s: int, m: int, e: int)
    requires
        0 <= s <= m <= e <= t.len(),
        forall|k: int| m <= k < e ==> is_digit(t[k]),
    ensures
        digits_val(t.subrange(s, e)) >= digits_val(t.subrange(s, m)),
    decreases e - m,
{
    if m < e {
        assert(t.subrange(s, m + 1).drop_last() =~= t.subrange(s, m));
        assert(t.subrange(s, m + 1).last() == t[m]);
        assert(digits_val(t.subrange(s, m + 1)) >= digits_val(t.subrange(s, m)));
        lemma_digits_val_grows(t, s, m + 1, e);
    }
}

fn marker_match_at(t: &Vec<u8>, i: usize) -> (r: bool)
    requires
        i + 26 <= t@.len(),
    ensures
        r == occurs_at(t@, i as int),
{
    let m = marker_bytes();
    let n = t.len();
    let mut j: usize = 0;
    while j < 26
        invariant
            j <= 26,
            i + 26 <= n == t@.len(),
            m@ == marker(),
            forall|k: int| 0 <= k < j ==> t@[i + k] == marker()[k],
        decreases 26 - j,
    {
        if t[i + j] != m[j] {
            assert(t@[i + j] != marker()[j as int]);
            return false;
        }
        j += 1;
    }
    true
}

/// Index of the first occurrence of the marker in `t`, if any.
pub fn find_marker(t: &Vec<u8>) -> (r: Option<usize>)
    ensures
        match r {
            Some(i) => first_marker_from(t@, 0) == Some(i as int),
            None => first_marker_from(t@, 0) is None,
        },
{
    if t.len() < 26 {
        proof {
            assert forall|j: int| !occurs_at(t@, j) by {}
            lemma_first_marker_none(t@);
        }
        return None;
    }
    let bound = t.len() - 26;
    let mut i: usize = 0;
    while i <= bound
        invariant
            bound == t@.len() - 26,
            t@.len() <= usize::MAX,
            i <= bound + 1,
            forall|j: int| 0 <= j < i ==> !occurs_at(t@, j),
        decreases bound + 1 - i,
    {
        if marker_match_at(t, i) {
            proof {
                lemma_first_marker_some(t@, i as int);
            }
            return Some(i);
        }
        i += 1;
    }
    proof {
        assert forall|j: int| !occurs_at(t@, j) by {
            if 0 <= j < i {
                assert(!occurs_at(t@, j));
            }
        }
        lemma_first_marker_none(t@);
    }
    None
}

fn scan_digit_run(t: &Vec<u8>, start: usize) -> (e: usize)
    requires
        start <= t@.len(),
    ensures
        e == digit_run_end(t@, start as int),
        start <= e <= t@.len(),
{
    let mut e = start;
    while e < t.len() && 48 <= t[e] && t[e] <= 57
        invariant
            start <= e <= t@.len(),
            forall|k: int| start <= k < e ==> is_digit(t@[k]),
        decreases t@.len() - e,
    {
        e += 1;
    }
    proof {
        lemma_digit_run_end_advance(t@, start as int, e as int);
    }
    e
}

fn parse_digit_run(t: &Vec<u8>, start: usize, end: usize) -> (r: Option<u64>)
    requires
        start <= end <= t@.len(),
        forall|k: int| start <= k < end ==> is_digit(t@[k]),
    ensures
        match r {
            Some(v) => digits_val(t@.subrange(start as int, end as int)) == v,
            None => digits_val(t@.subrange(start as int, end as int)) > u64::MAX,
        },
{
    let mut acc: u64 = 0;
    let mut k = start;
    while k < end
        invariant
            start <= k <= end <= t@.len(),
            forall|kk: int| start <= kk < end ==> is_digit(t@[kk]),
            acc == digits_val(t@.subrange(start as int, k as int)),
        decreases end - k,
    {
        let d = (t[k] - 48) as u64;
        proof {
            assert(t@.subrange(start as int, k + 1).drop_last() =~= t@.subrange(
                start as int,
                k as int,
            ));
            assert(t@.subrange(start as int, k + 1).last() == t@[k as int]);
        }
        let shifted = match acc.checked_mul(10) {
            Some(x) => x,
            None => {
                proof {
                    assert(digits_val(t@.subrange(start as int, k + 1)) > u64::MAX);
                    lemma_digits_val_grows(t@, start as int, k + 1, end as int);
                }
                return None;
            },
        };
        let next = match shifted.checked_add(d) {
            Some(x) => x,
            None => {
                proof {
                    assert(digits_val(t@.subrange(start as int, k + 1)) > u64::MAX);
                    lemma_digits_val_grows(t@, start as int, k + 1, end as int);
                }
                return None;
            },
        };
        acc = next;
        k += 1;
    }
    proof {
        assert(t@.subrange(start as int, end as int) =~= t@.subrange(start as int, k as int));
    }
    Some(acc)
}

/// Scan the page bytes for the price: find the first marker occurrence and
/// parse the digit run that starts immediately after it. The result is a
/// function of the input alone, pinned exactly by `price_of`.
pub fn find_price(t: &Vec<u8>) -> (r: Option<u64>)
    ensures
        r == price_of(t@),
{
    let m = match find_marker(t) {
        None => {
            return None;
        },
        Some(m) => m,
    };
    let n = t.len();
    proof {
        lemma_first_marker_from_correct(t@, 0);
        assert(m + 26 <= n);
    }
    let start = m + 26;
    let end = scan_digit_run(t, start);
    if end == start {
        return None;
    }
    proof {
        lemma_digit_run_end_props(t@, start as int);
    }
    parse_digit_run(t, start, end)
}

/// Marker-absent law: a page without any marker occurrence yields no price.
pub proof fn lemma_marker_absent(t: Seq<u8>)
    requires
        forall|i: int| !occurs_at(t, i),
    ensures
        price_of(t) is None,
{
    lemma_first_marker_none(t);
}

/// No-digits law: when the byte immediately after the first marker
/// occurrence is not a digit (or the marker ends the page), extraction
/// fails rather than yielding zero.
pub proof fn lemma_no_digits(t: Seq<u8>, i: int)
    requires
        occurs_at(t, i),
        forall|j: int| 0 <= j < i ==> !occurs_at(t, j),
        i + 26 == t.len() || !is_digit(t[i + 26]),
    ensures
        price_of(t) is None,
{
    lemma_first_marker_some(t, i);
    assert(digit_run_end(t, i + 26) == i + 26);
}

/// Marker-present law: on a page of the form `pre + marker + digits + suf`,
/// where the digits are a non-empty run ended by the suffix and no marker
/// occurrence starts inside `pre`, extraction yields exactly the value of
/// that digit run, whatever `pre` and `suf` hold.
pub proof fn lemma_marker_present(pre: Seq<u8>, digits: Seq<u8>, suf: Seq<u8>)
    requires
        digits.len() > 0,
        forall|k: int| 0 <= k < digits.len() ==> is_digit(digits[k]),
        suf.len() > 0 ==> !is_digit(suf[0]),
        digits_val(digits) <= u64::MAX,
        forall|j: int| 0 <= j < pre.len() ==> !occurs_at(pre + marker() + digits + suf, j),
    ensures
        price_of(pre + marker() + digits + suf) == Some(digits_val(digits) as u64),
{
    let t = pre + marker() + digits + suf;
    let i = pre.len() as int;
    let s = i + 26;
    assert(marker().len() == 26);
    assert(t.len() == pre.len() + 26 + digits.len() + suf.len());
    assert forall|j: int| 0 <= j < 26 implies t[i + j] == marker()[j] by {
        assert(t[i + j] == (pre + marker())[i + j]);
    }
    assert(occurs_at(t, i));
    lemma_first_marker_some(t, i);
    assert forall|k: int| s <= k < s + digits.len() implies is_digit(t[k]) by {
        assert(t[k] == digits[k - s]);
    }
    lemma_digit_run_end_advance(t, s, s + digits.len());
    if suf.len() > 0 {
        assert(t[s + digits.len()] == suf[0]);
        assert(digit_run_end(t, s + digits.len()) == s + digits.len());
    } else {
        assert(s + digits.len() == t.len());
        assert(digit_run_end(t, s + digits.len()) == s + digits.len());
    }
    assert(t.subrange(s, s + digits.len()) =~= digits);
}

} // verus!
