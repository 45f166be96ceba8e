//! The order in which an artist's releases are listed: newest first.

use vstd::prelude::*;

verus! {

/// `a` comes strictly before `b` in the order of `str::cmp`: character by
/// character, a proper prefix first.
pub open spec fn text_lt(a: Seq<char>, b: Seq<char>) -> bool
    decreases a.len(),
{
    if a.len() == 0 {
        b.len() > 0
    } else if b.len() == 0 {
        false
    } else if a[0] != b[0] {
        a[0] < b[0]
    } else {
        text_lt(a.drop_first(), b.drop_first())
    }
}

/// No text comes before itself, and of two different texts one comes first.
pub proof fn lemma_text_lt_total(a: Seq<char>, b: Seq<char>)
    ensures
        !(text_lt(a, b) && text_lt(b, a)),
        a != b ==> text_lt(a, b) || text_lt(b, a),
    decreases a.len(),
{
    if a.len() > 0 && b.len() > 0 && a[0] == b[0] {
        lemma_text_lt_total(a.drop_first(), b.drop_first());
        if a != b {
            assert(a.drop_first() != b.drop_first()) by {
                if a.drop_first() == b.drop_first() {
                    assert(a =~= seq![a[0]] + a.drop_first());
                    assert(b =~= seq![b[0]] + b.drop_first());
                }
            }
        }
    }
    if a.len() == 0 && b.len() == 0 {
        assert(a =~= b);
    }
}

/// The order is transitive.
pub proof fn lemma_text_lt_transitive(a: Seq<char>, b: Seq<char>, c: Seq<char>)
    requires
        text_lt(a, b),
        text_lt(b, c),
    ensures
        text_lt(a, c),
    decreases a.len(),
{
    if a.len() > 0 && b.len() > 0 && c.len() > 0 && a[0] == b[0] && b[0] == c[0] {
        lemma_text_lt_transitive(a.drop_first(), b.drop_first(), c.drop_first());
    }
}

/// The date by which a release is ordered: its original release date, or
/// empty when it has none.
pub open spec fn date_key(date: Option<String>) -> Seq<char> {
    match date {
        Some(d) => d@,
        None => Seq::empty(),
    }
}

/// Whether `a` comes strictly before `b` (`str::cmp`).
fn text_less(a: &[char], b: &[char]) -> (r: bool)
    ensures
        r == text_lt(a@, b@),
{
    let mut k: usize = 0;
    assert(a@.subrange(0, a@.len() as int) =~= a@);
    assert(b@.subrange(0, b@.len() as int) =~= b@);
    while k < a.len() && k < b.len()
        invariant
            k <= a@.len(),
            k <= b@.len(),
            text_lt(a@, b@) == text_lt(a@.subrange(k as int, a@.len() as int), b@.subrange(k as int, b@.len() as int)),
        decreases a@.len() - k,
    {
        let ghost sa = a@.subrange(k as int, a@.len() as int);
        let ghost sb = b@.subrange(k as int, b@.len() as int);
        assert(sa[0] == a@[k as int] && sb[0] == b@[k as int]);
        if a[k] != b[k] {
            return a[k] < b[k];
        }
        assert(sa.drop_first() =~= a@.subrange(k + 1, a@.len() as int));
        assert(sb.drop_first() =~= b@.subrange(k + 1, b@.len() as int));
        k = k + 1;
    }
    k < b.len()
}

/// The date key of a release, as characters.
fn key_chars(date: &Option<String>) -> (v: Vec<char>)
    ensures
        v@ == date_key(*date),
{
    match date {
        Some(d) => crate::text::chars_of(d.as_str()),
        None => Vec::new(),
    }
}

/// The order in which an artist's releases are listed, given their original
/// release dates: the positions of the releases, newest date first (dates
/// compared as text, a missing date as empty), releases with the same date
/// in their original order.
pub fn order_releases_newest_first(dates: &Vec<Option<String>>) -> (order: Vec<usize>)
    ensures
        order@.len() == dates@.len(),
        order@.no_duplicates(),
        forall|k: int| 0 <= k < order@.len() ==> #[trigger] order@[k] < dates@.len(),
        forall|a: int, b: int|
            0 <= a < b < order@.len() ==> !text_lt(
                date_key(dates@[#[trigger] order@[a] as int]),
                date_key(dates@[#[trigger] order@[b] as int]),
            ),
        forall|a: int, b: int|
            0 <= a < b < order@.len() && date_key(dates@[#[trigger] order@[a] as int])
                == date_key(dates@[#[trigger] order@[b] as int]) ==> order@[a] < order@[b],
{
    let mut keys: Vec<Vec<char>> = Vec::new();
    let mut i: usize = 0;
    while i < dates.len()
        invariant
            i <= dates@.len(),
            keys@.len() == i,
            forall|j: int| 0 <= j < i ==> (#[trigger] keys@[j])@ == date_key(dates@[j]),
        decreases dates@.len() - i,
    {
        keys.push(key_chars(&dates[i]));
        i = i + 1;
    }
    let ghost kv = Seq::new(dates@.len(), |j: int| date_key(dates@[j]));
    let mut order: Vec<usize> = Vec::new();
    let mut i: usize = 0;
    while i < dates.len()
        invariant
            i <= dates@.len(),
            keys@.len() == dates@.len(),
            forall|j: int| 0 <= j < dates@.len() ==> (#[trigger] keys@[j])@ == kv[j],
            kv.len() == dates@.len(),
            forall|j: int| 0 <= j < dates@.len() ==> #[trigger] kv[j] == date_key(dates@[j]),
            order@.len() == i,
            order@.no_duplicates(),
            forall|k: int| 0 <= k < order@.len() ==> #[trigger] order@[k] < i,
            forall|a: int, b: int|
                0 <= a < b < order@.len() ==> !text_lt(kv[#[trigger] order@[a] as int], kv[#[trigger] order@[b] as int]),
            forall|a: int, b: int|
                0 <= a < b < order@.len() && kv[#[trigger] order@[a] as int] == kv[#[trigger] order@[b] as int]
                    ==> order@[a] < order@[b],
        decreases dates@.len() - i,
    {
        let mut p: usize = order.len();
        while p > 0 && text_less(&keys[order[p - 1]], &keys[i])
            invariant
                p <= order@.len(),
                i < dates@.len(),
                keys@.len() == dates@.len(),
                forall|j: int| 0 <= j < dates@.len() ==> (#[trigger] keys@[j])@ == kv[j],
                forall|k: int| 0 <= k < order@.len() ==> #[trigger] order@[k] < i,
                forall|q: int| p <= q < order@.len() ==> text_lt(kv[#[trigger] order@[q] as int], kv[i as int]),
            decreases p,
        {
            p = p - 1;
        }
        let ghost before = order@;
        proof {
            if p > 0 {
                assert(!text_lt(kv[before[p - 1] as int], kv[i as int]));
            }
            assert forall|q: int| 0 <= q < p implies !text_lt(#[trigger] kv[before[q] as int], kv[i as int]) by {
                if q < p - 1 {
                    let x = kv[before[q] as int];
                    let y = kv[before[p - 1] as int];
                    let z = kv[i as int];
                    assert(!text_lt(x, y));
                    lemma_text_lt_total(x, y);
                    lemma_text_lt_total(y, z);
                    lemma_text_lt_total(x, z);
                    if text_lt(x, z) {
                        if x == y {
                        } else {
                            assert(text_lt(y, x));
                            if y == z {
                            } else {
                                assert(text_lt(z, y));
                                lemma_text_lt_transitive(z, y, x);
                            }
                        }
                    }
                }
            }
        }
        order.insert(p, i);
        proof {
            let after = order@;
            assert(after == before.insert(p as int, i));
            assert forall|k: int| 0 <= k < after.len() implies #[trigger] after[k] < i + 1 by {
                if k < p {
                    assert(after[k] == before[k]);
                } else if k > p {
                    assert(after[k] == before[k - 1]);
                }
            }
            assert forall|a: int, b: int| 0 <= a < b < after.len() implies after[a] != after[b] by {
                if a != p && b != p {
                    let a2 = if a < p { a } else { a - 1 };
                    let b2 = if b < p { b } else { b - 1 };
                    assert(after[a] == before[a2] && after[b] == before[b2]);
                } else if a == p {
                    let b2 = b - 1;
                    assert(after[b] == before[b2]);
                } else {
                    assert(after[a] == before[a]);
                }
            }
            assert forall|a: int, b: int|
                0 <= a < b < after.len() implies !text_lt(kv[#[trigger] after[a] as int], kv[#[trigger] after[b] as int])
                && (kv[after[a] as int] == kv[after[b] as int] ==> after[a] < after[b]) by {
                if a != p && b != p {
                    let a2 = if a < p { a } else { a - 1 };
                    let b2 = if b < p { b } else { b - 1 };
                    assert(after[a] == before[a2] && after[b] == before[b2]);
                } else if a == p {
                    let b2 = b - 1;
                    assert(after[b] == before[b2]);
                    lemma_text_lt_total(kv[before[b2] as int], kv[i as int]);
                } else {
                    assert(after[a] == before[a]);
                }
            }
        }
        i = i + 1;
    }
    proof {
        assert forall|a: int, b: int|
            0 <= a < b < order@.len() implies !text_lt(
                date_key(dates@[#[trigger] order@[a] as int]),
                date_key(dates@[#[trigger] order@[b] as int]),
            ) by {
            assert(kv[order@[a] as int] == date_key(dates@[order@[a] as int]));
            assert(kv[order@[b] as int] == date_key(dates@[order@[b] as int]));
        }
        assert forall|a: int, b: int|
            0 <= a < b < order@.len() && date_key(dates@[#[trigger] order@[a] as int])
                == date_key(dates@[#[trigger] order@[b] as int]) implies order@[a] < order@[b] by {
            assert(kv[order@[a] as int] == date_key(dates@[order@[a] as int]));
            assert(kv[order@[b] as int] == date_key(dates@[order@[b] as int]));
        }
    }
    order
}

} // verus!
