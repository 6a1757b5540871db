//! Sorted lists without duplicates.

use vstd::prelude::*;

verus! {

/// Every number is smaller than the ones behind it.
pub open spec fn increasing(s: Seq<u64>) -> bool {
    forall|i: int, j: int| #![trigger s[i], s[j]] 0 <= i < j < s.len() ==> s[i] < s[j]
}

/// A segment id and a generation.
pub type SegmentKey = (u64, u32);

/// The order of segment keys: by id, then by generation.
pub open spec fn key_less(a: SegmentKey, b: SegmentKey) -> bool {
    a.0 < b.0 || (a.0 == b.0 && a.1 < b.1)
}

/// Every key is smaller than the ones behind it.
pub open spec fn keys_increasing(s: Seq<SegmentKey>) -> bool {
    forall|i: int, j: int| #![trigger s[i], s[j]] 0 <= i < j < s.len() ==> key_less(s[i], s[j])
}

/// Two increasing lists with the same members are the same list.
pub proof fn increasing_unique(a: Seq<u64>, b: Seq<u64>)
    requires
        increasing(a),
        increasing(b),
        forall|x: u64| a.contains(x) <==> b.contains(x),
    ensures
        a == b,
    decreases a.len(),
{
    if a.len() == 0 {
        if b.len() > 0 {
            assert(b.contains(b[0]));
        }
        assert(a =~= b);
    } else if b.len() == 0 {
        assert(a.contains(a[0]));
    } else {
        let x = a.last();
        let y = b.last();
        assert(a.contains(x));
        assert(b.contains(x));
        assert(b.contains(y));
        assert(a.contains(y));
        let i = choose|i: int| 0 <= i < b.len() && b[i] == x;
        let j = choose|j: int| 0 <= j < a.len() && a[j] == y;
        assert(x == y);
        let a0 = a.drop_last();
        let b0 = b.drop_last();
        assert forall|z: u64| a0.contains(z) <==> b0.contains(z) by {
            if a0.contains(z) {
                let k = choose|k: int| 0 <= k < a0.len() && a0[k] == z;
                assert(a[k] == z && a[k] < a[a.len() - 1]);
                assert(a.contains(z));
                let m = choose|m: int| 0 <= m < b.len() && b[m] == z;
                assert(m < b.len() - 1);
                assert(b0[m] == z);
            }
            if b0.contains(z) {
                let k = choose|k: int| 0 <= k < b0.len() && b0[k] == z;
                assert(b[k] == z && b[k] < b[b.len() - 1]);
                assert(b.contains(z));
                let m = choose|m: int| 0 <= m < a.len() && a[m] == z;
                assert(m < a.len() - 1);
                assert(a0[m] == z);
            }
        }
        increasing_unique(a0, b0);
        assert(a =~= a0.push(x));
        assert(b =~= b0.push(y));
    }
}

/// Two increasing lists of keys with the same members are the same list.
pub proof fn keys_increasing_unique(a: Seq<SegmentKey>, b: Seq<SegmentKey>)
    requires
        keys_increasing(a),
        keys_increasing(b),
        forall|x: SegmentKey| a.contains(x) <==> b.contains(x),
    ensures
        a == b,
    decreases a.len(),
{
    if a.len() == 0 {
        if b.len() > 0 {
            assert(b.contains(b[0]));
        }
        assert(a =~= b);
    } else if b.len() == 0 {
        assert(a.contains(a[0]));
    } else {
        let x = a.last();
        let y = b.last();
        assert(a.contains(x));
        assert(b.contains(x));
        assert(b.contains(y));
        assert(a.contains(y));
        let i = choose|i: int| 0 <= i < b.len() && b[i] == x;
        let j = choose|j: int| 0 <= j < a.len() && a[j] == y;
        assert(x == y);
        let a0 = a.drop_last();
        let b0 = b.drop_last();
        assert forall|z: SegmentKey| a0.contains(z) <==> b0.contains(z) by {
            if a0.contains(z) {
                let k = choose|k: int| 0 <= k < a0.len() && a0[k] == z;
                assert(a[k] == z && key_less(a[k], a[a.len() - 1]));
                assert(a.contains(z));
                let m = choose|m: int| 0 <= m < b.len() && b[m] == z;
                assert(m < b.len() - 1);
                assert(b0[m] == z);
            }
            if b0.contains(z) {
                let k = choose|k: int| 0 <= k < b0.len() && b0[k] == z;
                assert(b[k] == z && key_less(b[k], b[b.len() - 1]));
                assert(b.contains(z));
                let m = choose|m: int| 0 <= m < a.len() && a[m] == z;
                assert(m < a.len() - 1);
                assert(a0[m] == z);
            }
        }
        keys_increasing_unique(a0, b0);
        assert(a =~= a0.push(x));
        assert(b =~= b0.push(y));
    }
}

/// Puts a number into an increasing list that does not hold it.
pub fn insert_number(list: &mut Vec<u64>, x: u64)
    requires
        increasing(old(list)@),
        !old(list)@.contains(x),
    ensures
        increasing(final(list)@),
        forall|y: u64| #[trigger] final(list)@.contains(y) <==> old(list)@.contains(y) || y == x,
{
    let ghost before = list@;
    let n: usize = list.len();
    let mut at: usize = 0;
    while at < n && list[at] < x
        invariant
            at <= n,
            n == list@.len(),
            list@ == before,
            forall|j: int| #![trigger before[j]] 0 <= j < at ==> before[j] < x,
        decreases n - at,
    {
        at = at + 1;
    }
    list.insert(at, x);
    assert(list@ =~= before.insert(at as int, x));
    assert(increasing(list@)) by {
        assert forall|i: int, j: int|
            #![trigger list@[i], list@[j]]
            0 <= i < j < list@.len() implies list@[i] < list@[j] by {
            if at < n {
                assert(before.contains(before[at as int]));
            }
            let i0 = if i < at { i } else { i - 1 };
            let j0 = if j < at { j } else { j - 1 };
            if i == at {
                assert(before[j0] >= before[at as int]);
            } else if j == at {
            } else {
                assert(before[i0] < before[j0]);
            }
        }
    }
    assert forall|y: u64| #[trigger] list@.contains(y) <==> before.contains(y) || y == x by {
        if list@.contains(y) {
            let k = choose|k: int| 0 <= k < list@.len() && list@[k] == y;
            if k < at {
                assert(before[k] == y);
            } else if k > at {
                assert(before[k - 1] == y);
            }
        }
        if before.contains(y) {
            let k = choose|k: int| 0 <= k < before.len() && before[k] == y;
            assert(list@[if k < at { k } else { k + 1 }] == y);
        }
        assert(list@[at as int] == x);
    }
}

/// Puts a key into an increasing list, which holds it once then.
pub fn insert_key(list: &mut Vec<SegmentKey>, x: SegmentKey)
    requires
        keys_increasing(old(list)@),
    ensures
        keys_increasing(final(list)@),
        forall|y: SegmentKey|
            #[trigger] final(list)@.contains(y) <==> old(list)@.contains(y) || y == x,
{
    let ghost before = list@;
    let n: usize = list.len();
    let mut at: usize = 0;
    while at < n && (list[at].0 < x.0 || (list[at].0 == x.0 && list[at].1 < x.1))
        invariant
            at <= n,
            n == list@.len(),
            list@ == before,
            forall|j: int| #![trigger before[j]] 0 <= j < at ==> key_less(before[j], x),
        decreases n - at,
    {
        at = at + 1;
    }
    if at < n && list[at].0 == x.0 && list[at].1 == x.1 {
        assert(before[at as int] == x);
        return;
    }
    list.insert(at, x);
    assert(list@ =~= before.insert(at as int, x));
    assert(keys_increasing(list@)) by {
        assert forall|i: int, j: int|
            #![trigger list@[i], list@[j]]
            0 <= i < j < list@.len() implies key_less(list@[i], list@[j]) by {
            if at < n {
                assert(before.contains(before[at as int]));
                assert(key_less(x, before[at as int]));
            }
            let i0 = if i < at { i } else { i - 1 };
            let j0 = if j < at { j } else { j - 1 };
            if i == at {
                if j0 > at {
                    assert(key_less(before[at as int], before[j0]));
                }
            } else if j == at {
            } else {
                assert(key_less(before[i0], before[j0]));
            }
        }
    }
    assert forall|y: SegmentKey| #[trigger] list@.contains(y) <==> before.contains(y) || y == x by {
        if list@.contains(y) {
            let k = choose|k: int| 0 <= k < list@.len() && list@[k] == y;
            if k < at {
                assert(before[k] == y);
            } else if k > at {
                assert(before[k - 1] == y);
            }
        }
        if before.contains(y) {
            let k = choose|k: int| 0 <= k < before.len() && before[k] == y;
            assert(list@[if k < at { k } else { k + 1 }] == y);
        }
        assert(list@[at as int] == x);
    }
}

/// The first place in an increasing list whose number is not below `needle`.
pub open spec fn lower_bound_of(values: Seq<u64>, needle: u64) -> int
    decreases values.len(),
{
    if values.len() == 0 || values[0] >= needle {
        0
    } else {
        1 + lower_bound_of(values.drop_first(), needle)
    }
}

/// The numbers before the lower bound are below the needle, the others are not.
pub proof fn lower_bound_splits(values: Seq<u64>, needle: u64)
    requires
        increasing(values),
    ensures
        0 <= lower_bound_of(values, needle) <= values.len(),
        forall|i: int|
            #![trigger values[i]]
            0 <= i < values.len() ==> (values[i] < needle <==> i < lower_bound_of(values, needle)),
    decreases values.len(),
{
    if values.len() > 0 && values[0] < needle {
        let rest = values.drop_first();
        assert(increasing(rest)) by {
            assert forall|i: int, j: int|
                #![trigger rest[i], rest[j]]
                0 <= i < j < rest.len() implies rest[i] < rest[j] by {
                assert(values[i + 1] < values[j + 1]);
            }
        }
        lower_bound_splits(rest, needle);
        assert forall|i: int|
            #![trigger values[i]]
            0 <= i < values.len() implies (values[i] < needle <==> i < lower_bound_of(
            values,
            needle,
        )) by {
            if i > 0 {
                assert(rest[i - 1] == values[i]);
            }
        }
    } else if values.len() > 0 {
        assert forall|i: int| #![trigger values[i]] 0 <= i < values.len() implies values[i]
            >= needle by {
            if i > 0 {
                assert(values[0] < values[i]);
            }
        }
    }
}

/// Finds the first place whose number is not below `needle`.
pub fn lower_bound(values: &[u64], needle: u64) -> (at: usize)
    requires
        increasing(values@),
    ensures
        at == lower_bound_of(values@, needle),
        at <= values@.len(),
{
    proof {
        lower_bound_splits(values@, needle);
    }
    let mut low: usize = 0;
    let mut high: usize = values.len();
    while low < high
        invariant
            low <= high <= values@.len(),
            increasing(values@),
            forall|i: int|
                #![trigger values@[i]]
                0 <= i < values@.len() ==> (values@[i] < needle <==> i < lower_bound_of(
                    values@,
                    needle,
                )),
            0 <= lower_bound_of(values@, needle) <= values@.len(),
            low <= lower_bound_of(values@, needle) <= high,
        decreases high - low,
    {
        let middle: usize = low + (high - low) / 2;
        if values[middle] < needle {
            low = middle + 1;
        } else {
            high = middle;
        }
    }
    low
}

} // verus!
