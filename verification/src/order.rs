//! The order in which the backend lists students and violations.
//!
//! Both lists are ordered without moving the records: the functions here give
//! the order as positions into the list. Records of equal rank stay in the
//! order in which they came.

use vstd::prelude::*;
use vstd::utf8::encode_utf8;

verus! {

/// Whether the bytes `a` come before the bytes `b`: at the first position
/// where they differ `a` holds the smaller byte, or `a` ends there and `b`
/// goes on.
pub open spec fn bytes_before(a: Seq<u8>, b: Seq<u8>) -> bool
    decreases a.len(),
{
    if b.len() == 0 {
        false
    } else if a.len() == 0 {
        true
    } else if a[0] != b[0] {
        a[0] < b[0]
    } else {
        bytes_before(a.skip(1), b.skip(1))
    }
}

/// Whether the moment `a` is later than the moment `b`. A moment is given in
/// seconds and, within the second, nanoseconds.
pub open spec fn stamp_after(a: (i64, u32), b: (i64, u32)) -> bool {
    a.0 > b.0 || (a.0 == b.0 && a.1 > b.1)
}

/// The rank of hostnames: position `x` comes before position `y` where its
/// hostname comes first byte by byte.
pub open spec fn hostname_rank(hostnames: Seq<String>) -> spec_fn(int, int) -> bool {
    |x: int, y: int| bytes_before(encode_utf8(hostnames[x]@), encode_utf8(hostnames[y]@))
}

/// The rank of moments: position `x` comes before position `y` where its
/// moment is the later one.
pub open spec fn newest_rank(stamps: Seq<(i64, u32)>) -> spec_fn(int, int) -> bool {
    |x: int, y: int| stamp_after(stamps[x], stamps[y])
}

/// `order` holds each of the positions `0..n` exactly once.
pub open spec fn is_permutation(order: Seq<usize>, n: nat) -> bool {
    &&& order.len() == n
    &&& forall|k: int| 0 <= k < order.len() ==> #[trigger] order[k] < n
    &&& order.no_duplicates()
}

/// `order` follows the rank: no position stands behind one that it comes
/// before, and of two positions of equal rank the smaller stands first.
pub open spec fn is_stable_order(order: Seq<usize>, before: spec_fn(int, int) -> bool) -> bool {
    forall|a: int, b: int|
        #![trigger order[a], order[b]]
        0 <= a < b < order.len() ==> !before(order[b] as int, order[a] as int) && (before(
            order[a] as int,
            order[b] as int,
        ) || order[a] < order[b])
}

/// Whether a rank is one that a list can be ordered by: no position comes
/// before one that comes before it, and coming no earlier carries over.
pub open spec fn is_rank(before: spec_fn(int, int) -> bool) -> bool {
    &&& forall|x: int, y: int| #[trigger] before(x, y) ==> !before(y, x)
    &&& forall|x: int, y: int, z: int|
        !(#[trigger] before(x, y)) && !(#[trigger] before(y, z)) ==> !before(x, z)
}

/// Putting the next position where the ranks ask for it keeps the order.
proof fn lemma_insert_keeps_order(
    order: Seq<usize>,
    before: spec_fn(int, int) -> bool,
    next: usize,
    at: int,
)
    requires
        is_rank(before),
        is_permutation(order, next as nat),
        is_stable_order(order, before),
        0 <= at <= order.len(),
        forall|k: int| at <= k < order.len() ==> before(next as int, #[trigger] order[k] as int),
        at > 0 ==> !before(next as int, order[at - 1] as int),
    ensures
        is_permutation(order.insert(at, next), (next + 1) as nat),
        is_stable_order(order.insert(at, next), before),
{
    let grown = order.insert(at, next);
    assert forall|k: int| 0 <= k < grown.len() implies #[trigger] grown[k] < next + 1 by {
        if k < at {
            assert(grown[k] == order[k]);
        } else if k > at {
            assert(grown[k] == order[k - 1]);
        }
    }
    assert forall|i: int, j: int|
        0 <= i < grown.len() && 0 <= j < grown.len() && i != j implies grown[i] != grown[j] by {
        let a = if i < at { i } else { i - 1 };
        let b = if j < at { j } else { j - 1 };
        if i != at && j != at {
            assert(grown[i] == order[a]);
            assert(grown[j] == order[b]);
        } else if i == at {
            assert(grown[j] == order[b]);
        } else {
            assert(grown[i] == order[a]);
        }
    }
    assert forall|a: int, b: int|
        #![trigger grown[a], grown[b]]
        0 <= a < b < grown.len() implies !before(grown[b] as int, grown[a] as int) && (before(
        grown[a] as int,
        grown[b] as int,
    ) || grown[a] < grown[b]) by {
        if b < at {
            assert(grown[a] == order[a] && grown[b] == order[b]);
        } else if a > at {
            assert(grown[a] == order[a - 1] && grown[b] == order[b - 1]);
        } else if a < at && b > at {
            assert(grown[a] == order[a] && grown[b] == order[b - 1]);
        } else if b == at {
            // an earlier position against the new one
            assert(grown[a] == order[a]);
            assert(order[a] < next);
            if a < at - 1 {
                assert(!before(order[at - 1] as int, order[a] as int));
            }
            assert(!before(next as int, order[a] as int));
        } else {
            // the new one against a later position
            assert(a == at);
            assert(grown[b] == order[b - 1]);
            assert(before(next as int, order[b - 1] as int));
        }
    }
}

/// What comes before what, byte by byte, never goes both ways.
proof fn lemma_bytes_before_one_way(a: Seq<u8>, b: Seq<u8>)
    ensures
        bytes_before(a, b) ==> !bytes_before(b, a),
    decreases a.len(),
{
    if a.len() > 0 && b.len() > 0 && a[0] == b[0] {
        lemma_bytes_before_one_way(a.skip(1), b.skip(1));
    }
}

/// Coming no earlier, byte by byte, carries over.
proof fn lemma_bytes_not_before_carries(a: Seq<u8>, b: Seq<u8>, c: Seq<u8>)
    ensures
        !bytes_before(a, b) && !bytes_before(b, c) ==> !bytes_before(a, c),
    decreases a.len(),
{
    if a.len() > 0 && b.len() > 0 && c.len() > 0 && a[0] == b[0] && b[0] == c[0] {
        lemma_bytes_not_before_carries(a.skip(1), b.skip(1), c.skip(1));
    }
}

/// Hostnames can be ordered by their bytes.
proof fn lemma_hostname_rank(hostnames: Seq<String>)
    ensures
        is_rank(hostname_rank(hostnames)),
{
    let before = hostname_rank(hostnames);
    assert forall|x: int, y: int| #[trigger] before(x, y) implies !before(y, x) by {
        lemma_bytes_before_one_way(encode_utf8(hostnames[x]@), encode_utf8(hostnames[y]@));
    }
    assert forall|x: int, y: int, z: int|
        !(#[trigger] before(x, y)) && !(#[trigger] before(y, z)) implies !before(x, z) by {
        lemma_bytes_not_before_carries(
            encode_utf8(hostnames[x]@),
            encode_utf8(hostnames[y]@),
            encode_utf8(hostnames[z]@),
        );
    }
}

/// Whether the text `left` comes before the text `right`, byte by byte.
pub fn text_before(left: &str, right: &str) -> (before: bool)
    ensures
        before == bytes_before(encode_utf8(left@), encode_utf8(right@)),
{
    let a = left.as_bytes();
    let b = right.as_bytes();
    let mut i: usize = 0;
    assert(a@.skip(0) =~= a@ && b@.skip(0) =~= b@);
    while i < a.len() && i < b.len()
        invariant
            i <= a@.len(),
            i <= b@.len(),
            a@ == encode_utf8(left@),
            b@ == encode_utf8(right@),
            bytes_before(a@, b@) == bytes_before(a@.skip(i as int), b@.skip(i as int)),
        decreases a@.len() - i,
    {
        assert(a@.skip(i as int)[0] == a@[i as int]);
        assert(b@.skip(i as int)[0] == b@[i as int]);
        if a[i] != b[i] {
            return a[i] < b[i];
        }
        assert(a@.skip(i as int).skip(1) =~= a@.skip(i + 1));
        assert(b@.skip(i as int).skip(1) =~= b@.skip(i + 1));
        i += 1;
    }
    a.len() < b.len()
}

/// Whether the moment `a` is later than the moment `b`.
pub fn is_later(a: (i64, u32), b: (i64, u32)) -> (later: bool)
    ensures
        later == stamp_after(a, b),
{
    a.0 > b.0 || (a.0 == b.0 && a.1 > b.1)
}

/// The order of a list of students by hostname: the positions of the list,
/// each once, so that the hostnames ascend byte by byte; students with the
/// same hostname keep the order in which they came.
pub fn order_by_hostname(hostnames: &Vec<String>) -> (order: Vec<usize>)
    ensures
        is_permutation(order@, hostnames@.len() as nat),
        is_stable_order(order@, hostname_rank(hostnames@)),
{
    let ghost before = hostname_rank(hostnames@);
    let mut order: Vec<usize> = Vec::new();
    let mut next: usize = 0;
    while next < hostnames.len()
        invariant
            next <= hostnames@.len(),
            before == hostname_rank(hostnames@),
            is_permutation(order@, next as nat),
            is_stable_order(order@, before),
        decreases hostnames@.len() - next,
    {
        let mut at: usize = order.len();
        while at > 0 && text_before(hostnames[next].as_str(), hostnames[order[at - 1]].as_str())
            invariant
                at <= order@.len(),
                next < hostnames@.len(),
                before == hostname_rank(hostnames@),
                is_permutation(order@, next as nat),
                forall|k: int|
                    at <= k < order@.len() ==> before(next as int, #[trigger] order@[k] as int),
            decreases at,
        {
            at -= 1;
        }
        proof {
            lemma_hostname_rank(hostnames@);
            lemma_insert_keeps_order(order@, before, next, at as int);
        }
        order.insert(at, next);
        next += 1;
    }
    order
}

/// The order of a list of violations, newest first: the positions of the
/// list, each once, so that the moments descend; violations of the same
/// moment keep the order in which they came.
pub fn newest_first(stamps: &Vec<(i64, u32)>) -> (order: Vec<usize>)
    ensures
        is_permutation(order@, stamps@.len() as nat),
        is_stable_order(order@, newest_rank(stamps@)),
{
    let ghost before = newest_rank(stamps@);
    let mut order: Vec<usize> = Vec::new();
    let mut next: usize = 0;
    while next < stamps.len()
        invariant
            next <= stamps@.len(),
            before == newest_rank(stamps@),
            is_permutation(order@, next as nat),
            is_stable_order(order@, before),
        decreases stamps@.len() - next,
    {
        let mut at: usize = order.len();
        while at > 0 && is_later(stamps[next], stamps[order[at - 1]])
            invariant
                at <= order@.len(),
                next < stamps@.len(),
                before == newest_rank(stamps@),
                is_permutation(order@, next as nat),
                forall|k: int|
                    at <= k < order@.len() ==> before(next as int, #[trigger] order@[k] as int),
            decreases at,
        {
            at -= 1;
        }
        proof {
            assert(is_rank(before));
            lemma_insert_keeps_order(order@, before, next, at as int);
        }
        order.insert(at, next);
        next += 1;
    }
    order
}

/// The records in the order that `order` gives: the record at position
/// `order[k]` comes `k`-th.
pub open spec fn arranged_by<T>(records: Seq<T>, order: Seq<usize>) -> Seq<T> {
    Seq::new(order.len(), |k: int| records[order[k] as int])
}

/// Puts records into a given order without copying them. The order must
/// hold each position of the list exactly once; any other list of positions
/// gives `None`.
pub fn arranged<T>(records: Vec<T>, order: &Vec<usize>) -> (sorted: Option<Vec<T>>)
    ensures
        match sorted {
            Some(list) => is_permutation(order@, records@.len() as nat) && list@ == arranged_by(
                records@,
                order@,
            ),
            None => !is_permutation(order@, records@.len() as nat),
        },
{
    let ghost given = records@;
    let n = records.len();
    if order.len() != n {
        return None;
    }
    // The records move into slots that can be emptied one by one.
    let mut records = records;
    let mut backwards: Vec<Option<T>> = Vec::new();
    while records.len() > 0
        invariant
            records@.len() + backwards@.len() == n,
            n == given.len(),
            records@ == given.take(records@.len() as int),
            forall|j: int|
                0 <= j < backwards@.len() ==> #[trigger] backwards@[j] == Some(given[n - 1 - j]),
        decreases records@.len(),
    {
        let ghost before = records@;
        let record = records.pop();
        assert(records@ =~= given.take(records@.len() as int));
        assert(record == Some(given[before.len() - 1]));
        backwards.push(record);
    }
    let mut slots: Vec<Option<T>> = Vec::new();
    let ghost reversed = backwards@;
    while backwards.len() > 0
        invariant
            backwards@.len() + slots@.len() == n,
            n == given.len(),
            reversed.len() == n,
            backwards@ == reversed.take(backwards@.len() as int),
            forall|j: int| 0 <= j < n ==> #[trigger] reversed[j] == Some(given[n - 1 - j]),
            forall|j: int| 0 <= j < slots@.len() ==> #[trigger] slots@[j] == Some(given[j]),
        decreases backwards@.len(),
    {
        let ghost before = backwards@;
        let slot = backwards.pop();
        assert(backwards@ =~= reversed.take(backwards@.len() as int));
        assert(slot == Some(reversed[before.len() - 1]));
        if let Some(held) = slot {
            slots.push(held);
        }
    }
    let mut sorted: Vec<T> = Vec::new();
    let mut k: usize = 0;
    while k < n
        invariant
            k <= n,
            n == given.len(),
            order@.len() == n,
            slots@.len() == n,
            sorted@.len() == k,
            forall|m: int| 0 <= m < k ==> #[trigger] order@[m] < n,
            order@.take(k as int).no_duplicates(),
            forall|m: int| 0 <= m < k ==> #[trigger] sorted@[m] == given[order@[m] as int],
            forall|j: int|
                0 <= j < n ==> #[trigger] slots@[j] == if order@.take(k as int).contains(
                    j as usize,
                ) {
                    None
                } else {
                    Some(given[j])
                },
        decreases n - k,
    {
        let at = order[k];
        if at >= n {
            return None;
        }
        let ghost earlier = order@.take(k as int);
        let ghost emptied = slots@[at as int];
        let slot = slots[at].take();
        match slot {
            Some(record) => {
                sorted.push(record);
                proof {
                    let now = order@.take(k + 1);
                    assert(now =~= earlier.push(at));
                    assert(!earlier.contains(at));
                    assert forall|i: int, j: int|
                        0 <= i < now.len() && 0 <= j < now.len() && i != j implies now[i]
                        != now[j] by {
                        if i < k && j < k {
                            assert(earlier[i] != earlier[j]);
                        } else if i < k {
                            assert(earlier.contains(earlier[i]));
                        } else {
                            assert(earlier.contains(earlier[j]));
                        }
                    }
                    assert forall|j: int| 0 <= j < n implies #[trigger] slots@[j]
                        == if now.contains(j as usize) {
                        None
                    } else {
                        Some(given[j])
                    } by {
                        if j == at {
                            assert(now[k as int] == at);
                        } else if earlier.contains(j as usize) {
                            let m = earlier.index_of(j as usize);
                            assert(now[m] == j as usize);
                        } else if now.contains(j as usize) {
                            let m = now.index_of(j as usize);
                            assert(m < k);
                            assert(earlier[m] == j as usize);
                        }
                    }
                }
            },
            None => {
                proof {
                    assert(emptied is None);
                    assert(earlier.contains(at));
                    let m = earlier.index_of(at);
                    assert(order@[m] == order@[k as int] && m != k);
                }
                return None;
            },
        }
        k += 1;
    }
    assert(order@.take(n as int) =~= order@);
    assert(sorted@ =~= arranged_by(given, order@));
    Some(sorted)
}

} // verus!
