//! Listings: the first few of a set of records, in order.
//!
//! A record is listed by a key: a rank, and the record's identifier, which
//! decides between equal ranks. Because identifiers differ, two keys are never
//! equally placed, and a listing is determined by the keys it is drawn from.

use vstd::prelude::*;

verus! {

/// What a record is listed by.
#[derive(Clone, Copy, Debug, PartialEq, Eq, Structural)]
pub struct ListingKey {
    /// What the listing goes by: the smaller comes first.
    pub rank: i64,
    /// The record's identifier: between equal ranks the smaller comes first.
    pub id: u128,
    /// Where the record is kept.
    pub slot: usize,
}

impl ListingKey {
    /// Whether `self` is listed before `other`.
    pub open spec fn before(self, other: ListingKey) -> bool {
        self.rank < other.rank || (self.rank == other.rank && self.id < other.id)
    }

    /// Whether `self` is listed before `other`.
    pub fn is_before(&self, other: &ListingKey) -> (r: bool)
        ensures
            r == self.before(*other),
    {
        self.rank < other.rank || (self.rank == other.rank && self.id < other.id)
    }
}

/// Whether no two keys have the same identifier.
pub open spec fn distinct_ids(keys: Seq<ListingKey>) -> bool {
    forall|i: int, j: int|
        0 <= i < j < keys.len() ==> (#[trigger] keys[i]).id != (#[trigger] keys[j]).id
}

/// Whether each key is listed before every later one.
pub open spec fn in_order(listed: Seq<ListingKey>) -> bool {
    forall|i: int, j: int|
        0 <= i < j < listed.len() ==> (#[trigger] listed[i]).before(#[trigger] listed[j])
}

/// Whether `key` is one of the first `upto` of `keys`.
pub open spec fn among(key: ListingKey, keys: Seq<ListingKey>, upto: int) -> bool {
    exists|j: int| 0 <= j < upto && #[trigger] keys[j] == key
}

/// Whether every one of `listed` is listed before `key`.
pub open spec fn all_before(listed: Seq<ListingKey>, key: ListingKey) -> bool {
    forall|i: int| 0 <= i < listed.len() ==> (#[trigger] listed[i]).before(key)
}

/// Whether `listed` is the listing of the first `upto` of `keys`, cut off
/// after `limit` entries: it is in order, holds keys of those only, is as
/// long as the limit and the number of keys allow, and a key that it leaves
/// out comes after all that it holds, which then are as many as the limit.
pub open spec fn lists_first(
    listed: Seq<ListingKey>,
    keys: Seq<ListingKey>,
    upto: int,
    limit: int,
) -> bool {
    &&& listed.len() == if upto <= limit {
        upto
    } else {
        limit
    }
    &&& in_order(listed)
    &&& forall|i: int| 0 <= i < listed.len() ==> among(#[trigger] listed[i], keys, upto)
    &&& forall|j: int|
        0 <= j < upto ==> listed.contains(#[trigger] keys[j]) || (listed.len() == limit
            && all_before(listed, keys[j]))
}

/// Whether `listed` is the listing of `keys`, cut off after `limit` entries.
pub open spec fn lists(listed: Seq<ListingKey>, keys: Seq<ListingKey>, limit: int) -> bool {
    lists_first(listed, keys, keys.len() as int, limit)
}

proof fn lemma_new_key_differs(listed: Seq<ListingKey>, keys: Seq<ListingKey>, k: int)
    requires
        distinct_ids(keys),
        0 <= k < keys.len(),
        forall|i: int| 0 <= i < listed.len() ==> among(#[trigger] listed[i], keys, k),
    ensures
        forall|i: int| 0 <= i < listed.len() ==> (#[trigger] listed[i]).id != keys[k].id,
{
    assert forall|i: int| 0 <= i < listed.len() implies (#[trigger] listed[i]).id
        != keys[k].id by {
        assert(among(listed[i], keys, k));
        let j = choose|j: int| 0 <= j < k && #[trigger] keys[j] == listed[i];
        assert(keys[j].id != keys[k].id);
    }
}

proof fn lemma_list_one_more(
    listed: Seq<ListingKey>,
    keys: Seq<ListingKey>,
    k: int,
    limit: int,
    p: int,
)
    requires
        distinct_ids(keys),
        0 <= k < keys.len(),
        lists_first(listed, keys, k, limit),
        listed.len() < limit,
        0 <= p <= listed.len(),
        forall|i: int| 0 <= i < p ==> (#[trigger] listed[i]).before(keys[k]),
        p < listed.len() ==> !listed[p].before(keys[k]),
    ensures
        lists_first(listed.insert(p, keys[k]), keys, k + 1, limit),
{
    let x = keys[k];
    let next = listed.insert(p, x);
    lemma_new_key_differs(listed, keys, k);
    assert(next.len() == listed.len() + 1);
    assert forall|i: int| 0 <= i < next.len() implies #[trigger] next[i] == (if i < p {
        listed[i]
    } else if i == p {
        x
    } else {
        listed[i - 1]
    }) by {}
    assert forall|i: int| p <= i < listed.len() implies x.before(#[trigger] listed[i]) by {
        assert(listed[p].id != x.id);
        if p < i {
            assert(listed[p].before(listed[i]));
        }
    }
    assert(in_order(next)) by {
        assert forall|i: int, j: int| 0 <= i < j < next.len() implies (#[trigger] next[i]).before(
            #[trigger] next[j],
        ) by {
            if j < p {
                assert(listed[i].before(listed[j]));
            } else if j == p {
                assert(listed[i].before(x));
            } else if i < p {
                assert(listed[i].before(listed[j - 1]));
            } else if i == p {
                assert(x.before(listed[j - 1]));
            } else {
                assert(listed[i - 1].before(listed[j - 1]));
            }
        }
    }
    assert forall|i: int| 0 <= i < next.len() implies among(#[trigger] next[i], keys, k + 1) by {
        if i == p {
            assert(keys[k] == next[i]);
        } else {
            let old_i = if i < p {
                i
            } else {
                i - 1
            };
            assert(among(listed[old_i], keys, k));
            let j = choose|j: int| 0 <= j < k && #[trigger] keys[j] == listed[old_i];
            assert(keys[j] == next[i]);
        }
    }
    assert forall|j: int| 0 <= j < k + 1 implies next.contains(#[trigger] keys[j]) by {
        if j == k {
            assert(next[p] == keys[j]);
        } else {
            assert(listed.contains(keys[j]));
            let i = choose|i: int| 0 <= i < listed.len() && listed[i] == keys[j];
            if i < p {
                assert(next[i] == keys[j]);
            } else {
                assert(next[i + 1] == keys[j]);
            }
        }
    }
}

proof fn lemma_list_none_more(
    listed: Seq<ListingKey>,
    keys: Seq<ListingKey>,
    k: int,
    limit: int,
)
    requires
        0 <= k < keys.len(),
        lists_first(listed, keys, k, limit),
        listed.len() == limit,
        all_before(listed, keys[k]),
    ensures
        lists_first(listed, keys, k + 1, limit),
{
    assert forall|i: int| 0 <= i < listed.len() implies among(
        #[trigger] listed[i],
        keys,
        k + 1,
    ) by {
        assert(among(listed[i], keys, k));
        let j = choose|j: int| 0 <= j < k && #[trigger] keys[j] == listed[i];
        assert(keys[j] == listed[i]);
    }
}

proof fn lemma_list_in_place_of_last(
    listed: Seq<ListingKey>,
    keys: Seq<ListingKey>,
    k: int,
    limit: int,
    p: int,
)
    requires
        distinct_ids(keys),
        0 <= k < keys.len(),
        lists_first(listed, keys, k, limit),
        listed.len() == limit,
        0 <= p < listed.len(),
        forall|i: int| 0 <= i < p ==> (#[trigger] listed[i]).before(keys[k]),
        !listed[p].before(keys[k]),
    ensures
        lists_first(listed.insert(p, keys[k]).drop_last(), keys, k + 1, limit),
{
    let x = keys[k];
    let last = listed.len() - 1;
    let next = listed.insert(p, x).drop_last();
    lemma_new_key_differs(listed, keys, k);
    assert(next.len() == listed.len());
    assert forall|i: int| 0 <= i < next.len() implies #[trigger] next[i] == (if i < p {
        listed[i]
    } else if i == p {
        x
    } else {
        listed[i - 1]
    }) by {}
    assert forall|i: int| p <= i < listed.len() implies x.before(#[trigger] listed[i]) by {
        assert(listed[p].id != x.id);
        if p < i {
            assert(listed[p].before(listed[i]));
        }
    }
    assert(in_order(next)) by {
        assert forall|i: int, j: int| 0 <= i < j < next.len() implies (#[trigger] next[i]).before(
            #[trigger] next[j],
        ) by {
            if j < p {
                assert(listed[i].before(listed[j]));
            } else if j == p {
                assert(listed[i].before(x));
            } else if i < p {
                assert(listed[i].before(listed[j - 1]));
            } else if i == p {
                assert(x.before(listed[j - 1]));
            } else {
                assert(listed[i - 1].before(listed[j - 1]));
            }
        }
    }
    assert forall|i: int| 0 <= i < next.len() implies among(#[trigger] next[i], keys, k + 1) by {
        if i == p {
            assert(keys[k] == next[i]);
        } else {
            let old_i = if i < p {
                i
            } else {
                i - 1
            };
            assert(among(listed[old_i], keys, k));
            let j = choose|j: int| 0 <= j < k && #[trigger] keys[j] == listed[old_i];
            assert(keys[j] == next[i]);
        }
    }
    assert(all_before(next, listed[last])) by {
        assert forall|i: int| 0 <= i < next.len() implies (#[trigger] next[i]).before(
            listed[last],
        ) by {
            if i < p {
                assert(listed[i].before(listed[last]));
            } else if i == p {
                assert(x.before(listed[last]));
            } else {
                assert(listed[i - 1].before(listed[last]));
            }
        }
    }
    assert forall|j: int| 0 <= j < k + 1 implies next.contains(#[trigger] keys[j]) || (next.len()
        == limit && all_before(next, keys[j])) by {
        if j == k {
            assert(next[p] == keys[j]);
        } else if listed.contains(keys[j]) {
            let i = choose|i: int| 0 <= i < listed.len() && listed[i] == keys[j];
            if i < p {
                assert(next[i] == keys[j]);
            } else if i < last {
                assert(next[i + 1] == keys[j]);
            } else {
                assert(keys[j] == listed[last]);
            }
        } else {
            assert(all_before(listed, keys[j]));
            assert forall|i: int| 0 <= i < next.len() implies (#[trigger] next[i]).before(
                keys[j],
            ) by {
                assert(listed[last].before(keys[j]));
                if i < p {
                    assert(listed[i].before(keys[j]));
                } else if i == p {
                    assert(x.before(listed[last]));
                } else {
                    assert(listed[i - 1].before(keys[j]));
                }
            }
        }
    }
}

proof fn lemma_not_listed_earlier(
    a: Seq<ListingKey>,
    b: Seq<ListingKey>,
    keys: Seq<ListingKey>,
    limit: int,
    i: int,
)
    requires
        lists(a, keys, limit),
        lists(b, keys, limit),
        0 <= i < a.len(),
        forall|j: int| 0 <= j < i ==> a[j] == b[j],
    ensures
        !a[i].before(b[i]),
{
    if a[i].before(b[i]) {
        assert(among(a[i], keys, keys.len() as int));
        let k = choose|k: int| 0 <= k < keys.len() && #[trigger] keys[k] == a[i];
        if b.contains(keys[k]) {
            let m = choose|m: int| 0 <= m < b.len() && b[m] == keys[k];
            if m < i {
                assert(a[m].before(a[i]));
            } else if m > i {
                assert(b[i].before(b[m]));
            }
        } else {
            assert(all_before(b, keys[k]));
            assert(b[i].before(keys[k]));
        }
    }
}

proof fn lemma_listings_agree(
    a: Seq<ListingKey>,
    b: Seq<ListingKey>,
    keys: Seq<ListingKey>,
    limit: int,
    upto: int,
)
    requires
        distinct_ids(keys),
        lists(a, keys, limit),
        lists(b, keys, limit),
        0 <= upto <= a.len(),
    ensures
        forall|j: int| 0 <= j < upto ==> a[j] == b[j],
    decreases upto,
{
    if upto > 0 {
        let i = upto - 1;
        lemma_listings_agree(a, b, keys, limit, i);
        lemma_not_listed_earlier(a, b, keys, limit, i);
        lemma_not_listed_earlier(b, a, keys, limit, i);
        assert(among(a[i], keys, keys.len() as int));
        assert(among(b[i], keys, keys.len() as int));
        let ka = choose|k: int| 0 <= k < keys.len() && #[trigger] keys[k] == a[i];
        let kb = choose|k: int| 0 <= k < keys.len() && #[trigger] keys[k] == b[i];
        if ka != kb {
            assert(keys[ka].id != keys[kb].id);
        }
    }
}

/// A listing is determined by the keys it is drawn from and by where it is
/// cut off: two listings of the same keys with the same limit are the same.
pub proof fn lemma_listing_is_unique(
    a: Seq<ListingKey>,
    b: Seq<ListingKey>,
    keys: Seq<ListingKey>,
    limit: int,
)
    requires
        distinct_ids(keys),
        lists(a, keys, limit),
        lists(b, keys, limit),
    ensures
        a == b,
{
    lemma_listings_agree(a, b, keys, limit, a.len() as int);
    assert(a =~= b);
}

/// Where a listing is cut off: after `limit` entries where a limit is
/// given, and otherwise beyond the last of the `count` keys.
pub open spec fn cutoff(limit: Option<usize>, count: nat) -> int {
    match limit {
        Some(entries) => entries as int,
        None => count as int + 1,
    }
}

/// Lists `keys`, which are taken to have an identifier each of their own.
/// Where a limit is given, the listing is cut off after that many entries.
pub fn select_first(keys: &Vec<ListingKey>, limit: Option<usize>) -> (listed: Vec<ListingKey>)
    ensures
        distinct_ids(keys@) ==> lists(listed@, keys@, cutoff(limit, keys@.len())),
{
    let ghost end = cutoff(limit, keys@.len());
    let mut listed: Vec<ListingKey> = Vec::new();
    let mut k: usize = 0;
    while k < keys.len()
        invariant
            k <= keys.len(),
            end == cutoff(limit, keys@.len()),
            distinct_ids(keys@) ==> lists_first(listed@, keys@, k as int, end),
        decreases keys.len() - k,
    {
        let key = keys[k];
        let mut p: usize = 0;
        while p < listed.len() && listed[p].is_before(&key)
            invariant
                p <= listed.len(),
                forall|i: int| 0 <= i < p ==> (#[trigger] listed@[i]).before(key),
            decreases listed.len() - p,
        {
            p += 1;
        }
        let room = match limit {
            Some(entries) => listed.len() < entries,
            None => true,
        };
        let ghost before = listed@;
        if room {
            proof {
                if distinct_ids(keys@) {
                    lemma_list_one_more(before, keys@, k as int, end, p as int);
                }
            }
            listed.insert(p, key);
        } else if p < listed.len() {
            proof {
                if distinct_ids(keys@) {
                    lemma_list_in_place_of_last(before, keys@, k as int, end, p as int);
                }
            }
            listed.insert(p, key);
            listed.pop();
            assert(listed@ =~= before.insert(p as int, key).drop_last());
        } else {
            proof {
                if distinct_ids(keys@) {
                    lemma_list_none_more(before, keys@, k as int, end);
                }
            }
        }
        k += 1;
    }
    listed
}

} // verus!
