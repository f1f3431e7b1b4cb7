use vstd::prelude::*;

verus! {

/// The views of a sequence of key strings.
pub open spec fn key_views(keys: Seq<String>) -> Seq<Seq<char>> {
    keys.map_values(|k: String| k@)
}

/// The mathematical model of the stored table: each key maps to the bytes
/// stored under it. `upsert_all` applies a sequence of (key, value) upserts
/// in order; a later entry for the same key fully replaces an earlier one.
pub open spec fn upsert_all(
    m: Map<Seq<char>, Seq<u8>>,
    entries: Seq<(Seq<char>, Seq<u8>)>,
) -> Map<Seq<char>, Seq<u8>>
    decreases entries.len(),
{
    if entries.len() == 0 {
        m
    } else {
        upsert_all(m, entries.drop_last()).insert(entries.last().0, entries.last().1)
    }
}

/// Removing a sequence of keys in order.
pub open spec fn remove_all(
    m: Map<Seq<char>, Seq<u8>>,
    keys: Seq<Seq<char>>,
) -> Map<Seq<char>, Seq<u8>>
    decreases keys.len(),
{
    if keys.len() == 0 {
        m
    } else {
        remove_all(m, keys.drop_last()).remove(keys.last())
    }
}

/// The records a batch lookup yields: one record per distinct key of the
/// given key set, paired with its stored bytes, placed at the key's first
/// occurrence; absent keys and repeated occurrences are silently omitted.
pub open spec fn matched_records(
    m: Map<Seq<char>, Seq<u8>>,
    keys: Seq<Seq<char>>,
) -> Seq<(Seq<char>, Seq<u8>)>
    decreases keys.len(),
{
    if keys.len() == 0 {
        Seq::empty()
    } else {
        let rest = matched_records(m, keys.drop_last());
        if m.contains_key(keys.last()) && !keys.drop_last().contains(keys.last()) {
            rest.push((keys.last(), m[keys.last()]))
        } else {
            rest
        }
    }
}

/// Extending a prefix by one key adds exactly that key to what the prefix
/// contains.
pub proof fn lemma_contains_take_succ(s: Seq<Seq<char>>, j: int, x: Seq<char>)
    requires
        0 <= j < s.len(),
    ensures
        s.take(j + 1).contains(x) == (s.take(j).contains(x) || s[j] == x),
{
    if s.take(j).contains(x) {
        let q = choose|q: int| 0 <= q < s.take(j).len() && #[trigger] s.take(j)[q] == x;
        assert(s.take(j + 1)[q] == x);
    }
    if s[j] == x {
        assert(s.take(j + 1)[j] == x);
    }
    if s.take(j + 1).contains(x) && s[j] != x {
        let q = choose|q: int| 0 <= q < s.take(j + 1).len() && #[trigger] s.take(j + 1)[q] == x;
        assert(s.take(j)[q] == x);
    }
}

/// After upserting entries with pairwise distinct keys, every entry's key is
/// bound to exactly that entry's value.
pub proof fn lemma_upsert_all_lookup_distinct(
    m: Map<Seq<char>, Seq<u8>>,
    entries: Seq<(Seq<char>, Seq<u8>)>,
)
    requires
        forall|i: int, j: int|
            0 <= i < j < entries.len() ==> (#[trigger] entries[i]).0 != (#[trigger] entries[j]).0,
    ensures
        forall|i: int|
            0 <= i < entries.len() ==> {
                let res = upsert_all(m, entries);
                res.contains_key((#[trigger] entries[i]).0) && res[entries[i].0] == entries[i].1
            },
    decreases entries.len(),
{
    if entries.len() > 0 {
        let prefix = entries.drop_last();
        lemma_upsert_all_lookup_distinct(m, prefix);
        assert forall|i: int| 0 <= i < entries.len() implies {
            let res = upsert_all(m, entries);
            res.contains_key((#[trigger] entries[i]).0) && res[entries[i].0] == entries[i].1
        } by {
            if i < entries.len() - 1 {
                assert(prefix[i] == entries[i]);
                assert(entries[i].0 != entries.last().0);
            }
        }
    }
}

/// When every key is present and the keys are pairwise distinct, a batch
/// lookup yields one record per key, in the keys' order.
pub proof fn lemma_matched_all_present(m: Map<Seq<char>, Seq<u8>>, keys: Seq<Seq<char>>)
    requires
        forall|i: int| 0 <= i < keys.len() ==> m.contains_key(#[trigger] keys[i]),
        forall|i: int, j: int| 0 <= i < j < keys.len() ==> keys[i] != keys[j],
    ensures
        matched_records(m, keys).len() == keys.len(),
        forall|i: int|
            0 <= i < keys.len() ==> #[trigger] matched_records(m, keys)[i] == (keys[i], m[keys[i]]),
    decreases keys.len(),
{
    if keys.len() > 0 {
        let prefix = keys.drop_last();
        lemma_matched_all_present(m, prefix);
        assert(forall|i: int| 0 <= i < prefix.len() ==> #[trigger] prefix[i] == keys[i]);
        assert(!prefix.contains(keys.last())) by {
            if prefix.contains(keys.last()) {
                let q = choose|q: int| 0 <= q < prefix.len() && #[trigger] prefix[q] == keys.last();
                assert(keys[q] == keys[keys.len() - 1]);
            }
        }
    }
}

} // verus!
