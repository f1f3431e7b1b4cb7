use vstd::prelude::*;

use crate::codec::{entry_views, undecodable, KVCodec};
use crate::domain::{FieldRecord, RowRecord, FIELD_TAG, ROW_TAG};
use crate::model::{
    lemma_matched_all_present, lemma_upsert_all_lookup_distinct, matched_records, upsert_all,
};

verus! {

/// Round trip: after `set(value)` the table maps the value's key to its
/// encoding, and any value that `get` of that key may then return (by
/// `get`'s contract) views equal to `value`.
pub proof fn lemma_set_get_round_trip<T: KVCodec>(m: Map<Seq<char>, Seq<u8>>, value: T, got: T)
    requires
        value.wf(),
        T::decodes_to(
            value.key_spec(),
            m.insert(value.key_spec(), value.encoded())[value.key_spec()],
            got,
        ),
    ensures
        got@ == value@,
{
    value.lemma_codec_round_trip();
    T::lemma_codec_deterministic(value.key_spec(), value.encoded(), value, got);
}

/// Upsert idempotence, on the table: a second upsert of the same key fully
/// replaces the first, as if the first had never happened.
pub proof fn lemma_upsert_overwrites(
    m: Map<Seq<char>, Seq<u8>>,
    k: Seq<char>,
    v1: Seq<u8>,
    v2: Seq<u8>,
)
    ensures
        m.insert(k, v1).insert(k, v2) == m.insert(k, v2),
{
    assert(m.insert(k, v1).insert(k, v2) =~= m.insert(k, v2));
}

/// Upsert idempotence, typed: after `set(v1)` then `set(v2)` under the same
/// key, the store equals one where only `set(v2)` ran, and a `get` of the
/// key can only return a value equal to `v2` — never `v1`, nor a merge.
pub proof fn lemma_second_set_wins<T: KVCodec>(m: Map<Seq<char>, Seq<u8>>, v1: T, v2: T, got: T)
    requires
        v2.wf(),
        v1.key_spec() == v2.key_spec(),
        T::decodes_to(
            v2.key_spec(),
            m.insert(v1.key_spec(), v1.encoded()).insert(
                v2.key_spec(),
                v2.encoded(),
            )[v2.key_spec()],
            got,
        ),
    ensures
        m.insert(v1.key_spec(), v1.encoded()).insert(v2.key_spec(), v2.encoded()) == m.insert(
            v2.key_spec(),
            v2.encoded(),
        ),
        got@ == v2@,
{
    lemma_upsert_overwrites(m, v2.key_spec(), v1.encoded(), v2.encoded());
    lemma_set_get_round_trip(m, v2, got);
}

/// Removal: after `remove(key)` the key is absent, whatever `set` stored
/// under it before.
pub proof fn lemma_remove_clears(m: Map<Seq<char>, Seq<u8>>, k: Seq<char>, v: Seq<u8>)
    ensures
        !m.insert(k, v).remove(k).contains_key(k),
{
}

/// Removal of a never-set key changes nothing; `remove`'s own contract makes
/// such a call succeed as a no-op rather than an error.
pub proof fn lemma_remove_absent_noop(m: Map<Seq<char>, Seq<u8>>, k: Seq<char>)
    requires
        !m.contains_key(k),
    ensures
        m.remove(k) == m,
{
    assert(m.remove(k) =~= m);
}

/// Batch completeness: `batch_set` of N well-formed values with pairwise
/// distinct keys followed by `batch_get` of exactly those keys yields, by
/// the two contracts, exactly N values, in order, each equal to the value
/// stored under its key — none omitted, none duplicated.
pub proof fn lemma_batch_completeness<T: KVCodec>(
    m: Map<Seq<char>, Seq<u8>>,
    values: Seq<T>,
    keys: Seq<Seq<char>>,
    got: Seq<T>,
)
    requires
        forall|i: int| 0 <= i < values.len() ==> (#[trigger] values[i]).wf(),
        forall|i: int, j: int|
            0 <= i < j < values.len() ==> values[i].key_spec() != values[j].key_spec(),
        keys.len() == values.len(),
        forall|i: int| 0 <= i < keys.len() ==> #[trigger] keys[i] == values[i].key_spec(),
        ({
            let ms = matched_records(upsert_all(m, entry_views::<T>(values)), keys);
            got.len() == ms.len() && (forall|j: int|
                0 <= j < ms.len() ==> T::decodes_to((#[trigger] ms[j]).0, ms[j].1, got[j]))
        }),
    ensures
        got.len() == values.len(),
        forall|i: int| 0 <= i < values.len() ==> #[trigger] got[i]@ == values[i]@,
{
    let entries = entry_views::<T>(values);
    let m2 = upsert_all(m, entries);
    assert(forall|i: int|
        0 <= i < values.len() ==> #[trigger] entries[i] == (values[i].key_spec(), values[i].encoded()));
    lemma_upsert_all_lookup_distinct(m, entries);
    assert forall|i: int, j: int| 0 <= i < j < keys.len() implies keys[i] != keys[j] by {
        assert(keys[i] == values[i].key_spec());
        assert(keys[j] == values[j].key_spec());
    }
    assert forall|i: int|
        0 <= i < keys.len() implies m2.contains_key(#[trigger] keys[i]) && m2[keys[i]]
        == values[i].encoded() by {
        assert(entries[i] == (values[i].key_spec(), values[i].encoded()));
        assert(m2.contains_key(entries[i].0) && m2[entries[i].0] == entries[i].1);
    }
    lemma_matched_all_present(m2, keys);
    let ms = matched_records(m2, keys);
    assert forall|i: int| 0 <= i < values.len() implies #[trigger] got[i]@ == values[i]@ by {
        assert(ms[i] == (keys[i], m2[keys[i]]));
        assert(T::decodes_to(values[i].key_spec(), values[i].encoded(), got[i]));
        values[i].lemma_codec_round_trip();
        T::lemma_codec_deterministic(values[i].key_spec(), values[i].encoded(), values[i], got[i]);
    }
}

/// Deserialize mismatch: bytes written by the field codec never decode as a
/// row, so a `get::<RowRecord>` of a key holding a stored field reports
/// `Deserialize` by `get`'s contract — it cannot return a value.
pub proof fn lemma_field_bytes_undecodable_as_row(key: Seq<char>, f: FieldRecord)
    ensures
        undecodable::<RowRecord>(key, f.encoded()),
{
    assert forall|t: RowRecord| !RowRecord::decodes_to(key, f.encoded(), t) by {
        assert(f.encoded()[0] == FIELD_TAG);
    }
}

/// Deserialize mismatch, the other way: bytes written by the row codec
/// never decode as a field.
pub proof fn lemma_row_bytes_undecodable_as_field(key: Seq<char>, r: RowRecord)
    ensures
        undecodable::<FieldRecord>(key, r.encoded()),
{
    assert forall|t: FieldRecord| !FieldRecord::decodes_to(key, r.encoded(), t) by {
        assert(r.encoded()[0] == ROW_TAG);
    }
}

} // verus!
