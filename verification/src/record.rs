use vstd::prelude::*;

use crate::codec::{bytes_from_vec, bytes_to_vec, undecodable, KVCodec};
use crate::errors::KVError;

verus! {

/// A stored record: a string key and its opaque byte value. One row of the
/// kv table; at most one record exists per key at any time.
pub struct KeyValue {
    pub key: String,
    pub value: Vec<u8>,
}

impl View for KeyValue {
    type V = (Seq<char>, Seq<u8>);

    open spec fn view(&self) -> (Seq<char>, Seq<u8>) {
        (self.key@, self.value@)
    }
}

/// The views of a sequence of stored records.
pub open spec fn record_views(items: Seq<KeyValue>) -> Seq<(Seq<char>, Seq<u8>)> {
    items.map_values(|kv: KeyValue| kv@)
}

impl KeyValue {
    /// Converts a domain value into the record that stores it: the value's
    /// own key, and its total byte encoding.
    pub fn from_typed<T: KVCodec>(value: &T) -> (r: KeyValue)
        ensures
            r.key@ == value.key_spec(),
            r.value@ == value.encoded(),
    {
        let b = value.to_bytes();
        KeyValue { key: value.key(), value: bytes_to_vec(&b) }
    }

    /// Reconstructs a domain value from a stored record; fails exactly when
    /// the record denotes no value of the requested type.
    pub fn try_into_typed<T: KVCodec>(&self) -> (r: Result<T, KVError>)
        ensures
            match r {
                Ok(t) => T::decodes_to(self.key@, self.value@, t),
                Err(e) => e == KVError::Deserialize && undecodable::<T>(self.key@, self.value@),
            },
    {
        let v = self.value.clone();
        proof {
            assert(v@ =~= self.value@);
        }
        T::from_bytes(&self.key, bytes_from_vec(v))
    }
}

} // verus!
