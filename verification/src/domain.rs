use vstd::prelude::*;

use crate::codec::{bytes_from_vec, bytes_to_vec, KVCodec};
use crate::errors::KVError;

verus! {

/// First byte of every stored row encoding.
pub const ROW_TAG: u8 = 1;

/// First byte of every stored field encoding.
pub const FIELD_TAG: u8 = 2;

/// A row of the grid: an identifier and an opaque payload. Encoded as the
/// `ROW_TAG` byte followed by the payload; the identifier is carried by the
/// record's key.
#[derive(Debug)]
pub struct RowRecord {
    id: String,
    payload: Vec<u8>,
}

impl View for RowRecord {
    type V = (Seq<char>, Seq<u8>);

    closed spec fn view(&self) -> (Seq<char>, Seq<u8>) {
        (self.id@, self.payload@)
    }
}

impl RowRecord {
    /// A row with the given identifier and payload. Identifiers are primary
    /// keys and must be non-empty.
    pub fn new(id: String, payload: Vec<u8>) -> (r: RowRecord)
        requires
            id@.len() > 0,
        ensures
            r.wf(),
            r@ == (id@, payload@),
    {
        RowRecord { id, payload }
    }

    pub fn id(&self) -> (r: &String)
        ensures
            r@ == self@.0,
    {
        &self.id
    }

    pub fn payload(&self) -> (r: &Vec<u8>)
        ensures
            r@ == self@.1,
    {
        &self.payload
    }
}

impl KVCodec for RowRecord {
    closed spec fn wf(&self) -> bool {
        self.id@.len() > 0
    }

    open spec fn key_spec(&self) -> Seq<char> {
        self@.0
    }

    open spec fn encoded(&self) -> Seq<u8> {
        seq![ROW_TAG] + self@.1
    }

    open spec fn decodes_to(key: Seq<char>, bytes: Seq<u8>, t: RowRecord) -> bool {
        &&& key.len() > 0
        &&& bytes.len() >= 1
        &&& bytes[0] == ROW_TAG
        &&& t@.0 == key
        &&& t@.1 == bytes.skip(1)
    }

    proof fn lemma_codec_round_trip(&self) {
        assert(self.encoded().skip(1) =~= self@.1);
    }

    proof fn lemma_codec_deterministic(key: Seq<char>, bytes: Seq<u8>, t1: RowRecord, t2: RowRecord) {
    }

    proof fn lemma_decoded_key(key: Seq<char>, bytes: Seq<u8>, t: RowRecord) {
    }

    proof fn lemma_key_nonempty(&self) {
    }

    fn key(&self) -> (r: String) {
        self.id.clone()
    }

    fn to_bytes(&self) -> (r: bytes::Bytes) {
        let mut v: Vec<u8> = Vec::new();
        v.push(ROW_TAG);
        proof {
            assert(v@ =~= seq![ROW_TAG] + self.payload@.take(0));
        }
        let mut i: usize = 0;
        while i < self.payload.len()
            invariant
                0 <= i <= self.payload@.len(),
                v@ == seq![ROW_TAG] + self.payload@.take(i as int),
            decreases self.payload@.len() - i,
        {
            v.push(self.payload[i]);
            i = i + 1;
            proof {
                assert(v@ =~= seq![ROW_TAG] + self.payload@.take(i as int));
            }
        }
        proof {
            assert(self.payload@.take(self.payload@.len() as int) =~= self.payload@);
        }
        bytes_from_vec(v)
    }

    fn from_bytes(key: &String, b: bytes::Bytes) -> (r: Result<RowRecord, KVError>) {
        let v = bytes_to_vec(&b);
        if key.as_str().is_empty() || v.len() < 1 || v[0] != ROW_TAG {
            return Err(KVError::Deserialize);
        }
        let mut payload: Vec<u8> = Vec::new();
        let mut i: usize = 1;
        while i < v.len()
            invariant
                1 <= i <= v@.len(),
                payload@ == v@.subrange(1, i as int),
            decreases v@.len() - i,
        {
            payload.push(v[i]);
            i = i + 1;
            proof {
                assert(payload@ =~= v@.subrange(1, i as int));
            }
        }
        proof {
            assert(v@.subrange(1, v@.len() as int) =~= v@.skip(1));
        }
        Ok(RowRecord { id: key.clone(), payload })
    }
}

/// A field of the grid: an identifier, an opaque name, and a visibility
/// flag. Encoded as the `FIELD_TAG` byte, one visibility byte (0 or 1), and
/// the name bytes; the identifier is carried by the record's key.
#[derive(Debug)]
pub struct FieldRecord {
    id: String,
    name: Vec<u8>,
    visible: bool,
}

impl View for FieldRecord {
    type V = (Seq<char>, Seq<u8>, bool);

    closed spec fn view(&self) -> (Seq<char>, Seq<u8>, bool) {
        (self.id@, self.name@, self.visible)
    }
}

impl FieldRecord {
    /// A field with the given identifier, name and visibility. Identifiers
    /// are primary keys and must be non-empty.
    pub fn new(id: String, name: Vec<u8>, visible: bool) -> (r: FieldRecord)
        requires
            id@.len() > 0,
        ensures
            r.wf(),
            r@ == (id@, name@, visible),
    {
        FieldRecord { id, name, visible }
    }

    pub fn id(&self) -> (r: &String)
        ensures
            r@ == self@.0,
    {
        &self.id
    }

    pub fn name(&self) -> (r: &Vec<u8>)
        ensures
            r@ == self@.1,
    {
        &self.name
    }

    pub fn visible(&self) -> (r: bool)
        ensures
            r == self@.2,
    {
        self.visible
    }
}

impl KVCodec for FieldRecord {
    closed spec fn wf(&self) -> bool {
        self.id@.len() > 0
    }

    open spec fn key_spec(&self) -> Seq<char> {
        self@.0
    }

    open spec fn encoded(&self) -> Seq<u8> {
        seq![FIELD_TAG, if self@.2 { 1u8 } else { 0u8 }] + self@.1
    }

    open spec fn decodes_to(key: Seq<char>, bytes: Seq<u8>, t: FieldRecord) -> bool {
        &&& key.len() > 0
        &&& bytes.len() >= 2
        &&& bytes[0] == FIELD_TAG
        &&& (bytes[1] == 0 || bytes[1] == 1)
        &&& t@.0 == key
        &&& t@.1 == bytes.skip(2)
        &&& t@.2 == (bytes[1] == 1)
    }

    proof fn lemma_codec_round_trip(&self) {
        assert(self.encoded().skip(2) =~= self@.1);
    }

    proof fn lemma_codec_deterministic(
        key: Seq<char>,
        bytes: Seq<u8>,
        t1: FieldRecord,
        t2: FieldRecord,
    ) {
    }

    proof fn lemma_decoded_key(key: Seq<char>, bytes: Seq<u8>, t: FieldRecord) {
    }

    proof fn lemma_key_nonempty(&self) {
    }

    fn key(&self) -> (r: String) {
        self.id.clone()
    }

    fn to_bytes(&self) -> (r: bytes::Bytes) {
        let mut v: Vec<u8> = Vec::new();
        v.push(FIELD_TAG);
        v.push(if self.visible { 1u8 } else { 0u8 });
        proof {
            assert(v@ =~= seq![FIELD_TAG, if self@.2 { 1u8 } else { 0u8 }] + self.name@.take(0));
        }
        let mut i: usize = 0;
        while i < self.name.len()
            invariant
                0 <= i <= self.name@.len(),
                v@ == seq![FIELD_TAG, if self@.2 { 1u8 } else { 0u8 }] + self.name@.take(i as int),
            decreases self.name@.len() - i,
        {
            v.push(self.name[i]);
            i = i + 1;
            proof {
                assert(v@ =~= seq![FIELD_TAG, if self@.2 { 1u8 } else { 0u8 }] + self.name@.take(
                    i as int,
                ));
            }
        }
        proof {
            assert(self.name@.take(self.name@.len() as int) =~= self.name@);
        }
        bytes_from_vec(v)
    }

    fn from_bytes(key: &String, b: bytes::Bytes) -> (r: Result<FieldRecord, KVError>) {
        let v = bytes_to_vec(&b);
        if key.as_str().is_empty() || v.len() < 2 || v[0] != FIELD_TAG {
            return Err(KVError::Deserialize);
        }
        let vis_byte: u8 = v[1];
        if vis_byte > 1 {
            return Err(KVError::Deserialize);
        }
        let mut name: Vec<u8> = Vec::new();
        let mut i: usize = 2;
        while i < v.len()
            invariant
                2 <= i <= v@.len(),
                name@ == v@.subrange(2, i as int),
            decreases v@.len() - i,
        {
            name.push(v[i]);
            i = i + 1;
            proof {
                assert(name@ =~= v@.subrange(2, i as int));
            }
        }
        proof {
            assert(v@.subrange(2, v@.len() as int) =~= v@.skip(2));
        }
        Ok(FieldRecord { id: key.clone(), name, visible: vis_byte == 1 })
    }
}

} // verus!
