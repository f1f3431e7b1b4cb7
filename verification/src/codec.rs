use vstd::prelude::*;

use crate::errors::KVError;

verus! {

#[verifier::external_type_specification]
#[verifier::external_body]
pub struct ExBytes(bytes::Bytes);

/// The bytes that a `bytes::Bytes` buffer holds.
pub uninterp spec fn bytes_view(b: bytes::Bytes) -> Seq<u8>;

/// Relies on `bytes::Bytes::from` for `Vec<u8>`: the buffer takes over
/// exactly the vector's bytes.
#[verifier::external_body]
pub(crate) fn bytes_from_vec(v: Vec<u8>) -> (r: bytes::Bytes)
    ensures
        bytes_view(r) == v@,
{
    bytes::Bytes::from(v)
}

/// Relies on `Bytes`'s deref to `[u8]` and `[u8]::to_vec`: the returned
/// vector holds exactly the buffer's bytes.
#[verifier::external_body]
pub(crate) fn bytes_to_vec(b: &bytes::Bytes) -> (r: Vec<u8>)
    ensures
        r@ == bytes_view(*b),
{
    b.to_vec()
}

/// The (key, encoding) entries that a sequence of domain values converts to.
pub open spec fn entry_views<T: KVCodec>(values: Seq<T>) -> Seq<(Seq<char>, Seq<u8>)> {
    values.map_values(|t: T| (t.key_spec(), t.encoded()))
}

/// Whether a stored record (key, bytes) denotes no value of `T` at all: the
/// bytes do not match the layout `T` expects.
pub open spec fn undecodable<T: KVCodec>(key: Seq<char>, bytes: Seq<u8>) -> bool {
    forall|t: T| !T::decodes_to(key, bytes, t)
}

/// The conversion contract a domain type supplies to participate in the
/// store: it carries its own key, encodes itself to bytes totally, and
/// decodes from a stored (key, bytes) record, rejecting bytes that do not
/// match its layout.
pub trait KVCodec: View + Sized {
    /// Well-formedness of a value of this type; every value the library
    /// hands out satisfies it.
    spec fn wf(&self) -> bool;

    /// The key under which a value of this type is stored.
    spec fn key_spec(&self) -> Seq<char>;

    /// The bytes that encoding this value yields.
    spec fn encoded(&self) -> Seq<u8>;

    /// The decode relation: whether the stored record (key, bytes) denotes `t`.
    spec fn decodes_to(key: Seq<char>, bytes: Seq<u8>, t: Self) -> bool;

    /// Law: decoding what a well-formed value encodes, under the value's own
    /// key, yields the value back.
    proof fn lemma_codec_round_trip(&self)
        requires
            self.wf(),
        ensures
            Self::decodes_to(self.key_spec(), self.encoded(), *self),
    ;

    /// Law: a stored record denotes at most one value, up to its view.
    proof fn lemma_codec_deterministic(key: Seq<char>, bytes: Seq<u8>, t1: Self, t2: Self)
        requires
            Self::decodes_to(key, bytes, t1),
            Self::decodes_to(key, bytes, t2),
        ensures
            t1@ == t2@,
    ;

    /// Law: a decoded value is well-formed and carries the key it was
    /// stored under.
    proof fn lemma_decoded_key(key: Seq<char>, bytes: Seq<u8>, t: Self)
        requires
            Self::decodes_to(key, bytes, t),
        ensures
            t.wf(),
            t.key_spec() == key,
    ;

    /// Law: keys of well-formed values are never empty; they serve as
    /// primary identifiers.
    proof fn lemma_key_nonempty(&self)
        requires
            self.wf(),
        ensures
            self.key_spec().len() > 0,
    ;

    /// The key of this value, as a string.
    fn key(&self) -> (r: String)
        ensures
            r@ == self.key_spec(),
    ;

    /// Total encoding of this value; never fails.
    fn to_bytes(&self) -> (r: bytes::Bytes)
        ensures
            bytes_view(r) == self.encoded(),
    ;

    /// Decoding of a stored record; fails exactly when the record denotes no
    /// value of this type.
    fn from_bytes(key: &String, b: bytes::Bytes) -> (r: Result<Self, KVError>)
        ensures
            match r {
                Ok(t) => Self::decodes_to(key@, bytes_view(b), t),
                Err(e) => e == KVError::Deserialize && (forall|t: Self|
                    !Self::decodes_to(key@, bytes_view(b), t)),
            },
    ;
}

} // verus!
