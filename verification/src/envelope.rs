//! The wire envelope: a single well-known field inside the native
//! dictionary-like payload object, holding the serialized message value.

use vstd::prelude::*;

use crate::codec::Value;
use crate::codec::ValueModel;
use crate::codec::dec_message;
use crate::codec::deep;
use crate::codec::enc_value;
use crate::codec::encode;
use crate::codec::decode;
use crate::codec::lemma_codec_round_trip;
use crate::error::ConnectionError;

verus! {

/// The bytes of the well-known payload key, `R_DATA`.
pub open spec fn r_data_key() -> Seq<u8> {
    seq![82u8, 95u8, 68u8, 65u8, 84u8, 65u8]
}

/// Builds the payload key bytes.
pub fn r_data_key_bytes() -> (r: Vec<u8>)
    ensures
        r@ == r_data_key(),
{
    let mut v: Vec<u8> = Vec::new();
    v.push(82);
    v.push(95);
    v.push(68);
    v.push(65);
    v.push(84);
    v.push(65);
    proof {
        assert(v@ =~= r_data_key());
    }
    v
}

/// Model of the native dictionary-like payload object: an ordered list of
/// byte-string keys mapping to byte-string values. Inbound payloads may hold
/// any fields; this layer defines only the `R_DATA` one.
#[derive(Debug, PartialEq, Eq)]
pub struct Envelope {
    pub entries: Vec<(Vec<u8>, Vec<u8>)>,
}

/// First value under `key` in `es`, searching from position `k` on.
pub open spec fn lookup_at(es: Seq<(Vec<u8>, Vec<u8>)>, key: Seq<u8>, k: int) -> Option<Seq<u8>>
    decreases es.len() - k,
{
    if k < 0 || k >= es.len() {
        None
    } else if es[k].0@ == key {
        Some(es[k].1@)
    } else {
        lookup_at(es, key, k + 1)
    }
}

impl Envelope {
    /// First value stored under `key`, if any.
    pub open spec fn lookup(self, key: Seq<u8>) -> Option<Seq<u8>> {
        lookup_at(self.entries@, key, 0)
    }

    /// An empty payload object.
    pub fn new() -> (r: Self)
        ensures
            r.entries@.len() == 0,
    {
        Envelope { entries: Vec::new() }
    }

    /// Appends a field.
    pub fn insert(&mut self, key: Vec<u8>, value: Vec<u8>)
        ensures
            final(self).entries@ == old(self).entries@.push((key, value)),
    {
        self.entries.push((key, value));
    }
}

/// Whether `env` is exactly the envelope that carries `v`: one field, the
/// payload key, holding the encoding of `v`.
pub open spec fn is_message_envelope_for(env: Envelope, v: Value) -> bool {
    env.entries@.len() == 1 && env.entries@[0].0@ == r_data_key() && env.entries@[0].1@
        == enc_value(v)
}

/// The decoded content carried by `env`: the payload field decoded, if the
/// field is there and well formed.
pub open spec fn retrieve_spec(env: Envelope) -> Option<ValueModel> {
    match env.lookup(r_data_key()) {
        Some(p) => dec_message(p),
        None => None,
    }
}

/// Byte-string equality.
#[verifier::loop_isolation(false)]
fn bytes_eq(a: &Vec<u8>, b: &Vec<u8>) -> (r: bool)
    ensures
        r == (a@ == b@),
{
    if a.len() != b.len() {
        return false;
    }
    let mut k: usize = 0;
    while k < a.len()
        invariant
            k <= a@.len(),
            forall|m: int| 0 <= m < k ==> a@[m] == b@[m],
        decreases a@.len() - k,
    {
        if a[k] != b[k] {
            return false;
        }
        k = k + 1;
    }
    proof {
        assert(a@ =~= b@);
    }
    true
}

/// Builds the envelope that carries `message`: the payload key mapping to
/// its encoding. Total: building the model object cannot fail (whether the
/// native runtime can allocate its copy is its caller's concern).
pub fn build_message_dictionary(message: &Value) -> (env: Envelope)
    ensures
        is_message_envelope_for(env, *message),
        env.lookup(r_data_key()) == Some(enc_value(*message)),
{
    let key = r_data_key_bytes();
    let data = encode(message);
    let mut entries: Vec<(Vec<u8>, Vec<u8>)> = Vec::new();
    entries.push((key, data));
    let env = Envelope { entries };
    proof {
        assert(env.lookup(r_data_key()) == Some(enc_value(*message)));
    }
    env
}

/// Extracts and decodes the payload field of an inbound payload object.
/// A missing or malformed field yields `DecodingFailed`; never a panic.
#[verifier::loop_isolation(false)]
pub fn retrieve_r_data(os_event: &Envelope) -> (r: Result<Value, ConnectionError>)
    ensures
        match r {
            Ok(w) => retrieve_spec(*os_event) == Some(deep(w)),
            Err(e) => retrieve_spec(*os_event) is None && e == ConnectionError::DecodingFailed,
        },
{
    let key = r_data_key_bytes();
    let mut k: usize = 0;
    while k < os_event.entries.len()
        invariant
            k <= os_event.entries@.len(),
            lookup_at(os_event.entries@, r_data_key(), 0) == lookup_at(
                os_event.entries@,
                r_data_key(),
                k as int,
            ),
        decreases os_event.entries@.len() - k,
    {
        let entry = &os_event.entries[k];
        if bytes_eq(&entry.0, &key) {
            match decode(&entry.1) {
                Ok(w) => {
                    return Ok(w);
                },
                Err(_) => {
                    return Err(ConnectionError::DecodingFailed);
                },
            }
        }
        k = k + 1;
    }
    Err(ConnectionError::DecodingFailed)
}

/// Round trip through the envelope: the envelope built for `v` always
/// retrieves back exactly the content of `v`.
pub proof fn lemma_envelope_round_trip(env: Envelope, v: Value)
    requires
        is_message_envelope_for(env, v),
    ensures
        retrieve_spec(env) == Some(deep(v)),
{
    assert(env.lookup(r_data_key()) == Some(enc_value(v)));
    lemma_codec_round_trip(v);
}

} // verus!
