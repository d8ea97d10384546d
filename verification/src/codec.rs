//! Byte codec for oplog entries.
//!
//! An entry is framed as: the 1-based index (8 bytes, little endian), a
//! one-byte durability-kind tag, the byte length of the UTF-8 encoded
//! function name (8 bytes), the name bytes, the payload length (8 bytes)
//! and the payload bytes.  Encoding and decoding are exact inverses;
//! [`lemma_entry_round_trip`] states the round-trip law.

use vstd::prelude::*;

use crate::model::WrappedFunctionType;
use crate::oplog::OplogEntry;
use vstd::bytes::{
    lemma_auto_spec_u64_to_from_le_bytes, spec_u64_from_le_bytes, spec_u64_to_le_bytes,
    u64_from_le_bytes, u64_to_le_bytes,
};
use vstd::slice::{slice_subrange, slice_to_vec};
use vstd::string::StringSliceAdditionalSpecFns;
use vstd::utf8::{decode_utf8, encode_utf8, valid_utf8};

verus! {

/// The one-byte tag of a durability kind.
pub open spec fn spec_kind_tag(kind: WrappedFunctionType) -> u8 {
    match kind {
        WrappedFunctionType::ReadLocal => 0,
        WrappedFunctionType::WriteLocal => 1,
        WrappedFunctionType::ReadRemote => 2,
        WrappedFunctionType::WriteRemote => 3,
    }
}

/// The durability kind a tag byte stands for, if any.
pub open spec fn spec_kind_of_tag(tag: u8) -> Option<WrappedFunctionType> {
    if tag == 0 {
        Some(WrappedFunctionType::ReadLocal)
    } else if tag == 1 {
        Some(WrappedFunctionType::WriteLocal)
    } else if tag == 2 {
        Some(WrappedFunctionType::ReadRemote)
    } else if tag == 3 {
        Some(WrappedFunctionType::WriteRemote)
    } else {
        None
    }
}

/// Exec twin of [`spec_kind_tag`].
pub fn kind_tag(kind: WrappedFunctionType) -> (r: u8)
    ensures
        r == spec_kind_tag(kind),
{
    match kind {
        WrappedFunctionType::ReadLocal => 0,
        WrappedFunctionType::WriteLocal => 1,
        WrappedFunctionType::ReadRemote => 2,
        WrappedFunctionType::WriteRemote => 3,
    }
}

/// Exec twin of [`spec_kind_of_tag`].
pub fn kind_of_tag(tag: u8) -> (r: Option<WrappedFunctionType>)
    ensures
        r == spec_kind_of_tag(tag),
{
    if tag == 0 {
        Some(WrappedFunctionType::ReadLocal)
    } else if tag == 1 {
        Some(WrappedFunctionType::WriteLocal)
    } else if tag == 2 {
        Some(WrappedFunctionType::ReadRemote)
    } else if tag == 3 {
        Some(WrappedFunctionType::WriteRemote)
    } else {
        None
    }
}

/// The encoded form of an entry with the given fields.
pub open spec fn spec_encode_entry(
    index: u64,
    name: Seq<char>,
    kind: WrappedFunctionType,
    payload: Seq<u8>,
) -> Seq<u8> {
    let name_bytes = encode_utf8(name);
    spec_u64_to_le_bytes(index) + seq![spec_kind_tag(kind)] + spec_u64_to_le_bytes(
        name_bytes.len() as u64,
    ) + name_bytes + spec_u64_to_le_bytes(payload.len() as u64) + payload
}

/// The decoded fields of a byte string, when it is a well-formed frame.
pub open spec fn spec_decode_entry(b: Seq<u8>) -> Option<
    (u64, Seq<char>, WrappedFunctionType, Seq<u8>),
> {
    if b.len() < 25 {
        None
    } else {
        let index = spec_u64_from_le_bytes(b.subrange(0, 8));
        match spec_kind_of_tag(b[8]) {
            None => None,
            Some(kind) => {
                let name_len = spec_u64_from_le_bytes(b.subrange(9, 17)) as int;
                if b.len() < 25 + name_len {
                    None
                } else {
                    let name_bytes = b.subrange(17, 17 + name_len);
                    if !valid_utf8(name_bytes) {
                        None
                    } else {
                        let payload_len = spec_u64_from_le_bytes(
                            b.subrange(17 + name_len, 25 + name_len),
                        ) as int;
                        if b.len() != 25 + name_len + payload_len {
                            None
                        } else {
                            Some(
                                (
                                    index,
                                    decode_utf8(name_bytes),
                                    kind,
                                    b.subrange(25 + name_len, b.len() as int),
                                ),
                            )
                        }
                    }
                }
            },
        }
    }
}

/// Decoding inverts encoding: a frame built from any entry fields parses
/// back to exactly those fields.
pub proof fn lemma_entry_round_trip(
    index: u64,
    name: Seq<char>,
    kind: WrappedFunctionType,
    payload: Seq<u8>,
)
    requires
        encode_utf8(name).len() <= u64::MAX,
        payload.len() <= u64::MAX,
    ensures
        spec_decode_entry(spec_encode_entry(index, name, kind, payload)) == Some(
            (index, name, kind, payload),
        ),
{
    lemma_auto_spec_u64_to_from_le_bytes();
    broadcast use vstd::utf8::encode_utf8_valid_utf8;
    broadcast use vstd::utf8::encode_utf8_decode_utf8;

    let name_bytes = encode_utf8(name);
    let nl = name_bytes.len() as int;
    let pl = payload.len() as int;
    let b = spec_encode_entry(index, name, kind, payload);
    assert(b.len() == 25 + nl + pl);
    assert(b.subrange(0, 8) =~= spec_u64_to_le_bytes(index));
    assert(b[8] == spec_kind_tag(kind));
    assert(spec_kind_of_tag(spec_kind_tag(kind)) == Some(kind));
    assert(b.subrange(9, 17) =~= spec_u64_to_le_bytes(name_bytes.len() as u64));
    assert(spec_u64_from_le_bytes(b.subrange(9, 17)) == nl);
    assert(b.subrange(17, 17 + nl) =~= name_bytes);
    assert(b.subrange(17 + nl, 25 + nl) =~= spec_u64_to_le_bytes(payload.len() as u64));
    assert(spec_u64_from_le_bytes(b.subrange(17 + nl, 25 + nl)) == pl);
    assert(b.subrange(25 + nl, b.len() as int) =~= payload);
    assert(decode_utf8(name_bytes) == name);
}

/// Appends all of `src` to `dst`.
pub(crate) fn extend_bytes(dst: &mut Vec<u8>, src: &Vec<u8>)
    ensures
        final (dst)@ == old(dst)@ + src@,
{
    let mut i: usize = 0;
    while i < src.len()
        invariant
            i <= src.len(),
            dst@ =~= old(dst)@ + src@.subrange(0, i as int),
        decreases src.len() - i,
    {
        dst.push(src[i]);
        proof {
            assert(old(dst)@ + src@.subrange(0, i + 1) =~= (old(dst)@ + src@.subrange(
                0,
                i as int,
            )).push(src@[i as int]));
        }
        i = i + 1;
    }
    proof {
        assert(src@.subrange(0, src@.len() as int) =~= src@);
        assert(dst@ == old(dst)@ + src@);
    }
}

/// Encodes an entry into its frame.
pub fn encode_entry(entry: &OplogEntry) -> (r: Vec<u8>)
    ensures
        r@ == spec_encode_entry(entry.index, entry.function_name@, entry.kind, entry.payload@),
{
    proof {
        lemma_auto_spec_u64_to_from_le_bytes();
    }
    let name_bytes = entry.function_name.as_str().as_bytes_vec();
    let mut r: Vec<u8> = u64_to_le_bytes(entry.index);
    r.push(kind_tag(entry.kind));
    let name_len_bytes = u64_to_le_bytes(name_bytes.len() as u64);
    extend_bytes(&mut r, &name_len_bytes);
    extend_bytes(&mut r, &name_bytes);
    let payload_len_bytes = u64_to_le_bytes(entry.payload.len() as u64);
    extend_bytes(&mut r, &payload_len_bytes);
    extend_bytes(&mut r, &entry.payload);
    proof {
        assert(r@ =~= spec_encode_entry(
            entry.index,
            entry.function_name@,
            entry.kind,
            entry.payload@,
        ));
    }
    r
}

/// Relies on `String::from_utf8`: it succeeds exactly on valid UTF-8
/// input and yields the character sequence that input encodes.
#[verifier::external_body]
pub(crate) fn string_from_utf8(bytes: Vec<u8>) -> (r: Option<String>)
    ensures
        r is Some <==> valid_utf8(bytes@),
        r matches Some(s) ==> s@ == decode_utf8(bytes@),
{
    match String::from_utf8(bytes) {
        Ok(s) => Some(s),
        Err(_) => None,
    }
}

/// Decodes a frame back into an entry; `None` exactly when the bytes are
/// not a well-formed frame.
pub fn decode_entry(bytes: &Vec<u8>) -> (r: Option<OplogEntry>)
    ensures
        match r {
            Some(e) => spec_decode_entry(bytes@) matches Some((index, name, kind, payload))
                && e.index == index && e.function_name@ == name && e.kind == kind && e.payload@
                == payload,
            None => spec_decode_entry(bytes@) is None,
        },
{
    if bytes.len() < 25 {
        return None;
    }
    let index = u64_from_le_bytes(slice_subrange(bytes.as_slice(), 0, 8));
    let kind = match kind_of_tag(bytes[8]) {
        Some(k) => k,
        None => {
            return None;
        },
    };
    let name_len64 = u64_from_le_bytes(slice_subrange(bytes.as_slice(), 9, 17));
    if name_len64 > usize::MAX as u64 || (name_len64 as usize) > bytes.len() - 25 {
        return None;
    }
    let name_len = name_len64 as usize;
    let name_bytes = slice_to_vec(slice_subrange(bytes.as_slice(), 17, 17 + name_len));
    let name = match string_from_utf8(name_bytes) {
        Some(s) => s,
        None => {
            return None;
        },
    };
    let payload_len64 = u64_from_le_bytes(
        slice_subrange(bytes.as_slice(), 17 + name_len, 25 + name_len),
    );
    if payload_len64 != (bytes.len() - 25 - name_len) as u64 {
        return None;
    }
    let payload = slice_to_vec(slice_subrange(bytes.as_slice(), 25 + name_len, bytes.len()));
    Some(OplogEntry { index, function_name: name, kind, payload })
}

/// The recorded payload of an optional byte string: a presence tag
/// followed by the bytes.
pub open spec fn spec_encode_option_bytes(o: Option<Seq<u8>>) -> Seq<u8> {
    match o {
        None => seq![0u8],
        Some(v) => seq![1u8] + v,
    }
}

/// Encodes an optional byte string for the journal.
pub fn encode_option_bytes(o: &Option<Vec<u8>>) -> (r: Vec<u8>)
    ensures
        r@ == spec_encode_option_bytes(match o {
            Some(v) => Some(v@),
            None => None,
        }),
{
    match o {
        None => {
            let mut r: Vec<u8> = Vec::new();
            r.push(0u8);
            proof {
                assert(r@ =~= seq![0u8]);
            }
            r
        },
        Some(v) => {
            let mut r: Vec<u8> = Vec::new();
            r.push(1u8);
            extend_bytes(&mut r, v);
            proof {
                assert(r@ =~= seq![1u8] + v@);
            }
            r
        },
    }
}

/// Decodes an optional byte string; `None` exactly when the payload is
/// not one.
pub fn decode_option_bytes(bytes: &Vec<u8>) -> (r: Option<Option<Vec<u8>>>)
    ensures
        r matches Some(o) ==> bytes@ == spec_encode_option_bytes(match o {
            Some(v) => Some(v@),
            None => None,
        }),
        r is None ==> forall|o: Option<Seq<u8>>| bytes@ != spec_encode_option_bytes(o),
{
    if bytes.len() == 0 {
        proof {
            assert forall|o: Option<Seq<u8>>| bytes@ != spec_encode_option_bytes(o) by {
                assert(spec_encode_option_bytes(o).len() >= 1);
            }
        }
        return None;
    }
    if bytes[0] == 0 {
        if bytes.len() == 1 {
            proof {
                assert(bytes@ =~= seq![0u8]);
            }
            Some(None)
        } else {
            proof {
                assert forall|o: Option<Seq<u8>>| bytes@ != spec_encode_option_bytes(o) by {
                    if o is None {
                        assert(spec_encode_option_bytes(o).len() == 1);
                    } else {
                        assert(spec_encode_option_bytes(o)[0] == 1u8);
                    }
                }
            }
            None
        }
    } else if bytes[0] == 1 {
        let v = slice_to_vec(slice_subrange(bytes.as_slice(), 1, bytes.len()));
        proof {
            assert(bytes@ =~= seq![1u8] + v@);
        }
        Some(Some(v))
    } else {
        proof {
            assert forall|o: Option<Seq<u8>>| bytes@ != spec_encode_option_bytes(o) by {
                assert(spec_encode_option_bytes(o)[0] == 0u8 || spec_encode_option_bytes(o)[0]
                    == 1u8);
            }
        }
        None
    }
}

/// The recorded payload of a boolean.
pub open spec fn spec_encode_bool(b: bool) -> Seq<u8> {
    if b {
        seq![1u8]
    } else {
        seq![0u8]
    }
}

/// Encodes a boolean for the journal.
pub fn encode_bool(b: bool) -> (r: Vec<u8>)
    ensures
        r@ == spec_encode_bool(b),
{
    let mut r: Vec<u8> = Vec::new();
    r.push(if b {
        1u8
    } else {
        0u8
    });
    proof {
        assert(r@ =~= spec_encode_bool(b));
    }
    r
}

/// Decodes a boolean payload; `None` exactly when the bytes are not one.
pub fn decode_bool(bytes: &Vec<u8>) -> (r: Option<bool>)
    ensures
        r matches Some(b) ==> bytes@ == spec_encode_bool(b),
        r is None ==> forall|b: bool| bytes@ != spec_encode_bool(b),
{
    if bytes.len() == 1 && bytes[0] == 1 {
        proof {
            assert(bytes@ =~= spec_encode_bool(true));
        }
        Some(true)
    } else if bytes.len() == 1 && bytes[0] == 0 {
        proof {
            assert(bytes@ =~= spec_encode_bool(false));
        }
        Some(false)
    } else {
        proof {
            assert forall|b: bool| bytes@ != spec_encode_bool(b) by {
                assert(spec_encode_bool(b).len() == 1);
                if bytes@.len() == 1 {
                    assert(spec_encode_bool(b)[0] == 0u8 || spec_encode_bool(b)[0] == 1u8);
                }
            }
        }
        None
    }
}

/// Encodes an unsigned 64-bit value for the journal, little endian.
pub fn encode_u64(x: u64) -> (r: Vec<u8>)
    ensures
        r@ == spec_u64_to_le_bytes(x),
{
    u64_to_le_bytes(x)
}

/// Decodes an unsigned 64-bit payload; `None` exactly when the length is
/// wrong.
pub fn decode_u64(bytes: &Vec<u8>) -> (r: Option<u64>)
    ensures
        r matches Some(x) ==> bytes@ == spec_u64_to_le_bytes(x),
        r is None ==> forall|x: u64| bytes@ != spec_u64_to_le_bytes(x),
{
    proof {
        lemma_auto_spec_u64_to_from_le_bytes();
    }
    if bytes.len() == 8 {
        let x = u64_from_le_bytes(slice_subrange(bytes.as_slice(), 0, 8));
        proof {
            assert(bytes@.subrange(0, 8) =~= bytes@);
            assert(spec_u64_to_le_bytes(spec_u64_from_le_bytes(bytes@)) == bytes@);
        }
        Some(x)
    } else {
        None
    }
}

} // verus!
