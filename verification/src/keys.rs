//! Key layout of the persisted state, and the hexadecimal rendering of
//! identifiers it is built from.
//!
//! Two logical spaces back the engine: the metadata space keys worker
//! records under `worker:{id}`, and the oplog space keys journals under
//! `oplog:{id}`.  A configurable prefix namespaces both so that several
//! deployments can share one backing store.  A worker's self URI is
//! rendered from the same identifier pieces.

use vstd::prelude::*;

use crate::model::{WorkerId, WorkerIdView};
use vstd::utf8::{decode_utf8, encode_utf8, is_ascii_chars, valid_utf8};

verus! {

/// The ASCII byte of the hex digit for a nibble.
pub open spec fn spec_hex_digit_byte(n: u8) -> u8
    recommends
        n < 16,
{
    if n < 10 {
        (48 + n) as u8  // '0'..'9'
    } else {
        (87 + n) as u8  // 'a'..'f'
    }
}

/// The sixteen hex-digit bytes of `x`, most significant nibble first.
pub open spec fn spec_u64_hex_bytes(x: u64) -> Seq<u8> {
    Seq::new(16, |i: int| spec_hex_digit_byte(((x >> (((15 - i) * 4) as u64)) & 0xf) as u8))
}

/// The sixteen hex-digit characters of `x`, most significant nibble
/// first.
pub open spec fn spec_u64_hex_chars(x: u64) -> Seq<char> {
    Seq::new(16, |i: int| spec_u64_hex_bytes(x)[i] as char)
}

/// Exec twin of [`spec_hex_digit_byte`].
fn hex_digit_byte(n: u8) -> (r: u8)
    requires
        n < 16,
    ensures
        r == spec_hex_digit_byte(n),
{
    if n < 10 {
        48 + n
    } else {
        87 + n
    }
}

/// Renders `x` as its sixteen-character lower-case hex string.
pub fn u64_to_hex(x: u64) -> (r: String)
    ensures
        r@ == spec_u64_hex_chars(x),
        r@.len() == 16,
{
    let mut bytes: Vec<u8> = Vec::new();
    let mut i: usize = 0;
    while i < 16
        invariant
            i <= 16,
            bytes@.len() == i,
            forall|j: int| 0 <= j < i ==> bytes@[j] == spec_u64_hex_bytes(x)[j],
            forall|j: int| 0 <= j < i ==> bytes@[j] < 128,
        decreases 16 - i,
    {
        let shift: u64 = ((15 - i) * 4) as u64;
        let nibble = ((x >> shift) & 0xf) as u8;
        proof {
            assert((x >> shift) & 0xf < 16) by (bit_vector);
        }
        bytes.push(hex_digit_byte(nibble));
        i = i + 1;
    }
    proof {
        assert(bytes@ =~= spec_u64_hex_bytes(x));
    }
    ascii_bytes_to_string(bytes)
}

/// Builds a `String` from bytes that are all ASCII; each byte becomes the
/// character with the same code.
pub fn ascii_bytes_to_string(bytes: Vec<u8>) -> (r: String)
    requires
        forall|i: int| 0 <= i < bytes@.len() ==> bytes@[i] < 128,
    ensures
        r@.len() == bytes@.len(),
        forall|i: int| 0 <= i < bytes@.len() ==> r@[i] == bytes@[i] as char,
{
    let ghost chars = Seq::new(bytes@.len(), |i: int| bytes@[i] as char);
    proof {
        broadcast use vstd::utf8::is_ascii_chars_encode_utf8;
        broadcast use vstd::utf8::encode_utf8_valid_utf8;
        broadcast use vstd::utf8::encode_utf8_decode_utf8;

        assert(is_ascii_chars(chars));
        assert(encode_utf8(chars) =~= bytes@);
        assert(valid_utf8(bytes@));
        assert(decode_utf8(bytes@) == chars);
    }
    match crate::codec::string_from_utf8(bytes) {
        Some(s) => s,
        None => {
            proof {
                assert(false);
            }
            String::new()
        },
    }
}

/// The nibbles at one position agree when the hex strings agree: the
/// digit map is injective on nibbles.
proof fn lemma_hex_digit_at(x: u64, y: u64, i: int)
    requires
        0 <= i < 16,
        spec_u64_hex_chars(x) == spec_u64_hex_chars(y),
    ensures
        ((x >> (((15 - i) * 4) as u64)) & 0xf) == ((y >> (((15 - i) * 4) as u64)) & 0xf),
{
    assert(spec_u64_hex_chars(x)[i] == spec_u64_hex_chars(y)[i]);
    let sh = ((15 - i) * 4) as u64;
    let nx = ((x >> sh) & 0xf) as u8;
    let ny = ((y >> sh) & 0xf) as u8;
    assert((x >> sh) & 0xf < 16 && (y >> sh) & 0xf < 16) by (bit_vector);
    assert(spec_u64_hex_bytes(x)[i] == spec_hex_digit_byte(nx));
    assert(spec_u64_hex_bytes(y)[i] == spec_hex_digit_byte(ny));
    assert(spec_u64_hex_chars(x)[i] == spec_u64_hex_bytes(x)[i] as char);
    assert(spec_u64_hex_chars(y)[i] == spec_u64_hex_bytes(y)[i] as char);
    assert(spec_hex_digit_byte(nx) as char == spec_hex_digit_byte(ny) as char);
    assert(spec_hex_digit_byte(nx) == spec_hex_digit_byte(ny));
    assert(nx == ny);
}

/// Distinct values render as distinct hex strings: the rendering is
/// injective, so identifiers derived from fresh counters never collide.
pub proof fn lemma_u64_hex_injective(x: u64, y: u64)
    requires
        spec_u64_hex_chars(x) == spec_u64_hex_chars(y),
    ensures
        x == y,
{
    assert(((x >> 60u64) & 0xf) == ((y >> 60u64) & 0xf)) by {
        assert((((15 - 0) * 4) as u64) == 60u64);
        lemma_hex_digit_at(x, y, 0);
    }
    assert(((x >> 56u64) & 0xf) == ((y >> 56u64) & 0xf)) by {
        assert((((15 - 1) * 4) as u64) == 56u64);
        lemma_hex_digit_at(x, y, 1);
    }
    assert(((x >> 52u64) & 0xf) == ((y >> 52u64) & 0xf)) by {
        assert((((15 - 2) * 4) as u64) == 52u64);
        lemma_hex_digit_at(x, y, 2);
    }
    assert(((x >> 48u64) & 0xf) == ((y >> 48u64) & 0xf)) by {
        assert((((15 - 3) * 4) as u64) == 48u64);
        lemma_hex_digit_at(x, y, 3);
    }
    assert(((x >> 44u64) & 0xf) == ((y >> 44u64) & 0xf)) by {
        assert((((15 - 4) * 4) as u64) == 44u64);
        lemma_hex_digit_at(x, y, 4);
    }
    assert(((x >> 40u64) & 0xf) == ((y >> 40u64) & 0xf)) by {
        assert((((15 - 5) * 4) as u64) == 40u64);
        lemma_hex_digit_at(x, y, 5);
    }
    assert(((x >> 36u64) & 0xf) == ((y >> 36u64) & 0xf)) by {
        assert((((15 - 6) * 4) as u64) == 36u64);
        lemma_hex_digit_at(x, y, 6);
    }
    assert(((x >> 32u64) & 0xf) == ((y >> 32u64) & 0xf)) by {
        assert((((15 - 7) * 4) as u64) == 32u64);
        lemma_hex_digit_at(x, y, 7);
    }
    assert(((x >> 28u64) & 0xf) == ((y >> 28u64) & 0xf)) by {
        assert((((15 - 8) * 4) as u64) == 28u64);
        lemma_hex_digit_at(x, y, 8);
    }
    assert(((x >> 24u64) & 0xf) == ((y >> 24u64) & 0xf)) by {
        assert((((15 - 9) * 4) as u64) == 24u64);
        lemma_hex_digit_at(x, y, 9);
    }
    assert(((x >> 20u64) & 0xf) == ((y >> 20u64) & 0xf)) by {
        assert((((15 - 10) * 4) as u64) == 20u64);
        lemma_hex_digit_at(x, y, 10);
    }
    assert(((x >> 16u64) & 0xf) == ((y >> 16u64) & 0xf)) by {
        assert((((15 - 11) * 4) as u64) == 16u64);
        lemma_hex_digit_at(x, y, 11);
    }
    assert(((x >> 12u64) & 0xf) == ((y >> 12u64) & 0xf)) by {
        assert((((15 - 12) * 4) as u64) == 12u64);
        lemma_hex_digit_at(x, y, 12);
    }
    assert(((x >> 8u64) & 0xf) == ((y >> 8u64) & 0xf)) by {
        assert((((15 - 13) * 4) as u64) == 8u64);
        lemma_hex_digit_at(x, y, 13);
    }
    assert(((x >> 4u64) & 0xf) == ((y >> 4u64) & 0xf)) by {
        assert((((15 - 14) * 4) as u64) == 4u64);
        lemma_hex_digit_at(x, y, 14);
    }
    assert(((x >> 0u64) & 0xf) == ((y >> 0u64) & 0xf)) by {
        assert((((15 - 15) * 4) as u64) == 0u64);
        lemma_hex_digit_at(x, y, 15);
    }
    assert(x == y) by (bit_vector)
        requires
            (x >> 60u64) & 0xf == (y >> 60u64) & 0xf,
            (x >> 56u64) & 0xf == (y >> 56u64) & 0xf,
            (x >> 52u64) & 0xf == (y >> 52u64) & 0xf,
            (x >> 48u64) & 0xf == (y >> 48u64) & 0xf,
            (x >> 44u64) & 0xf == (y >> 44u64) & 0xf,
            (x >> 40u64) & 0xf == (y >> 40u64) & 0xf,
            (x >> 36u64) & 0xf == (y >> 36u64) & 0xf,
            (x >> 32u64) & 0xf == (y >> 32u64) & 0xf,
            (x >> 28u64) & 0xf == (y >> 28u64) & 0xf,
            (x >> 24u64) & 0xf == (y >> 24u64) & 0xf,
            (x >> 20u64) & 0xf == (y >> 20u64) & 0xf,
            (x >> 16u64) & 0xf == (y >> 16u64) & 0xf,
            (x >> 12u64) & 0xf == (y >> 12u64) & 0xf,
            (x >> 8u64) & 0xf == (y >> 8u64) & 0xf,
            (x >> 4u64) & 0xf == (y >> 4u64) & 0xf,
            (x >> 0u64) & 0xf == (y >> 0u64) & 0xf,
    ;
}

/// The 32-character hex rendering of a worker's template identifier.
pub open spec fn spec_template_hex(w: WorkerIdView) -> Seq<char> {
    spec_u64_hex_chars(w.template_id.high_bits) + spec_u64_hex_chars(w.template_id.low_bits)
}

/// The metadata-space key of a worker: `{prefix}worker:{template}/{name}`.
pub open spec fn spec_worker_key(prefix: Seq<char>, w: WorkerIdView) -> Seq<char> {
    prefix + "worker:"@ + spec_template_hex(w) + "/"@ + w.worker_name
}

/// The oplog-space key of a worker: `{prefix}oplog:{template}/{name}`.
pub open spec fn spec_oplog_key(prefix: Seq<char>, w: WorkerIdView) -> Seq<char> {
    prefix + "oplog:"@ + spec_template_hex(w) + "/"@ + w.worker_name
}

/// The URI a worker reaches itself under:
/// `worker://{template}/{name}`, with `/{function}` appended when a
/// function is named.
pub open spec fn spec_worker_uri(w: WorkerIdView, function_name: Option<Seq<char>>) -> Seq<
    char,
> {
    let base = "worker://"@ + spec_template_hex(w) + "/"@ + w.worker_name;
    match function_name {
        Some(f) => base + "/"@ + f,
        None => base,
    }
}

/// Renders the metadata-space key of `worker_id` under `prefix`.
pub fn worker_key(prefix: &String, worker_id: &WorkerId) -> (r: String)
    ensures
        r@ == spec_worker_key(prefix@, worker_id@),
{
    let mut s = String::new();
    s.append(prefix.as_str());
    s.append("worker:");
    let hi = u64_to_hex(worker_id.template_id.high_bits);
    s.append(hi.as_str());
    let lo = u64_to_hex(worker_id.template_id.low_bits);
    s.append(lo.as_str());
    s.append("/");
    s.append(worker_id.worker_name.as_str());
    proof {
        assert(s@ =~= spec_worker_key(prefix@, worker_id@));
    }
    s
}

/// Renders the oplog-space key of `worker_id` under `prefix`.
pub fn oplog_key(prefix: &String, worker_id: &WorkerId) -> (r: String)
    ensures
        r@ == spec_oplog_key(prefix@, worker_id@),
{
    let mut s = String::new();
    s.append(prefix.as_str());
    s.append("oplog:");
    let hi = u64_to_hex(worker_id.template_id.high_bits);
    s.append(hi.as_str());
    let lo = u64_to_hex(worker_id.template_id.low_bits);
    s.append(lo.as_str());
    s.append("/");
    s.append(worker_id.worker_name.as_str());
    proof {
        assert(s@ =~= spec_oplog_key(prefix@, worker_id@));
    }
    s
}

/// Renders the URI under which `worker_id` reaches itself.
pub fn worker_uri(worker_id: &WorkerId, function_name: Option<&String>) -> (r: String)
    ensures
        match function_name {
            Some(f) => r@ == spec_worker_uri(worker_id@, Some(f@)),
            None => r@ == spec_worker_uri(worker_id@, None),
        },
{
    let mut s = String::new();
    s.append("worker://");
    let hi = u64_to_hex(worker_id.template_id.high_bits);
    s.append(hi.as_str());
    let lo = u64_to_hex(worker_id.template_id.low_bits);
    s.append(lo.as_str());
    s.append("/");
    s.append(worker_id.worker_name.as_str());
    match function_name {
        Some(f) => {
            s.append("/");
            s.append(f.as_str());
            proof {
                assert(s@ =~= spec_worker_uri(worker_id@, Some(f@)));
            }
            s
        },
        None => {
            proof {
                assert(s@ =~= spec_worker_uri(worker_id@, None));
            }
            s
        },
    }
}

} // verus!
