//! Byte codec for the persisted worker record.
//!
//! The metadata space stores one record per worker: identity, template
//! version, creation arguments and environment, owning account, last
//! known status and the retry and oplog-tail counters.  Strings are
//! length-prefixed UTF-8; lists are count-prefixed.  Encoding is exact
//! ([`encode_metadata`]) and decoding inverts it: whatever the decoder
//! accepts encodes back to the very bytes it read, and every encoded
//! record is accepted — a stored record round-trips and can never be
//! silently reinterpreted.

use vstd::prelude::*;

use crate::model::{
    AccountId, TemplateId, VersionedWorkerId, WorkerId, WorkerMetadata, WorkerStatus,
};
use vstd::bytes::{
    lemma_auto_spec_u64_to_from_le_bytes, spec_u64_from_le_bytes, spec_u64_to_le_bytes,
    u64_from_le_bytes, u64_to_le_bytes,
};
use vstd::slice::{slice_subrange, slice_to_vec};
use vstd::string::StringSliceAdditionalSpecFns;
use vstd::utf8::{decode_utf8, encode_utf8, valid_utf8};

verus! {

/// The one-byte tag of a worker status.
pub open spec fn spec_status_tag(status: WorkerStatus) -> u8 {
    match status {
        WorkerStatus::Running => 0,
        WorkerStatus::Idle => 1,
        WorkerStatus::Suspended => 2,
        WorkerStatus::Interrupted => 3,
        WorkerStatus::Retrying => 4,
        WorkerStatus::Failed => 5,
        WorkerStatus::Exited => 6,
    }
}

/// The worker status a tag byte stands for, if any.
pub open spec fn spec_status_of_tag(tag: u8) -> Option<WorkerStatus> {
    if tag == 0 {
        Some(WorkerStatus::Running)
    } else if tag == 1 {
        Some(WorkerStatus::Idle)
    } else if tag == 2 {
        Some(WorkerStatus::Suspended)
    } else if tag == 3 {
        Some(WorkerStatus::Interrupted)
    } else if tag == 4 {
        Some(WorkerStatus::Retrying)
    } else if tag == 5 {
        Some(WorkerStatus::Failed)
    } else if tag == 6 {
        Some(WorkerStatus::Exited)
    } else {
        None
    }
}

/// Exec twin of [`spec_status_tag`].
pub fn status_tag(status: WorkerStatus) -> (r: u8)
    ensures
        r == spec_status_tag(status),
{
    match status {
        WorkerStatus::Running => 0,
        WorkerStatus::Idle => 1,
        WorkerStatus::Suspended => 2,
        WorkerStatus::Interrupted => 3,
        WorkerStatus::Retrying => 4,
        WorkerStatus::Failed => 5,
        WorkerStatus::Exited => 6,
    }
}

/// Exec twin of [`spec_status_of_tag`].
pub fn status_of_tag(tag: u8) -> (r: Option<WorkerStatus>)
    ensures
        r == spec_status_of_tag(tag),
{
    if tag == 0 {
        Some(WorkerStatus::Running)
    } else if tag == 1 {
        Some(WorkerStatus::Idle)
    } else if tag == 2 {
        Some(WorkerStatus::Suspended)
    } else if tag == 3 {
        Some(WorkerStatus::Interrupted)
    } else if tag == 4 {
        Some(WorkerStatus::Retrying)
    } else if tag == 5 {
        Some(WorkerStatus::Failed)
    } else if tag == 6 {
        Some(WorkerStatus::Exited)
    } else {
        None
    }
}

/// A signed 32-bit value shifted into the unsigned range, so that its
/// frame is plain little-endian.
pub open spec fn spec_i32_biased(v: i32) -> u64 {
    (v + 0x8000_0000) as u64
}

/// The frame of one string: its UTF-8 byte length, then the bytes.
pub open spec fn spec_encode_string(s: Seq<char>) -> Seq<u8> {
    spec_u64_to_le_bytes(encode_utf8(s).len() as u64) + encode_utf8(s)
}

/// The frame of a string list, item by item.
pub open spec fn spec_encode_string_items(items: Seq<Seq<char>>) -> Seq<u8>
    decreases items.len(),
{
    if items.len() == 0 {
        Seq::empty()
    } else {
        spec_encode_string(items.first()) + spec_encode_string_items(items.drop_first())
    }
}

/// Appending an item to a list appends its frame to the list's frame.
pub proof fn lemma_string_items_push(items: Seq<Seq<char>>, item: Seq<char>)
    ensures
        spec_encode_string_items(items.push(item)) == spec_encode_string_items(items)
            + spec_encode_string(item),
    decreases items.len(),
{
    assert(spec_encode_string_items(items.push(item)) == spec_encode_string(
        items.push(item).first(),
    ) + spec_encode_string_items(items.push(item).drop_first()));
    if items.len() == 0 {
        assert(items.push(item).drop_first() =~= Seq::<Seq<char>>::empty());
        assert(items.push(item).first() == item);
        assert(spec_encode_string_items(items.push(item).drop_first())
            == Seq::<u8>::empty());
        assert(spec_encode_string_items(items) == Seq::<u8>::empty());
        assert(spec_encode_string_items(items.push(item)) =~= spec_encode_string_items(items)
            + spec_encode_string(item));
    } else {
        assert(items.push(item).drop_first() =~= items.drop_first().push(item));
        assert(items.push(item).first() == items.first());
        lemma_string_items_push(items.drop_first(), item);
        assert(spec_encode_string_items(items) == spec_encode_string(items.first())
            + spec_encode_string_items(items.drop_first()));
        assert(spec_encode_string_items(items.push(item)) =~= spec_encode_string_items(items)
            + spec_encode_string(item));
    }
}

/// The mathematical content of an argument vector.
pub open spec fn spec_string_views(items: Seq<String>) -> Seq<Seq<char>> {
    items.map(|i: int, s: String| s@)
}

/// The environment flattened to a string list: each pair contributes its
/// key and its value.
pub open spec fn spec_env_views(items: Seq<(String, String)>) -> Seq<Seq<char>>
    decreases items.len(),
{
    if items.len() == 0 {
        Seq::empty()
    } else {
        seq![items.first().0@, items.first().1@] + spec_env_views(items.drop_first())
    }
}

/// The frame of a whole worker record.
#[verifier::opaque]
pub open spec fn spec_encode_metadata(m: WorkerMetadata) -> Seq<u8> {
    spec_u64_to_le_bytes(m.worker_id.worker_id.template_id.high_bits) + spec_u64_to_le_bytes(
        m.worker_id.worker_id.template_id.low_bits,
    ) + spec_u64_to_le_bytes(spec_i32_biased(m.worker_id.template_version)) + seq![
        spec_status_tag(m.last_known_status),
    ] + spec_u64_to_le_bytes(m.retry_count) + spec_u64_to_le_bytes(m.oplog_tail)
        + spec_encode_string(m.worker_id.worker_id.worker_name@) + spec_encode_string(
        m.account_id.value@,
    ) + spec_u64_to_le_bytes(m.args@.len() as u64) + spec_encode_string_items(
        spec_string_views(m.args@),
    ) + spec_u64_to_le_bytes(m.env@.len() as u64) + spec_encode_string_items(
        spec_env_views(m.env@),
    )
}

/// Dropping a known prefix of a suffix moves the cut right.
proof fn lemma_suffix_shift(b: Seq<u8>, start: int, head: Seq<u8>, rest: Seq<u8>)
    requires
        0 <= start <= b.len(),
        b.subrange(start, b.len() as int) == head + rest,
    ensures
        b.subrange(start + head.len(), b.len() as int) == rest,
        b.subrange(start, start + head.len() as int) == head,
{
    let whole = b.subrange(start, b.len() as int);
    assert(whole.len() == b.len() - start);
    assert(whole.len() == head.len() + rest.len());
    assert forall|k: int| 0 <= k < rest.len() implies b.subrange(
        start + head.len(),
        b.len() as int,
    )[k] == rest[k] by {
        assert(whole[head.len() + k] == (head + rest)[head.len() + k]);
        assert(whole[head.len() + k] == b[start + head.len() + k]);
    }
    assert(b.subrange(start + head.len(), b.len() as int) =~= rest);
    assert forall|k: int| 0 <= k < head.len() implies b.subrange(
        start,
        start + head.len() as int,
    )[k] == head[k] by {
        assert(whole[k] == (head + rest)[k]);
        assert(whole[k] == b[start + k]);
    }
    assert(b.subrange(start, start + head.len() as int) =~= head);
}

/// Peeling the item at `j` splits the list frame at its front.
proof fn lemma_string_items_skip(items: Seq<Seq<char>>, j: int)
    requires
        0 <= j < items.len(),
    ensures
        spec_encode_string_items(items.skip(j)) == spec_encode_string(items[j])
            + spec_encode_string_items(items.skip(j + 1)),
{
    let tail = items.skip(j);
    assert(tail.len() == items.len() - j);
    assert(tail.first() == items[j]);
    assert(spec_encode_string_items(tail) == spec_encode_string(tail.first())
        + spec_encode_string_items(tail.drop_first()));
    assert(tail.drop_first() =~= items.skip(j + 1));
}

/// Every item frame takes at least its length field: the list frame is
/// at least eight bytes per item.
proof fn lemma_string_items_min_len(items: Seq<Seq<char>>)
    ensures
        spec_encode_string_items(items).len() >= 8 * items.len(),
    decreases items.len(),
{
    lemma_auto_spec_u64_to_from_le_bytes();
    if items.len() == 0 {
    } else {
        assert(spec_encode_string_items(items) == spec_encode_string(items.first())
            + spec_encode_string_items(items.drop_first()));
        assert(spec_encode_string(items.first()).len() >= 8);
        lemma_string_items_min_len(items.drop_first());
    }
}

/// Peeling the pair at `j` splits the flattened environment frame into
/// its key frame, its value frame, and the rest.
proof fn lemma_env_items_skip(items: Seq<(String, String)>, j: int)
    requires
        0 <= j < items.len(),
    ensures
        spec_encode_string_items(spec_env_views(items.skip(j))) == spec_encode_string(
            items[j].0@,
        ) + (spec_encode_string(items[j].1@) + spec_encode_string_items(
            spec_env_views(items.skip(j + 1)),
        )),
{
    let tail = items.skip(j);
    assert(tail.first() == items[j]);
    assert(spec_env_views(tail) == seq![tail.first().0@, tail.first().1@] + spec_env_views(
        tail.drop_first(),
    ));
    let views = spec_env_views(tail);
    assert(views.len() >= 2);
    assert(views.first() == items[j].0@);
    assert(spec_encode_string_items(views) == spec_encode_string(views.first())
        + spec_encode_string_items(views.drop_first()));
    assert(views.drop_first() =~= seq![items[j].1@] + spec_env_views(tail.drop_first()));
    let views2 = views.drop_first();
    assert(views2.first() == items[j].1@);
    assert(spec_encode_string_items(views2) == spec_encode_string(views2.first())
        + spec_encode_string_items(views2.drop_first()));
    assert(views2.drop_first() =~= spec_env_views(tail.drop_first()));
    assert(tail.drop_first() =~= items.skip(j + 1));
}

/// The environment flattens to two views per pair.
proof fn lemma_env_views_len(items: Seq<(String, String)>)
    ensures
        spec_env_views(items).len() == 2 * items.len(),
    decreases items.len(),
{
    if items.len() == 0 {
    } else {
        lemma_env_views_len(items.drop_first());
    }
}

/// Where each field of a record sits in its frame.
proof fn lemma_metadata_layout(m: WorkerMetadata)
    ensures
        ({
            let b = spec_encode_metadata(m);
            let name = m.worker_id.worker_id.worker_name@;
            let acct = m.account_id.value@;
            let p_acct = 41 + spec_encode_string(name).len() as int;
            let p_args_cnt = p_acct + spec_encode_string(acct).len() as int;
            let p_args = p_args_cnt + 8;
            let p_env_cnt = p_args + spec_encode_string_items(
                spec_string_views(m.args@),
            ).len() as int;
            let p_env = p_env_cnt + 8;
            &&& b.len() == p_env + spec_encode_string_items(spec_env_views(m.env@)).len()
            &&& b.subrange(0, 8) == spec_u64_to_le_bytes(
                m.worker_id.worker_id.template_id.high_bits,
            )
            &&& b.subrange(8, 16) == spec_u64_to_le_bytes(
                m.worker_id.worker_id.template_id.low_bits,
            )
            &&& b.subrange(16, 24) == spec_u64_to_le_bytes(
                spec_i32_biased(m.worker_id.template_version),
            )
            &&& b[24] == spec_status_tag(m.last_known_status)
            &&& b.subrange(25, 33) == spec_u64_to_le_bytes(m.retry_count)
            &&& b.subrange(33, 41) == spec_u64_to_le_bytes(m.oplog_tail)
            &&& b.subrange(41, b.len() as int) == spec_encode_string(name) + (
            b.subrange(p_acct, b.len() as int))
            &&& b.subrange(p_acct, b.len() as int) == spec_encode_string(acct) + (
            b.subrange(p_args_cnt, b.len() as int))
            &&& b.subrange(p_args_cnt, p_args_cnt + 8) == spec_u64_to_le_bytes(
                m.args@.len() as u64,
            )
            &&& b.subrange(p_args, b.len() as int) == spec_encode_string_items(
                spec_string_views(m.args@),
            ) + b.subrange(p_env_cnt, b.len() as int)
            &&& b.subrange(p_env_cnt, p_env_cnt + 8) == spec_u64_to_le_bytes(
                m.env@.len() as u64,
            )
            &&& b.subrange(p_env, b.len() as int) == spec_encode_string_items(
                spec_env_views(m.env@),
            )
        }),
{
    reveal(spec_encode_metadata);
    lemma_auto_spec_u64_to_from_le_bytes();
    let b = spec_encode_metadata(m);
    let name = m.worker_id.worker_id.worker_name@;
    let acct = m.account_id.value@;
    let p_acct = 41 + spec_encode_string(name).len() as int;
    let p_args_cnt = p_acct + spec_encode_string(acct).len() as int;
    let p_args = p_args_cnt + 8;
    let p_env_cnt = p_args + spec_encode_string_items(spec_string_views(m.args@)).len() as int;
    let p_env = p_env_cnt + 8;
    assert(b.len() == p_env + spec_encode_string_items(spec_env_views(m.env@)).len());
    assert(b.subrange(0, 8) =~= spec_u64_to_le_bytes(m.worker_id.worker_id.template_id.high_bits));
    assert(b.subrange(8, 16) =~= spec_u64_to_le_bytes(m.worker_id.worker_id.template_id.low_bits));
    assert(b.subrange(16, 24) =~= spec_u64_to_le_bytes(
        spec_i32_biased(m.worker_id.template_version),
    ));
    assert(b.subrange(25, 33) =~= spec_u64_to_le_bytes(m.retry_count));
    assert(b.subrange(33, 41) =~= spec_u64_to_le_bytes(m.oplog_tail));
    assert(b.subrange(41, b.len() as int) =~= spec_encode_string(name) + (b.subrange(
        p_acct,
        b.len() as int,
    )));
    assert(b.subrange(p_acct, b.len() as int) =~= spec_encode_string(acct) + (b.subrange(
        p_args_cnt,
        b.len() as int,
    )));
    assert(b.subrange(p_args_cnt, p_args_cnt + 8) =~= spec_u64_to_le_bytes(
        m.args@.len() as u64,
    ));
    assert(b.subrange(p_args, b.len() as int) =~= spec_encode_string_items(
        spec_string_views(m.args@),
    ) + b.subrange(p_env_cnt, b.len() as int));
    assert(b.subrange(p_env_cnt, p_env_cnt + 8) =~= spec_u64_to_le_bytes(m.env@.len() as u64));
    assert(b.subrange(p_env, b.len() as int) =~= spec_encode_string_items(
        spec_env_views(m.env@),
    ));
}

/// The list frame of a concatenation is the concatenation of the list
/// frames.
proof fn lemma_string_items_concat(a: Seq<Seq<char>>, c: Seq<Seq<char>>)
    ensures
        spec_encode_string_items(a + c) == spec_encode_string_items(a)
            + spec_encode_string_items(c),
    decreases a.len(),
{
    if a.len() == 0 {
        assert(a + c =~= c);
        assert(spec_encode_string_items(a) == Seq::<u8>::empty());
        assert(spec_encode_string_items(a + c) =~= spec_encode_string_items(a)
            + spec_encode_string_items(c));
    } else {
        assert((a + c).first() == a.first());
        assert((a + c).len() > 0);
        assert(spec_encode_string_items(a + c) == spec_encode_string((a + c).first())
            + spec_encode_string_items((a + c).drop_first()));
        assert((a + c).drop_first() =~= a.drop_first() + c);
        lemma_string_items_concat(a.drop_first(), c);
        assert(spec_encode_string_items(a) == spec_encode_string(a.first())
            + spec_encode_string_items(a.drop_first()));
        assert(spec_encode_string_items(a + c) =~= spec_encode_string_items(a)
            + spec_encode_string_items(c));
    }
}

/// Flattening a concatenation of environments concatenates the views.
proof fn lemma_env_views_concat(a: Seq<(String, String)>, c: Seq<(String, String)>)
    ensures
        spec_env_views(a + c) == spec_env_views(a) + spec_env_views(c),
    decreases a.len(),
{
    if a.len() == 0 {
        assert(a + c =~= c);
        assert(spec_env_views(a) == Seq::<Seq<char>>::empty());
        assert(spec_env_views(a + c) =~= spec_env_views(a) + spec_env_views(c));
    } else {
        assert((a + c).first() == a.first());
        assert(spec_env_views(a + c) == seq![(a + c).first().0@, (a + c).first().1@]
            + spec_env_views((a + c).drop_first()));
        assert((a + c).drop_first() =~= a.drop_first() + c);
        lemma_env_views_concat(a.drop_first(), c);
        assert(spec_env_views(a) == seq![a.first().0@, a.first().1@] + spec_env_views(
            a.drop_first(),
        ));
        assert(spec_env_views(a + c) =~= spec_env_views(a) + spec_env_views(c));
    }
}

/// Equal string frames come from equal strings.
proof fn lemma_string_frame_injective(s1: Seq<char>, s2: Seq<char>)
    requires
        spec_encode_string(s1) == spec_encode_string(s2),
    ensures
        s1 == s2,
{
    lemma_auto_spec_u64_to_from_le_bytes();
    broadcast use vstd::utf8::encode_utf8_decode_utf8;

    let f1 = spec_encode_string(s1);
    assert(spec_u64_to_le_bytes(encode_utf8(s1).len() as u64).len() == 8);
    assert(spec_u64_to_le_bytes(encode_utf8(s2).len() as u64).len() == 8);
    assert(encode_utf8(s1).len() == f1.len() - 8);
    assert(encode_utf8(s2).len() == f1.len() - 8);
    assert(encode_utf8(s1) =~= f1.subrange(8, f1.len() as int));
    assert(encode_utf8(s2) =~= f1.subrange(8, f1.len() as int));
    assert(decode_utf8(encode_utf8(s1)) == s1);
    assert(decode_utf8(encode_utf8(s2)) == s2);
}

/// Appends the frame of one string.
fn push_string(out: &mut Vec<u8>, s: &String)
    ensures
        final (out)@ == old(out)@ + spec_encode_string(s@),
{
    proof {
        lemma_auto_spec_u64_to_from_le_bytes();
    }
    let bytes = s.as_str().as_bytes_vec();
    let len_bytes = u64_to_le_bytes(bytes.len() as u64);
    crate::codec::extend_bytes(out, &len_bytes);
    crate::codec::extend_bytes(out, &bytes);
    proof {
        assert(out@ =~= old(out)@ + spec_encode_string(s@));
    }
}

/// Encodes a worker record into its frame.
pub fn encode_metadata(m: &WorkerMetadata) -> (r: Vec<u8>)
    ensures
        r@ == spec_encode_metadata(*m),
{
    proof {
        lemma_auto_spec_u64_to_from_le_bytes();
    }
    let mut r: Vec<u8> = u64_to_le_bytes(m.worker_id.worker_id.template_id.high_bits);
    let lo = u64_to_le_bytes(m.worker_id.worker_id.template_id.low_bits);
    crate::codec::extend_bytes(&mut r, &lo);
    let biased: u64 = (m.worker_id.template_version as i64 + 0x8000_0000) as u64;
    let ver = u64_to_le_bytes(biased);
    crate::codec::extend_bytes(&mut r, &ver);
    r.push(status_tag(m.last_known_status));
    let retry = u64_to_le_bytes(m.retry_count);
    crate::codec::extend_bytes(&mut r, &retry);
    let tail = u64_to_le_bytes(m.oplog_tail);
    crate::codec::extend_bytes(&mut r, &tail);
    push_string(&mut r, &m.worker_id.worker_id.worker_name);
    push_string(&mut r, &m.account_id.value);

    let argc = u64_to_le_bytes(m.args.len() as u64);
    crate::codec::extend_bytes(&mut r, &argc);
    let ghost args_start = r@;
    let mut i: usize = 0;
    while i < m.args.len()
        invariant
            i <= m.args@.len(),
            r@ == args_start + spec_encode_string_items(
                spec_string_views(m.args@.subrange(0, i as int)),
            ),
        decreases m.args@.len() - i,
    {
        push_string(&mut r, &m.args[i]);
        proof {
            let prefix = spec_string_views(m.args@.subrange(0, i as int));
            lemma_string_items_push(prefix, m.args@[i as int]@);
            assert(spec_string_views(m.args@.subrange(0, i + 1)) =~= prefix.push(
                m.args@[i as int]@,
            ));
            assert(r@ =~= args_start + spec_encode_string_items(
                spec_string_views(m.args@.subrange(0, i + 1)),
            ));
        }
        i = i + 1;
    }
    proof {
        assert(m.args@.subrange(0, m.args@.len() as int) =~= m.args@);
    }

    let envc = u64_to_le_bytes(m.env.len() as u64);
    crate::codec::extend_bytes(&mut r, &envc);
    let ghost env_start = r@;
    let mut i: usize = 0;
    while i < m.env.len()
        invariant
            i <= m.env@.len(),
            r@ == env_start + spec_encode_string_items(spec_env_views(m.env@.subrange(0, i as int))),
        decreases m.env@.len() - i,
    {
        let (k, v) = &m.env[i];
        push_string(&mut r, k);
        push_string(&mut r, v);
        proof {
            lemma_env_views_snoc(m.env@.subrange(0, i as int), m.env@[i as int]);
            assert(m.env@.subrange(0, i + 1) =~= m.env@.subrange(0, i as int).push(
                m.env@[i as int],
            ));
            let prefix = spec_env_views(m.env@.subrange(0, i as int));
            lemma_string_items_push(prefix, m.env@[i as int].0@);
            lemma_string_items_push(prefix.push(m.env@[i as int].0@), m.env@[i as int].1@);
            assert(r@ =~= env_start + spec_encode_string_items(
                spec_env_views(m.env@.subrange(0, i + 1)),
            ));
        }
        i = i + 1;
    }
    proof {
        reveal(spec_encode_metadata);
        assert(m.env@.subrange(0, m.env@.len() as int) =~= m.env@);
        assert(r@ =~= spec_encode_metadata(*m));
    }
    r
}

/// Flattening one more pair appends its key and value views.
proof fn lemma_env_views_snoc(items: Seq<(String, String)>, item: (String, String))
    ensures
        spec_env_views(items.push(item)) == spec_env_views(items).push(item.0@).push(item.1@),
    decreases items.len(),
{
    assert(spec_env_views(items.push(item)) == seq![
        items.push(item).first().0@,
        items.push(item).first().1@,
    ] + spec_env_views(items.push(item).drop_first()));
    if items.len() == 0 {
        assert(items.push(item).drop_first() =~= Seq::<(String, String)>::empty());
        assert(items.push(item).first() == item);
        assert(spec_env_views(items.push(item).drop_first()) == Seq::<Seq<char>>::empty());
        assert(spec_env_views(items) == Seq::<Seq<char>>::empty());
        assert(spec_env_views(items.push(item)) =~= spec_env_views(items).push(item.0@).push(
            item.1@,
        ));
    } else {
        assert(items.push(item).drop_first() =~= items.drop_first().push(item));
        assert(items.push(item).first() == items.first());
        lemma_env_views_snoc(items.drop_first(), item);
        assert(spec_env_views(items) == seq![items.first().0@, items.first().1@]
            + spec_env_views(items.drop_first()));
        assert(spec_env_views(items.push(item)) =~= spec_env_views(items).push(item.0@).push(
            item.1@,
        ));
    }
}

/// Reads one string frame at `pos`; on success the consumed bytes are
/// exactly the returned string's frame.
/// Whether a well-formed string frame sits at `pos` of `b`: a length
/// field that fits the remainder, followed by that many valid UTF-8
/// bytes.
pub open spec fn spec_string_frame_at(b: Seq<u8>, pos: int) -> bool {
    &&& b.len() - pos >= 8
    &&& spec_u64_from_le_bytes(b.subrange(pos, pos + 8)) <= b.len() - pos - 8
    &&& valid_utf8(
        b.subrange(pos + 8, pos + 8 + spec_u64_from_le_bytes(b.subrange(pos, pos + 8)) as int),
    )
}

/// A string frame starts wherever an encoded string is a prefix of the
/// remainder.
proof fn lemma_frame_at_prefix(b: Seq<u8>, pos: int, s: Seq<char>, rest: Seq<u8>)
    requires
        0 <= pos <= b.len(),
        encode_utf8(s).len() <= u64::MAX,
        b.subrange(pos, b.len() as int) == spec_encode_string(s) + rest,
    ensures
        spec_string_frame_at(b, pos),
        spec_u64_from_le_bytes(b.subrange(pos, pos + 8)) == encode_utf8(s).len(),
{
    lemma_auto_spec_u64_to_from_le_bytes();
    broadcast use vstd::utf8::encode_utf8_valid_utf8;

    let nlu = encode_utf8(s).len() as u64;
    let nl = encode_utf8(s).len() as int;
    assert(spec_u64_to_le_bytes(nlu).len() == 8);
    let tail = b.subrange(pos, b.len() as int);
    assert(tail == spec_u64_to_le_bytes(nlu) + encode_utf8(s) + rest);
    assert(tail.len() == 8 + nl + rest.len());
    assert(b.len() - pos >= 8 + nl);
    assert(b.subrange(pos, pos + 8) =~= tail.subrange(0, 8));
    assert(tail.subrange(0, 8) =~= spec_u64_to_le_bytes(nlu));
    assert(spec_u64_from_le_bytes(b.subrange(pos, pos + 8)) == nlu);
    assert(b.subrange(pos + 8, pos + 8 + nl) =~= tail.subrange(8, 8 + nl));
    assert(tail.subrange(8, 8 + nl) =~= encode_utf8(s));
    assert(valid_utf8(b.subrange(pos + 8, pos + 8 + nl)));
}

fn parse_string(bytes: &Vec<u8>, pos: usize) -> (r: Option<(String, usize)>)
    requires
        pos <= bytes@.len(),
    ensures
        r is Some <==> spec_string_frame_at(bytes@, pos as int),
        r matches Some((s, end)) ==> pos < end <= bytes@.len() && bytes@.subrange(
            pos as int,
            end as int,
        ) == spec_encode_string(s@) && end == pos + 8 + spec_u64_from_le_bytes(
            bytes@.subrange(pos as int, pos + 8),
        ),
{
    proof {
        lemma_auto_spec_u64_to_from_le_bytes();
    }
    if bytes.len() - pos < 8 {
        return None;
    }
    let len64 = u64_from_le_bytes(slice_subrange(bytes.as_slice(), pos, pos + 8));
    if len64 > (bytes.len() - pos - 8) as u64 {
        return None;
    }
    let len = len64 as usize;
    let content = slice_to_vec(slice_subrange(bytes.as_slice(), pos + 8, pos + 8 + len));
    let ghost content_view = content@;
    match crate::codec::string_from_utf8(content) {
        Some(s) => {
            proof {
                broadcast use vstd::utf8::decode_utf8_encode_utf8;

                assert(encode_utf8(s@) == content_view);
                assert(bytes@.subrange(pos as int, (pos + 8 + len) as int) =~= spec_u64_to_le_bytes(
                    len64,
                ) + content_view);
            }
            Some((s, pos + 8 + len))
        },
        None => None,
    }
}

/// Decodes a worker record.  Decoding is sound: whatever it returns
/// encodes back to exactly the bytes given, so `Some` is only ever a
/// faithful reading of the frame.
/// The parse positions a frame of `m` dictates, as facts about its
/// bytes: every guard of the decoder passes and every field sits where
/// the decoder looks for it.
proof fn lemma_metadata_header_facts(b: Seq<u8>, m: WorkerMetadata)
    requires
        b == spec_encode_metadata(m),
        b.len() <= u64::MAX,
    ensures
        b.len() >= 41,
        spec_u64_from_le_bytes(b.subrange(16, 24)) < 0x1_0000_0000u64,
        spec_status_of_tag(b[24]) is Some,
        spec_string_frame_at(b, 41),
        spec_u64_from_le_bytes(b.subrange(41, 49)) == encode_utf8(
            m.worker_id.worker_id.worker_name@,
        ).len(),
        spec_string_frame_at(b, 41 + spec_encode_string(
            m.worker_id.worker_id.worker_name@,
        ).len() as int),
{
    lemma_auto_spec_u64_to_from_le_bytes();
    lemma_metadata_layout(m);
    let name = m.worker_id.worker_id.worker_name@;
    let acct = m.account_id.value@;
    let p_acct = 41 + spec_encode_string(name).len() as int;
    assert(spec_u64_to_le_bytes(encode_utf8(name).len() as u64).len() == 8);
    assert(spec_u64_to_le_bytes(encode_utf8(acct).len() as u64).len() == 8);
    assert(spec_i32_biased(m.worker_id.template_version) < 0x1_0000_0000u64);
    lemma_frame_at_prefix(b, 41, name, b.subrange(p_acct, b.len() as int));
    lemma_frame_at_prefix(
        b,
        p_acct,
        acct,
        b.subrange(p_acct + spec_encode_string(acct).len() as int, b.len() as int),
    );
}

#[verifier::rlimit(100)]
#[verifier::loop_isolation(false)]
pub fn decode_metadata(bytes: &Vec<u8>) -> (r: Option<WorkerMetadata>)
    ensures
        r matches Some(m) ==> bytes@ == spec_encode_metadata(m),
        (exists|m0: WorkerMetadata| bytes@ == spec_encode_metadata(m0)) ==> r is Some,
{
    proof {
        lemma_auto_spec_u64_to_from_le_bytes();
    }
    let n = bytes.len();
    proof {
        assert(bytes@.len() <= u64::MAX);
    }
    if bytes.len() < 41 {
        proof {
            assert forall|m0: WorkerMetadata|
                bytes@ != spec_encode_metadata(m0) by {
                if bytes@ == spec_encode_metadata(m0) {
                    lemma_metadata_header_facts(bytes@, m0);
                }
            }
        }
        return None;
    }
    let high_bits = u64_from_le_bytes(slice_subrange(bytes.as_slice(), 0, 8));
    let low_bits = u64_from_le_bytes(slice_subrange(bytes.as_slice(), 8, 16));
    let biased = u64_from_le_bytes(slice_subrange(bytes.as_slice(), 16, 24));
    if biased >= 0x1_0000_0000u64 {
        proof {
            assert forall|m0: WorkerMetadata|
                bytes@ != spec_encode_metadata(m0) by {
                if bytes@ == spec_encode_metadata(m0) {
                    lemma_metadata_header_facts(bytes@, m0);
                }
            }
        }
        return None;
    }
    let template_version = (biased as i64 - 0x8000_0000) as i32;
    let status = match status_of_tag(bytes[24]) {
        Some(s) => s,
        None => {
            proof {
                assert forall|m0: WorkerMetadata|
                    bytes@ != spec_encode_metadata(m0) by {
                    if bytes@ == spec_encode_metadata(m0) {
                        lemma_metadata_header_facts(bytes@, m0);
                    }
                }
            }
            return None;
        },
    };
    let retry_count = u64_from_le_bytes(slice_subrange(bytes.as_slice(), 25, 33));
    let oplog_tail = u64_from_le_bytes(slice_subrange(bytes.as_slice(), 33, 41));
    let (worker_name, pos) = match parse_string(bytes, 41) {
        Some(p) => p,
        None => {
            proof {
                assert forall|m0: WorkerMetadata|
                    bytes@ != spec_encode_metadata(m0) by {
                    if bytes@ == spec_encode_metadata(m0) {
                        lemma_metadata_header_facts(bytes@, m0);
                    }
                }
            }
            return None;
        },
    };
    proof {
        // under any frame hypothesis the cursor now sits at the account
        assert forall|m0: WorkerMetadata|
            bytes@ == spec_encode_metadata(m0) implies pos as int == 41 + spec_encode_string(
            m0.worker_id.worker_id.worker_name@,
        ).len() by {
            lemma_metadata_header_facts(bytes@, m0);
            assert(spec_u64_to_le_bytes(
                encode_utf8(m0.worker_id.worker_id.worker_name@).len() as u64,
            ).len() == 8);
        }
    }
    let (account, pos) = match parse_string(bytes, pos) {
        Some(p) => p,
        None => {
            proof {
                assert forall|m0: WorkerMetadata|
                    bytes@ != spec_encode_metadata(m0) by {
                    if bytes@ == spec_encode_metadata(m0) {
                        lemma_metadata_header_facts(bytes@, m0);
                    }
                }
            }
            return None;
        },
    };
    proof {
        // and, one frame later, at the argument count
        assert forall|m0: WorkerMetadata|
            bytes@ == spec_encode_metadata(m0) implies pos as int == 41 + spec_encode_string(
            m0.worker_id.worker_id.worker_name@,
        ).len() + spec_encode_string(m0.account_id.value@).len() by {
            lemma_metadata_header_facts(bytes@, m0);
            lemma_metadata_layout(m0);
            let name = m0.worker_id.worker_id.worker_name@;
            let acct = m0.account_id.value@;
            let p_acct = 41 + spec_encode_string(name).len() as int;
            lemma_frame_at_prefix(
                bytes@,
                p_acct,
                acct,
                bytes@.subrange(
                    p_acct + spec_encode_string(acct).len() as int,
                    bytes@.len() as int,
                ),
            );
            assert(spec_u64_to_le_bytes(encode_utf8(acct).len() as u64).len() == 8);
        }
    }
    if bytes.len() - pos < 8 {
        proof {
            assert forall|m0: WorkerMetadata|
                bytes@ != spec_encode_metadata(m0) by {
                if bytes@ == spec_encode_metadata(m0) {
                    lemma_metadata_layout(m0);
                }
            }
        }
        return None;
    }
    let argc64 = u64_from_le_bytes(slice_subrange(bytes.as_slice(), pos, pos + 8));
    proof {
        // the count field names the argument count, which the frame can hold
        assert forall|m0: WorkerMetadata|
            bytes@ == spec_encode_metadata(m0) implies argc64 == m0.args@.len() && argc64
            <= bytes@.len() by {
            lemma_metadata_layout(m0);
            let p_args_cnt = 41 + spec_encode_string(
                m0.worker_id.worker_id.worker_name@,
            ).len() as int + spec_encode_string(m0.account_id.value@).len() as int;
            assert(bytes@.subrange(pos as int, pos + 8) == spec_u64_to_le_bytes(
                m0.args@.len() as u64,
            ));
            lemma_string_items_min_len(spec_string_views(m0.args@));
            assert(spec_string_views(m0.args@).len() == m0.args@.len());
        }
    }
    if argc64 > bytes.len() as u64 {
        proof {
            assert forall|m0: WorkerMetadata|
                bytes@ != spec_encode_metadata(m0) by {
                if bytes@ == spec_encode_metadata(m0) {
                    lemma_metadata_layout(m0);
                }
            }
        }
        return None;
    }
    let argc = argc64 as usize;
    let ghost args_start = (pos + 8) as int;
    let mut pos = pos + 8;
    let mut args: Vec<String> = Vec::new();
    let mut i: usize = 0;
    while i < argc
        invariant
            i <= argc,
            args@.len() == i,
            pos <= bytes@.len(),
            args_start <= pos,
            bytes@.subrange(args_start, pos as int) == spec_encode_string_items(
                spec_string_views(args@),
            ),
            forall|m0: WorkerMetadata|
                #![trigger spec_encode_metadata(m0)]
                bytes@ == spec_encode_metadata(m0) ==> {
                    &&& i <= m0.args@.len()
                    &&& spec_string_views(args@) == spec_string_views(m0.args@).take(i as int)
                    &&& pos as int == args_start + spec_encode_string_items(
                        spec_string_views(m0.args@).take(i as int),
                    ).len()
                },
        decreases argc - i,
    {
        let ghost prev_views = spec_string_views(args@);
        let ghost prev_pos = pos as int;
        proof {
            // under any frame hypothesis the next argument frame starts here
            assert forall|m0: WorkerMetadata|
                bytes@ == spec_encode_metadata(m0) implies spec_string_frame_at(
                bytes@,
                pos as int,
            ) by {
                lemma_args_step(bytes@, m0, i as int, pos as int, args_start);
            }
        }
        match parse_string(bytes, pos) {
            Some((s, end)) => {
                proof {
                    lemma_string_items_push(prev_views, s@);
                }
                args.push(s);
                pos = end;
                proof {
                    assert(spec_string_views(args@) =~= prev_views.push(args@.last()@));
                    assert(args_start <= prev_pos <= (pos as int) <= bytes@.len());
                    assert(bytes@.subrange(args_start, pos as int) =~= bytes@.subrange(
                        args_start,
                        prev_pos,
                    ) + bytes@.subrange(prev_pos, pos as int));
                    assert forall|m0: WorkerMetadata|
                        bytes@ == spec_encode_metadata(m0) implies {
                        &&& i + 1 <= m0.args@.len()
                        &&& spec_string_views(args@) == spec_string_views(m0.args@).take(
                            i + 1,
                        )
                        &&& pos as int == args_start + spec_encode_string_items(
                            spec_string_views(m0.args@).take(i + 1),
                        ).len()
                    } by {
                        lemma_args_step(bytes@, m0, i as int, prev_pos, args_start);
                        let views = spec_string_views(m0.args@);
                        let item = views[i as int];
                        // the parsed frame is the item's frame, so the
                        // parsed string is the item
                        assert(spec_u64_to_le_bytes(encode_utf8(item).len() as u64).len()
                            == 8);
                        assert(end == prev_pos + 8 + encode_utf8(item).len());
                        assert(bytes@.subrange(prev_pos, end as int) == spec_encode_string(
                            item,
                        ));
                        lemma_string_frame_injective(args@.last()@, item);
                        assert(views.take(i + 1) =~= views.take(i as int).push(item));
                        lemma_string_items_push(views.take(i as int), item);
                    }
                }
            },
            None => {
                proof {
                    assert forall|m0: WorkerMetadata|
                        bytes@ != spec_encode_metadata(m0) by {
                        if bytes@ == spec_encode_metadata(m0) {
                            lemma_args_step(bytes@, m0, i as int, pos as int, args_start);
                        }
                    }
                }
                return None;
            },
        }
        i = i + 1;
    }
    proof {
        // past the arguments the cursor sits at the environment count
        assert forall|m0: WorkerMetadata|
            bytes@ == spec_encode_metadata(m0) implies pos as int == 49 + spec_encode_string(
            m0.worker_id.worker_id.worker_name@,
        ).len() + spec_encode_string(m0.account_id.value@).len() + spec_encode_string_items(
            spec_string_views(m0.args@),
        ).len() by {
            assert(spec_string_views(m0.args@).take(i as int) =~= spec_string_views(
                m0.args@,
            ));
        }
    }
    let (env, env_cnt_pos) = match parse_env_section(bytes, pos) {
        Some(p) => p,
        None => {
            return None;
        },
    };
    let m = WorkerMetadata {
        worker_id: VersionedWorkerId {
            worker_id: WorkerId { template_id: TemplateId { high_bits, low_bits }, worker_name },
            template_version,
        },
        args,
        env,
        account_id: AccountId { value: account },
        last_known_status: status,
        retry_count,
        oplog_tail,
    };
    proof {
        reveal(spec_encode_metadata);
        assert(template_version == (biased as i64 - 0x8000_0000) as i32);
        assert(template_version as i64 == biased as i64 - 0x8000_0000);
        assert(spec_i32_biased(m.worker_id.template_version) == biased);
        assert(bytes@ =~= spec_encode_metadata(m));
    }
    Some(m)
}

/// Reads the trailing environment section: its pair count, then that
/// many key and value frames, which must exhaust the bytes.  Under any
/// whole-record frame hypothesis that puts the section at `pos`, the
/// read succeeds.
#[verifier::rlimit(100)]
#[verifier::loop_isolation(false)]
fn parse_env_section(bytes: &Vec<u8>, pos: usize) -> (r: Option<(Vec<(String, String)>, usize)>)
    requires
        pos <= bytes@.len(),
        bytes@.len() <= u64::MAX,
        forall|m0: WorkerMetadata|
            #![trigger spec_encode_metadata(m0)]
            bytes@ == spec_encode_metadata(m0) ==> pos as int == 49 + spec_encode_string(
                m0.worker_id.worker_id.worker_name@,
            ).len() + spec_encode_string(m0.account_id.value@).len()
                + spec_encode_string_items(spec_string_views(m0.args@)).len(),
    ensures
        r matches Some((env, env_cnt_pos)) ==> {
            &&& env_cnt_pos == pos
            &&& pos + 8 <= bytes@.len()
            &&& bytes@.subrange(pos as int, pos + 8) == spec_u64_to_le_bytes(
                env@.len() as u64,
            )
            &&& bytes@.subrange(pos + 8, bytes@.len() as int) == spec_encode_string_items(
                spec_env_views(env@),
            )
        },
        (exists|m0: WorkerMetadata| bytes@ == spec_encode_metadata(m0)) ==> r is Some,
{
    proof {
        lemma_auto_spec_u64_to_from_le_bytes();
    }
    if bytes.len() - pos < 8 {
        proof {
            assert forall|m0: WorkerMetadata|
                bytes@ != spec_encode_metadata(m0) by {
                if bytes@ == spec_encode_metadata(m0) {
                    lemma_metadata_layout(m0);
                }
            }
        }
        return None;
    }
    let envc64 = u64_from_le_bytes(slice_subrange(bytes.as_slice(), pos, pos + 8));
    proof {
        assert forall|m0: WorkerMetadata|
            bytes@ == spec_encode_metadata(m0) implies envc64 == m0.env@.len() && envc64
            <= bytes@.len() by {
            lemma_metadata_layout(m0);
            assert(bytes@.subrange(pos as int, pos + 8) == spec_u64_to_le_bytes(
                m0.env@.len() as u64,
            ));
            lemma_env_views_len(m0.env@);
            lemma_string_items_min_len(spec_env_views(m0.env@));
        }
    }
    if envc64 > bytes.len() as u64 {
        proof {
            assert forall|m0: WorkerMetadata|
                bytes@ != spec_encode_metadata(m0) by {
                if bytes@ == spec_encode_metadata(m0) {
                    lemma_metadata_layout(m0);
                }
            }
        }
        return None;
    }
    let envc = envc64 as usize;
    let env_cnt_pos = pos;
    let ghost env_start = (pos + 8) as int;
    let mut pos = pos + 8;
    let mut env: Vec<(String, String)> = Vec::new();
    let mut i: usize = 0;
    while i < envc
        invariant
            i <= envc,
            env@.len() == i,
            pos <= bytes@.len(),
            env_start <= pos,
            bytes@.subrange(env_start, pos as int) == spec_encode_string_items(
                spec_env_views(env@),
            ),
            forall|m0: WorkerMetadata|
                #![trigger spec_encode_metadata(m0)]
                bytes@ == spec_encode_metadata(m0) ==> {
                    &&& i <= m0.env@.len()
                    &&& spec_env_views(env@) == spec_env_views(m0.env@.take(i as int))
                    &&& pos as int == env_start + spec_encode_string_items(
                        spec_env_views(m0.env@.take(i as int)),
                    ).len()
                },
        decreases envc - i,
    {
        let ghost prev_views = spec_env_views(env@);
        let ghost prev_pos = pos as int;
        proof {
            assert forall|m0: WorkerMetadata|
                bytes@ == spec_encode_metadata(m0) implies spec_string_frame_at(
                bytes@,
                pos as int,
            ) by {
                lemma_env_step(bytes@, m0, i as int, pos as int, env_start);
            }
        }
        let (k, mid) = match parse_string(bytes, pos) {
            Some(p) => p,
            None => {
                proof {
                    assert forall|m0: WorkerMetadata|
                        bytes@ != spec_encode_metadata(m0) by {
                        if bytes@ == spec_encode_metadata(m0) {
                            lemma_env_step(bytes@, m0, i as int, pos as int, env_start);
                        }
                    }
                }
                return None;
            },
        };
        proof {
            assert forall|m0: WorkerMetadata|
                bytes@ == spec_encode_metadata(m0) implies spec_string_frame_at(
                bytes@,
                mid as int,
            ) && k@ == m0.env@[i as int].0@ && mid as int == prev_pos + spec_encode_string(
                m0.env@[i as int].0@,
            ).len() by {
                lemma_env_step(bytes@, m0, i as int, prev_pos, env_start);
                let key = m0.env@[i as int].0@;
                let val = m0.env@[i as int].1@;
                let rest = spec_encode_string_items(spec_env_views(m0.env@.skip(i + 1)));
                assert(spec_u64_to_le_bytes(encode_utf8(key).len() as u64).len() == 8);
                assert(mid == prev_pos + 8 + encode_utf8(key).len());
                assert(bytes@.subrange(prev_pos, mid as int) == spec_encode_string(key));
                lemma_string_frame_injective(k@, key);
                lemma_suffix_shift(
                    bytes@,
                    prev_pos,
                    spec_encode_string(key),
                    spec_encode_string(val) + rest,
                );
                assert(bytes@.subrange(mid as int, bytes@.len() as int)
                    == spec_encode_string(val) + rest);
                lemma_frame_at_prefix(bytes@, mid as int, val, rest);
            }
        }
        let (v, end) = match parse_string(bytes, mid) {
            Some(p) => p,
            None => {
                proof {
                    assert forall|m0: WorkerMetadata|
                        bytes@ != spec_encode_metadata(m0) by {
                        if bytes@ == spec_encode_metadata(m0) {
                            lemma_env_step(bytes@, m0, i as int, prev_pos, env_start);
                        }
                    }
                }
                return None;
            },
        };
        proof {
            lemma_string_items_push(prev_views, k@);
            lemma_string_items_push(prev_views.push(k@), v@);
            lemma_env_views_snoc(env@, (k, v));
        }
        env.push((k, v));
        pos = end;
        proof {
            assert(spec_env_views(env@) =~= prev_views.push(env@.last().0@).push(
                env@.last().1@,
            ));
            assert(env_start <= prev_pos < (mid as int) < (pos as int) <= bytes@.len());
            assert(bytes@.subrange(env_start, pos as int) =~= bytes@.subrange(
                env_start,
                prev_pos,
            ) + (bytes@.subrange(prev_pos, mid as int) + bytes@.subrange(
                mid as int,
                pos as int,
            )));
            assert forall|m0: WorkerMetadata|
                bytes@ == spec_encode_metadata(m0) implies {
                &&& i + 1 <= m0.env@.len()
                &&& spec_env_views(env@) == spec_env_views(m0.env@.take(i + 1))
                &&& pos as int == env_start + spec_encode_string_items(
                    spec_env_views(m0.env@.take(i + 1)),
                ).len()
            } by {
                lemma_env_step(bytes@, m0, i as int, prev_pos, env_start);
                let key = m0.env@[i as int].0@;
                let val = m0.env@[i as int].1@;
                let rest = spec_encode_string_items(spec_env_views(m0.env@.skip(i + 1)));
                assert(spec_u64_to_le_bytes(encode_utf8(key).len() as u64).len() == 8);
                assert(spec_u64_to_le_bytes(encode_utf8(val).len() as u64).len() == 8);
                assert(mid == prev_pos + 8 + encode_utf8(key).len());
                lemma_suffix_shift(
                    bytes@,
                    prev_pos,
                    spec_encode_string(key),
                    spec_encode_string(val) + rest,
                );
                lemma_frame_at_prefix(bytes@, mid as int, val, rest);
                assert(end == mid + 8 + encode_utf8(val).len());
                lemma_suffix_shift(bytes@, mid as int, spec_encode_string(val), rest);
                assert(bytes@.subrange(mid as int, end as int) == spec_encode_string(val));
                lemma_string_frame_injective(env@.last().1@, val);
                assert(m0.env@.take(i + 1) =~= m0.env@.take(i as int).push(
                    m0.env@[i as int],
                ));
                lemma_env_views_snoc(m0.env@.take(i as int), m0.env@[i as int]);
                lemma_string_items_push(spec_env_views(m0.env@.take(i as int)), key);
                lemma_string_items_push(
                    spec_env_views(m0.env@.take(i as int)).push(key),
                    val,
                );
            }
        }
        i = i + 1;
    }
    if pos != bytes.len() {
        proof {
            assert forall|m0: WorkerMetadata|
                bytes@ != spec_encode_metadata(m0) by {
                if bytes@ == spec_encode_metadata(m0) {
                    lemma_metadata_layout(m0);
                    assert(m0.env@.take(i as int) =~= m0.env@);
                    assert(pos as int == env_start + spec_encode_string_items(
                        spec_env_views(m0.env@),
                    ).len());
                    assert(pos as int == bytes@.len());
                }
            }
        }
        return None;
    }
    Some((env, env_cnt_pos))
}

/// The argument list under a frame hypothesis: after `i` parsed items
/// ending at `pos`, the item at `i` (when one remains) has its frame
/// right there.
proof fn lemma_args_step(b: Seq<u8>, m: WorkerMetadata, i: int, pos: int, args_start: int)
    requires
        b == spec_encode_metadata(m),
        b.len() <= u64::MAX,
        0 <= i <= m.args@.len(),
        pos == args_start + spec_encode_string_items(
            spec_string_views(m.args@).take(i),
        ).len(),
        args_start == 49 + spec_encode_string(m.worker_id.worker_id.worker_name@).len()
            + spec_encode_string(m.account_id.value@).len(),
    ensures
        i < m.args@.len() ==> {
            &&& spec_string_frame_at(b, pos)
            &&& b.subrange(pos, pos + spec_encode_string(
                spec_string_views(m.args@)[i],
            ).len() as int) == spec_encode_string(spec_string_views(m.args@)[i])
            &&& spec_u64_from_le_bytes(b.subrange(pos, pos + 8)) == encode_utf8(
                spec_string_views(m.args@)[i],
            ).len()
        },
{
    lemma_auto_spec_u64_to_from_le_bytes();
    lemma_metadata_layout(m);
    let views = spec_string_views(m.args@);
    if i < m.args@.len() {
        assert(views.take(i) + views.skip(i) =~= views);
        lemma_string_items_concat(views.take(i), views.skip(i));
        lemma_string_items_skip(views, i);
        let item = views[i];
        let enc_take = spec_encode_string_items(views.take(i));
        let enc_skip = spec_encode_string_items(views.skip(i));
        let tail = b.subrange(args_start + spec_encode_string_items(views).len(), b.len() as int);
        // the list frame sits at args_start, followed by the environment
        assert(b.subrange(args_start, b.len() as int) == spec_encode_string_items(views)
            + tail);
        assert(b.subrange(args_start, b.len() as int) =~= enc_take + (enc_skip + tail));
        lemma_suffix_shift(b, args_start, enc_take, enc_skip + tail);
        assert(b.subrange(pos, b.len() as int) == enc_skip + tail);
        assert(enc_skip + tail =~= spec_encode_string(item) + (spec_encode_string_items(
            views.skip(i + 1),
        ) + tail));
        lemma_frame_at_prefix(
            b,
            pos,
            item,
            spec_encode_string_items(views.skip(i + 1)) + tail,
        );
        lemma_suffix_shift(
            b,
            pos,
            spec_encode_string(item),
            spec_encode_string_items(views.skip(i + 1)) + tail,
        );
        assert(spec_u64_to_le_bytes(encode_utf8(item).len() as u64).len() == 8);
    }
}

/// The environment under a frame hypothesis: after `i` parsed pairs
/// ending at `pos`, the pair at `i` (when one remains) has its key frame
/// right there, followed by its value frame.
proof fn lemma_env_step(b: Seq<u8>, m: WorkerMetadata, i: int, pos: int, env_start: int)
    requires
        b == spec_encode_metadata(m),
        b.len() <= u64::MAX,
        0 <= i <= m.env@.len(),
        pos == env_start + spec_encode_string_items(spec_env_views(m.env@.take(i))).len(),
        env_start == 57 + spec_encode_string(m.worker_id.worker_id.worker_name@).len()
            + spec_encode_string(m.account_id.value@).len() + spec_encode_string_items(
            spec_string_views(m.args@),
        ).len(),
    ensures
        i < m.env@.len() ==> {
            &&& spec_string_frame_at(b, pos)
            &&& b.subrange(pos, b.len() as int) == spec_encode_string(m.env@[i].0@) + (
            spec_encode_string(m.env@[i].1@) + spec_encode_string_items(
                spec_env_views(m.env@.skip(i + 1)),
            ))
            &&& b.subrange(pos, pos + spec_encode_string(m.env@[i].0@).len() as int)
                == spec_encode_string(m.env@[i].0@)
            &&& spec_u64_from_le_bytes(b.subrange(pos, pos + 8)) == encode_utf8(
                m.env@[i].0@,
            ).len()
            &&& b.subrange(
                pos + spec_encode_string(m.env@[i].0@).len() as int,
                pos + spec_encode_string(m.env@[i].0@).len() as int + spec_encode_string(
                    m.env@[i].1@,
                ).len() as int,
            ) == spec_encode_string(m.env@[i].1@)
        },
{
    lemma_auto_spec_u64_to_from_le_bytes();
    lemma_metadata_layout(m);
    if i < m.env@.len() {
        assert(m.env@.take(i) + m.env@.skip(i) =~= m.env@);
        lemma_env_views_concat(m.env@.take(i), m.env@.skip(i));
        lemma_string_items_concat(
            spec_env_views(m.env@.take(i)),
            spec_env_views(m.env@.skip(i)),
        );
        lemma_env_items_skip(m.env@, i);
        let key = m.env@[i].0@;
        let val = m.env@[i].1@;
        let enc_take = spec_encode_string_items(spec_env_views(m.env@.take(i)));
        let enc_skip = spec_encode_string_items(spec_env_views(m.env@.skip(i)));
        let enc_rest = spec_encode_string_items(spec_env_views(m.env@.skip(i + 1)));
        // the flattened environment is the last segment of the frame
        assert(b.subrange(env_start, b.len() as int) == spec_encode_string_items(
            spec_env_views(m.env@),
        ));
        assert(b.subrange(env_start, b.len() as int) =~= enc_take + enc_skip);
        lemma_suffix_shift(b, env_start, enc_take, enc_skip);
        assert(b.subrange(pos, b.len() as int) == enc_skip);
        assert(enc_skip =~= spec_encode_string(key) + (spec_encode_string(val) + enc_rest));
        lemma_frame_at_prefix(b, pos, key, spec_encode_string(val) + enc_rest);
        assert(b.subrange(pos, b.len() as int) == spec_encode_string(key) + (
        spec_encode_string(val) + enc_rest));
        lemma_suffix_shift(b, pos, spec_encode_string(key), spec_encode_string(val)
            + enc_rest);
        lemma_suffix_shift(
            b,
            pos + spec_encode_string(key).len() as int,
            spec_encode_string(val),
            enc_rest,
        );
        assert(spec_u64_to_le_bytes(encode_utf8(key).len() as u64).len() == 8);
        assert(spec_u64_to_le_bytes(encode_utf8(val).len() as u64).len() == 8);
    }
}

} // verus!
