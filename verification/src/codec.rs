//! The fixed record layout and its encoder/decoder pair.
//!
//! A record is encoded as a 1-byte flag (0 or 1), then the name as a 4-byte
//! little-endian byte length followed by the UTF-8 bytes, then the message in
//! the same length-prefixed form.  Decoding reads only that prefix; trailing
//! storage bytes are padding.  Decoding checks structure (flag value, length
//! bounds, UTF-8 validity) and reports failure instead of assuming well-formed
//! storage.

use vstd::bytes::lemma_auto_spec_u32_to_from_le_bytes;
use vstd::bytes::spec_u32_from_le_bytes;
use vstd::bytes::spec_u32_to_le_bytes;
use vstd::bytes::u32_from_le_bytes;
use vstd::bytes::u32_to_le_bytes;
use vstd::prelude::*;
use vstd::slice::slice_subrange;
use vstd::slice::slice_to_vec;
use vstd::utf8::decode_utf8;
use vstd::utf8::encode_utf8;
use vstd::utf8::encode_utf8_decode_utf8;
use vstd::utf8::encode_utf8_valid_utf8;
use vstd::utf8::valid_utf8;

use crate::state::RecordView;
use crate::state::StudentIntroAccountState;

verus! {

/// The byte the flag is stored as.
pub open spec fn spec_flag_byte(b: bool) -> u8 {
    if b {
        1u8
    } else {
        0u8
    }
}

/// Encoding of one text: 4-byte little-endian byte length, then the UTF-8
/// bytes.
pub open spec fn spec_encode_str(s: Seq<char>) -> Seq<u8> {
    spec_u32_to_le_bytes(encode_utf8(s).len() as u32) + encode_utf8(s)
}

/// The full encoding of a record.
pub open spec fn spec_encode_record(r: RecordView) -> Seq<u8> {
    seq![spec_flag_byte(r.is_initialized)] + spec_encode_str(r.name) + spec_encode_str(r.msg)
}

/// Reading one length-prefixed text at offset `i`: the decoded characters and
/// the offset just past them, or `None` when the prefix is truncated, the
/// length exceeds the remaining bytes, or the bytes are not valid UTF-8.
pub open spec fn spec_read_string(bytes: Seq<u8>, i: int) -> Option<(Seq<char>, int)> {
    if i + 4 > bytes.len() {
        None
    } else {
        let n = spec_u32_from_le_bytes(bytes.subrange(i, i + 4)) as int;
        if bytes.len() - (i + 4) < n {
            None
        } else {
            let content = bytes.subrange(i + 4, i + 4 + n);
            if valid_utf8(content) {
                Some((decode_utf8(content), i + 4 + n))
            } else {
                None
            }
        }
    }
}

/// Decoding the record prefix of a byte string: the record and the offset
/// just past its encoding.
pub open spec fn spec_decode_record_prefix(bytes: Seq<u8>) -> Option<(RecordView, int)> {
    if bytes.len() < 1 {
        None
    } else {
        let flag = bytes[0];
        if flag != 0u8 && flag != 1u8 {
            None
        } else {
            match spec_read_string(bytes, 1) {
                None => None,
                Some((name, j)) => match spec_read_string(bytes, j) {
                    None => None,
                    Some((msg, k)) => Some(
                        (RecordView { is_initialized: flag == 1u8, name, msg }, k),
                    ),
                },
            }
        }
    }
}

/// The record stored in a byte string, ignoring trailing padding.
pub open spec fn spec_decode_record(bytes: Seq<u8>) -> Option<RecordView> {
    match spec_decode_record_prefix(bytes) {
        Some((r, _)) => Some(r),
        None => None,
    }
}

/// Relies on `String::from_utf8`: it returns `Ok` exactly when the bytes are
/// a valid UTF-8 encoding, and then yields the characters they encode.
#[verifier::external_body]
fn bytes_to_string(v: Vec<u8>) -> (r: Option<String>)
    ensures
        match r {
            Some(s) => valid_utf8(v@) && s@ == decode_utf8(v@),
            None => !valid_utf8(v@),
        },
{
    String::from_utf8(v).ok()
}

/// Reads one length-prefixed text at offset `start`.
pub fn read_string(data: &[u8], start: usize) -> (r: Option<(String, usize)>)
    ensures
        match r {
            Some((s, end)) => spec_read_string(data@, start as int) == Some((s@, end as int)),
            None => spec_read_string(data@, start as int) is None,
        },
{
    if data.len() < 4 || start > data.len() - 4 {
        return None;
    }
    let len_bytes = slice_subrange(data, start, start + 4);
    let n: usize = u32_from_le_bytes(len_bytes) as usize;
    if n > data.len() - (start + 4) {
        return None;
    }
    let content = slice_subrange(data, start + 4, start + 4 + n);
    match bytes_to_string(slice_to_vec(content)) {
        Some(s) => Some((s, start + 4 + n)),
        None => None,
    }
}

/// Encodes a record.  The caller keeps each text below the 4-byte length
/// prefix's range and the whole encoding within the machine's vector limit.
pub fn serialize_record(record: &StudentIntroAccountState) -> (out: Vec<u8>)
    requires
        encode_utf8(record.name@).len() < 0x1_0000_0000,
        encode_utf8(record.msg@).len() < 0x1_0000_0000,
        spec_encode_record(record@).len() <= usize::MAX,
    ensures
        out@ == spec_encode_record(record@),
{
    let mut out: Vec<u8> = Vec::new();
    if record.is_initialized {
        out.push(1u8);
    } else {
        out.push(0u8);
    }
    let name_bytes = record.name.as_str().as_bytes();
    let mut name_len = u32_to_le_bytes(name_bytes.len() as u32);
    out.append(&mut name_len);
    let mut name_vec = slice_to_vec(name_bytes);
    out.append(&mut name_vec);
    let msg_bytes = record.msg.as_str().as_bytes();
    let mut msg_len = u32_to_le_bytes(msg_bytes.len() as u32);
    out.append(&mut msg_len);
    let mut msg_vec = slice_to_vec(msg_bytes);
    out.append(&mut msg_vec);
    proof {
        assert(out@ =~= spec_encode_record(record@));
    }
    out
}

/// Writes a record's encoding over the front of `data`, leaving the trailing
/// padding unchanged, as the persisted layout asks.
pub fn write_record(data: &mut Vec<u8>, record: &StudentIntroAccountState)
    requires
        encode_utf8(record.name@).len() < 0x1_0000_0000,
        encode_utf8(record.msg@).len() < 0x1_0000_0000,
        spec_encode_record(record@).len() <= old(data)@.len(),
    ensures
        final(data)@ == spec_encode_record(record@) + old(data)@.skip(
            spec_encode_record(record@).len() as int,
        ),
        final(data)@.len() == old(data)@.len(),
{
    let data_len: usize = data.len();
    proof {
        assert(spec_encode_record(record@).len() <= data_len);
    }
    let mut out = serialize_record(record);
    let n: usize = out.len();
    let mut j: usize = n;
    while j < data.len()
        invariant
            n <= j <= data@.len(),
            n == spec_encode_record(record@).len(),
            out@ == spec_encode_record(record@) + data@.subrange(n as int, j as int),
        decreases data@.len() - j,
    {
        out.push(data[j]);
        j = j + 1;
        proof {
            assert(out@ =~= spec_encode_record(record@) + data@.subrange(n as int, j as int));
        }
    }
    proof {
        assert(data@.subrange(n as int, data@.len() as int) =~= data@.skip(n as int));
    }
    *data = out;
}

/// Decodes the record stored in `data`, ignoring trailing padding.
pub fn deserialize_record(data: &[u8]) -> (r: Option<StudentIntroAccountState>)
    ensures
        match r {
            Some(rec) => spec_decode_record(data@) == Some(rec@),
            None => spec_decode_record(data@) is None,
        },
{
    if data.len() < 1 {
        return None;
    }
    let flag: u8 = data[0];
    if flag != 0 && flag != 1 {
        return None;
    }
    let (name, j) = match read_string(data, 1) {
        Some(p) => p,
        None => {
            return None;
        },
    };
    let (msg, _k) = match read_string(data, j) {
        Some(p) => p,
        None => {
            return None;
        },
    };
    Some(StudentIntroAccountState { is_initialized: flag == 1, name, msg })
}

/// An encoded record spans the flag byte, two 4-byte length prefixes and the
/// two texts' UTF-8 bytes.
pub proof fn lemma_encoded_len(r: RecordView)
    ensures
        spec_encode_record(r).len() == 1 + 4 + encode_utf8(r.name).len() + 4 + encode_utf8(
            r.msg,
        ).len(),
{
    lemma_auto_spec_u32_to_from_le_bytes();
}

/// Reading at `i` of a byte string that holds one text's encoding there gives
/// back exactly that text.
proof fn lemma_read_string_of_encoding(bytes: Seq<u8>, i: int, s: Seq<char>)
    requires
        0 <= i,
        encode_utf8(s).len() < 0x1_0000_0000,
        i + 4 + encode_utf8(s).len() <= bytes.len(),
        bytes.subrange(i, i + 4) == spec_u32_to_le_bytes(encode_utf8(s).len() as u32),
        bytes.subrange(i + 4, i + 4 + encode_utf8(s).len()) == encode_utf8(s),
    ensures
        spec_read_string(bytes, i) == Some((s, i + 4 + encode_utf8(s).len())),
{
    broadcast use encode_utf8_valid_utf8, encode_utf8_decode_utf8;

    lemma_auto_spec_u32_to_from_le_bytes();
    let n32 = encode_utf8(s).len() as u32;
    assert(spec_u32_to_le_bytes(n32).len() == 4);
    assert(spec_u32_from_le_bytes(bytes.subrange(i, i + 4)) as int == encode_utf8(s).len());
}

/// A record's encoding, followed by any padding, decodes back to the record.
pub proof fn lemma_decode_of_encoding(r: RecordView, pad: Seq<u8>)
    requires
        encode_utf8(r.name).len() < 0x1_0000_0000,
        encode_utf8(r.msg).len() < 0x1_0000_0000,
    ensures
        spec_decode_record(spec_encode_record(r) + pad) == Some(r),
{
    let nb = encode_utf8(r.name);
    let mb = encode_utf8(r.msg);
    let bytes = spec_encode_record(r) + pad;
    lemma_auto_spec_u32_to_from_le_bytes();
    assert(bytes[0] == spec_flag_byte(r.is_initialized));
    assert(bytes.subrange(1, 5) =~= spec_u32_to_le_bytes(nb.len() as u32));
    assert(bytes.subrange(5, 5 + nb.len() as int) =~= nb);
    lemma_read_string_of_encoding(bytes, 1, r.name);
    let j = 5 + nb.len() as int;
    assert(bytes.subrange(j, j + 4) =~= spec_u32_to_le_bytes(mb.len() as u32));
    assert(bytes.subrange(j + 4, j + 4 + mb.len() as int) =~= mb);
    lemma_read_string_of_encoding(bytes, j, r.msg);
    assert((spec_flag_byte(r.is_initialized) == 1u8) == r.is_initialized);
}

/// Round trip: decoding an encoded record gives the record back, for any
/// record whose texts together stay within the fixed capacity.
pub proof fn lemma_serialize_deserialize_round_trip(r: RecordView)
    requires
        encode_utf8(r.name).len() + encode_utf8(r.msg).len() <= 991,
    ensures
        spec_decode_record(spec_encode_record(r)) == Some(r),
{
    lemma_decode_of_encoding(r, Seq::<u8>::empty());
    assert(spec_encode_record(r) + Seq::<u8>::empty() =~= spec_encode_record(r));
}

} // verus!
