//! The messages that sender and receiver exchange.
//!
//! A data message is the big-endian number of the message followed by up to
//! 500 bytes of the file. Every other message starts with a one-byte code.

use vstd::prelude::*;
use crate::bytes::{be_bytes, be_value, lemma_be_roundtrip};

verus! {

/// The sender says it has sent every message once (or again).
pub const DONE_SENDING: u8 = 5;

/// The receiver lists the messages it misses.
pub const MISSED_MESSAGES: u8 = 6;

/// The receiver says the whole file has arrived.
pub const FILE_RECEIVED: u8 = 7;

/// The sender gives the size of the file.
pub const FILE_SIZE: u8 = 8;

/// The receiver asks for the size of the file.
pub const SEND_FILE_SIZE: u8 = 9;

/// A message that only opens the way through network address translation.
pub const HOLE_PUNCH: u8 = 255;

/// The largest message: an eight-byte number and 500 bytes of the file.
pub const MSG_LEN: usize = 508;

/// The data message that carries `data` as message number `msg_num`.
pub open spec fn data_msg(msg_num: u64, data: Seq<u8>) -> Seq<u8> {
    be_bytes(msg_num) + data
}

/// The message that gives the size of the file.
pub open spec fn size_msg(file_len: u64) -> Seq<u8> {
    seq![FILE_SIZE] + be_bytes(file_len)
}

/// The numbers `ds`, eight big-endian bytes each, one after the other.
pub open spec fn encode_u64s(ds: Seq<u64>) -> Seq<u8> {
    Seq::new(8 * ds.len(), |j: int| be_bytes(ds[j / 8])[j % 8])
}

/// The numbers held by `bs`, eight big-endian bytes each; a tail shorter than
/// eight bytes is left out.
pub open spec fn decode_u64s(bs: Seq<u8>) -> Seq<u64> {
    Seq::new(bs.len() / 8, |i: int| be_value(bs.subrange(8 * i, 8 * i + 8)))
}

/// The message that lists the missed message numbers `ds`.
pub open spec fn missed_msg(ds: Seq<u64>) -> Seq<u8> {
    seq![MISSED_MESSAGES] + encode_u64s(ds)
}

/// Appending one number to a list appends its eight bytes to the encoding.
pub proof fn lemma_encode_push(ds: Seq<u64>, x: u64)
    ensures
        encode_u64s(ds.push(x)) == encode_u64s(ds) + be_bytes(x),
{
    let l = encode_u64s(ds.push(x));
    let r = encode_u64s(ds) + be_bytes(x);
    assert forall|j: int| 0 <= j < l.len() implies #[trigger] l[j] == r[j] by {
        if j < 8 * ds.len() {
            assert(j / 8 < ds.len());
        } else {
            assert(j / 8 == ds.len());
            assert(j % 8 == j - 8 * ds.len());
        }
    }
    assert(l =~= r);
}

/// Decoding the encoding of a list of numbers gives the list back.
pub proof fn lemma_decode_encode(ds: Seq<u64>)
    ensures
        decode_u64s(encode_u64s(ds)) == ds,
{
    let e = encode_u64s(ds);
    let d = decode_u64s(e);
    assert((8 * ds.len()) / 8 == ds.len());
    assert forall|i: int| 0 <= i < ds.len() implies #[trigger] d[i] == ds[i] by {
        let sub = e.subrange(8 * i, 8 * i + 8);
        assert forall|k: int| 0 <= k < 8 implies #[trigger] sub[k] == be_bytes(ds[i])[k] by {
            assert((8 * i + k) / 8 == i);
            assert((8 * i + k) % 8 == k);
        }
        assert(sub =~= be_bytes(ds[i]));
        lemma_be_roundtrip(ds[i], seq![]);
    }
    assert(d =~= ds);
}

/// The receiver reads back from a data message the number and the data that
/// the sender put in.
pub proof fn lemma_data_msg_roundtrip(msg_num: u64, data: Seq<u8>)
    ensures
        data_msg(msg_num, data).len() == 8 + data.len(),
        be_value(data_msg(msg_num, data).subrange(0, 8)) == msg_num,
        data_msg(msg_num, data).subrange(8, data_msg(msg_num, data).len() as int) == data,
{
    let m = data_msg(msg_num, data);
    assert(m.subrange(0, 8) =~= be_bytes(msg_num));
    assert(m.subrange(8, m.len() as int) =~= data);
    lemma_be_roundtrip(msg_num, seq![]);
}

/// The receiver reads back from a size message the size that the sender put in.
pub proof fn lemma_size_msg_roundtrip(file_len: u64)
    ensures
        size_msg(file_len).len() == 9,
        size_msg(file_len)[0] == FILE_SIZE,
        be_value(size_msg(file_len).subrange(1, 9)) == file_len,
{
    assert(size_msg(file_len).subrange(1, 9) =~= be_bytes(file_len));
    lemma_be_roundtrip(file_len, seq![]);
}

/// The sender reads back from a report of missed messages the numbers that the
/// receiver put in.
pub proof fn lemma_missed_msg_roundtrip(ds: Seq<u64>)
    ensures
        missed_msg(ds)[0] == MISSED_MESSAGES,
        missed_msg(ds).len() == 1 + 8 * ds.len(),
        decode_u64s(missed_msg(ds).subrange(1, missed_msg(ds).len() as int)) == ds,
{
    let m = missed_msg(ds);
    assert(m.subrange(1, m.len() as int) =~= encode_u64s(ds));
    lemma_decode_encode(ds);
}

} // verus!
