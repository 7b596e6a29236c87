//! Sending files over UDP in numbered chunks, with the receiver keeping track of
//! which chunks arrived and asking for the rest.
//!
//! The library holds the wire format, the progress tracking and the decisions of
//! both peers; the sockets, timers and files are driven from outside.

pub mod behaviour;
pub mod bits;
pub mod bytes;
pub mod exchange;
pub mod reciever;
pub mod sender;
pub mod tracker;
pub mod wire;

pub use bytes::{u8s_to_u64, ProtocolError};
pub use reciever::ProgressTracking;

use vstd::prelude::*;
use crate::bytes::{push_all, push_be_bytes};
use crate::wire::data_msg;

verus! {

/// The data message that carries `file_buf` as message number `msg_num`: the
/// eight big-endian bytes of the number, then the data.
pub fn get_buf(msg_num: &u64, file_buf: &[u8]) -> (full: Vec<u8>)
    ensures
        full@ == data_msg(*msg_num, file_buf@),
{
    let mut full: Vec<u8> = Vec::new();
    push_be_bytes(&mut full, *msg_num);
    push_all(&mut full, file_buf);
    assert(full@ =~= data_msg(*msg_num, file_buf@));
    full
}

} // verus!
