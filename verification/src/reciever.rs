//! The receiving side: reading what the sender sends, tracking progress and
//! asking for what is missing.

use vstd::prelude::*;
pub use crate::bits::{from_binary, to_binary};
pub use crate::tracker::{get_msg_amt, get_num_of_pos, get_offset, get_pos_of_num, MemProgTracker};
use crate::bytes::{be_value, be_value_at, push_all, push_be_bytes, ProtocolError};
use crate::tracker::MAX_DROPPED;
use crate::bytes::clone_bytes;
use crate::wire::{
    encode_u64s, lemma_encode_push, missed_msg, DONE_SENDING, FILE_RECEIVED, FILE_SIZE, HOLE_PUNCH,
    MISSED_MESSAGES, SEND_FILE_SIZE,
};

verus! {

/// Where the receiver keeps track of the messages that have arrived.
#[derive(Debug, Clone, PartialEq, Eq)]
pub enum ProgressTracking {
    /// In a file of that name, removed when the transfer ends.
    File(String),
    /// In memory.
    Memory,
}

/// The report of missed messages that lists `dropped`; refused when one report
/// cannot carry that many.
pub fn gen_dropped_msg(dropped: Vec<u64>) -> (r: Result<Vec<u8>, ProtocolError>)
    ensures
        dropped@.len() > MAX_DROPPED <==> r is Err,
        r matches Ok(msg) ==> msg@ == missed_msg(dropped@),
        r matches Err(e) ==> e == ProtocolError::TooManyDropped,
{
    if dropped.len() > MAX_DROPPED {
        return Err(ProtocolError::TooManyDropped);
    }
    let mut msg: Vec<u8> = Vec::new();
    msg.push(MISSED_MESSAGES);
    let mut i: usize = 0;
    assert(encode_u64s(dropped@.take(0)) =~= Seq::<u8>::empty());
    while i < dropped.len()
        invariant
            i <= dropped@.len(),
            msg@ == seq![MISSED_MESSAGES] + encode_u64s(dropped@.take(i as int)),
        decreases dropped.len() - i,
    {
        let drop = dropped[i];
        push_be_bytes(&mut msg, drop);
        proof {
            lemma_encode_push(dropped@.take(i as int), drop);
            assert(dropped@.take(i as int).push(drop) =~= dropped@.take(i + 1));
        }
        i += 1;
    }
    assert(dropped@.take(i as int) =~= dropped@);
    Ok(msg)
}

/// The number and the data of a data message.
pub fn read_data_msg(buf: &[u8]) -> (r: (u64, Vec<u8>))
    requires
        buf@.len() >= 8,
    ensures
        r.0 == be_value(buf@.subrange(0, 8)),
        r.1@ == buf@.subrange(8, buf@.len() as int),
{
    let msg_num = be_value_at(buf, 0);
    let mut rest: Vec<u8> = Vec::new();
    push_all(&mut rest, &buf[8..buf.len()]);
    (msg_num, rest)
}

/// The size of the file, when `buf` is a size message.
pub fn parse_size_reply(buf: &[u8]) -> (r: Option<u64>)
    ensures
        (buf@.len() == 9 && buf@[0] == FILE_SIZE) <==> r is Some,
        r matches Some(size) ==> size == be_value(buf@.subrange(1, 9)),
{
    if buf.len() == 9 && buf[0] == FILE_SIZE {
        Some(be_value_at(buf, 1))
    } else {
        None
    }
}

} // verus!

verus! {

/// How often the receiver asks for the size of the file, in milliseconds.
pub const SIZE_REQUEST_INTERVAL_MS: u64 = 50;

/// How often the receiver repeats its report of missed messages, in milliseconds.
pub const MISSED_REQUEST_INTERVAL_MS: u64 = 10;

/// How long the receiver waits for the next data message before it checks what
/// is missing, in milliseconds.
pub const DATA_TIMEOUT_MS: u64 = 2000;

/// How long the receiver keeps answering once the whole file is in, in
/// milliseconds of silence.
pub const CONFIRM_SILENCE_MS: u64 = 1500;

/// Where the receiver stands in a transfer.
#[derive(Debug, Clone, PartialEq, Eq)]
pub enum RecvState {
    /// Asking the sender for the size of the file.
    AwaitingSize,
    /// Taking data messages; `first` until the first data message of the
    /// transfer has arrived.
    Receiving { first: bool },
    /// Waiting for the tracker to say which messages are missing.
    Checking,
    /// Sending the report `msg` of missed messages until the sender answers.
    Requesting { msg: Vec<u8> },
    /// The whole file is in; telling the sender so until it falls silent.
    Confirming,
    /// The transfer is over.
    Done,
}

/// What happened since the receiver's last action.
#[derive(Debug, Clone, PartialEq, Eq)]
pub enum RecvEvent {
    /// A datagram from the sender arrived.
    Datagram(Vec<u8>),
    /// The wait ran out.
    Timeout,
    /// The last action is done.
    Ready,
    /// The tracker's list of missing messages.
    Unreceived(Vec<u64>),
}

/// What the receiver does next.
#[derive(Debug, Clone, PartialEq, Eq)]
pub enum RecvAction {
    /// Send `msg` to the sender every `interval_ms` until a datagram from it arrives.
    SendUntilReply { msg: Vec<u8>, interval_ms: u64 },
    /// Set up progress tracking and writing for a file of `size` bytes.
    StartTracking { size: u64 },
    /// Wait up to `timeout_ms` for a datagram from the sender.
    Wait { timeout_ms: u64 },
    /// Write `data` as message `msg_num` and record that it arrived.
    Store { msg_num: u64, data: Vec<u8> },
    /// Ask the tracker which messages are missing.
    QueryTracker,
    /// Send `msg` to the sender once.
    Send { msg: Vec<u8> },
    /// End the transfer.
    Finish,
    /// End the transfer with an error.
    Fail(ProtocolError),
}

/// `RecvState` with its bytes as sequences.
pub enum RecvStateModel {
    AwaitingSize,
    Receiving { first: bool },
    Checking,
    Requesting { msg: Seq<u8> },
    Confirming,
    Done,
}

/// `RecvEvent` with its bytes and numbers as sequences.
pub enum RecvEventModel {
    Datagram(Seq<u8>),
    Timeout,
    Ready,
    Unreceived(Seq<u64>),
}

/// `RecvAction` with its bytes as sequences.
pub enum RecvActionModel {
    SendUntilReply { msg: Seq<u8>, interval_ms: u64 },
    StartTracking { size: u64 },
    Wait { timeout_ms: u64 },
    Store { msg_num: u64, data: Seq<u8> },
    QueryTracker,
    Send { msg: Seq<u8> },
    Finish,
    Fail(ProtocolError),
}

impl View for RecvState {
    type V = RecvStateModel;

    open spec fn view(&self) -> RecvStateModel {
        match self {
            RecvState::AwaitingSize => RecvStateModel::AwaitingSize,
            RecvState::Receiving { first } => RecvStateModel::Receiving { first: *first },
            RecvState::Checking => RecvStateModel::Checking,
            RecvState::Requesting { msg } => RecvStateModel::Requesting { msg: msg@ },
            RecvState::Confirming => RecvStateModel::Confirming,
            RecvState::Done => RecvStateModel::Done,
        }
    }
}

impl View for RecvEvent {
    type V = RecvEventModel;

    open spec fn view(&self) -> RecvEventModel {
        match self {
            RecvEvent::Datagram(d) => RecvEventModel::Datagram(d@),
            RecvEvent::Timeout => RecvEventModel::Timeout,
            RecvEvent::Ready => RecvEventModel::Ready,
            RecvEvent::Unreceived(ds) => RecvEventModel::Unreceived(ds@),
        }
    }
}

impl View for RecvAction {
    type V = RecvActionModel;

    open spec fn view(&self) -> RecvActionModel {
        match self {
            RecvAction::SendUntilReply { msg, interval_ms } => RecvActionModel::SendUntilReply {
                msg: msg@,
                interval_ms: *interval_ms,
            },
            RecvAction::StartTracking { size } => RecvActionModel::StartTracking { size: *size },
            RecvAction::Wait { timeout_ms } => RecvActionModel::Wait { timeout_ms: *timeout_ms },
            RecvAction::Store { msg_num, data } => RecvActionModel::Store {
                msg_num: *msg_num,
                data: data@,
            },
            RecvAction::QueryTracker => RecvActionModel::QueryTracker,
            RecvAction::Send { msg } => RecvActionModel::Send { msg: msg@ },
            RecvAction::Finish => RecvActionModel::Finish,
            RecvAction::Fail(e) => RecvActionModel::Fail(*e),
        }
    }
}

/// Asking for the size of the file.
pub open spec fn size_request() -> RecvActionModel {
    RecvActionModel::SendUntilReply { msg: seq![SEND_FILE_SIZE], interval_ms: SIZE_REQUEST_INTERVAL_MS }
}

/// Waiting for the next data message.
pub open spec fn wait_for_data() -> RecvActionModel {
    RecvActionModel::Wait { timeout_ms: DATA_TIMEOUT_MS }
}

/// Waiting while confirming that the file is in.
pub open spec fn wait_confirming() -> RecvActionModel {
    RecvActionModel::Wait { timeout_ms: CONFIRM_SILENCE_MS }
}

/// Sending the report `msg` until the sender answers.
pub open spec fn request_missed(msg: Seq<u8>) -> RecvActionModel {
    RecvActionModel::SendUntilReply { msg, interval_ms: MISSED_REQUEST_INTERVAL_MS }
}

/// The wait for data ran out: before any data has arrived the receiver keeps
/// waiting for it; after that it checks what is missing.
pub open spec fn next_pass(first: bool) -> (RecvStateModel, RecvActionModel) {
    if first {
        (RecvStateModel::Receiving { first: true }, wait_for_data())
    } else {
        (RecvStateModel::Checking, RecvActionModel::QueryTracker)
    }
}

/// A data message `d` arrived: store its data under its number.
pub open spec fn data_arrived(d: Seq<u8>) -> (RecvStateModel, RecvActionModel) {
    (
        RecvStateModel::Receiving { first: false },
        RecvActionModel::Store { msg_num: be_value(d.subrange(0, 8)), data: d.subrange(8, d.len() as int) },
    )
}

/// Whether a datagram `d` that arrives while receiving is one that is passed
/// over: a hole punch, or a repeated size message before any data.
pub open spec fn is_skipped(first: bool, d: Seq<u8>) -> bool {
    (d.len() == 1 && d[0] == HOLE_PUNCH) || (first && d[0] == FILE_SIZE)
}

/// The receiver's next state and action after event `e` in state `s`.
pub open spec fn recv_transition(s: RecvStateModel, e: RecvEventModel) -> (RecvStateModel, RecvActionModel) {
    match s {
        RecvStateModel::AwaitingSize => match e {
            RecvEventModel::Datagram(d) => if d.len() == 9 && d[0] == FILE_SIZE {
                (RecvStateModel::Receiving { first: true }, RecvActionModel::StartTracking { size: be_value(d.subrange(1, 9)) })
            } else {
                (RecvStateModel::AwaitingSize, size_request())
            },
            _ => (RecvStateModel::AwaitingSize, size_request()),
        },
        RecvStateModel::Receiving { first } => match e {
            RecvEventModel::Datagram(d) => if d.len() == 1 && d[0] == HOLE_PUNCH {
                (RecvStateModel::Receiving { first }, wait_for_data())
            } else if d.len() == 1 && d[0] == DONE_SENDING {
                (RecvStateModel::Checking, RecvActionModel::QueryTracker)
            } else if first && d[0] == FILE_SIZE {
                (RecvStateModel::Receiving { first }, wait_for_data())
            } else {
                data_arrived(d)
            },
            RecvEventModel::Timeout => next_pass(first),
            _ => (RecvStateModel::Receiving { first }, wait_for_data()),
        },
        RecvStateModel::Checking => match e {
            RecvEventModel::Unreceived(ds) => if ds.len() == 0 {
                (RecvStateModel::Confirming, wait_confirming())
            } else if ds.len() > MAX_DROPPED {
                (RecvStateModel::Done, RecvActionModel::Fail(ProtocolError::TooManyDropped))
            } else {
                (RecvStateModel::Requesting { msg: missed_msg(ds) }, request_missed(missed_msg(ds)))
            },
            _ => (RecvStateModel::Checking, RecvActionModel::QueryTracker),
        },
        RecvStateModel::Requesting { msg } => match e {
            RecvEventModel::Datagram(d) => if d.len() > 1 {
                data_arrived(d)
            } else {
                (RecvStateModel::Requesting { msg }, request_missed(msg))
            },
            _ => (RecvStateModel::Requesting { msg }, request_missed(msg)),
        },
        RecvStateModel::Confirming => match e {
            RecvEventModel::Datagram(d) => if d[0] == DONE_SENDING {
                (RecvStateModel::Confirming, RecvActionModel::Send { msg: seq![FILE_RECEIVED] })
            } else {
                (RecvStateModel::Confirming, wait_confirming())
            },
            RecvEventModel::Timeout => (RecvStateModel::Done, RecvActionModel::Finish),
            _ => (RecvStateModel::Confirming, wait_confirming()),
        },
        RecvStateModel::Done => (RecvStateModel::Done, RecvActionModel::Finish),
    }
}

/// Whether event `e` in state `s` is one the receiver handles: every datagram
/// it reads a code from has a first byte, and every one it takes as data has
/// a full message number.
pub open spec fn recv_event_ok(s: RecvStateModel, e: RecvEventModel) -> bool {
    match (s, e) {
        (RecvStateModel::Receiving { first }, RecvEventModel::Datagram(d)) => d.len() >= 1 && (
        d.len() == 1 && d[0] == DONE_SENDING || is_skipped(first, d) || d.len() >= 8),
        (RecvStateModel::Requesting { .. }, RecvEventModel::Datagram(d)) => d.len() > 1 ==> d.len() >= 8,
        (RecvStateModel::Confirming, RecvEventModel::Datagram(d)) => d.len() >= 1,
        _ => true,
    }
}

/// The receiver's first state and action.
pub fn recv_start() -> (r: (RecvState, RecvAction))
    ensures
        r.0@ == RecvStateModel::AwaitingSize,
        r.1@ == size_request(),
{
    (RecvState::AwaitingSize, size_request_action())
}

fn size_request_action() -> (a: RecvAction)
    ensures
        a@ == size_request(),
{
    let mut msg: Vec<u8> = Vec::new();
    msg.push(SEND_FILE_SIZE);
    assert(msg@ =~= seq![SEND_FILE_SIZE]);
    RecvAction::SendUntilReply { msg, interval_ms: SIZE_REQUEST_INTERVAL_MS }
}

fn next_pass_exec(first: bool) -> (r: (RecvState, RecvAction))
    ensures
        (r.0@, r.1@) == next_pass(first),
{
    if first {
        (RecvState::Receiving { first: true }, RecvAction::Wait { timeout_ms: DATA_TIMEOUT_MS })
    } else {
        (RecvState::Checking, RecvAction::QueryTracker)
    }
}

fn data_arrived_exec(d: &Vec<u8>) -> (r: (RecvState, RecvAction))
    requires
        d@.len() >= 8,
    ensures
        (r.0@, r.1@) == data_arrived(d@),
{
    let (msg_num, data) = read_data_msg(d.as_slice());
    (RecvState::Receiving { first: false }, RecvAction::Store { msg_num, data })
}

/// The receiver's next state and action after event `event` in state `state`.
pub fn recv_step(state: RecvState, event: RecvEvent) -> (r: (RecvState, RecvAction))
    requires
        recv_event_ok(state@, event@),
    ensures
        (r.0@, r.1@) == recv_transition(state@, event@),
{
    match state {
        RecvState::AwaitingSize => match event {
            RecvEvent::Datagram(d) => match parse_size_reply(d.as_slice()) {
                Some(size) => (RecvState::Receiving { first: true }, RecvAction::StartTracking { size }),
                None => (RecvState::AwaitingSize, size_request_action()),
            },
            _ => (RecvState::AwaitingSize, size_request_action()),
        },
        RecvState::Receiving { first } => match event {
            RecvEvent::Datagram(d) => {
                if d.len() == 1 && d[0] == HOLE_PUNCH {
                    (RecvState::Receiving { first }, RecvAction::Wait { timeout_ms: DATA_TIMEOUT_MS })
                } else if d.len() == 1 && d[0] == DONE_SENDING {
                    (RecvState::Checking, RecvAction::QueryTracker)
                } else if first && d[0] == FILE_SIZE {
                    (RecvState::Receiving { first }, RecvAction::Wait { timeout_ms: DATA_TIMEOUT_MS })
                } else {
                    data_arrived_exec(&d)
                }
            },
            RecvEvent::Timeout => next_pass_exec(first),
            _ => (RecvState::Receiving { first }, RecvAction::Wait { timeout_ms: DATA_TIMEOUT_MS }),
        },
        RecvState::Checking => match event {
            RecvEvent::Unreceived(ds) => {
                if ds.len() == 0 {
                    (RecvState::Confirming, RecvAction::Wait { timeout_ms: CONFIRM_SILENCE_MS })
                } else {
                    match gen_dropped_msg(ds) {
                        Ok(msg) => {
                            let again = clone_bytes(&msg);
                            (RecvState::Requesting { msg }, RecvAction::SendUntilReply {
                                msg: again,
                                interval_ms: MISSED_REQUEST_INTERVAL_MS,
                            })
                        },
                        Err(e) => (RecvState::Done, RecvAction::Fail(e)),
                    }
                }
            },
            _ => (RecvState::Checking, RecvAction::QueryTracker),
        },
        RecvState::Requesting { msg } => match event {
            RecvEvent::Datagram(d) => {
                if d.len() > 1 {
                    data_arrived_exec(&d)
                } else {
                    let again = clone_bytes(&msg);
                    (RecvState::Requesting { msg }, RecvAction::SendUntilReply {
                        msg: again,
                        interval_ms: MISSED_REQUEST_INTERVAL_MS,
                    })
                }
            },
            _ => {
                let again = clone_bytes(&msg);
                (RecvState::Requesting { msg }, RecvAction::SendUntilReply {
                    msg: again,
                    interval_ms: MISSED_REQUEST_INTERVAL_MS,
                })
            },
        },
        RecvState::Confirming => match event {
            RecvEvent::Datagram(d) => {
                if d[0] == DONE_SENDING {
                    let mut msg: Vec<u8> = Vec::new();
                    msg.push(FILE_RECEIVED);
                    assert(msg@ =~= seq![FILE_RECEIVED]);
                    (RecvState::Confirming, RecvAction::Send { msg })
                } else {
                    (RecvState::Confirming, RecvAction::Wait { timeout_ms: CONFIRM_SILENCE_MS })
                }
            },
            RecvEvent::Timeout => (RecvState::Done, RecvAction::Finish),
            _ => (RecvState::Confirming, RecvAction::Wait { timeout_ms: CONFIRM_SILENCE_MS }),
        },
        RecvState::Done => (RecvState::Done, RecvAction::Finish),
    }
}

} // verus!
