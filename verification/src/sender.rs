//! The sending side: announcing the size, sending every chunk and resending
//! what the receiver misses.

use vstd::prelude::*;
use crate::bytes::{be_value_at, push_be_bytes};
use crate::tracker::{get_msg_amt, msg_amt};
use crate::wire::{decode_u64s, size_msg, DONE_SENDING, FILE_RECEIVED, FILE_SIZE, SEND_FILE_SIZE};

verus! {

/// The message that gives the size `file_len` of the file.
pub fn gen_size_msg(file_len: u64) -> (msg: Vec<u8>)
    ensures
        msg@ == size_msg(file_len),
{
    let mut msg: Vec<u8> = Vec::new();
    msg.push(FILE_SIZE);
    push_be_bytes(&mut msg, file_len);
    assert(msg@ =~= size_msg(file_len));
    msg
}

/// The message numbers listed after the first byte of a report of missed
/// messages.
pub fn parse_missed(buf: &[u8]) -> (missed: Vec<u64>)
    requires
        buf@.len() >= 1,
    ensures
        missed@ == decode_u64s(buf@.subrange(1, buf@.len() as int)),
{
    let ghost rest = buf@.subrange(1, buf@.len() as int);
    let n = (buf.len() - 1) / 8;
    let mut missed: Vec<u64> = Vec::new();
    let mut i: usize = 0;
    while i < n
        invariant
            rest == buf@.subrange(1, buf@.len() as int),
            rest.len() == buf@.len() - 1,
            n == rest.len() / 8,
            i <= n,
            missed@ == decode_u64s(rest).take(i as int),
        decreases n - i,
    {
        assert(8 * i + 8 <= rest.len()) by (nonlinear_arith)
            requires
                i < n,
                n == rest.len() / 8,
        ;
        assert(buf@.len() == buf.len());
        let j = 1 + 8 * i;
        let x = be_value_at(buf, j);
        proof {
            assert(buf@.subrange(j as int, j + 8) =~= rest.subrange(8 * i, 8 * i + 8));
        }
        missed.push(x);
        i += 1;
        assert(missed@ =~= decode_u64s(rest).take(i as int));
    }
    assert(decode_u64s(rest).take(n as int) =~= decode_u64s(rest));
    missed
}

} // verus!

verus! {

/// How long the sender waits for the receiver's size request before it
/// starts sending, once it has answered one, in milliseconds.
pub const SIZE_WAIT_MS: u64 = 1500;

/// How often the sender says it is done until the receiver answers, in
/// milliseconds.
pub const DONE_INTERVAL_MS: u64 = 100;

/// The pause between two data messages, in microseconds.
pub const SEND_FILE_INTERVAL: u64 = 1500;

/// Where the sender stands in a transfer.
#[derive(Debug, Clone, PartialEq, Eq)]
pub enum SendState {
    /// Answering the receiver's requests for the size `file_len` of the file;
    /// `has_sent` once it answered one.
    AnnouncingSize { file_len: u64, has_sent: bool },
    /// Sending message `msg_num` in the first pass over a file of `file_len` bytes.
    Sending { file_len: u64, msg_num: u64 },
    /// Saying it is done until the receiver answers.
    AwaitingReport,
    /// Sending again message `missed[idx]` of those the receiver misses.
    Resending { missed: Vec<u64>, idx: usize },
    /// The receiver has the whole file.
    Done,
}

/// What happened since the sender's last action.
#[derive(Debug, Clone, PartialEq, Eq)]
pub enum SendEvent {
    /// A datagram from the receiver arrived.
    Datagram(Vec<u8>),
    /// The wait ran out.
    Timeout,
    /// The last action is done.
    Ready,
}

/// What the sender does next.
#[derive(Debug, Clone, PartialEq, Eq)]
pub enum SendAction {
    /// Wait up to `timeout_ms` for a datagram from the receiver.
    Wait { timeout_ms: u64 },
    /// Send `msg` to the receiver once.
    Send { msg: Vec<u8> },
    /// Read the chunk of message `msg_num` from the file and send it as a data
    /// message.
    SendChunk { msg_num: u64 },
    /// Send `msg` every `interval_ms` until a datagram from the receiver arrives.
    SendUntilReply { msg: Vec<u8>, interval_ms: u64 },
    /// End the transfer.
    Finish,
}

/// `SendState` with its numbers as a sequence.
pub enum SendStateModel {
    AnnouncingSize { file_len: u64, has_sent: bool },
    Sending { file_len: u64, msg_num: u64 },
    AwaitingReport,
    Resending { missed: Seq<u64>, idx: int },
    Done,
}

/// `SendEvent` with its bytes as a sequence.
pub enum SendEventModel {
    Datagram(Seq<u8>),
    Timeout,
    Ready,
}

/// `SendAction` with its bytes as sequences.
pub enum SendActionModel {
    Wait { timeout_ms: u64 },
    Send { msg: Seq<u8> },
    SendChunk { msg_num: u64 },
    SendUntilReply { msg: Seq<u8>, interval_ms: u64 },
    Finish,
}

impl View for SendState {
    type V = SendStateModel;

    open spec fn view(&self) -> SendStateModel {
        match self {
            SendState::AnnouncingSize { file_len, has_sent } => SendStateModel::AnnouncingSize {
                file_len: *file_len,
                has_sent: *has_sent,
            },
            SendState::Sending { file_len, msg_num } => SendStateModel::Sending {
                file_len: *file_len,
                msg_num: *msg_num,
            },
            SendState::AwaitingReport => SendStateModel::AwaitingReport,
            SendState::Resending { missed, idx } => SendStateModel::Resending {
                missed: missed@,
                idx: *idx as int,
            },
            SendState::Done => SendStateModel::Done,
        }
    }
}

impl View for SendEvent {
    type V = SendEventModel;

    open spec fn view(&self) -> SendEventModel {
        match self {
            SendEvent::Datagram(d) => SendEventModel::Datagram(d@),
            SendEvent::Timeout => SendEventModel::Timeout,
            SendEvent::Ready => SendEventModel::Ready,
        }
    }
}

impl View for SendAction {
    type V = SendActionModel;

    open spec fn view(&self) -> SendActionModel {
        match self {
            SendAction::Wait { timeout_ms } => SendActionModel::Wait { timeout_ms: *timeout_ms },
            SendAction::Send { msg } => SendActionModel::Send { msg: msg@ },
            SendAction::SendChunk { msg_num } => SendActionModel::SendChunk { msg_num: *msg_num },
            SendAction::SendUntilReply { msg, interval_ms } => SendActionModel::SendUntilReply {
                msg: msg@,
                interval_ms: *interval_ms,
            },
            SendAction::Finish => SendActionModel::Finish,
        }
    }
}

/// Waiting for the receiver's size request.
pub open spec fn wait_for_request() -> SendActionModel {
    SendActionModel::Wait { timeout_ms: SIZE_WAIT_MS }
}

/// Saying that every message has been sent, until the receiver answers.
pub open spec fn report_request() -> SendActionModel {
    SendActionModel::SendUntilReply { msg: seq![DONE_SENDING], interval_ms: DONE_INTERVAL_MS }
}

/// Whether the state `s` is one the sender can be in: a resend points into its
/// list.
pub open spec fn send_state_ok(s: SendStateModel) -> bool {
    s matches SendStateModel::Resending { missed, idx } ==> 0 <= idx < missed.len()
}

/// Whether event `e` in state `s` is one the sender handles: the receiver's
/// answer to "done" has a first byte.
pub open spec fn send_event_ok(s: SendStateModel, e: SendEventModel) -> bool {
    (s is AwaitingReport && e is Datagram) ==> e->Datagram_0.len() >= 1
}

/// The sender's next state and action after event `e` in state `s`.
pub open spec fn send_transition(s: SendStateModel, e: SendEventModel) -> (SendStateModel, SendActionModel) {
    match s {
        SendStateModel::AnnouncingSize { file_len, has_sent } => match e {
            SendEventModel::Timeout => if has_sent {
                (SendStateModel::Sending { file_len, msg_num: 0 }, SendActionModel::SendChunk { msg_num: 0 })
            } else {
                (s, wait_for_request())
            },
            SendEventModel::Datagram(d) => if d.len() == 1 && d[0] == SEND_FILE_SIZE {
                (SendStateModel::AnnouncingSize { file_len, has_sent: true }, SendActionModel::Send { msg: size_msg(file_len) })
            } else {
                (s, wait_for_request())
            },
            SendEventModel::Ready => (s, wait_for_request()),
        },
        SendStateModel::Sending { file_len, msg_num } => match e {
            SendEventModel::Ready => if msg_num + 1 >= msg_amt(file_len as nat) {
                (SendStateModel::AwaitingReport, report_request())
            } else {
                (SendStateModel::Sending { file_len, msg_num: (msg_num + 1) as u64 }, SendActionModel::SendChunk { msg_num: (msg_num + 1) as u64 })
            },
            _ => (s, SendActionModel::SendChunk { msg_num }),
        },
        SendStateModel::AwaitingReport => match e {
            SendEventModel::Datagram(d) => if d[0] == FILE_RECEIVED {
                (SendStateModel::Done, SendActionModel::Finish)
            } else {
                let missed = decode_u64s(d.subrange(1, d.len() as int));
                if missed.len() == 0 {
                    (SendStateModel::AwaitingReport, report_request())
                } else {
                    (SendStateModel::Resending { missed, idx: 0 }, SendActionModel::SendChunk { msg_num: missed[0] })
                }
            },
            _ => (SendStateModel::AwaitingReport, report_request()),
        },
        SendStateModel::Resending { missed, idx } => match e {
            SendEventModel::Ready => if idx + 1 < missed.len() {
                (SendStateModel::Resending { missed, idx: idx + 1 }, SendActionModel::SendChunk { msg_num: missed[idx + 1] })
            } else {
                (SendStateModel::AwaitingReport, report_request())
            },
            _ => (s, SendActionModel::SendChunk { msg_num: missed[idx] }),
        },
        SendStateModel::Done => (SendStateModel::Done, SendActionModel::Finish),
    }
}

/// The sender's first state and action for a file of `file_len` bytes.
pub fn send_start(file_len: u64) -> (r: (SendState, SendAction))
    ensures
        r.0@ == (SendStateModel::AnnouncingSize { file_len, has_sent: false }),
        r.1@ == wait_for_request(),
{
    (SendState::AnnouncingSize { file_len, has_sent: false }, SendAction::Wait { timeout_ms: SIZE_WAIT_MS })
}

fn report_request_action() -> (a: SendAction)
    ensures
        a@ == report_request(),
{
    let mut msg: Vec<u8> = Vec::new();
    msg.push(DONE_SENDING);
    assert(msg@ =~= seq![DONE_SENDING]);
    SendAction::SendUntilReply { msg, interval_ms: DONE_INTERVAL_MS }
}

/// The sender's next state and action after event `event` in state `state`.
pub fn send_step(state: SendState, event: SendEvent) -> (r: (SendState, SendAction))
    requires
        send_state_ok(state@),
        send_event_ok(state@, event@),
    ensures
        (r.0@, r.1@) == send_transition(state@, event@),
        send_state_ok(r.0@),
{
    match state {
        SendState::AnnouncingSize { file_len, has_sent } => match event {
            SendEvent::Timeout => {
                if has_sent {
                    (SendState::Sending { file_len, msg_num: 0 }, SendAction::SendChunk { msg_num: 0 })
                } else {
                    (SendState::AnnouncingSize { file_len, has_sent }, SendAction::Wait { timeout_ms: SIZE_WAIT_MS })
                }
            },
            SendEvent::Datagram(d) => {
                if d.len() == 1 && d[0] == SEND_FILE_SIZE {
                    (SendState::AnnouncingSize { file_len, has_sent: true }, SendAction::Send { msg: gen_size_msg(file_len) })
                } else {
                    (SendState::AnnouncingSize { file_len, has_sent }, SendAction::Wait { timeout_ms: SIZE_WAIT_MS })
                }
            },
            SendEvent::Ready => (SendState::AnnouncingSize { file_len, has_sent }, SendAction::Wait { timeout_ms: SIZE_WAIT_MS }),
        },
        SendState::Sending { file_len, msg_num } => match event {
            SendEvent::Ready => {
                let amt = get_msg_amt(file_len);
                if amt == 0 || msg_num >= amt - 1 {
                    (SendState::AwaitingReport, report_request_action())
                } else {
                    let next = msg_num + 1;
                    (SendState::Sending { file_len, msg_num: next }, SendAction::SendChunk { msg_num: next })
                }
            },
            _ => (SendState::Sending { file_len, msg_num }, SendAction::SendChunk { msg_num }),
        },
        SendState::AwaitingReport => match event {
            SendEvent::Datagram(d) => {
                if d[0] == FILE_RECEIVED {
                    (SendState::Done, SendAction::Finish)
                } else {
                    let missed = parse_missed(d.as_slice());
                    if missed.len() == 0 {
                        (SendState::AwaitingReport, report_request_action())
                    } else {
                        let first = missed[0];
                        (SendState::Resending { missed, idx: 0 }, SendAction::SendChunk { msg_num: first })
                    }
                }
            },
            _ => (SendState::AwaitingReport, report_request_action()),
        },
        SendState::Resending { missed, idx } => match event {
            SendEvent::Ready => {
                if idx < missed.len() - 1 {
                    let next = missed[idx + 1];
                    (SendState::Resending { missed, idx: idx + 1 }, SendAction::SendChunk { msg_num: next })
                } else {
                    (SendState::AwaitingReport, report_request_action())
                }
            },
            _ => {
                let cur = missed[idx];
                (SendState::Resending { missed, idx }, SendAction::SendChunk { msg_num: cur })
            },
        },
        SendState::Done => (SendState::Done, SendAction::Finish),
    }
}

} // verus!
