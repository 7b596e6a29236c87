//! How the decisions of the two peers meet: what one sends, the other reads as
//! it was meant.

use vstd::prelude::*;
use crate::bytes::be_bytes;
use crate::reciever::{recv_transition, RecvActionModel, RecvEventModel, RecvStateModel};
use crate::sender::{
    report_request, send_transition, SendActionModel, SendEventModel, SendStateModel,
};
use crate::reciever::{request_missed, wait_confirming};
use crate::tracker::{lemma_tracking_run, mark_all, msg_amt, tracker_bytes, unreceived, MAX_DROPPED};
use crate::wire::{
    data_msg, lemma_data_msg_roundtrip, lemma_missed_msg_roundtrip, lemma_size_msg_roundtrip,
    missed_msg, size_msg, DONE_SENDING, FILE_RECEIVED, FILE_SIZE, SEND_FILE_SIZE,
};

verus! {

/// The size exchange: the sender answers the receiver's size request with the
/// size of its file, and the receiver starts tracking a file of that size.
pub proof fn lemma_size_exchange(file_len: u64, has_sent: bool)
    ensures
        send_transition(
            SendStateModel::AnnouncingSize { file_len, has_sent },
            SendEventModel::Datagram(seq![SEND_FILE_SIZE]),
        ) == (SendStateModel::AnnouncingSize { file_len, has_sent: true }, SendActionModel::Send {
            msg: size_msg(file_len),
        }),
        recv_transition(RecvStateModel::AwaitingSize, RecvEventModel::Datagram(size_msg(file_len))) == (
        RecvStateModel::Receiving { first: true }, RecvActionModel::StartTracking { size: file_len }),
{
    lemma_size_msg_roundtrip(file_len);
}

/// A data message that the sender builds is stored by the receiver under the
/// same number and with the same data, whether it comes during a pass or as
/// the answer to a report of missed messages. Before the first data message
/// has arrived, the receiver passes over what looks like a size message, so
/// there the number's first byte must not be the size code.
pub proof fn lemma_data_exchange(first: bool, msg_num: u64, data: Seq<u8>, msg: Seq<u8>)
    requires
        !first || be_bytes(msg_num)[0] != FILE_SIZE,
    ensures
        recv_transition(RecvStateModel::Receiving { first }, RecvEventModel::Datagram(data_msg(msg_num, data)))
            == (RecvStateModel::Receiving { first: false }, RecvActionModel::Store { msg_num, data }),
        recv_transition(RecvStateModel::Requesting { msg }, RecvEventModel::Datagram(data_msg(msg_num, data)))
            == (RecvStateModel::Receiving { first: false }, RecvActionModel::Store { msg_num, data }),
{
    lemma_data_msg_roundtrip(msg_num, data);
    assert(data_msg(msg_num, data)[0] == be_bytes(msg_num)[0]);
}

/// The report exchange: when the tracker lists missing messages, the receiver
/// sends the report of them, and the sender reads from that report exactly
/// those messages and starts sending them again, first to last.
pub proof fn lemma_missed_exchange(ds: Seq<u64>)
    requires
        1 <= ds.len() <= MAX_DROPPED,
    ensures
        recv_transition(RecvStateModel::Checking, RecvEventModel::Unreceived(ds)) == (
        RecvStateModel::Requesting { msg: missed_msg(ds) }, RecvActionModel::SendUntilReply {
            msg: missed_msg(ds),
            interval_ms: crate::reciever::MISSED_REQUEST_INTERVAL_MS,
        }),
        send_transition(SendStateModel::AwaitingReport, SendEventModel::Datagram(missed_msg(ds))) == (
        SendStateModel::Resending { missed: ds, idx: 0 }, SendActionModel::SendChunk { msg_num: ds[0] }),
{
    lemma_missed_msg_roundtrip(ds);
}

/// The end of a transfer: the receiver confirms only once its tracker has
/// reported nothing missing, and only that confirmation ends the sender's part.
pub proof fn lemma_completion(
    s: RecvStateModel,
    e: RecvEventModel,
    t: SendStateModel,
    f: SendEventModel,
)
    ensures
        recv_transition(s, e).0 is Confirming ==> s is Confirming || (s is Checking && e
            == RecvEventModel::Unreceived(Seq::empty())),
        recv_transition(s, e).1 == (RecvActionModel::Send { msg: seq![FILE_RECEIVED] }) ==> s is Confirming,
        recv_transition(RecvStateModel::Checking, RecvEventModel::Unreceived(Seq::empty())).0 is Confirming,
        send_transition(t, f).0 is Done ==> t is Done || (t is AwaitingReport && f is Datagram
            && f->Datagram_0[0] == FILE_RECEIVED),
        send_transition(SendStateModel::AwaitingReport, SendEventModel::Datagram(seq![FILE_RECEIVED]))
            == (SendStateModel::Done, SendActionModel::Finish),
{
    match s {
        RecvStateModel::Checking => {
            match e {
                RecvEventModel::Unreceived(ds) => {
                    if ds.len() == 0 {
                        assert(ds =~= Seq::<u64>::empty());
                    }
                },
                _ => {},
            }
        },
        _ => {},
    }
}

/// The state of the sender after `k` more of its chunks have been sent.
pub open spec fn after_chunks(s: SendStateModel, k: nat) -> SendStateModel
    decreases k,
{
    if k == 0 {
        s
    } else {
        send_transition(after_chunks(s, (k - 1) as nat), SendEventModel::Ready).0
    }
}

/// The first pass sends every message of the file once, in order: after the
/// first `k` chunks the sender is at chunk `k` as long as the file has more,
/// and once the last chunk (or, for an empty file, the one empty chunk) is sent
/// it asks the receiver for its report.
pub proof fn lemma_first_pass(file_len: u64, k: nat)
    ensures
        k < msg_amt(file_len as nat) ==> after_chunks(SendStateModel::Sending { file_len, msg_num: 0 }, k)
            == (SendStateModel::Sending { file_len, msg_num: k as u64 }),
        k + 1 == msg_amt(file_len as nat) || (k == 0 && msg_amt(file_len as nat) == 0) ==> send_transition(
            after_chunks(SendStateModel::Sending { file_len, msg_num: 0 }, k),
            SendEventModel::Ready,
        ) == (SendStateModel::AwaitingReport, report_request()),
    decreases k,
{
    crate::tracker::lemma_msg_amt_covers(file_len as nat);
    if k > 0 {
        lemma_first_pass(file_len, (k - 1) as nat);
    }
}

/// Progress after the sender's "done": while receiving, whether or not any
/// data has arrived yet, the receiver checks its tracker; the tracker's answer
/// then leads to a confirmation (nothing missing), a report of the missing
/// messages, or, for a list too long for one report, an error.
pub proof fn lemma_done_leads_to_check(first: bool, ds: Seq<u64>)
    ensures
        recv_transition(RecvStateModel::Receiving { first }, RecvEventModel::Datagram(seq![DONE_SENDING]))
            == (RecvStateModel::Checking, RecvActionModel::QueryTracker),
        recv_transition(RecvStateModel::Checking, RecvEventModel::Unreceived(ds)) == if ds.len() == 0 {
            (RecvStateModel::Confirming, wait_confirming())
        } else if ds.len() > MAX_DROPPED {
            (RecvStateModel::Done, RecvActionModel::Fail(crate::bytes::ProtocolError::TooManyDropped))
        } else {
            (RecvStateModel::Requesting { msg: missed_msg(ds) }, request_missed(missed_msg(ds)))
        },
{
}

/// What the receiver asks for after storing the messages `received` of a file
/// of `size` bytes and checking its tracker: when every message is in, it
/// confirms; otherwise its report lists, in increasing order, the first (at
/// most `MAX_DROPPED`) messages of the file not received, leaving none out when
/// it lists fewer, and the sender reads exactly that list from it.
pub proof fn lemma_report_lists_missing(size: u64, received: Seq<u64>)
    requires
        forall|i: int| 0 <= i < received.len() ==> #[trigger] received[i] < msg_amt(size as nat),
    ensures
        ({
            let total = msg_amt(size as nat);
            let ds = unreceived(
                mark_all(Seq::new(8 * tracker_bytes(size as nat), |n: int| false), received),
                total,
            );
            &&& (forall|n: u64| n < total ==> #[trigger] received.contains(n)) ==> recv_transition(
                RecvStateModel::Checking,
                RecvEventModel::Unreceived(ds),
            ) == (RecvStateModel::Confirming, wait_confirming())
            &&& !(forall|n: u64| n < total ==> #[trigger] received.contains(n)) ==> {
                &&& 1 <= ds.len() <= MAX_DROPPED
                &&& recv_transition(RecvStateModel::Checking, RecvEventModel::Unreceived(ds)) == (
                RecvStateModel::Requesting { msg: missed_msg(ds) }, request_missed(missed_msg(ds)))
                &&& send_transition(SendStateModel::AwaitingReport, SendEventModel::Datagram(missed_msg(ds)))
                    == (SendStateModel::Resending { missed: ds, idx: 0 }, SendActionModel::SendChunk {
                    msg_num: ds[0],
                })
                &&& forall|i: int| 0 <= i < ds.len() ==> #[trigger] ds[i] < total && !received.contains(ds[i])
                &&& forall|i: int, j: int| 0 <= i < j < ds.len() ==> #[trigger] ds[i] < #[trigger] ds[j]
                &&& ds.len() < MAX_DROPPED ==> forall|n: u64| n < total && !received.contains(n)
                    ==> #[trigger] ds.contains(n)
            }
        }),
{
    lemma_tracking_run(size, received);
    let total = msg_amt(size as nat);
    let ds = unreceived(mark_all(Seq::new(8 * tracker_bytes(size as nat), |n: int| false), received), total);
    if ds.len() == 0 {
        assert(ds =~= Seq::<u64>::empty());
    } else {
        lemma_missed_exchange(ds);
    }
}

/// A report of missed messages: one to `MAX_DROPPED` numbers.
pub open spec fn is_report(msg: Seq<u8>) -> bool {
    exists|ds: Seq<u64>| 1 <= ds.len() <= MAX_DROPPED && msg == missed_msg(ds)
}

/// The bytes that action `a` sends to the sender, if any.
pub open spec fn recv_sends(a: RecvActionModel) -> Option<Seq<u8>> {
    match a {
        RecvActionModel::SendUntilReply { msg, .. } => Some(msg),
        RecvActionModel::Send { msg } => Some(msg),
        _ => None,
    }
}

/// What holds of every state the receiver reaches from its start: a report it
/// repeats is a report of one to `MAX_DROPPED` numbers.
pub open spec fn recv_reachable(s: RecvStateModel) -> bool {
    s matches RecvStateModel::Requesting { msg } ==> is_report(msg)
}

/// The receiver sends only the size request, the confirmation, and reports of
/// one to `MAX_DROPPED` missed messages, each within the largest message: its
/// start state is reachable, every step keeps that, and every message it sends
/// from a reachable state is one of those.
pub proof fn lemma_receiver_sends_only_protocol_messages(s: RecvStateModel, e: RecvEventModel)
    requires
        recv_reachable(s),
    ensures
        recv_reachable(RecvStateModel::AwaitingSize),
        recv_reachable(recv_transition(s, e).0),
        recv_sends(recv_transition(s, e).1) matches Some(msg) ==> {
            &&& msg == seq![SEND_FILE_SIZE] || msg == seq![FILE_RECEIVED] || is_report(msg)
            &&& msg.len() <= crate::wire::MSG_LEN
        },
{
    if let RecvStateModel::Checking = s {
        if let RecvEventModel::Unreceived(ds) = e {
            if 1 <= ds.len() <= MAX_DROPPED {
                assert(is_report(missed_msg(ds)));
            }
        }
    }
    if let Some(msg) = recv_sends(recv_transition(s, e).1) {
        if is_report(msg) {
            let ds = choose|ds: Seq<u64>| 1 <= ds.len() <= MAX_DROPPED && msg == missed_msg(ds);
            lemma_missed_msg_roundtrip(ds);
        }
    }
}

/// The sender sends, besides its data messages, only the size of its file
/// (while announcing it) and "done" (while waiting for a report).
pub proof fn lemma_sender_sends_only_protocol_messages(s: SendStateModel, e: SendEventModel)
    ensures
        send_transition(s, e).1 matches SendActionModel::Send { msg } ==> s matches SendStateModel::AnnouncingSize {
            file_len,
            ..
        } && msg == size_msg(file_len),
        send_transition(s, e).1 matches SendActionModel::SendUntilReply { msg, .. } ==> msg == seq![DONE_SENDING],
{
}

} // verus!
