//! What each peer's steps do over all inputs: what never changes a state,
//! what a state can only be reached from, and what a run of steps sends.

use vstd::prelude::*;
use crate::bytes::{be_bytes, be_value, lemma_be_roundtrip};
use crate::exchange::after_chunks;
use crate::reciever::{
    recv_event_ok, recv_transition, RecvActionModel, RecvEventModel, RecvStateModel,
    CONFIRM_SILENCE_MS, DATA_TIMEOUT_MS, MISSED_REQUEST_INTERVAL_MS, SIZE_REQUEST_INTERVAL_MS,
};
use crate::sender::{
    report_request, send_transition, SendActionModel, SendEventModel, SendStateModel, SIZE_WAIT_MS,
};
use crate::tracker::msg_amt;
use crate::wire::{
    decode_u64s, data_msg, size_msg, DONE_SENDING, FILE_RECEIVED, FILE_SIZE, HOLE_PUNCH, SEND_FILE_SIZE,
};

verus! {

/// A hole punch only keeps the way open: in every state of either peer it
/// leaves the state as it is, and a receiver taking data keeps waiting for it.
pub proof fn lemma_hole_punch_changes_nothing(r: RecvStateModel, s: SendStateModel)
    ensures
        recv_transition(r, RecvEventModel::Datagram(seq![HOLE_PUNCH])).0 == r,
        r is Receiving ==> recv_transition(r, RecvEventModel::Datagram(seq![HOLE_PUNCH])).1
            == (RecvActionModel::Wait { timeout_ms: DATA_TIMEOUT_MS }),
        send_transition(s, SendEventModel::Datagram(seq![HOLE_PUNCH])).0 == s,
{
    let d = seq![HOLE_PUNCH];
    assert(d.subrange(1, 1).len() == 0);
}

/// While announcing the size, the sender never forgets that it has answered a
/// size request: only a size request (answered with the size) marks it, no
/// other event clears it, and the first wait that runs out after it starts the
/// first pass at chunk 0; before that, nothing starts it.
pub proof fn lemma_announcing(file_len: u64, has_sent: bool, e: SendEventModel)
    ensures
        ({
            let (t, a) = send_transition(SendStateModel::AnnouncingSize { file_len, has_sent }, e);
            let asked = e == SendEventModel::Datagram(seq![SEND_FILE_SIZE]);
            &&& t is Sending <==> (has_sent && e is Timeout)
            &&& t is Sending ==> t == (SendStateModel::Sending { file_len, msg_num: 0 }) && a
                == (SendActionModel::SendChunk { msg_num: 0 })
            &&& !(t is Sending) ==> t == (SendStateModel::AnnouncingSize {
                file_len,
                has_sent: has_sent || asked,
            })
            &&& asked ==> a == (SendActionModel::Send { msg: size_msg(file_len) })
            &&& !(t is Sending) && !asked ==> a == (SendActionModel::Wait { timeout_ms: SIZE_WAIT_MS })
        }),
{
    if let SendEventModel::Datagram(d) = e {
        if d.len() == 1 && d[0] == SEND_FILE_SIZE {
            assert(d =~= seq![SEND_FILE_SIZE]);
        }
    }
}

/// The message numbers of the chunks the sender sends on `k` events that each
/// report the last action done, starting in state `s`.
pub open spec fn chunks_on_ready(s: SendStateModel, k: nat) -> Seq<u64>
    decreases k,
{
    if k == 0 {
        seq![]
    } else {
        let a = send_transition(after_chunks(s, (k - 1) as nat), SendEventModel::Ready).1;
        chunks_on_ready(s, (k - 1) as nat) + if a is SendChunk {
            seq![a->msg_num]
        } else {
            Seq::empty()
        }
    }
}

/// Resending a report `ds`: after its first chunk, the sender sends the
/// remaining reported chunks one per finished send, each once and in the
/// order of the report, stays resending until the last one, and then asks for
/// the next report.
pub proof fn lemma_resend_covers_report(ds: Seq<u64>, k: nat)
    requires
        1 <= ds.len(),
    ensures
        k < ds.len() ==> after_chunks(SendStateModel::Resending { missed: ds, idx: 0 }, k)
            == (SendStateModel::Resending { missed: ds, idx: k as int }),
        k < ds.len() ==> chunks_on_ready(SendStateModel::Resending { missed: ds, idx: 0 }, k)
            == ds.subrange(1, (k + 1) as int),
        k + 1 == ds.len() ==> send_transition(
            after_chunks(SendStateModel::Resending { missed: ds, idx: 0 }, k),
            SendEventModel::Ready,
        ) == (SendStateModel::AwaitingReport, report_request()),
        k + 1 == ds.len() ==> seq![ds[0]] + chunks_on_ready(
            SendStateModel::Resending { missed: ds, idx: 0 },
            k,
        ) == ds,
    decreases k,
{
    let s0 = SendStateModel::Resending { missed: ds, idx: 0 };
    if k > 0 {
        lemma_resend_covers_report(ds, (k - 1) as nat);
        if k < ds.len() {
            assert(ds.subrange(1, k as int) + seq![ds[k as int]] =~= ds.subrange(1, (k + 1) as int));
        }
    } else {
        assert(ds.subrange(1, 1) =~= Seq::<u64>::empty());
    }
    if k + 1 == ds.len() {
        assert(seq![ds[0]] + ds.subrange(1, (k + 1) as int) =~= ds);
    }
}

/// The first pass sends the chunks 0, 1, ..., in order, one per finished send:
/// chunk 0 first, then every later chunk of the file once.
pub proof fn lemma_first_pass_chunks(file_len: u64, k: nat)
    ensures
        k < msg_amt(file_len as nat) ==> seq![0u64] + chunks_on_ready(
            SendStateModel::Sending { file_len, msg_num: 0 },
            k,
        ) == Seq::new(k + 1, |i: int| i as u64),
    decreases k,
{
    crate::tracker::lemma_msg_amt_covers(file_len as nat);
    crate::exchange::lemma_first_pass(file_len, k);
    if k > 0 {
        lemma_first_pass_chunks(file_len, (k - 1) as nat);
        crate::exchange::lemma_first_pass(file_len, (k - 1) as nat);
        if k < msg_amt(file_len as nat) {
            let s0 = SendStateModel::Sending { file_len, msg_num: 0 };
            assert(seq![0u64] + chunks_on_ready(s0, k) =~= (seq![0u64] + chunks_on_ready(s0, (k - 1) as nat)).push(
                k as u64,
            ));
            assert(Seq::new(k as nat, |i: int| i as u64).push(k as u64) =~= Seq::new(k + 1, |i: int| i as u64));
        }
    } else {
        assert(seq![0u64] + Seq::<u64>::empty() =~= Seq::new(1, |i: int| i as u64));
    }
}

/// What the receiver's steps can reach and what they act on: it asks for the
/// size only until it has one; it is back to waiting for the first data only
/// while no data has arrived; it tracks a file only of the size that a size
/// message gave; what it stores is exactly the number and data of the datagram
/// that arrived; after data has arrived, a silent wait leads to a tracker
/// check; and it ends only after confirming.
pub proof fn lemma_receiver_steps(s: RecvStateModel, e: RecvEventModel)
    requires
        recv_event_ok(s, e),
    ensures
        ({
            let (t, a) = recv_transition(s, e);
            &&& t is AwaitingSize ==> s is AwaitingSize
            &&& t == (RecvStateModel::Receiving { first: true }) ==> s is AwaitingSize || s == (RecvStateModel::Receiving { first: true })
            &&& a matches RecvActionModel::StartTracking { size } ==> s is AwaitingSize && e
                == RecvEventModel::Datagram(size_msg(size))
            &&& a matches RecvActionModel::Store { msg_num, data } ==> e == RecvEventModel::Datagram(
                data_msg(msg_num, data),
            ) && t == (RecvStateModel::Receiving { first: false })
            &&& (s == (RecvStateModel::Receiving { first: false }) && e is Timeout) ==> t is Checking && a is QueryTracker
            &&& a is Finish ==> s is Confirming || s is Done
        }),
{
    let (t, a) = recv_transition(s, e);
    if let RecvEventModel::Datagram(d) = e {
        if d.len() >= 8 {
            lemma_be_roundtrip(0, d.subrange(0, 8));
            assert(d =~= be_bytes(be_value(d.subrange(0, 8))) + d.subrange(8, d.len() as int));
        }
        if d.len() == 9 && d[0] == crate::wire::FILE_SIZE {
            lemma_be_roundtrip(0, d.subrange(1, 9));
            assert(d =~= size_msg(be_value(d.subrange(1, 9))));
        }
    }
}

/// The events that leave the receiver where it is, and what it does then:
/// until a size message arrives it keeps asking for the size; while taking
/// data, a finished store, a tracker answer, a repeated size message before any
/// data, and a silent wait before any data keep it waiting for data; while
/// reporting, anything but a longer datagram makes it repeat the same report;
/// while confirming, a "done" is answered with the confirmation, anything else
/// but a silent wait keeps it waiting, and a silent wait ends the transfer; a
/// check waits for the tracker's answer; and an ended transfer stays ended.
pub proof fn lemma_receiver_holds(s: RecvStateModel, e: RecvEventModel)
    ensures
        s is AwaitingSize && !(e matches RecvEventModel::Datagram(d) && d.len() == 9 && d[0] == FILE_SIZE)
            ==> recv_transition(s, e) == (RecvStateModel::AwaitingSize, RecvActionModel::SendUntilReply {
            msg: seq![SEND_FILE_SIZE],
            interval_ms: SIZE_REQUEST_INTERVAL_MS,
        }),
        s is Receiving && (e is Ready || e is Unreceived) ==> recv_transition(s, e) == (s, RecvActionModel::Wait {
            timeout_ms: DATA_TIMEOUT_MS,
        }),
        s == (RecvStateModel::Receiving { first: true }) && (e is Timeout || (e matches RecvEventModel::Datagram(
            d,
        ) && d.len() >= 1 && d[0] == FILE_SIZE)) ==> recv_transition(s, e) == (s, RecvActionModel::Wait {
            timeout_ms: DATA_TIMEOUT_MS,
        }),
        s matches RecvStateModel::Requesting { msg } && !(e matches RecvEventModel::Datagram(d) && d.len() > 1)
            ==> recv_transition(s, e) == (s, RecvActionModel::SendUntilReply {
            msg: s->msg,
            interval_ms: MISSED_REQUEST_INTERVAL_MS,
        }),
        s is Confirming && e is Timeout ==> recv_transition(s, e) == (RecvStateModel::Done, RecvActionModel::Finish),
        s is Confirming && (e matches RecvEventModel::Datagram(d) && d[0] == DONE_SENDING) ==> recv_transition(s, e)
            == (s, RecvActionModel::Send { msg: seq![FILE_RECEIVED] }),
        s is Confirming && !(e is Timeout) && !(e matches RecvEventModel::Datagram(d) && d[0] == DONE_SENDING)
            ==> recv_transition(s, e) == (s, RecvActionModel::Wait { timeout_ms: CONFIRM_SILENCE_MS }),
        s is Checking && !(e is Unreceived) ==> recv_transition(s, e) == (s, RecvActionModel::QueryTracker),
        s is Done ==> recv_transition(s, e) == (RecvStateModel::Done, RecvActionModel::Finish),
{
}

/// The events that leave the sender where it is, and what it does then: while
/// sending or resending, anything but a finished send makes it send the
/// current chunk again; waiting for a report, anything but a datagram, or a
/// datagram that is neither the confirmation nor a list of at least one number,
/// makes it say "done" again, and the confirmation ends its part; an ended
/// transfer stays ended.
pub proof fn lemma_sender_holds(s: SendStateModel, e: SendEventModel)
    ensures
        s matches SendStateModel::Sending { msg_num, .. } && !(e is Ready) ==> send_transition(s, e) == (s,
        SendActionModel::SendChunk { msg_num: s->msg_num }),
        s matches SendStateModel::Resending { missed, idx } && !(e is Ready) ==> send_transition(s, e) == (s,
        SendActionModel::SendChunk { msg_num: s->missed[s->idx] }),
        s is AwaitingReport && !(e is Datagram) ==> send_transition(s, e) == (s, report_request()),
        s is AwaitingReport && (e matches SendEventModel::Datagram(d) && d[0] == FILE_RECEIVED) ==> send_transition(
            s,
            e,
        ) == (SendStateModel::Done, SendActionModel::Finish),
        s is AwaitingReport && (e matches SendEventModel::Datagram(d) && d[0] != FILE_RECEIVED && decode_u64s(
            d.subrange(1, d.len() as int),
        ).len() == 0) ==> send_transition(s, e) == (s, report_request()),
        s is Done ==> send_transition(s, e) == (SendStateModel::Done, SendActionModel::Finish),
{
}

} // verus!
