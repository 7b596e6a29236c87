use dovepipe::get_buf;
use dovepipe::reciever::{gen_dropped_msg, recv_start, recv_step, RecvAction, RecvEvent, RecvState};
use dovepipe::sender::{gen_size_msg, send_start, send_step, SendAction, SendEvent, SendState};
use dovepipe::ProtocolError;

#[test]
fn receiver_asks_for_size_first() {
    let (s, a) = recv_start();
    assert_eq!(s, RecvState::AwaitingSize);
    assert_eq!(a, RecvAction::SendUntilReply { msg: vec![9], interval_ms: 50 });
}

#[test]
fn receiver_keeps_asking_until_size_arrives() {
    let (s, a) = recv_step(RecvState::AwaitingSize, RecvEvent::Datagram(vec![255]));
    assert_eq!(s, RecvState::AwaitingSize);
    assert_eq!(a, RecvAction::SendUntilReply { msg: vec![9], interval_ms: 50 });
    let (s, a) = recv_step(RecvState::AwaitingSize, RecvEvent::Datagram(gen_size_msg(1000)));
    assert_eq!(s, RecvState::Receiving { first: true });
    assert_eq!(a, RecvAction::StartTracking { size: 1000 });
}

#[test]
fn receiver_waits_after_setup_and_skips_noise() {
    let first = RecvState::Receiving { first: true };
    assert_eq!(
        recv_step(first.clone(), RecvEvent::Ready),
        (first.clone(), RecvAction::Wait { timeout_ms: 2000 })
    );
    assert_eq!(
        recv_step(first.clone(), RecvEvent::Datagram(vec![255])),
        (first.clone(), RecvAction::Wait { timeout_ms: 2000 })
    );
    assert_eq!(
        recv_step(first.clone(), RecvEvent::Datagram(gen_size_msg(1000))),
        (first.clone(), RecvAction::Wait { timeout_ms: 2000 })
    );
    assert_eq!(
        recv_step(first.clone(), RecvEvent::Timeout),
        (first.clone(), RecvAction::Wait { timeout_ms: 2000 })
    );
    assert_eq!(
        recv_step(first, RecvEvent::Datagram(vec![5])),
        (RecvState::Checking, RecvAction::QueryTracker)
    );
}

#[test]
fn receiver_stores_data() {
    let (s, a) = recv_step(
        RecvState::Receiving { first: true },
        RecvEvent::Datagram(get_buf(&3, &[1, 2, 3])),
    );
    assert_eq!(s, RecvState::Receiving { first: false });
    assert_eq!(a, RecvAction::Store { msg_num: 3, data: vec![1, 2, 3] });
}

#[test]
fn receiver_checks_after_done_or_silence() {
    let later = RecvState::Receiving { first: false };
    assert_eq!(
        recv_step(later.clone(), RecvEvent::Datagram(vec![5])),
        (RecvState::Checking, RecvAction::QueryTracker)
    );
    assert_eq!(
        recv_step(later, RecvEvent::Timeout),
        (RecvState::Checking, RecvAction::QueryTracker)
    );
}

#[test]
fn receiver_reports_missing() {
    let report = gen_dropped_msg(vec![1, 4]).unwrap();
    let (s, a) = recv_step(RecvState::Checking, RecvEvent::Unreceived(vec![1, 4]));
    assert_eq!(s, RecvState::Requesting { msg: report.clone() });
    assert_eq!(a, RecvAction::SendUntilReply { msg: report.clone(), interval_ms: 10 });
    // a short answer is not data: report again
    let (s, a) = recv_step(s, RecvEvent::Datagram(vec![255]));
    assert_eq!(s, RecvState::Requesting { msg: report.clone() });
    assert_eq!(a, RecvAction::SendUntilReply { msg: report, interval_ms: 10 });
    // the answer is the first resent chunk
    let (s, a) = recv_step(s, RecvEvent::Datagram(get_buf(&1, &[7])));
    assert_eq!(s, RecvState::Receiving { first: false });
    assert_eq!(a, RecvAction::Store { msg_num: 1, data: vec![7] });
}

#[test]
fn receiver_fails_on_too_long_report() {
    let (s, a) = recv_step(RecvState::Checking, RecvEvent::Unreceived((0..64).collect()));
    assert_eq!(s, RecvState::Done);
    assert_eq!(a, RecvAction::Fail(ProtocolError::TooManyDropped));
}

#[test]
fn receiver_confirms_when_complete() {
    let (s, a) = recv_step(RecvState::Checking, RecvEvent::Unreceived(vec![]));
    assert_eq!(s, RecvState::Confirming);
    assert_eq!(a, RecvAction::Wait { timeout_ms: 1500 });
    let (s, a) = recv_step(s, RecvEvent::Datagram(vec![5]));
    assert_eq!(s, RecvState::Confirming);
    assert_eq!(a, RecvAction::Send { msg: vec![7] });
    let (s, a) = recv_step(s, RecvEvent::Ready);
    assert_eq!(a, RecvAction::Wait { timeout_ms: 1500 });
    let (s, a) = recv_step(s, RecvEvent::Datagram(vec![255]));
    assert_eq!(a, RecvAction::Wait { timeout_ms: 1500 });
    let (s, a) = recv_step(s, RecvEvent::Timeout);
    assert_eq!(s, RecvState::Done);
    assert_eq!(a, RecvAction::Finish);
}

#[test]
fn sender_announces_size_on_request() {
    let (s, a) = send_start(1000);
    assert_eq!(s, SendState::AnnouncingSize { file_len: 1000, has_sent: false });
    assert_eq!(a, SendAction::Wait { timeout_ms: 1500 });
    let (s, a) = send_step(s, SendEvent::Timeout);
    assert_eq!(a, SendAction::Wait { timeout_ms: 1500 });
    let (s, a) = send_step(s, SendEvent::Datagram(vec![255]));
    assert_eq!(a, SendAction::Wait { timeout_ms: 1500 });
    let (s, a) = send_step(s, SendEvent::Datagram(vec![9]));
    assert_eq!(s, SendState::AnnouncingSize { file_len: 1000, has_sent: true });
    assert_eq!(a, SendAction::Send { msg: gen_size_msg(1000) });
    let (s, a) = send_step(s, SendEvent::Ready);
    assert_eq!(a, SendAction::Wait { timeout_ms: 1500 });
    let (s, a) = send_step(s, SendEvent::Timeout);
    assert_eq!(s, SendState::Sending { file_len: 1000, msg_num: 0 });
    assert_eq!(a, SendAction::SendChunk { msg_num: 0 });
}

#[test]
fn sender_first_pass_covers_file() {
    let mut s = SendState::Sending { file_len: 1001, msg_num: 0 };
    let mut sent = vec![0u64];
    loop {
        let (ns, a) = send_step(s, SendEvent::Ready);
        s = ns;
        match a {
            SendAction::SendChunk { msg_num } => sent.push(msg_num),
            other => {
                assert_eq!(other, SendAction::SendUntilReply { msg: vec![5], interval_ms: 100 });
                break;
            }
        }
    }
    assert_eq!(sent, vec![0, 1, 2]);
    assert_eq!(s, SendState::AwaitingReport);
}

#[test]
fn sender_sends_one_chunk_of_empty_file() {
    let (s, a) = send_step(SendState::Sending { file_len: 0, msg_num: 0 }, SendEvent::Ready);
    assert_eq!(s, SendState::AwaitingReport);
    assert_eq!(a, SendAction::SendUntilReply { msg: vec![5], interval_ms: 100 });
}

#[test]
fn sender_resends_reported_messages() {
    let report = gen_dropped_msg(vec![4, 9]).unwrap();
    let (s, a) = send_step(SendState::AwaitingReport, SendEvent::Datagram(report));
    assert_eq!(s, SendState::Resending { missed: vec![4, 9], idx: 0 });
    assert_eq!(a, SendAction::SendChunk { msg_num: 4 });
    let (s, a) = send_step(s, SendEvent::Ready);
    assert_eq!(a, SendAction::SendChunk { msg_num: 9 });
    let (s, a) = send_step(s, SendEvent::Ready);
    assert_eq!(s, SendState::AwaitingReport);
    assert_eq!(a, SendAction::SendUntilReply { msg: vec![5], interval_ms: 100 });
}

#[test]
fn sender_asks_again_on_empty_report() {
    let (s, a) = send_step(SendState::AwaitingReport, SendEvent::Datagram(vec![6]));
    assert_eq!(s, SendState::AwaitingReport);
    assert_eq!(a, SendAction::SendUntilReply { msg: vec![5], interval_ms: 100 });
}

#[test]
fn sender_finishes_on_confirmation() {
    let (s, a) = send_step(SendState::AwaitingReport, SendEvent::Datagram(vec![7]));
    assert_eq!(s, SendState::Done);
    assert_eq!(a, SendAction::Finish);
}

#[test]
fn receiver_passes_over_size_code_before_first_data() {
    // Before any data, a datagram starting with the size code is taken for a
    // repeated size message, even when it is a data message whose number
    // starts with that byte.
    let odd = get_buf(&(8u64 << 56), &[1]);
    assert_eq!(
        recv_step(RecvState::Receiving { first: true }, RecvEvent::Datagram(odd.clone())),
        (RecvState::Receiving { first: true }, RecvAction::Wait { timeout_ms: 2000 })
    );
    assert_eq!(
        recv_step(RecvState::Receiving { first: false }, RecvEvent::Datagram(odd)),
        (
            RecvState::Receiving { first: false },
            RecvAction::Store { msg_num: 8u64 << 56, data: vec![1] }
        )
    );
}
