use std::collections::VecDeque;

use dovepipe::get_buf;
use dovepipe::reciever::{recv_start, recv_step, RecvAction, RecvEvent};
use dovepipe::sender::{send_start, send_step, SendAction, SendEvent};
use dovepipe::tracker::{get_offset, MemProgTracker};

/// Runs a whole transfer of `file` between the two peers over an in-memory
/// link that loses the first sending of each chunk listed in `lose`.
fn transfer(file: &[u8], lose: &[u64]) -> Vec<u8> {
    let mut to_recv: VecDeque<Vec<u8>> = VecDeque::new();
    let mut to_send: VecDeque<Vec<u8>> = VecDeque::new();
    let mut lost: Vec<u64> = Vec::new();

    let (mut rs, mut ra) = recv_start();
    let (mut ss, mut sa) = send_start(file.len() as u64);
    let mut r_sent = false;
    let mut s_sent = false;
    let mut tracker: Option<MemProgTracker> = None;
    let mut out: Vec<u8> = Vec::new();
    let mut r_done = false;
    let mut s_done = false;

    for _ in 0..100_000 {
        if r_done && s_done {
            return out;
        }
        let mut progressed = false;

        // receiver
        if !r_done {
            let event = match &ra {
                RecvAction::SendUntilReply { msg, .. } => {
                    if !r_sent {
                        to_send.push_back(msg.clone());
                        r_sent = true;
                    }
                    to_recv.pop_front().map(RecvEvent::Datagram)
                }
                RecvAction::Wait { .. } => to_recv.pop_front().map(RecvEvent::Datagram),
                RecvAction::StartTracking { size } => {
                    tracker = Some(MemProgTracker::new(*size));
                    out = vec![0; *size as usize];
                    Some(RecvEvent::Ready)
                }
                RecvAction::Store { msg_num, data } => {
                    let off = get_offset(*msg_num) as usize;
                    out[off..off + data.len()].copy_from_slice(data);
                    tracker.as_mut().unwrap().recv_msg(*msg_num);
                    Some(RecvEvent::Ready)
                }
                RecvAction::QueryTracker => {
                    Some(RecvEvent::Unreceived(tracker.as_ref().unwrap().get_unrecv()))
                }
                RecvAction::Send { msg } => {
                    to_send.push_back(msg.clone());
                    Some(RecvEvent::Ready)
                }
                RecvAction::Finish => {
                    r_done = true;
                    None
                }
                RecvAction::Fail(e) => panic!("receiver failed: {:?}", e),
            };
            if let Some(e) = event {
                r_sent = false;
                let (s, a) = recv_step(rs, e);
                rs = s;
                ra = a;
                progressed = true;
            }
        }

        // sender
        if !s_done {
            let event = match &sa {
                SendAction::SendUntilReply { msg, .. } => {
                    if !s_sent {
                        to_recv.push_back(msg.clone());
                        s_sent = true;
                    }
                    to_send.pop_front().map(SendEvent::Datagram)
                }
                SendAction::Wait { .. } => to_send.pop_front().map(SendEvent::Datagram),
                SendAction::Send { msg } => {
                    to_recv.push_back(msg.clone());
                    Some(SendEvent::Ready)
                }
                SendAction::SendChunk { msg_num } => {
                    let start = get_offset(*msg_num) as usize;
                    let end = (start + 500).min(file.len());
                    let chunk = if start < file.len() { &file[start..end] } else { &[][..] };
                    let buf = get_buf(msg_num, chunk);
                    if lose.contains(msg_num) && !lost.contains(msg_num) {
                        lost.push(*msg_num);
                    } else {
                        to_recv.push_back(buf);
                    }
                    Some(SendEvent::Ready)
                }
                SendAction::Finish => {
                    s_done = true;
                    None
                }
            };
            if let Some(e) = event {
                s_sent = false;
                let (s, a) = send_step(ss, e);
                ss = s;
                sa = a;
                progressed = true;
            }
        }

        if !progressed {
            // Nothing arrived: the shorter repeat intervals fire before the waits run out.
            let r_repeats = matches!(ra, RecvAction::SendUntilReply { .. }) && !r_done;
            let s_repeats = matches!(sa, SendAction::SendUntilReply { .. }) && !s_done;
            if r_repeats || s_repeats {
                if r_repeats {
                    r_sent = false;
                }
                if s_repeats {
                    s_sent = false;
                }
            } else {
                if !r_done && matches!(ra, RecvAction::Wait { .. }) {
                    let (s, a) = recv_step(rs, RecvEvent::Timeout);
                    rs = s;
                    ra = a;
                }
                if !s_done && matches!(sa, SendAction::Wait { .. }) {
                    let (s, a) = send_step(ss, SendEvent::Timeout);
                    ss = s;
                    sa = a;
                }
            }
        }
    }
    panic!("transfer did not finish: {:?} {:?}", rs, ss);
}

fn sample_file(len: usize) -> Vec<u8> {
    (0..len).map(|i| (i * 7 % 256) as u8).collect()
}

#[test]
fn transfer_without_loss() {
    let file = sample_file(2345);
    assert_eq!(transfer(&file, &[]), file);
}

#[test]
fn transfer_with_lost_chunks() {
    let file = sample_file(5000);
    assert_eq!(transfer(&file, &[0, 3, 9]), file);
}

#[test]
fn transfer_with_many_lost_chunks() {
    let file = sample_file(500 * 150 + 17);
    let lose: Vec<u64> = (0..151).filter(|n| n % 2 == 1).collect();
    assert_eq!(transfer(&file, &lose), file);
}

#[test]
fn transfer_of_exact_chunks() {
    let file = sample_file(1500);
    assert_eq!(transfer(&file, &[2]), file);
}

#[test]
fn transfer_with_whole_first_pass_lost() {
    let file = sample_file(500 * 80 + 3);
    let lose: Vec<u64> = (0..81).collect();
    assert_eq!(transfer(&file, &lose), file);
}

#[test]
fn transfer_of_one_chunk_lost_first() {
    let file = sample_file(10);
    assert_eq!(transfer(&file, &[0]), file);
}
