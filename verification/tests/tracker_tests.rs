use dovepipe::tracker::{
    get_msg_amt, get_num_of_pos, get_offset, get_pos_of_num, get_tracker_len, unrecv_from_bytes,
    MemProgTracker,
};

#[test]
fn msg_amt_rounds_up() {
    assert_eq!(get_msg_amt(0), 0);
    assert_eq!(get_msg_amt(1), 1);
    assert_eq!(get_msg_amt(500), 1);
    assert_eq!(get_msg_amt(501), 2);
    assert_eq!(get_msg_amt(1000), 2);
    assert_eq!(get_msg_amt(u64::MAX), u64::MAX / 500 + 1);
}

#[test]
fn tracker_size_for_64gb_is_16mb() {
    assert_eq!(get_tracker_len(64_000_000_000), 16_000_000);
    assert_eq!(get_tracker_len(0), 0);
    assert_eq!(get_tracker_len(1), 1);
    assert_eq!(get_tracker_len(4000), 1);
    assert_eq!(get_tracker_len(4001), 2);
}

#[test]
fn offset_is_chunk_start() {
    assert_eq!(get_offset(0), 0);
    assert_eq!(get_offset(3), 1500);
}

#[test]
fn position_roundtrip() {
    assert_eq!(get_pos_of_num(17), (2, 1));
    assert_eq!(get_num_of_pos(2, 1), 17);
    for n in [0u64, 7, 8, 9, 63, 64, 1_000_003] {
        let (byte, pos) = get_pos_of_num(n);
        assert!(pos < 8);
        assert_eq!(get_num_of_pos(byte, pos), n);
    }
}

#[test]
fn unrecv_lists_unset_bits_below_total() {
    assert_eq!(unrecv_from_bytes(&[0b1011_1111, 0], 10), vec![1, 8, 9]);
    assert_eq!(unrecv_from_bytes(&[0b1011_1111, 0], 1), Vec::<u64>::new());
    assert_eq!(unrecv_from_bytes(&[0xFF, 0xFF], 16), Vec::<u64>::new());
}

#[test]
fn unrecv_stops_at_end_of_bytes() {
    assert_eq!(unrecv_from_bytes(&[0xFF], 20), Vec::<u64>::new());
    assert_eq!(unrecv_from_bytes(&[0xFE], 20), vec![7]);
    assert_eq!(unrecv_from_bytes(&[], 5), Vec::<u64>::new());
}

#[test]
fn unrecv_reports_at_most_63() {
    let all = unrecv_from_bytes(&[0; 10], 80);
    assert_eq!(all, (0..63).collect::<Vec<u64>>());
    let exactly = unrecv_from_bytes(&[0; 8], 63);
    assert_eq!(exactly, (0..63).collect::<Vec<u64>>());
}

#[test]
fn new_tracker_misses_everything() {
    let t = MemProgTracker::new(2500);
    assert_eq!(t.get_unrecv(), vec![0, 1, 2, 3, 4]);
    let empty = MemProgTracker::new(0);
    assert_eq!(empty.get_unrecv(), Vec::<u64>::new());
}

#[test]
fn marked_messages_are_not_reported() {
    let mut t = MemProgTracker::new(2500);
    t.recv_msg(2);
    assert_eq!(t.get_unrecv(), vec![0, 1, 3, 4]);
    t.recv_msg(2);
    assert_eq!(t.get_unrecv(), vec![0, 1, 3, 4]);
    t.recv_msg(0);
    t.recv_msg(4);
    assert_eq!(t.get_unrecv(), vec![1, 3]);
}

#[test]
fn complete_tracker_reports_nothing() {
    let size = 500 * 100 + 1;
    let mut t = MemProgTracker::new(size);
    assert_eq!(t.get_unrecv(), (0..63).collect::<Vec<u64>>());
    for n in (0..101).rev() {
        t.recv_msg(n);
    }
    assert_eq!(t.get_unrecv(), Vec::<u64>::new());
}

#[test]
fn large_tracker_reports_in_order_from_the_start() {
    let mut t = MemProgTracker::new(500 * 200);
    for n in 0..150 {
        if n % 3 != 0 {
            t.recv_msg(n);
        }
    }
    let expected: Vec<u64> = (0..150)
        .filter(|n| n % 3 == 0)
        .chain(150..200)
        .take(63)
        .collect();
    assert_eq!(t.get_unrecv(), expected);
}
