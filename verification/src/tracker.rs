//! Progress tracking: one flag per message, eight to a byte, most significant
//! bit first.

use vstd::prelude::*;
use crate::bits::{binary_of, set_bit, to_binary, lemma_zero_byte};

verus! {

/// Bytes of file content carried by one data message.
pub const CHUNK_LEN: u64 = 500;

/// The most message numbers that one report of missed messages carries.
pub const MAX_DROPPED: usize = 63;

/// How many messages a file of `file_len` bytes is cut into.
pub open spec fn msg_amt(file_len: nat) -> nat {
    if file_len % 500 == 0 {
        file_len / 500
    } else {
        file_len / 500 + 1
    }
}

/// How many bytes the progress tracker of a file of `file_len` bytes takes:
/// one bit per message.
pub open spec fn tracker_bytes(file_len: nat) -> nat {
    let m = msg_amt(file_len);
    if m % 8 == 0 {
        m / 8
    } else {
        m / 8 + 1
    }
}

/// The flags held by the tracker bytes `bytes`: flag `n` is bit `n % 8` of
/// byte `n / 8`.
pub open spec fn flags_of(bytes: Seq<u8>) -> Seq<bool> {
    Seq::new(8 * bytes.len(), |n: int| binary_of(bytes[n / 8])[n % 8])
}

/// The message numbers below `k` whose flag is not set, in increasing order.
pub open spec fn missing_below(flags: Seq<bool>, k: nat) -> Seq<u64>
    decreases k,
{
    if k == 0 {
        seq![]
    } else {
        let prev = missing_below(flags, (k - 1) as nat);
        if !flags[k - 1] {
            prev.push((k - 1) as u64)
        } else {
            prev
        }
    }
}

/// What a tracker with `flags` reports for a file of `total` messages: the first
/// (at most `MAX_DROPPED`) message numbers below `total` whose flag is not set,
/// in increasing order.
pub open spec fn unreceived(flags: Seq<bool>, total: nat) -> Seq<u64> {
    let limit = if total <= flags.len() { total } else { flags.len() };
    let all = missing_below(flags, limit);
    if all.len() > MAX_DROPPED {
        all.take(MAX_DROPPED as int)
    } else {
        all
    }
}

/// Number of messages for a file of `file_len` bytes: the length divided by
/// the chunk length, rounded up.
pub fn get_msg_amt(file_len: u64) -> (r: u64)
    ensures
        r == msg_amt(file_len as nat),
{
    if file_len % 500 == 0 {
        file_len / 500
    } else {
        file_len / 500 + 1
    }
}

/// Number of tracker bytes for a file of `file_len` bytes.
pub fn get_tracker_len(file_len: u64) -> (r: u64)
    ensures
        r == tracker_bytes(file_len as nat),
{
    let m = get_msg_amt(file_len);
    if m % 8 == 0 {
        m / 8
    } else {
        m / 8 + 1
    }
}

/// The byte of the file where message `msg_num` starts.
pub fn get_offset(msg_num: u64) -> (r: u64)
    requires
        msg_num * 500 <= u64::MAX,
    ensures
        r == msg_num * 500,
{
    msg_num * 500
}

/// The tracker byte and the bit in it (most significant first) of message `num`.
pub fn get_pos_of_num(num: u64) -> (r: (u64, u8))
    ensures
        r.0 == num / 8,
        r.1 == num % 8,
{
    let cell = num / 8;
    let cellpos = num % 8;
    (cell, cellpos as u8)
}

/// The message number of bit `pos` of tracker byte `byte`.
pub fn get_num_of_pos(byte: u64, pos: u8) -> (r: u64)
    requires
        byte * 8 + pos <= u64::MAX,
    ensures
        r == byte * 8 + pos,
{
    byte * 8 + pos as u64
}

/// `get_pos_of_num` and `get_num_of_pos` undo each other: a message number is
/// found again from its place, and a place (with a bit below eight) from its
/// message number.
pub proof fn lemma_pos_roundtrip(num: nat, byte: nat, pos: nat)
    ensures
        (num / 8) * 8 + num % 8 == num,
        pos < 8 ==> (byte * 8 + pos) / 8 == byte && (byte * 8 + pos) % 8 == pos,
{
}

/// The number of messages covers the file and no message more: `msg_amt`
/// chunks of 500 bytes hold the file, one chunk fewer does not.
pub proof fn lemma_msg_amt_covers(file_len: nat)
    ensures
        msg_amt(file_len) * 500 >= file_len,
        msg_amt(file_len) > 0 ==> (msg_amt(file_len) - 1) * 500 < file_len,
        tracker_bytes(file_len) * 8 >= msg_amt(file_len),
{
}

proof fn lemma_missing_prefix(flags: Seq<bool>, a: nat, b: nat)
    requires
        a <= b <= flags.len(),
    ensures
        missing_below(flags, b).len() >= missing_below(flags, a).len(),
        missing_below(flags, b).take(missing_below(flags, a).len() as int) == missing_below(flags, a),
    decreases b,
{
    if a < b {
        lemma_missing_prefix(flags, a, (b - 1) as nat);
        let pa = missing_below(flags, a);
        let pb = missing_below(flags, (b - 1) as nat);
        assert(pb.push((b - 1) as u64).take(pa.len() as int) =~= pb.take(pa.len() as int));
    } else {
        assert(missing_below(flags, b).take(missing_below(flags, a).len() as int) =~= missing_below(flags, a));
    }
}

proof fn lemma_missing_below_facts(flags: Seq<bool>, k: nat)
    requires
        k <= flags.len(),
        k <= u64::MAX,
    ensures
        forall|i: int| 0 <= i < missing_below(flags, k).len() ==> #[trigger] missing_below(flags, k)[i] < k
            && !flags[missing_below(flags, k)[i] as int],
        forall|i: int, j: int| 0 <= i < j < missing_below(flags, k).len() ==> #[trigger] missing_below(flags, k)[i]
            < #[trigger] missing_below(flags, k)[j],
        forall|n: int| 0 <= n < k && !flags[n] ==> #[trigger] missing_below(flags, k).contains(n as u64),
        missing_below(flags, k).len() == 0 <==> forall|n: int| 0 <= n < k ==> #[trigger] flags[n],
    decreases k,
{
    if k > 0 {
        let prev = missing_below(flags, (k - 1) as nat);
        lemma_missing_below_facts(flags, (k - 1) as nat);
        if !flags[k - 1] {
            let cur = prev.push((k - 1) as u64);
            assert forall|i: int| 0 <= i < cur.len() implies #[trigger] cur[i] < k && !flags[cur[i] as int] by {
                if i < prev.len() {
                    assert(cur[i] == prev[i]);
                }
            }
            assert forall|i: int, j: int| 0 <= i < j < cur.len() implies #[trigger] cur[i] < #[trigger] cur[j] by {
                assert(cur[i] == prev[i]);
                if j < prev.len() {
                    assert(cur[j] == prev[j]);
                }
            }
            assert forall|n: int| 0 <= n < k && !flags[n] implies #[trigger] cur.contains(n as u64) by {
                if n < k - 1 {
                    assert(prev.contains(n as u64));
                    let w = choose|w: int| 0 <= w < prev.len() && prev[w] == n as u64;
                    assert(cur[w] == n as u64);
                } else {
                    assert(cur[prev.len() as int] == n as u64);
                }
            }
        } else {
            assert forall|n: int| 0 <= n < k && !flags[n] implies #[trigger] prev.contains(n as u64) by {
                assert(n < k - 1);
            }
        }
    }
}

/// What a tracker reports is missing is exactly what it lacks: every number it
/// reports is below the total and not received, the numbers come in increasing
/// order, there are at most `MAX_DROPPED` of them, a short report leaves out no
/// missing message, and the report is empty exactly when every message of the
/// file has been received.
pub proof fn lemma_unreceived_exact(flags: Seq<bool>, total: nat)
    requires
        total <= flags.len(),
        total <= u64::MAX,
    ensures
        unreceived(flags, total).len() <= MAX_DROPPED,
        forall|i: int| 0 <= i < unreceived(flags, total).len() ==> #[trigger] unreceived(flags, total)[i]
            < total && !flags[unreceived(flags, total)[i] as int],
        forall|i: int, j: int| 0 <= i < j < unreceived(flags, total).len() ==> #[trigger] unreceived(
            flags,
            total,
        )[i] < #[trigger] unreceived(flags, total)[j],
        unreceived(flags, total).len() < MAX_DROPPED ==> forall|n: int| 0 <= n < total && !flags[n]
            ==> #[trigger] unreceived(flags, total).contains(n as u64),
        unreceived(flags, total).len() == 0 <==> forall|n: int| 0 <= n < total ==> #[trigger] flags[n],
{
    lemma_missing_below_facts(flags, total);
    let all = missing_below(flags, total);
    let r = unreceived(flags, total);
    if all.len() > MAX_DROPPED {
        assert forall|i: int| 0 <= i < r.len() implies #[trigger] r[i] < total && !flags[r[i] as int] by {
            assert(r[i] == all[i]);
        }
        assert forall|i: int, j: int| 0 <= i < j < r.len() implies #[trigger] r[i] < #[trigger] r[j] by {
            assert(r[i] == all[i] && r[j] == all[j]);
        }
        assert(r.len() > 0);
        assert(exists|n: int| 0 <= n < total && !flags[n]) by {
            assert(all[0] < total && !flags[all[0] as int]);
        }
    }
}

/// Setting bit `n % 8` of byte `n / 8` sets flag `n` and no other.
pub proof fn lemma_mark_byte(bytes: Seq<u8>, n: nat, byte: u8)
    requires
        n < 8 * bytes.len(),
        binary_of(byte) == binary_of(bytes[(n / 8) as int]).update((n % 8) as int, true),
    ensures
        flags_of(bytes.update((n / 8) as int, byte)) == flags_of(bytes).update(n as int, true),
{
    let new_bytes = bytes.update((n / 8) as int, byte);
    assert forall|k: int| 0 <= k < 8 * bytes.len() implies #[trigger] flags_of(new_bytes)[k]
        == flags_of(bytes).update(n as int, true)[k] by {
        lemma_pos_roundtrip(k as nat, 0, 0);
        lemma_pos_roundtrip(n, 0, 0);
        if k / 8 == n / 8 {
            if k % 8 != n % 8 {
                assert(k != n);
            }
        } else {
            assert(k != n);
        }
    }
    assert(flags_of(new_bytes) =~= flags_of(bytes).update(n as int, true));
}

/// The flags of zero bytes are all clear.
pub proof fn lemma_zero_bytes(len: nat)
    ensures
        flags_of(Seq::new(len, |i: int| 0u8)) == Seq::new(8 * len, |n: int| false),
{
    lemma_zero_byte();
    let zeros = Seq::new(len, |i: int| 0u8);
    let f = flags_of(zeros);
    assert forall|n: int| 0 <= n < 8 * len implies #[trigger] f[n] == false by {
        assert(zeros[n / 8] == 0u8);
    }
    assert(f =~= Seq::new(8 * len, |n: int| false));
}

/// The flags `flags` after the flag of each message in `marks` has been set,
/// one after another.
pub open spec fn mark_all(flags: Seq<bool>, marks: Seq<u64>) -> Seq<bool>
    decreases marks.len(),
{
    if marks.len() == 0 {
        flags
    } else {
        mark_all(flags, marks.drop_last()).update(marks.last() as int, true)
    }
}

proof fn lemma_mark_all(flags: Seq<bool>, marks: Seq<u64>)
    requires
        forall|i: int| 0 <= i < marks.len() ==> #[trigger] marks[i] < flags.len(),
        flags.len() <= u64::MAX,
    ensures
        mark_all(flags, marks).len() == flags.len(),
        forall|n: int| 0 <= n < flags.len() ==> #[trigger] mark_all(flags, marks)[n] == (flags[n]
            || marks.contains(n as u64)),
    decreases marks.len(),
{
    if marks.len() > 0 {
        let prev = marks.drop_last();
        lemma_mark_all(flags, prev);
        assert forall|n: int| 0 <= n < flags.len() implies #[trigger] mark_all(flags, marks)[n] == (
        flags[n] || marks.contains(n as u64)) by {
            if prev.contains(n as u64) {
                let w = choose|w: int| 0 <= w < prev.len() && prev[w] == n as u64;
                assert(marks[w] == n as u64);
            }
            if marks.contains(n as u64) && n != marks.last() {
                let w = choose|w: int| 0 <= w < marks.len() && marks[w] == n as u64;
                assert(w != marks.len() - 1);
                assert(prev[w] == n as u64);
            }
        }
    }
}

/// A run of progress tracking for a file of `size` bytes: starting from a
/// fresh tracker (all flags clear, as `MemProgTracker::new` and a zero-filled
/// tracker file give) and recording the messages `received`, the tracker
/// reports the first (at most `MAX_DROPPED`) messages of the file not among
/// them, in increasing order, leaves none out when it reports fewer, and
/// reports nothing exactly when every message of the file was received.
pub proof fn lemma_tracking_run(size: u64, received: Seq<u64>)
    requires
        forall|i: int| 0 <= i < received.len() ==> #[trigger] received[i] < msg_amt(size as nat),
    ensures
        ({
            let flags = mark_all(Seq::new(8 * tracker_bytes(size as nat), |n: int| false), received);
            let total = msg_amt(size as nat);
            let r = unreceived(flags, total);
            &&& r.len() <= MAX_DROPPED
            &&& forall|i: int| 0 <= i < r.len() ==> #[trigger] r[i] < total && !received.contains(r[i])
            &&& forall|i: int, j: int| 0 <= i < j < r.len() ==> #[trigger] r[i] < #[trigger] r[j]
            &&& r.len() < MAX_DROPPED ==> forall|n: u64| n < total && !received.contains(n)
                ==> #[trigger] r.contains(n)
            &&& r.len() == 0 <==> forall|n: u64| n < total ==> #[trigger] received.contains(n)
        }),
{
    let zeros = Seq::new(8 * tracker_bytes(size as nat), |n: int| false);
    let flags = mark_all(zeros, received);
    let total = msg_amt(size as nat);
    lemma_msg_amt_covers(size as nat);
    assert(total <= u64::MAX);
    assert(zeros.len() <= u64::MAX);
    lemma_mark_all(zeros, received);
    lemma_unreceived_exact(flags, total);
    let r = unreceived(flags, total);
    assert forall|i: int| 0 <= i < r.len() implies #[trigger] r[i] < total && !received.contains(r[i]) by {
        assert(flags[r[i] as int] == (zeros[r[i] as int] || received.contains(r[i])));
    }
    if r.len() < MAX_DROPPED {
        assert forall|n: u64| n < total && !received.contains(n) implies #[trigger] r.contains(n) by {
            assert(flags[n as int] == (zeros[n as int] || received.contains(n)));
        }
    }
    if r.len() == 0 {
        assert forall|n: u64| n < total implies #[trigger] received.contains(n) by {
            assert(flags[n as int]);
        }
    }
    if forall|n: u64| n < total ==> #[trigger] received.contains(n) {
        assert forall|n: int| 0 <= n < total implies #[trigger] flags[n] by {
            assert(received.contains(n as u64));
        }
    }
}

/// Reports the first (at most `MAX_DROPPED`) messages below `total` whose flag
/// in the tracker bytes `bytes` is not set.
pub fn unrecv_from_bytes(bytes: &[u8], total: u64) -> (dropped: Vec<u64>)
    ensures
        dropped@ == unreceived(flags_of(bytes@), total as nat),
{
    let ghost flags = flags_of(bytes@);
    let mut dropped: Vec<u64> = Vec::new();
    let mut i: usize = 0;
    while i < bytes.len()
        invariant
            flags == flags_of(bytes@),
            0 <= i <= bytes.len(),
            8 * i <= total,
            dropped@ == missing_below(flags, (8 * i) as nat),
            dropped.len() < MAX_DROPPED,
        decreases bytes.len() - i,
    {
        let bin = to_binary(bytes[i]);
        let mut bit_pos: u8 = 0;
        while bit_pos < 8
            invariant
                flags == flags_of(bytes@),
                0 <= i < bytes.len(),
                bin@ == binary_of(bytes@[i as int]),
                bit_pos <= 8,
                8 * i + bit_pos <= total,
                dropped@ == missing_below(flags, (8 * i + bit_pos) as nat),
                dropped.len() < MAX_DROPPED,
            decreases 8 - bit_pos,
        {
            let num = get_num_of_pos(i as u64, bit_pos);
            if num == total {
                proof {
                    lemma_pos_roundtrip(0, i as nat, bit_pos as nat);
                }
                return dropped;
            }
            proof {
                lemma_pos_roundtrip(0, i as nat, bit_pos as nat);
                assert(flags[num as int] == bin@[bit_pos as int]);
            }
            if !bin[bit_pos as usize] {
                dropped.push(num);
                if dropped.len() == MAX_DROPPED {
                    proof {
                        let limit = if total <= flags.len() { total as nat } else { flags.len() };
                        lemma_missing_prefix(flags, (num + 1) as nat, limit);
                    }
                    return dropped;
                }
            }
            bit_pos += 1;
        }
        i += 1;
    }
    dropped
}

/// Progress tracking held in memory.
pub struct MemProgTracker {
    tracker: Vec<u8>,
    total: u64,
}

impl View for MemProgTracker {
    type V = Seq<bool>;

    /// One flag per message that the tracker has room for: set once the message
    /// has been received.
    closed spec fn view(&self) -> Seq<bool> {
        flags_of(self.tracker@)
    }
}

impl MemProgTracker {
    /// The tracker has a flag for every message of the file.
    #[verifier::type_invariant]
    spec fn covers_file(self) -> bool {
        self.total as int <= 8 * self.tracker@.len()
    }

    /// The number of messages of the file being received.
    pub closed spec fn msg_total(&self) -> nat {
        self.total as nat
    }

    /// A tracker for a file of `size` bytes, with no message received yet.
    pub fn new(size: u64) -> (t: Self)
        requires
            tracker_bytes(size as nat) <= usize::MAX,
        ensures
            t.msg_total() == msg_amt(size as nat),
            t.msg_total() <= t@.len(),
            t@.len() == 8 * tracker_bytes(size as nat),
            forall|n: int| 0 <= n < t@.len() ==> !#[trigger] t@[n],
    {
        let tracker_size = get_tracker_len(size) as usize;
        let mut tracker: Vec<u8> = Vec::new();
        let mut k: usize = 0;
        while k < tracker_size
            invariant
                k <= tracker_size,
                tracker@.len() == k,
                forall|j: int| 0 <= j < k ==> tracker@[j] == 0u8,
            decreases tracker_size - k,
        {
            tracker.push(0u8);
            k += 1;
        }
        let total = get_msg_amt(size);
        proof {
            lemma_msg_amt_covers(size as nat);
        }
        let t = MemProgTracker { tracker, total };
        proof {
            lemma_zero_byte();
            assert forall|n: int| 0 <= n < t@.len() implies !#[trigger] t@[n] by {
                assert(t.tracker@[n / 8] == 0u8);
            }
        }
        t
    }

    /// Whether the tracker has a flag for message `msg_num`.
    pub fn has_room_for(&self, msg_num: u64) -> (r: bool)
        ensures
            r == (msg_num < self@.len()),
    {
        msg_num / 8 < self.tracker.len() as u64
    }

    /// Records that message `msg_num` has been received.
    pub fn recv_msg(&mut self, msg_num: u64)
        requires
            msg_num < old(self)@.len(),
        ensures
            final(self)@ == old(self)@.update(msg_num as int, true),
            final(self).msg_total() == old(self).msg_total(),
            final(self).msg_total() <= final(self)@.len(),
    {
        proof {
            use_type_invariant(&*self);
        }
        let (offset, pos_in_offset) = get_pos_of_num(msg_num);
        let ghost old_bytes = self.tracker@;
        assert(offset < self.tracker.len());
        let idx = offset as usize;
        let byte = set_bit(self.tracker[idx], pos_in_offset);
        self.tracker[idx] = byte;
        proof {
            lemma_mark_byte(old_bytes, msg_num as nat, byte);
        }
    }

    /// The first (at most `MAX_DROPPED`) messages of the file not received yet,
    /// in increasing order.
    pub fn get_unrecv(&self) -> (dropped: Vec<u64>)
        ensures
            self.msg_total() <= u64::MAX,
            self.msg_total() <= self@.len(),
            dropped@ == unreceived(self@, self.msg_total()),
            dropped@.len() <= MAX_DROPPED,
            forall|i: int| 0 <= i < dropped@.len() ==> #[trigger] dropped@[i] < self.msg_total()
                && !self@[dropped@[i] as int],
            forall|i: int, j: int| 0 <= i < j < dropped@.len() ==> #[trigger] dropped@[i]
                < #[trigger] dropped@[j],
            dropped@.len() < MAX_DROPPED ==> forall|n: int| 0 <= n < self.msg_total() && !self@[n]
                ==> #[trigger] dropped@.contains(n as u64),
            dropped@.len() == 0 <==> forall|n: int| 0 <= n < self.msg_total() ==> #[trigger] self@[n],
    {
        proof {
            use_type_invariant(self);
            lemma_unreceived_exact(self@, self.msg_total());
        }
        unrecv_from_bytes(self.tracker.as_slice(), self.total)
    }
}

} // verus!
