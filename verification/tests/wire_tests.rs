use dovepipe::bits::{from_binary, set_bit, to_binary};
use dovepipe::reciever::{gen_dropped_msg, parse_size_reply, read_data_msg};
use dovepipe::sender::{gen_size_msg, parse_missed};
use dovepipe::{get_buf, u8s_to_u64, ProtocolError};

#[test]
fn to_binary_most_significant_first() {
    assert_eq!(
        to_binary(0b1010_0001),
        [true, false, true, false, false, false, false, true]
    );
    assert_eq!(to_binary(0), [false; 8]);
    assert_eq!(to_binary(255), [true; 8]);
}

#[test]
fn from_binary_most_significant_first() {
    assert_eq!(from_binary([true, false, true, false, false, false, false, true]), 0xA1);
    assert_eq!(from_binary([false; 8]), 0);
    assert_eq!(from_binary([true; 8]), 255);
    assert_eq!(from_binary([false, false, false, false, false, false, false, true]), 1);
}

#[test]
fn binary_roundtrip_every_byte() {
    for b in 0..=255u8 {
        assert_eq!(from_binary(to_binary(b)), b);
        let bits = to_binary(b);
        assert_eq!(to_binary(from_binary(bits)), bits);
    }
}

#[test]
fn set_bit_sets_only_that_bit() {
    assert_eq!(set_bit(0, 0), 128);
    assert_eq!(set_bit(0, 7), 1);
    assert_eq!(set_bit(0b0100_0000, 2), 0b0110_0000);
    assert_eq!(set_bit(0xFF, 3), 0xFF);
}

#[test]
fn u8s_to_u64_reads_big_endian() {
    assert_eq!(u8s_to_u64(&[0, 0, 0, 0, 0, 0, 1, 2]), Ok(258));
    assert_eq!(u8s_to_u64(&[1, 0, 0, 0, 0, 0, 0, 0]), Ok(1u64 << 56));
    assert_eq!(u8s_to_u64(&u64::MAX.to_be_bytes()), Ok(u64::MAX));
}

#[test]
fn u8s_to_u64_refuses_other_lengths() {
    assert_eq!(u8s_to_u64(&[1, 2, 3]), Err(ProtocolError::NotEightBytes));
    assert_eq!(u8s_to_u64(&[0; 9]), Err(ProtocolError::NotEightBytes));
    assert_eq!(u8s_to_u64(&[]), Err(ProtocolError::NotEightBytes));
}

#[test]
fn u8s_to_u64_roundtrip() {
    for x in [0u64, 1, 255, 256, 123_456_789, u64::MAX - 1, u64::MAX] {
        assert_eq!(u8s_to_u64(&x.to_be_bytes()), Ok(x));
    }
}

#[test]
fn get_buf_puts_number_before_data() {
    assert_eq!(get_buf(&1, &[9, 9]), vec![0, 0, 0, 0, 0, 0, 0, 1, 9, 9]);
    assert_eq!(get_buf(&0x0102, &[]), vec![0, 0, 0, 0, 0, 0, 1, 2]);
}

#[test]
fn data_message_roundtrip() {
    let data: Vec<u8> = (0..500u32).map(|i| (i % 251) as u8).collect();
    let msg = get_buf(&77, &data);
    assert_eq!(msg.len(), 508);
    let (num, rest) = read_data_msg(&msg);
    assert_eq!(num, 77);
    assert_eq!(rest, data);
}

#[test]
fn size_message_format() {
    assert_eq!(gen_size_msg(1000), vec![8, 0, 0, 0, 0, 0, 0, 3, 232]);
    assert_eq!(parse_size_reply(&gen_size_msg(1000)), Some(1000));
    assert_eq!(parse_size_reply(&gen_size_msg(u64::MAX)), Some(u64::MAX));
}

#[test]
fn size_reply_refuses_other_messages() {
    assert_eq!(parse_size_reply(&[8, 1]), None);
    assert_eq!(parse_size_reply(&[7, 0, 0, 0, 0, 0, 0, 3, 232]), None);
    assert_eq!(parse_size_reply(&[8, 0, 0, 0, 0, 0, 0, 3, 232, 0]), None);
    assert_eq!(parse_size_reply(&[]), None);
}

#[test]
fn dropped_message_format() {
    let msg = gen_dropped_msg(vec![1, 258]).unwrap();
    assert_eq!(
        msg,
        vec![6, 0, 0, 0, 0, 0, 0, 0, 1, 0, 0, 0, 0, 0, 0, 1, 2]
    );
    assert_eq!(gen_dropped_msg(vec![]).unwrap(), vec![6]);
}

#[test]
fn dropped_message_limit() {
    let most: Vec<u64> = (0..63).collect();
    let msg = gen_dropped_msg(most.clone()).unwrap();
    assert_eq!(msg.len(), 1 + 63 * 8);
    let too_many: Vec<u64> = (0..64).collect();
    assert_eq!(gen_dropped_msg(too_many), Err(ProtocolError::TooManyDropped));
}

#[test]
fn dropped_message_roundtrip() {
    let ds = vec![0u64, 5, 17, 1 << 40, u64::MAX];
    let msg = gen_dropped_msg(ds.clone()).unwrap();
    assert_eq!(parse_missed(&msg), ds);
}

#[test]
fn parse_missed_ignores_partial_tail() {
    assert_eq!(parse_missed(&[6]), Vec::<u64>::new());
    assert_eq!(parse_missed(&[6, 0, 0, 0, 0, 0, 0, 0, 4, 1, 2]), vec![4]);
}
