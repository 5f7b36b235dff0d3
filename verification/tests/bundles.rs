use lhe::be32::{push_be32, read_be32};
use lhe::bundle::{
    decode_key_bundle, decode_message_bundle, decode_value_bundle, encode_key_bundle,
    encode_message_bundle, encode_value_bundle, locate_share, push_field, Reader,
};
use lhe::error::LheError;

fn shares_of(lens: &[usize]) -> Vec<Vec<u8>> {
    let mut out = Vec::new();
    for (i, len) in lens.iter().enumerate() {
        let mut share = Vec::new();
        for j in 0..*len {
            share.push((i * 31 + j * 7 + 1) as u8);
        }
        out.push(share);
    }
    out
}

#[test]
fn numbers_are_written_most_significant_byte_first() {
    let mut out = Vec::new();
    push_be32(&mut out, 0x0102_0304);
    push_be32(&mut out, 3);
    push_be32(&mut out, u32::MAX);
    assert_eq!(out, vec![1, 2, 3, 4, 0, 0, 0, 3, 255, 255, 255, 255]);
    assert_eq!(read_be32(&out, 0), 0x0102_0304);
    assert_eq!(read_be32(&out, 4), 3);
    assert_eq!(read_be32(&out, 8), u32::MAX);
    assert_eq!(read_be32(&out, 2), 0x0304_0000);
}

#[test]
fn field_is_length_then_bytes() {
    let mut out = vec![9u8];
    assert_eq!(push_field(&mut out, &[7, 8, 9]), Ok(()));
    assert_eq!(out, vec![9, 0, 0, 0, 3, 7, 8, 9]);
    assert_eq!(push_field(&mut out, &[]), Ok(()));
    assert_eq!(out, vec![9, 0, 0, 0, 3, 7, 8, 9, 0, 0, 0, 0]);
}

#[test]
fn key_bundle_has_the_documented_layout() {
    let shares = vec![vec![0xaa, 0xbb], vec![0xcc]];
    let bytes = encode_key_bundle(2, 3, &shares).unwrap();
    assert_eq!(
        bytes,
        vec![
            0, 0, 0, 2, // t
            0, 0, 0, 3, // n
            0, 0, 0, 2, // count
            0, 0, 0, 2, 0xaa, 0xbb, // first share
            0, 0, 0, 1, 0xcc, // second share
        ]
    );
}

#[test]
fn key_bundle_round_trips_without_shares() {
    let bytes = encode_key_bundle(2, 3, &vec![]).unwrap();
    assert_eq!(bytes.len(), 12);
    let bundle = decode_key_bundle(&bytes).unwrap();
    assert_eq!(bundle.t, 2);
    assert_eq!(bundle.n, 3);
    assert!(bundle.shares.is_empty());
}

#[test]
fn key_bundle_round_trips_with_one_share() {
    let shares = shares_of(&[5]);
    let bytes = encode_key_bundle(1, 3, &shares).unwrap();
    let bundle = decode_key_bundle(&bytes).unwrap();
    assert_eq!(bundle.t, 1);
    assert_eq!(bundle.n, 3);
    assert_eq!(bundle.shares, shares);
}

#[test]
fn key_bundle_round_trips_with_shares_of_varying_lengths() {
    let shares = shares_of(&[3, 0, 17, 1, 256, 64]);
    let bytes = encode_key_bundle(4, 6, &shares).unwrap();
    let bundle = decode_key_bundle(&bytes).unwrap();
    assert_eq!(bundle.t, 4);
    assert_eq!(bundle.n, 6);
    assert_eq!(bundle.shares, shares);
}

#[test]
fn key_bundle_with_a_length_past_the_end_is_a_bounds_error() {
    let shares = shares_of(&[4, 4]);
    let mut bytes = encode_key_bundle(2, 3, &shares).unwrap();
    // the second share declares five bytes where four are left
    bytes[23] = 5;
    assert_eq!(decode_key_bundle(&bytes).err(), Some(LheError::Bounds));
    assert_eq!(locate_share(&bytes, 1).err(), Some(LheError::Bounds));
    // a length that is as large as a field can say
    bytes[20] = 0xff;
    bytes[21] = 0xff;
    bytes[22] = 0xff;
    bytes[23] = 0xff;
    assert_eq!(decode_key_bundle(&bytes).err(), Some(LheError::Bounds));
}

#[test]
fn key_bundle_that_is_cut_short_is_a_bounds_error() {
    let shares = shares_of(&[4, 4]);
    let bytes = encode_key_bundle(2, 3, &shares).unwrap();
    for cut in 0..bytes.len() {
        assert_eq!(decode_key_bundle(&bytes[..cut]).err(), Some(LheError::Bounds));
        assert_eq!(locate_share(&bytes[..cut], 1).err(), Some(LheError::Bounds));
    }
}

#[test]
fn key_bundle_with_bytes_after_the_last_share_is_a_bounds_error() {
    let shares = shares_of(&[4, 4]);
    let mut bytes = encode_key_bundle(2, 3, &shares).unwrap();
    bytes.push(0);
    assert_eq!(decode_key_bundle(&bytes).err(), Some(LheError::Bounds));
    assert_eq!(locate_share(&bytes, 2).err(), Some(LheError::Bounds));
}

#[test]
fn key_bundle_that_declares_more_shares_than_it_holds_is_a_bounds_error() {
    let shares = shares_of(&[4, 4]);
    let mut bytes = encode_key_bundle(2, 3, &shares).unwrap();
    bytes[11] = 3;
    assert_eq!(decode_key_bundle(&bytes).err(), Some(LheError::Bounds));
    bytes[8] = 0xff;
    assert_eq!(decode_key_bundle(&bytes).err(), Some(LheError::Bounds));
}

#[test]
fn share_is_located_by_its_number_counted_from_one() {
    let shares = shares_of(&[3, 9, 1]);
    let bytes = encode_key_bundle(2, 3, &shares).unwrap();
    for index in 1..=3usize {
        let located = locate_share(&bytes, index).unwrap();
        assert_eq!(located.t, 2);
        assert_eq!(located.n, 3);
        assert_eq!(located.share, shares[index - 1]);
    }
}

#[test]
fn share_number_outside_the_bundle_is_a_parameter_error() {
    let shares = shares_of(&[3, 9, 1]);
    let bytes = encode_key_bundle(2, 3, &shares).unwrap();
    assert_eq!(locate_share(&bytes, 0).err(), Some(LheError::Parameter));
    assert_eq!(locate_share(&bytes, 4).err(), Some(LheError::Parameter));
    assert_eq!(locate_share(&bytes, usize::MAX).err(), Some(LheError::Parameter));
}

#[test]
fn empty_share_cannot_be_located() {
    let shares = shares_of(&[3, 0, 1]);
    let bytes = encode_key_bundle(2, 3, &shares).unwrap();
    assert_eq!(locate_share(&bytes, 2).err(), Some(LheError::Parameter));
    assert_eq!(locate_share(&bytes, 3).unwrap().share, shares[2]);
}

#[test]
fn message_bundle_has_the_documented_layout() {
    let bytes = encode_message_bundle(2, 3, &[1, 2, 3], &[9, 8]).unwrap();
    assert_eq!(
        bytes,
        vec![0, 0, 0, 2, 0, 0, 0, 3, 0, 0, 0, 3, 1, 2, 3, 0, 0, 0, 2, 9, 8]
    );
}

#[test]
fn message_bundle_round_trips() {
    let nonce: Vec<u8> = (0..12).collect();
    let enc_msg: Vec<u8> = (0..100).map(|i| (i * 3) as u8).collect();
    let bytes = encode_message_bundle(5, 7, &nonce, &enc_msg).unwrap();
    let bundle = decode_message_bundle(&bytes).unwrap();
    assert_eq!(bundle.t, 5);
    assert_eq!(bundle.n, 7);
    assert_eq!(bundle.nonce, nonce);
    assert_eq!(bundle.enc_msg, enc_msg);
    let bytes = encode_message_bundle(1, 3, &[], &[]).unwrap();
    let bundle = decode_message_bundle(&bytes).unwrap();
    assert!(bundle.nonce.is_empty());
    assert!(bundle.enc_msg.is_empty());
}

#[test]
fn message_bundle_that_overruns_or_is_cut_or_padded_is_a_bounds_error() {
    let nonce: Vec<u8> = (0..12).collect();
    let bytes = encode_message_bundle(2, 3, &nonce, &[1, 2, 3, 4]).unwrap();
    for cut in 0..bytes.len() {
        assert_eq!(decode_message_bundle(&bytes[..cut]).err(), Some(LheError::Bounds));
    }
    let mut long = bytes.clone();
    long.push(7);
    assert_eq!(decode_message_bundle(&long).err(), Some(LheError::Bounds));
    let mut overrun = bytes.clone();
    overrun[11] = 200; // the nonce declares 200 bytes
    assert_eq!(decode_message_bundle(&overrun).err(), Some(LheError::Bounds));
    let mut overrun = bytes.clone();
    overrun[27] = 5; // the encrypted message declares five bytes, four are left
    assert_eq!(decode_message_bundle(&overrun).err(), Some(LheError::Bounds));
}

#[test]
fn value_bundle_round_trips() {
    let bytes = encode_value_bundle(&[4, 5, 6]).unwrap();
    assert_eq!(bytes, vec![0, 0, 0, 3, 4, 5, 6]);
    assert_eq!(decode_value_bundle(&bytes), Ok(vec![4, 5, 6]));
    let bytes = encode_value_bundle(&[]).unwrap();
    assert_eq!(bytes, vec![0, 0, 0, 0]);
    assert_eq!(decode_value_bundle(&bytes), Ok(vec![]));
}

#[test]
fn value_bundle_that_overruns_or_is_padded_is_a_bounds_error() {
    assert_eq!(decode_value_bundle(&[]), Err(LheError::Bounds));
    assert_eq!(decode_value_bundle(&[0, 0, 0]), Err(LheError::Bounds));
    assert_eq!(decode_value_bundle(&[0, 0, 0, 2, 1]), Err(LheError::Bounds));
    assert_eq!(decode_value_bundle(&[0, 0, 0, 1, 1, 1]), Err(LheError::Bounds));
    assert_eq!(decode_value_bundle(&[255, 255, 255, 255, 1]), Err(LheError::Bounds));
}

#[test]
fn reader_moves_only_forward_and_stays_where_it_fails() {
    let data = [0u8, 0, 0, 7, 0, 0, 0, 2, 0xaa, 0xbb, 0, 0, 0, 9, 1];
    let mut reader = Reader::new(&data);
    assert_eq!(reader.finish(), Err(LheError::Bounds));
    assert_eq!(reader.read_u32(), Ok(7));
    assert_eq!(reader.skip_field(), Ok((8, 10)));
    // nine bytes are declared, one is left: the cursor stays
    assert_eq!(reader.read_field(), Err(LheError::Bounds));
    assert_eq!(reader.read_u32(), Ok(9));
    assert_eq!(reader.read_u32(), Err(LheError::Bounds));
    assert_eq!(reader.skip_field(), Err(LheError::Bounds));
    assert_eq!(reader.finish(), Err(LheError::Bounds));
    let mut reader = Reader::new(&data[..10]);
    assert_eq!(reader.read_u32(), Ok(7));
    assert_eq!(reader.read_field(), Ok(vec![0xaa, 0xbb]));
    assert_eq!(reader.finish(), Ok(()));
}
