use librazer::error::DeviceError;
use librazer::frame::{parse_response, Frame, ARGS_SIZE, FRAME_SIZE, REPORT_SIZE};

fn sample() -> Frame {
    Frame::new(0x1f, 0x0d, 0x82, &[1, 2, 3])
}

fn report_for(f: &Frame) -> Vec<u8> {
    f.to_report()
}

#[test]
fn new_pads_arguments_with_zeros() {
    let f = sample();
    assert_eq!(f.args.len(), ARGS_SIZE);
    assert_eq!(&f.args[..3], &[1, 2, 3]);
    assert!(f.args[3..].iter().all(|b| *b == 0));
    assert_eq!(f.data_size, 3);
    assert_eq!(f.status, 0);
}

#[test]
fn encode_has_fixed_length_and_layout() {
    let bytes = Frame::new(1, 2, 3, &[4]).encode();
    assert_eq!(bytes.len(), FRAME_SIZE);
    assert_eq!(&bytes[..9], &[0, 1, 0, 0, 0, 1, 2, 3, 4]);
    assert_eq!(bytes[FRAME_SIZE - 1], 5);
}

#[test]
fn checksum_of_all_zero_frame_is_zero() {
    let bytes = Frame::new(0, 0, 0, &[]).encode();
    assert!(bytes.iter().all(|b| *b == 0));
}

#[test]
fn remaining_packets_is_big_endian() {
    let mut f = sample();
    f.remaining_packets = 0x1234;
    let bytes = f.encode();
    assert_eq!(bytes[2], 0x12);
    assert_eq!(bytes[3], 0x34);
    assert_eq!(Frame::decode(&bytes), Ok(f));
}

#[test]
fn decode_of_encode_round_trips() {
    let mut f = sample();
    f.status = 2;
    f.protocol_type = 7;
    f.args[ARGS_SIZE - 1] = 0xff;
    let bytes = f.encode();
    assert_eq!(Frame::decode(&bytes), Ok(f));
}

#[test]
fn every_single_byte_change_fails_the_checksum() {
    let bytes = sample().encode();
    for i in 0..FRAME_SIZE {
        let mut m = bytes.clone();
        m[i] ^= 0x40;
        assert_eq!(Frame::decode(&m), Err(DeviceError::ResponseChecksumInvalid), "byte {}", i);
    }
}

#[test]
fn decode_rejects_wrong_length() {
    let bytes = sample().encode();
    assert_eq!(Frame::decode(&bytes[..FRAME_SIZE - 1]), Err(DeviceError::ResponseSizeMismatch));
    assert_eq!(Frame::decode(&[]), Err(DeviceError::ResponseSizeMismatch));
}

#[test]
fn report_starts_with_report_id() {
    let f = sample();
    let r = report_for(&f);
    assert_eq!(r.len(), REPORT_SIZE);
    assert_eq!(r[0], 0);
    assert_eq!(&r[1..], f.encode().as_slice());
}

#[test]
fn response_to_the_same_command_is_accepted() {
    let req = sample();
    let mut resp = req.clone();
    resp.status = 2;
    resp.args[0] = 9;
    let buf = report_for(&resp);
    assert_eq!(parse_response(&req, &buf, REPORT_SIZE), Ok(resp));
}

#[test]
fn response_size_other_than_report_size_is_rejected() {
    let req = sample();
    let buf = report_for(&req);
    for n in [0, 1, FRAME_SIZE, REPORT_SIZE + 1] {
        assert_eq!(parse_response(&req, &buf, n), Err(DeviceError::ResponseSizeMismatch));
    }
    assert_eq!(
        parse_response(&req, &buf[..FRAME_SIZE], FRAME_SIZE),
        Err(DeviceError::ResponseSizeMismatch)
    );
}

#[test]
fn corrupted_response_fails_the_checksum() {
    let req = sample();
    let mut buf = report_for(&req);
    buf[10] ^= 1;
    assert_eq!(parse_response(&req, &buf, REPORT_SIZE), Err(DeviceError::ResponseChecksumInvalid));
}

#[test]
fn response_to_another_command_is_an_identity_mismatch() {
    let req = sample();
    for (tid, class, id) in [(0x20, 0x0d, 0x82), (0x1f, 0x0e, 0x82), (0x1f, 0x0d, 0x83)] {
        let resp = Frame::new(tid, class, id, &[1, 2, 3]);
        let buf = report_for(&resp);
        assert_eq!(
            parse_response(&req, &buf, REPORT_SIZE),
            Err(DeviceError::ResponseIdentityMismatch)
        );
    }
}

#[test]
fn ensure_matches_report_keeps_the_response() {
    let req = sample();
    let resp = Frame::new(0x1f, 0x0d, 0x82, &[7]);
    assert_eq!(resp.clone().ensure_matches_report(&req), Ok(resp));
    let other = Frame::new(0x1f, 0x0d, 0x00, &[]);
    assert_eq!(other.ensure_matches_report(&req), Err(DeviceError::ResponseIdentityMismatch));
}
