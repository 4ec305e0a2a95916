use hacklet::frame::FrameError;
use hacklet::messages::{
    AckResponse, BootConfirmRequest, BootConfirmResponse, BootRequest, BootResponse,
    BroadcastResponse, HandshakeRequest, HandshakeResponse, LockRequest, LockResponse,
    SamplesRequest, SamplesResponse, ScheduleRequest, ScheduleResponse, UnlockRequest,
    UpdateTimeAckResponse, UpdateTimeRequest, UpdateTimeResponse,
};
use std::fmt::Debug;

fn check_known_good<T: PartialEq + Debug>(
    known_good: &T,
    test_data: &[u8],
    decode: fn(&[u8]) -> Result<T, FrameError>,
    encode: fn(&T) -> Vec<u8>,
) {
    let test_message = decode(test_data).unwrap();
    assert_eq!(known_good, &test_message);

    let expected_bytes = encode(known_good);
    let extracted_bytes = encode(&test_message);
    assert_eq!(expected_bytes, extracted_bytes);
    assert_eq!(expected_bytes, test_data.to_vec());
}

fn check_bad_checksum<T: Debug>(test_data: &[u8], decode: fn(&[u8]) -> Result<T, FrameError>) {
    let mut poison_data = test_data.to_vec();
    let checksum = poison_data.last_mut().expect("Expected test data to not be empty");
    *checksum = checksum.wrapping_add(1);

    let result = decode(&poison_data);
    assert_eq!(result.unwrap_err(), FrameError::ChecksumMismatch);
}

fn check_bad_command<T: Debug>(test_data: &[u8], decode: fn(&[u8]) -> Result<T, FrameError>) {
    let mut poison_data = test_data.to_vec();
    assert!(poison_data.len() > 2, "Test data is too short for this test.");

    poison_data[1] = poison_data[1].wrapping_add(1);
    poison_data[2] = poison_data[2].wrapping_add(1);
    let command = [poison_data[1], poison_data[2]];

    let checksum = poison_data.last_mut().expect("Expected test data to not be empty");
    *checksum = *checksum ^ command[0];
    *checksum = *checksum ^ command[1];

    let result = decode(&poison_data);
    assert_eq!(result.unwrap_err(), FrameError::CommandMismatch);
}

#[test]
fn test_boot_response() {
    let test_data: [u8; 27] = [0x02, 0x40, 0x84, 0x16, 0x01, 0x00, 0x00, 0x87, 0x03,
                               0x00, 0x30, 0x00, 0x33, 0x83, 0x69, 0x9a, 0x0b, 0x2f,
                               0x00, 0x00, 0x00, 0x58, 0x4f, 0x80, 0x0a, 0x1c, 0x81];

    let boot_response = BootResponse {
        data: [0x01, 0x00, 0x00, 0x87, 0x03, 0x00, 0x30, 0x00, 0x33, 0x83, 0x69, 0x9a],
        device_id: 0x0b2f000000584f80,
        data2: 0x0a1c,
    };

    check_known_good(&boot_response, &test_data, BootResponse::decode, BootResponse::encode);
    check_bad_checksum(&test_data, BootResponse::decode);
    check_bad_command(&test_data, BootResponse::decode);
}

#[test]
fn test_boot_confirm_response() {
    let test_data: [u8; 6] = [0x02, 0x40, 0x80, 0x01, 0x10, 0xd1];
    let boot_confirm_response = BootConfirmResponse {};
    check_known_good(&boot_confirm_response, &test_data, BootConfirmResponse::decode, BootConfirmResponse::encode);
    check_bad_checksum(&test_data, BootConfirmResponse::decode);
    check_bad_command(&test_data, BootConfirmResponse::decode);
}

#[test]
fn test_broadcast_response() {
    let test_data: [u8; 16] = [0x02, 0xa0, 0x13, 0x0b, 0x01, 0x02, 0x01, 0x02,
                               0x03, 0x04, 0x05, 0x06, 0x07, 0x08, 0x01, 0xb2];
    let broadcast_response = BroadcastResponse {
        network_id: 0x0102,
        device_id: 0x0102030405060708,
        data: 0x01,
    };

    check_known_good(&broadcast_response, &test_data, BroadcastResponse::decode, BroadcastResponse::encode);
    check_bad_checksum(&test_data, BroadcastResponse::decode);
    check_bad_command(&test_data, BroadcastResponse::decode);
}

#[test]
fn test_lock_response() {
    let test_data: [u8; 6] = [0x02, 0xa0, 0xf9, 0x01, 0x00, 0x58];
    let lock_response = LockResponse {};
    check_known_good(&lock_response, &test_data, LockResponse::decode, LockResponse::encode);
    check_bad_checksum(&test_data, LockResponse::decode);
    check_bad_command(&test_data, LockResponse::decode);
}

#[test]
fn test_update_time_ack_response() {
    let test_data: [u8; 6] = [0x02, 0x40, 0x22, 0x01, 0x00, 0x63];
    let update_time_ack_response = UpdateTimeAckResponse {};
    check_known_good(&update_time_ack_response, &test_data, UpdateTimeAckResponse::decode, UpdateTimeAckResponse::encode);
    check_bad_checksum(&test_data, UpdateTimeAckResponse::decode);
    check_bad_command(&test_data, UpdateTimeAckResponse::decode);
}

#[test]
fn test_update_time_response() {
    let test_data: [u8; 8] = [0x02, 0x40, 0xa2, 0x03, 0x01, 0x02, 0x00, 0xe2];
    let update_time_response = UpdateTimeResponse {
        network_id: 0x0102,
    };
    check_known_good(&update_time_response, &test_data, UpdateTimeResponse::decode, UpdateTimeResponse::encode);
    check_bad_checksum(&test_data, UpdateTimeResponse::decode);
    check_bad_command(&test_data, UpdateTimeResponse::decode);
}

#[test]
fn test_handshake_response() {
    let test_data: [u8; 6] = [0x02, 0x40, 0x03, 0x01, 0x00, 0x42];
    let handshake_response = HandshakeResponse {};
    check_known_good(&handshake_response, &test_data, HandshakeResponse::decode, HandshakeResponse::encode);
    check_bad_checksum(&test_data, HandshakeResponse::decode);
    check_bad_command(&test_data, HandshakeResponse::decode);
}

#[test]
fn test_ack_response() {
    let test_data: [u8; 6] = [0x02, 0x40, 0x24, 0x01, 0x00, 0x65];
    let ack_response = AckResponse {};
    check_known_good(&ack_response, &test_data, AckResponse::decode, AckResponse::encode);
    check_bad_checksum(&test_data, AckResponse::decode);
    check_bad_command(&test_data, AckResponse::decode);
}

#[test]
fn test_samples_response() {
    let test_data: [u8; 23] = [0x02, 0x40, 0xa4, 0x12, 0x01, 0x02,
                               0x01, 0x02, 0x01, 0x02, 0x01, 0x02,
                               0x03, 0x04, 0x02, 0x02, 0x00, 0x00,
                               0x01, 0x00, 0x02, 0x00, 0xf2];
    let samples_response = SamplesResponse {
        network_id: 0x0102,
        channel_id: 0x0102,
        data: 0x0102,
        time: 0x04030201,
        sample_count: 0x02,
        stored_sample_count: [0x02, 0x00, 0x00],
        samples: vec![0x0001, 0x0002],
    };
    assert!(samples_response.sample_count as usize == samples_response.samples.len());
    check_known_good(&samples_response, &test_data, SamplesResponse::decode, SamplesResponse::encode);
    check_bad_checksum(&test_data, SamplesResponse::decode);
    check_bad_command(&test_data, SamplesResponse::decode);
}

#[test]
fn test_schedule_response() {
    let test_data: [u8; 6] = [0x02, 0x40, 0x23, 0x01, 0x00, 0x62];
    let schedule_response = ScheduleResponse {};
    check_known_good(&schedule_response, &test_data, ScheduleResponse::decode, ScheduleResponse::encode);
    check_bad_checksum(&test_data, ScheduleResponse::decode);
    check_bad_command(&test_data, ScheduleResponse::decode);
}

#[test]
fn test_boot_request() {
    let test_data: [u8; 5] = [0x02, 0x40, 0x04, 0x00, 0x44];
    let boot_request = BootRequest {};
    check_known_good(&boot_request, &test_data, BootRequest::decode, BootRequest::encode);
    check_bad_checksum(&test_data, BootRequest::decode);
    check_bad_command(&test_data, BootRequest::decode);
}

#[test]
fn test_boot_confirm_request() {
    let test_data: [u8; 5] = [0x02, 0x40, 0x00, 0x00, 0x40];
    let boot_confirm_request = BootConfirmRequest {};
    check_known_good(&boot_confirm_request, &test_data, BootConfirmRequest::decode, BootConfirmRequest::encode);
    check_bad_checksum(&test_data, BootConfirmRequest::decode);
    check_bad_command(&test_data, BootConfirmRequest::decode);
}

#[test]
fn test_unlock_request() {
    let test_data: [u8; 9] = [0x02, 0xa2, 0x36, 0x04, 0xfc, 0xff, 0x90, 0x01, 0x02];
    let unlock_request = UnlockRequest {};
    check_known_good(&unlock_request, &test_data, UnlockRequest::decode, UnlockRequest::encode);
    check_bad_checksum(&test_data, UnlockRequest::decode);
    check_bad_command(&test_data, UnlockRequest::decode);
}

#[test]
fn test_lock_request() {
    let test_data: [u8; 9] = [0x02, 0xa2, 0x36, 0x04, 0xfc, 0xff, 0x00, 0x01, 0x92];
    let lock_request = LockRequest {};
    check_known_good(&lock_request, &test_data, LockRequest::decode, LockRequest::encode);
    check_bad_checksum(&test_data, LockRequest::decode);
    check_bad_command(&test_data, LockRequest::decode);
}

#[test]
fn test_update_time_request() {
    let test_data: [u8; 11] = [0x02, 0x40, 0x22, 0x06, 0x00, 0x01, 0x00, 0x00, 0x00, 0x00, 0x65];
    let update_time_request = UpdateTimeRequest {
        network_id: 0x0001,
        time: 0x00000000,
    };
    check_known_good(&update_time_request, &test_data, UpdateTimeRequest::decode, UpdateTimeRequest::encode);
    check_bad_checksum(&test_data, UpdateTimeRequest::decode);
    check_bad_command(&test_data, UpdateTimeRequest::decode);
}

#[test]
fn test_handshake_request() {
    let test_data: [u8; 9] = [0x02, 0x40, 0x03, 0x04, 0x00, 0x01, 0x05, 0x00, 0x43];
    let handshake_request = HandshakeRequest {
        network_id: 0x0001,
    };
    check_known_good(&handshake_request, &test_data, HandshakeRequest::decode, HandshakeRequest::encode);
    check_bad_checksum(&test_data, HandshakeRequest::decode);
    check_bad_command(&test_data, HandshakeRequest::decode);
}

#[test]
fn test_samples_request() {
    let test_data: [u8; 11] = [0x02, 0x40, 0x24, 0x06, 0x00, 0x02, 0x00, 0x01, 0x0a, 0x00, 0x6b];
    let samples_request = SamplesRequest {
        network_id: 0x0002,
        channel_id: 0x0001,
    };
    check_known_good(&samples_request, &test_data, SamplesRequest::decode, SamplesRequest::encode);
    check_bad_checksum(&test_data, SamplesRequest::decode);
    check_bad_command(&test_data, SamplesRequest::decode);
}

#[test]
fn test_schedule_request() {
    let test_data: [u8; 64] = [0x02, 0x40, 0x23, 0x3b, 0x00, 0x02, 0x01, 0x00,
                               0x00, 0x00, 0x00, 0x00, 0x00, 0x00, 0x00, 0x00,
                               0x00, 0x00, 0x00, 0x00, 0x00, 0x00, 0x00, 0x00,
                               0x00, 0x00, 0x00, 0x00, 0x00, 0x00, 0x00, 0x00,
                               0x00, 0x00, 0x00, 0x00, 0x00, 0x00, 0x00, 0x00,
                               0x00, 0x00, 0x00, 0x00, 0x00, 0x00, 0x00, 0x00,
                               0x00, 0x00, 0x00, 0x00, 0x00, 0x00, 0x00, 0x00,
                               0x00, 0x00, 0x00, 0x00, 0x00, 0x00, 0x00, 0x5b];
    let schedule: [u8; 56] = [0; 56];
    let schedule_request = ScheduleRequest {
        network_id: 0x0002,
        channel_id: 0x01,
        schedule,
    };
    check_known_good(&schedule_request, &test_data, ScheduleRequest::decode, ScheduleRequest::encode);
    check_bad_checksum(&test_data, ScheduleRequest::decode);
    check_bad_command(&test_data, ScheduleRequest::decode);
}
