use hacklet::checksum::MessageChecksum;
use hacklet::dongle::{
    schedule_for, Action, CommissionStatus, Dongle, DongleError, DongleId, Event, Phase, Reply,
    SwitchState,
};
use hacklet::frame::{check_frame, encode_frame, remaining_len, FrameError};
use hacklet::messages::{
    BootResponse, BroadcastResponse, HandshakeResponse, LockRequest, LockResponse, SamplesResponse,
    ScheduleRequest, ScheduleResponse, UnlockRequest, UpdateTimeRequest,
};

const BOOT_RESPONSE: [u8; 27] = [0x02, 0x40, 0x84, 0x16, 0x01, 0x00, 0x00, 0x87, 0x03,
                                 0x00, 0x30, 0x00, 0x33, 0x83, 0x69, 0x9a, 0x0b, 0x2f,
                                 0x00, 0x00, 0x00, 0x58, 0x4f, 0x80, 0x0a, 0x1c, 0x81];
const BROADCAST: [u8; 16] = [0x02, 0xa0, 0x13, 0x0b, 0x01, 0x02, 0x01, 0x02,
                             0x03, 0x04, 0x05, 0x06, 0x07, 0x08, 0x01, 0xb2];
const LOCK_RESPONSE: [u8; 6] = [0x02, 0xa0, 0xf9, 0x01, 0x00, 0x58];

fn ready_dongle() -> Dongle {
    let (mut dongle, _) = Dongle::open();
    dongle.handle(Event::Received(BOOT_RESPONSE.to_vec()));
    let done = dongle.handle(Event::Received(vec![0x02, 0x40, 0x80, 0x01, 0x10, 0xd1]));
    assert_eq!(done, Action::Done(Ok(Reply::Opened)));
    dongle
}

#[test]
fn boot_response_from_literal_bytes() {
    let r = BootResponse::decode(&BOOT_RESPONSE).unwrap();
    assert_eq!(r.device_id, 0x0b2f000000584f80);
    assert_eq!(r.data2, 0x0a1c);
}

#[test]
fn broadcast_from_literal_bytes() {
    let r = BroadcastResponse::decode(&BROADCAST).unwrap();
    assert_eq!(r.network_id, 0x0102);
    assert_eq!(r.device_id, 0x0102030405060708);
    assert_eq!(r.data, 0x01);
}

#[test]
fn open_boots_then_confirms() {
    let (mut dongle, first) = Dongle::open();
    assert_eq!(first, Action::Transmit(vec![0x02, 0x40, 0x04, 0x00, 0x44], 27));
    let next = dongle.handle(Event::Received(BOOT_RESPONSE.to_vec()));
    assert_eq!(next, Action::Transmit(vec![0x02, 0x40, 0x00, 0x00, 0x40], 6));
    let done = dongle.handle(Event::Received(vec![0x02, 0x40, 0x80, 0x01, 0x10, 0xd1]));
    assert_eq!(done, Action::Done(Ok(Reply::Opened)));
    assert_eq!(dongle.phase, Phase::Ready);
}

#[test]
fn open_fails_on_bad_boot_checksum() {
    let (mut dongle, _) = Dongle::open();
    let mut bad = BOOT_RESPONSE.to_vec();
    bad[26] = bad[26].wrapping_add(1);
    let r = dongle.handle(Event::Received(bad));
    assert_eq!(r, Action::Done(Err(DongleError::MessageFailure(FrameError::ChecksumMismatch))));
    assert_eq!(dongle.phase, Phase::Broken);
}

#[test]
fn transport_failure_breaks_session() {
    let (mut dongle, _) = Dongle::open();
    let r = dongle.handle(Event::Failed);
    assert_eq!(r, Action::Done(Err(DongleError::SerialConnectionError)));
    assert_eq!(dongle.phase, Phase::Broken);
}

#[test]
fn select_network_exchange() {
    let mut dongle = ready_dongle();
    let a = dongle.select_network(0x0001);
    assert_eq!(a, Action::Transmit(vec![0x02, 0x40, 0x03, 0x04, 0x00, 0x01, 0x05, 0x00, 0x43], 6));
    let r = dongle.handle(Event::Received(vec![0x02, 0x40, 0x03, 0x01, 0x00, 0x42]));
    assert_eq!(r, Action::Done(Ok(Reply::Network(HandshakeResponse {}))));
}

#[test]
fn schedule_always_on() {
    let s = schedule_for(SwitchState::AlwaysOn);
    assert_eq!(s.len(), 56);
    for (i, b) in s.iter().enumerate() {
        assert_eq!(*b, if i == 5 { 0xa5 } else { 0xff });
    }
}

#[test]
fn schedule_always_off() {
    let s = schedule_for(SwitchState::AlwaysOff);
    assert_eq!(s.len(), 56);
    for (i, b) in s.iter().enumerate() {
        assert_eq!(*b, if i == 5 { 0x25 } else { 0x7f });
    }
}

#[test]
fn switch_sends_schedule_and_awaits_ack() {
    let mut dongle = ready_dongle();
    let a = dongle.switch(0x215a, 1, SwitchState::AlwaysOn);
    let expected = ScheduleRequest { network_id: 0x215a, channel_id: 1, schedule: schedule_for(SwitchState::AlwaysOn) };
    assert_eq!(a, Action::Transmit(expected.encode(), 6));
    if let Action::Transmit(frame, _) = &a {
        assert_eq!(frame.len(), 64);
        assert_eq!(frame[7 + 5], 0xa5);
        assert_eq!(frame[7], 0xff);
    }
    let r = dongle.handle(Event::Received(vec![0x02, 0x40, 0x23, 0x01, 0x00, 0x62]));
    assert_eq!(r, Action::Done(Ok(Reply::Switched(ScheduleResponse {}))));
}

#[test]
fn samples_header_asks_for_nineteen_bytes() {
    assert_eq!(remaining_len(&[0x02, 0x40, 0xa4, 0x12]), 19);
}

#[test]
fn request_samples_two_phase_read() {
    let data: [u8; 23] = [0x02, 0x40, 0xa4, 0x12, 0x01, 0x02,
                          0x01, 0x02, 0x01, 0x02, 0x01, 0x02,
                          0x03, 0x04, 0x02, 0x02, 0x00, 0x00,
                          0x01, 0x00, 0x02, 0x00, 0xf2];
    let mut dongle = ready_dongle();
    let a = dongle.request_samples(0x0002, 0x0001);
    assert_eq!(a, Action::Transmit(vec![0x02, 0x40, 0x24, 0x06, 0x00, 0x02, 0x00, 0x01, 0x0a, 0x00, 0x6b], 6));
    let a = dongle.handle(Event::Received(vec![0x02, 0x40, 0x24, 0x01, 0x00, 0x65]));
    assert_eq!(a, Action::Receive(4));
    let a = dongle.handle(Event::Received(data[..4].to_vec()));
    assert_eq!(a, Action::Receive(19));
    let r = dongle.handle(Event::Received(data[4..].to_vec()));
    assert_eq!(r, Action::Done(Ok(Reply::Samples(vec![0x0001, 0x0002]))));
    assert_eq!(dongle.phase, Phase::Ready);
}

#[test]
fn lock_and_unlock_exchanges() {
    let mut dongle = ready_dongle();
    assert_eq!(dongle.unlock_network(), Action::Transmit(UnlockRequest {}.encode(), 6));
    assert_eq!(dongle.handle(Event::Received(LOCK_RESPONSE.to_vec())), Action::Done(Ok(Reply::Locked(LockResponse {}))));
    assert_eq!(dongle.lock_network(), Action::Transmit(LockRequest {}.encode(), 6));
    assert_eq!(dongle.handle(Event::Received(LOCK_RESPONSE.to_vec())), Action::Done(Ok(Reply::Locked(LockResponse {}))));
}

#[test]
fn commission_times_out_without_broadcast() {
    let mut dongle = ready_dongle();
    let mut transmitted: Vec<Vec<u8>> = Vec::new();
    let first = dongle.commission();
    if let Action::Transmit(frame, n) = &first {
        assert_eq!(*n, 6);
        transmitted.push(frame.clone());
    }
    let mut a = dongle.handle(Event::Received(LOCK_RESPONSE.to_vec()));
    let mut now: u64 = 1_000;
    let mut rounds = 0;
    let result = loop {
        a = match a {
            Action::ReadClock => {
                let t = now;
                now += 10_000;
                dongle.handle(Event::Clock(t))
            }
            Action::Receive(4) => dongle.handle(Event::Received(vec![0x02, 0x40, 0x24, 0x01])),
            Action::Receive(2) => {
                rounds += 1;
                dongle.handle(Event::Received(vec![0x00, 0x65]))
            }
            Action::Transmit(frame, _) => {
                transmitted.push(frame);
                break None;
            }
            Action::Done(r) => break Some(r),
            other => panic!("unexpected action {:?}", other),
        };
    };
    assert_eq!(result, Some(Ok(Reply::Commission(CommissionStatus::Unknown))));
    assert_eq!(transmitted, vec![UnlockRequest {}.encode()]);
    assert!(rounds >= 3);
    assert_eq!(dongle.phase, Phase::Ready);
}

#[test]
fn commission_finds_device_and_sets_time() {
    let mut dongle = ready_dongle();
    dongle.commission();
    assert_eq!(dongle.handle(Event::Received(LOCK_RESPONSE.to_vec())), Action::ReadClock);
    assert_eq!(dongle.handle(Event::Clock(0)), Action::Receive(4));
    assert_eq!(dongle.handle(Event::Received(BROADCAST[..4].to_vec())), Action::Receive(12));
    assert_eq!(dongle.handle(Event::Received(BROADCAST[4..].to_vec())), Action::ReadTime);
    let a = dongle.handle(Event::Time(Some(0x1_0000_0005)));
    let expected = UpdateTimeRequest { network_id: 0x0102, time: 5 };
    assert_eq!(a, Action::Transmit(expected.encode(), 6));
    assert_eq!(dongle.handle(Event::Received(vec![0x02, 0x40, 0x22, 0x01, 0x00, 0x63])), Action::Receive(8));
    let a = dongle.handle(Event::Received(vec![0x02, 0x40, 0xa2, 0x03, 0x01, 0x02, 0x00, 0xe2]));
    assert_eq!(a, Action::Transmit(LockRequest {}.encode(), 6));
    let r = dongle.handle(Event::Received(LOCK_RESPONSE.to_vec()));
    let id = DongleId { device: 0x0102030405060708, network: 0x0102 };
    assert_eq!(r, Action::Done(Ok(Reply::Commission(CommissionStatus::Commissioned(id)))));
}

#[test]
fn commission_skips_time_without_clock() {
    let mut dongle = ready_dongle();
    dongle.commission();
    dongle.handle(Event::Received(LOCK_RESPONSE.to_vec()));
    dongle.handle(Event::Clock(0));
    dongle.handle(Event::Received(BROADCAST[..4].to_vec()));
    dongle.handle(Event::Received(BROADCAST[4..].to_vec()));
    assert_eq!(dongle.handle(Event::Time(None)), Action::Transmit(LockRequest {}.encode(), 6));
}

#[test]
fn commission_broadcast_with_bad_checksum_fails() {
    let mut dongle = ready_dongle();
    dongle.commission();
    dongle.handle(Event::Received(LOCK_RESPONSE.to_vec()));
    dongle.handle(Event::Clock(0));
    dongle.handle(Event::Received(BROADCAST[..4].to_vec()));
    let mut body = BROADCAST[4..].to_vec();
    body[11] ^= 0x01;
    let r = dongle.handle(Event::Received(body));
    assert_eq!(r, Action::Done(Err(DongleError::MessageFailure(FrameError::ChecksumMismatch))));
}

#[test]
fn drop_closes_once() {
    let mut dongle = ready_dongle();
    assert_eq!(dongle.drop(), Action::Close);
    assert_eq!(dongle.drop(), Action::Done(Ok(Reply::Closed)));
    assert_eq!(dongle.handle(Event::Failed), Action::Done(Err(DongleError::SerialConnectionError)));
    assert_eq!(dongle.phase, Phase::Closed);
}

#[test]
fn decode_errors_name_the_check() {
    assert_eq!(LockResponse::decode(&[]).unwrap_err(), FrameError::Truncated);
    assert_eq!(LockResponse::decode(&[0x03, 0xa0, 0xf9, 0x01, 0x00, 0x58]).unwrap_err(), FrameError::BadMagic);
    assert_eq!(LockResponse::decode(&[0x02, 0xa0, 0xf9, 0x01, 0x00]).unwrap_err(), FrameError::Truncated);
    assert_eq!(LockResponse::decode(&[0x02, 0xa0, 0xf9, 0x02, 0x00, 0x5b]).unwrap_err(), FrameError::LengthMismatch);
    assert_eq!(LockResponse::decode(&[0x02, 0xa0, 0xf9, 0x01, 0x01, 0x59]).unwrap_err(), FrameError::FieldConstantMismatch);
    assert_eq!(LockResponse::decode(&[0x02, 0xa0, 0xf9, 0x01, 0x00, 0x59]).unwrap_err(), FrameError::ChecksumMismatch);
}

#[test]
fn samples_count_must_match_length_code() {
    let data: [u8; 23] = [0x02, 0x40, 0xa4, 0x14, 0x01, 0x02,
                          0x01, 0x02, 0x01, 0x02, 0x01, 0x02,
                          0x03, 0x04, 0x02, 0x02, 0x00, 0x00,
                          0x01, 0x00, 0x02, 0x00, 0xf2];
    assert_eq!(SamplesResponse::decode(&data).unwrap_err(), FrameError::LengthMismatch);
}

#[test]
fn frame_codec_round_trip_and_checksum() {
    let frame = encode_frame(0x1234, &vec![0xaa, 0x55]);
    assert_eq!(frame, vec![0x02, 0x12, 0x34, 0x02, 0xaa, 0x55, 0x12 ^ 0x34 ^ 0x02 ^ 0xaa ^ 0x55]);
    assert_eq!(check_frame(&frame, 0x1234, 2, &[0x55]), Ok(()));
    assert_eq!(check_frame(&frame, 0x1235, 2, &[]), Err(FrameError::CommandMismatch));
}

#[test]
fn checksum_stream_lags_on_read() {
    let mut w = MessageChecksum::new();
    w.write(&[0x40, 0x80, 0x01, 0x10]);
    assert_eq!(w.checksum, 0xd1);
    let mut r = MessageChecksum::new();
    r.read(&[0x40, 0x80, 0x01, 0x10, 0xd1]);
    assert_eq!(r.checksum, 0xd1);
    assert_eq!(r.previous_checksum, 0x00);
}

#[test]
fn update_time_request_time_is_little_endian() {
    let r = UpdateTimeRequest { network_id: 0x0102, time: 0x04030201 };
    let b = r.encode();
    assert_eq!(&b[4..10], &[0x01, 0x02, 0x01, 0x02, 0x03, 0x04]);
    assert_eq!(UpdateTimeRequest::decode(&b).unwrap(), r);
}
