use vstd::prelude::*;
use crate::frame::{
    FrameError, frame_bytes, frame_status, payload_of, encode_frame, check_frame, be16, be64,
    le16, le32, push_be16, push_be64, push_le16, push_le32, push_all, read_be16, read_be64,
    read_le16, read_le32, lemma_frame_bytes_valid, lemma_be16_injective, lemma_be64_injective,
    lemma_le16_injective, lemma_le32_injective,
};

verus! {

/// `r` is what decoding gives when the frame checks come out as `status`:
/// a message exactly when they pass, else the error they name.
pub open spec fn decode_result<T>(r: Result<T, FrameError>, status: Result<(), FrameError>) -> bool {
    match status {
        Ok(_) => r is Ok,
        Err(e) => r == Err::<T, FrameError>(e),
    }
}

/// Boot request.
#[derive(Debug, Clone, Copy, PartialEq, Eq)]
pub struct BootRequest {}

impl BootRequest {
    /// The payload bytes on the wire.
    pub open spec fn payload(self) -> Seq<u8> {
        seq![]
    }

    /// The wire bytes of the message.
    pub open spec fn wire(self) -> Seq<u8> {
        frame_bytes(0x4004, self.payload())
    }

    /// Outcome of the frame checks on `b` for this message.
    pub open spec fn status(b: Seq<u8>) -> Result<(), FrameError> {
        frame_status(b, 0x4004, 0, seq![])
    }

    /// The frame bytes of the message.
    pub fn encode(&self) -> (r: Vec<u8>)
        ensures
            r@ == self.wire(),
    {
        let payload: Vec<u8> = Vec::new();
        proof { assert(payload@ =~= self.payload()); }
        encode_frame(0x4004, &payload)
    }

    /// Reads the message from the front of `b`, making the frame checks in
    /// order; bytes after the frame are ignored.
    pub fn decode(b: &[u8]) -> (r: Result<Self, FrameError>)
        ensures
            decode_result(r, Self::status(b@)),
            r is Ok ==> r->Ok_0.payload() == payload_of(b@, 0),
    {
        let tail: Vec<u8> = Vec::new();
        proof { assert(tail@ =~= seq![]); }
        match check_frame(b, 0x4004, 0, tail.as_slice()) {
            Ok(()) => {
                Ok(BootRequest {})
            },
            Err(e) => Err(e),
        }
    }

    /// Decoding the bytes of `m` succeeds, and gives `m` back.
    pub proof fn lemma_round_trip(m: Self, d: Self)
        ensures
            Self::status(m.wire()) is Ok,
            payload_of(m.wire(), 0) == m.payload(),
            d.payload() == m.payload() ==> d == m,
    {
        assert(m.payload().subrange(0, 0) =~= m.payload());
        lemma_frame_bytes_valid(0x4004, m.payload(), m.payload());
    }
}

/// Boot confirmation request.
#[derive(Debug, Clone, Copy, PartialEq, Eq)]
pub struct BootConfirmRequest {}

impl BootConfirmRequest {
    /// The payload bytes on the wire.
    pub open spec fn payload(self) -> Seq<u8> {
        seq![]
    }

    /// The wire bytes of the message.
    pub open spec fn wire(self) -> Seq<u8> {
        frame_bytes(0x4000, self.payload())
    }

    /// Outcome of the frame checks on `b` for this message.
    pub open spec fn status(b: Seq<u8>) -> Result<(), FrameError> {
        frame_status(b, 0x4000, 0, seq![])
    }

    /// The frame bytes of the message.
    pub fn encode(&self) -> (r: Vec<u8>)
        ensures
            r@ == self.wire(),
    {
        let payload: Vec<u8> = Vec::new();
        proof { assert(payload@ =~= self.payload()); }
        encode_frame(0x4000, &payload)
    }

    /// Reads the message from the front of `b`, making the frame checks in
    /// order; bytes after the frame are ignored.
    pub fn decode(b: &[u8]) -> (r: Result<Self, FrameError>)
        ensures
            decode_result(r, Self::status(b@)),
            r is Ok ==> r->Ok_0.payload() == payload_of(b@, 0),
    {
        let tail: Vec<u8> = Vec::new();
        proof { assert(tail@ =~= seq![]); }
        match check_frame(b, 0x4000, 0, tail.as_slice()) {
            Ok(()) => {
                Ok(BootConfirmRequest {})
            },
            Err(e) => Err(e),
        }
    }

    /// Decoding the bytes of `m` succeeds, and gives `m` back.
    pub proof fn lemma_round_trip(m: Self, d: Self)
        ensures
            Self::status(m.wire()) is Ok,
            payload_of(m.wire(), 0) == m.payload(),
            d.payload() == m.payload() ==> d == m,
    {
        assert(m.payload().subrange(0, 0) =~= m.payload());
        lemma_frame_bytes_valid(0x4000, m.payload(), m.payload());
    }
}

/// Request that opens the network to new devices.
#[derive(Debug, Clone, Copy, PartialEq, Eq)]
pub struct UnlockRequest {}

impl UnlockRequest {
    /// The payload bytes on the wire.
    pub open spec fn payload(self) -> Seq<u8> {
        seq![0xfcu8, 0xffu8, 0x90u8, 0x01u8]
    }

    /// The wire bytes of the message.
    pub open spec fn wire(self) -> Seq<u8> {
        frame_bytes(0xa236, self.payload())
    }

    /// Outcome of the frame checks on `b` for this message.
    pub open spec fn status(b: Seq<u8>) -> Result<(), FrameError> {
        frame_status(b, 0xa236, 4, seq![0xfcu8, 0xffu8, 0x90u8, 0x01u8])
    }

    /// The frame bytes of the message.
    pub fn encode(&self) -> (r: Vec<u8>)
        ensures
            r@ == self.wire(),
    {
        let payload: Vec<u8> = vec![0xfcu8, 0xffu8, 0x90u8, 0x01u8];
        proof { assert(payload@ =~= self.payload()); }
        encode_frame(0xa236, &payload)
    }

    /// Reads the message from the front of `b`, making the frame checks in
    /// order; bytes after the frame are ignored.
    pub fn decode(b: &[u8]) -> (r: Result<Self, FrameError>)
        ensures
            decode_result(r, Self::status(b@)),
            r is Ok ==> r->Ok_0.payload() == payload_of(b@, 4),
    {
        let tail: Vec<u8> = vec![0xfcu8, 0xffu8, 0x90u8, 0x01u8];
        proof { assert(tail@ =~= seq![0xfcu8, 0xffu8, 0x90u8, 0x01u8]); }
        match check_frame(b, 0xa236, 4, tail.as_slice()) {
            Ok(()) => {
                Ok(UnlockRequest {})
            },
            Err(e) => Err(e),
        }
    }

    /// Decoding the bytes of `m` succeeds, and gives `m` back.
    pub proof fn lemma_round_trip(m: Self, d: Self)
        ensures
            Self::status(m.wire()) is Ok,
            payload_of(m.wire(), 4) == m.payload(),
            d.payload() == m.payload() ==> d == m,
    {
        assert(m.payload().subrange(0, 4) =~= m.payload());
        lemma_frame_bytes_valid(0xa236, m.payload(), m.payload());
    }
}

/// Request that closes the network to new devices.
#[derive(Debug, Clone, Copy, PartialEq, Eq)]
pub struct LockRequest {}

impl LockRequest {
    /// The payload bytes on the wire.
    pub open spec fn payload(self) -> Seq<u8> {
        seq![0xfcu8, 0xffu8, 0x00u8, 0x01u8]
    }

    /// The wire bytes of the message.
    pub open spec fn wire(self) -> Seq<u8> {
        frame_bytes(0xa236, self.payload())
    }

    /// Outcome of the frame checks on `b` for this message.
    pub open spec fn status(b: Seq<u8>) -> Result<(), FrameError> {
        frame_status(b, 0xa236, 4, seq![0xfcu8, 0xffu8, 0x00u8, 0x01u8])
    }

    /// The frame bytes of the message.
    pub fn encode(&self) -> (r: Vec<u8>)
        ensures
            r@ == self.wire(),
    {
        let payload: Vec<u8> = vec![0xfcu8, 0xffu8, 0x00u8, 0x01u8];
        proof { assert(payload@ =~= self.payload()); }
        encode_frame(0xa236, &payload)
    }

    /// Reads the message from the front of `b`, making the frame checks in
    /// order; bytes after the frame are ignored.
    pub fn decode(b: &[u8]) -> (r: Result<Self, FrameError>)
        ensures
            decode_result(r, Self::status(b@)),
            r is Ok ==> r->Ok_0.payload() == payload_of(b@, 4),
    {
        let tail: Vec<u8> = vec![0xfcu8, 0xffu8, 0x00u8, 0x01u8];
        proof { assert(tail@ =~= seq![0xfcu8, 0xffu8, 0x00u8, 0x01u8]); }
        match check_frame(b, 0xa236, 4, tail.as_slice()) {
            Ok(()) => {
                Ok(LockRequest {})
            },
            Err(e) => Err(e),
        }
    }

    /// Decoding the bytes of `m` succeeds, and gives `m` back.
    pub proof fn lemma_round_trip(m: Self, d: Self)
        ensures
            Self::status(m.wire()) is Ok,
            payload_of(m.wire(), 4) == m.payload(),
            d.payload() == m.payload() ==> d == m,
    {
        assert(m.payload().subrange(0, 4) =~= m.payload());
        lemma_frame_bytes_valid(0xa236, m.payload(), m.payload());
    }
}

/// Answer to a boot confirmation request.
#[derive(Debug, Clone, Copy, PartialEq, Eq)]
pub struct BootConfirmResponse {}

impl BootConfirmResponse {
    /// The payload bytes on the wire.
    pub open spec fn payload(self) -> Seq<u8> {
        seq![0x10u8]
    }

    /// The wire bytes of the message.
    pub open spec fn wire(self) -> Seq<u8> {
        frame_bytes(0x4080, self.payload())
    }

    /// Outcome of the frame checks on `b` for this message.
    pub open spec fn status(b: Seq<u8>) -> Result<(), FrameError> {
        frame_status(b, 0x4080, 1, seq![0x10u8])
    }

    /// The frame bytes of the message.
    pub fn encode(&self) -> (r: Vec<u8>)
        ensures
            r@ == self.wire(),
    {
        let payload: Vec<u8> = vec![0x10u8];
        proof { assert(payload@ =~= self.payload()); }
        encode_frame(0x4080, &payload)
    }

    /// Reads the message from the front of `b`, making the frame checks in
    /// order; bytes after the frame are ignored.
    pub fn decode(b: &[u8]) -> (r: Result<Self, FrameError>)
        ensures
            decode_result(r, Self::status(b@)),
            r is Ok ==> r->Ok_0.payload() == payload_of(b@, 1),
    {
        let tail: Vec<u8> = vec![0x10u8];
        proof { assert(tail@ =~= seq![0x10u8]); }
        match check_frame(b, 0x4080, 1, tail.as_slice()) {
            Ok(()) => {
                Ok(BootConfirmResponse {})
            },
            Err(e) => Err(e),
        }
    }

    /// Decoding the bytes of `m` succeeds, and gives `m` back.
    pub proof fn lemma_round_trip(m: Self, d: Self)
        ensures
            Self::status(m.wire()) is Ok,
            payload_of(m.wire(), 1) == m.payload(),
            d.payload() == m.payload() ==> d == m,
    {
        assert(m.payload().subrange(0, 1) =~= m.payload());
        lemma_frame_bytes_valid(0x4080, m.payload(), m.payload());
    }
}

/// Answer to a lock or an unlock request.
#[derive(Debug, Clone, Copy, PartialEq, Eq)]
pub struct LockResponse {}

impl LockResponse {
    /// The payload bytes on the wire.
    pub open spec fn payload(self) -> Seq<u8> {
        seq![0x00u8]
    }

    /// The wire bytes of the message.
    pub open spec fn wire(self) -> Seq<u8> {
        frame_bytes(0xa0f9, self.payload())
    }

    /// Outcome of the frame checks on `b` for this message.
    pub open spec fn status(b: Seq<u8>) -> Result<(), FrameError> {
        frame_status(b, 0xa0f9, 1, seq![0x00u8])
    }

    /// The frame bytes of the message.
    pub fn encode(&self) -> (r: Vec<u8>)
        ensures
            r@ == self.wire(),
    {
        let payload: Vec<u8> = vec![0x00u8];
        proof { assert(payload@ =~= self.payload()); }
        encode_frame(0xa0f9, &payload)
    }

    /// Reads the message from the front of `b`, making the frame checks in
    /// order; bytes after the frame are ignored.
    pub fn decode(b: &[u8]) -> (r: Result<Self, FrameError>)
        ensures
            decode_result(r, Self::status(b@)),
            r is Ok ==> r->Ok_0.payload() == payload_of(b@, 1),
    {
        let tail: Vec<u8> = vec![0x00u8];
        proof { assert(tail@ =~= seq![0x00u8]); }
        match check_frame(b, 0xa0f9, 1, tail.as_slice()) {
            Ok(()) => {
                Ok(LockResponse {})
            },
            Err(e) => Err(e),
        }
    }

    /// Decoding the bytes of `m` succeeds, and gives `m` back.
    pub proof fn lemma_round_trip(m: Self, d: Self)
        ensures
            Self::status(m.wire()) is Ok,
            payload_of(m.wire(), 1) == m.payload(),
            d.payload() == m.payload() ==> d == m,
    {
        assert(m.payload().subrange(0, 1) =~= m.payload());
        lemma_frame_bytes_valid(0xa0f9, m.payload(), m.payload());
    }
}

/// Acknowledgement of a time update request.
#[derive(Debug, Clone, Copy, PartialEq, Eq)]
pub struct UpdateTimeAckResponse {}

impl UpdateTimeAckResponse {
    /// The payload bytes on the wire.
    pub open spec fn payload(self) -> Seq<u8> {
        seq![0x00u8]
    }

    /// The wire bytes of the message.
    pub open spec fn wire(self) -> Seq<u8> {
        frame_bytes(0x4022, self.payload())
    }

    /// Outcome of the frame checks on `b` for this message.
    pub open spec fn status(b: Seq<u8>) -> Result<(), FrameError> {
        frame_status(b, 0x4022, 1, seq![0x00u8])
    }

    /// The frame bytes of the message.
    pub fn encode(&self) -> (r: Vec<u8>)
        ensures
            r@ == self.wire(),
    {
        let payload: Vec<u8> = vec![0x00u8];
        proof { assert(payload@ =~= self.payload()); }
        encode_frame(0x4022, &payload)
    }

    /// Reads the message from the front of `b`, making the frame checks in
    /// order; bytes after the frame are ignored.
    pub fn decode(b: &[u8]) -> (r: Result<Self, FrameError>)
        ensures
            decode_result(r, Self::status(b@)),
            r is Ok ==> r->Ok_0.payload() == payload_of(b@, 1),
    {
        let tail: Vec<u8> = vec![0x00u8];
        proof { assert(tail@ =~= seq![0x00u8]); }
        match check_frame(b, 0x4022, 1, tail.as_slice()) {
            Ok(()) => {
                Ok(UpdateTimeAckResponse {})
            },
            Err(e) => Err(e),
        }
    }

    /// Decoding the bytes of `m` succeeds, and gives `m` back.
    pub proof fn lemma_round_trip(m: Self, d: Self)
        ensures
            Self::status(m.wire()) is Ok,
            payload_of(m.wire(), 1) == m.payload(),
            d.payload() == m.payload() ==> d == m,
    {
        assert(m.payload().subrange(0, 1) =~= m.payload());
        lemma_frame_bytes_valid(0x4022, m.payload(), m.payload());
    }
}

/// Answer to a network selection request.
#[derive(Debug, Clone, Copy, PartialEq, Eq)]
pub struct HandshakeResponse {}

impl HandshakeResponse {
    /// The payload bytes on the wire.
    pub open spec fn payload(self) -> Seq<u8> {
        seq![0x00u8]
    }

    /// The wire bytes of the message.
    pub open spec fn wire(self) -> Seq<u8> {
        frame_bytes(0x4003, self.payload())
    }

    /// Outcome of the frame checks on `b` for this message.
    pub open spec fn status(b: Seq<u8>) -> Result<(), FrameError> {
        frame_status(b, 0x4003, 1, seq![0x00u8])
    }

    /// The frame bytes of the message.
    pub fn encode(&self) -> (r: Vec<u8>)
        ensures
            r@ == self.wire(),
    {
        let payload: Vec<u8> = vec![0x00u8];
        proof { assert(payload@ =~= self.payload()); }
        encode_frame(0x4003, &payload)
    }

    /// Reads the message from the front of `b`, making the frame checks in
    /// order; bytes after the frame are ignored.
    pub fn decode(b: &[u8]) -> (r: Result<Self, FrameError>)
        ensures
            decode_result(r, Self::status(b@)),
            r is Ok ==> r->Ok_0.payload() == payload_of(b@, 1),
    {
        let tail: Vec<u8> = vec![0x00u8];
        proof { assert(tail@ =~= seq![0x00u8]); }
        match check_frame(b, 0x4003, 1, tail.as_slice()) {
            Ok(()) => {
                Ok(HandshakeResponse {})
            },
            Err(e) => Err(e),
        }
    }

    /// Decoding the bytes of `m` succeeds, and gives `m` back.
    pub proof fn lemma_round_trip(m: Self, d: Self)
        ensures
            Self::status(m.wire()) is Ok,
            payload_of(m.wire(), 1) == m.payload(),
            d.payload() == m.payload() ==> d == m,
    {
        assert(m.payload().subrange(0, 1) =~= m.payload());
        lemma_frame_bytes_valid(0x4003, m.payload(), m.payload());
    }
}

/// Acknowledgement of a samples request.
#[derive(Debug, Clone, Copy, PartialEq, Eq)]
pub struct AckResponse {}

impl AckResponse {
    /// The payload bytes on the wire.
    pub open spec fn payload(self) -> Seq<u8> {
        seq![0x00u8]
    }

    /// The wire bytes of the message.
    pub open spec fn wire(self) -> Seq<u8> {
        frame_bytes(0x4024, self.payload())
    }

    /// Outcome of the frame checks on `b` for this message.
    pub open spec fn status(b: Seq<u8>) -> Result<(), FrameError> {
        frame_status(b, 0x4024, 1, seq![0x00u8])
    }

    /// The frame bytes of the message.
    pub fn encode(&self) -> (r: Vec<u8>)
        ensures
            r@ == self.wire(),
    {
        let payload: Vec<u8> = vec![0x00u8];
        proof { assert(payload@ =~= self.payload()); }
        encode_frame(0x4024, &payload)
    }

    /// Reads the message from the front of `b`, making the frame checks in
    /// order; bytes after the frame are ignored.
    pub fn decode(b: &[u8]) -> (r: Result<Self, FrameError>)
        ensures
            decode_result(r, Self::status(b@)),
            r is Ok ==> r->Ok_0.payload() == payload_of(b@, 1),
    {
        let tail: Vec<u8> = vec![0x00u8];
        proof { assert(tail@ =~= seq![0x00u8]); }
        match check_frame(b, 0x4024, 1, tail.as_slice()) {
            Ok(()) => {
                Ok(AckResponse {})
            },
            Err(e) => Err(e),
        }
    }

    /// Decoding the bytes of `m` succeeds, and gives `m` back.
    pub proof fn lemma_round_trip(m: Self, d: Self)
        ensures
            Self::status(m.wire()) is Ok,
            payload_of(m.wire(), 1) == m.payload(),
            d.payload() == m.payload() ==> d == m,
    {
        assert(m.payload().subrange(0, 1) =~= m.payload());
        lemma_frame_bytes_valid(0x4024, m.payload(), m.payload());
    }
}

/// Answer to a schedule request.
#[derive(Debug, Clone, Copy, PartialEq, Eq)]
pub struct ScheduleResponse {}

impl ScheduleResponse {
    /// The payload bytes on the wire.
    pub open spec fn payload(self) -> Seq<u8> {
        seq![0x00u8]
    }

    /// The wire bytes of the message.
    pub open spec fn wire(self) -> Seq<u8> {
        frame_bytes(0x4023, self.payload())
    }

    /// Outcome of the frame checks on `b` for this message.
    pub open spec fn status(b: Seq<u8>) -> Result<(), FrameError> {
        frame_status(b, 0x4023, 1, seq![0x00u8])
    }

    /// The frame bytes of the message.
    pub fn encode(&self) -> (r: Vec<u8>)
        ensures
            r@ == self.wire(),
    {
        let payload: Vec<u8> = vec![0x00u8];
        proof { assert(payload@ =~= self.payload()); }
        encode_frame(0x4023, &payload)
    }

    /// Reads the message from the front of `b`, making the frame checks in
    /// order; bytes after the frame are ignored.
    pub fn decode(b: &[u8]) -> (r: Result<Self, FrameError>)
        ensures
            decode_result(r, Self::status(b@)),
            r is Ok ==> r->Ok_0.payload() == payload_of(b@, 1),
    {
        let tail: Vec<u8> = vec![0x00u8];
        proof { assert(tail@ =~= seq![0x00u8]); }
        match check_frame(b, 0x4023, 1, tail.as_slice()) {
            Ok(()) => {
                Ok(ScheduleResponse {})
            },
            Err(e) => Err(e),
        }
    }

    /// Decoding the bytes of `m` succeeds, and gives `m` back.
    pub proof fn lemma_round_trip(m: Self, d: Self)
        ensures
            Self::status(m.wire()) is Ok,
            payload_of(m.wire(), 1) == m.payload(),
            d.payload() == m.payload() ==> d == m,
    {
        assert(m.payload().subrange(0, 1) =~= m.payload());
        lemma_frame_bytes_valid(0x4023, m.payload(), m.payload());
    }
}

/// Answer to a boot request: twelve opaque bytes, the dongle's device id, and
/// two more opaque bytes.
#[derive(Debug, Clone, Copy, PartialEq, Eq)]
pub struct BootResponse {
    pub data: [u8; 12],
    pub device_id: u64,
    pub data2: u16,
}

impl BootResponse {
    /// The payload bytes on the wire.
    pub open spec fn payload(self) -> Seq<u8> {
        self.data@ + be64(self.device_id) + be16(self.data2)
    }

    /// The wire bytes of the message.
    pub open spec fn wire(self) -> Seq<u8> {
        frame_bytes(0x4084, self.payload())
    }

    /// Outcome of the frame checks on `b` for this message.
    pub open spec fn status(b: Seq<u8>) -> Result<(), FrameError> {
        frame_status(b, 0x4084, 22, seq![])
    }

    /// The frame bytes of the message.
    pub fn encode(&self) -> (r: Vec<u8>)
        ensures
            r@ == self.wire(),
    {
        let mut payload: Vec<u8> = Vec::new();
        push_all(&mut payload, self.data.as_slice());
        push_be64(&mut payload, self.device_id);
        push_be16(&mut payload, self.data2);
        proof { assert(payload@ =~= self.payload()); }
        encode_frame(0x4084, &payload)
    }

    /// Reads the message from the front of `b`, making the frame checks in
    /// order; bytes after the frame are ignored.
    pub fn decode(b: &[u8]) -> (r: Result<Self, FrameError>)
        ensures
            decode_result(r, Self::status(b@)),
            r is Ok ==> r->Ok_0.payload() == payload_of(b@, 22),
    {
        let tail: Vec<u8> = Vec::new();
        proof { assert(tail@ =~= seq![]); }
        match check_frame(b, 0x4084, 22, tail.as_slice()) {
            Ok(()) => {
                let mut data = [0u8; 12];
                let mut i: usize = 0;
                while i < 12
                    invariant
                        i <= 12,
                        b@.len() >= 27,
                        forall|j: int| 0 <= j < i ==> data@[j] == b@[4 + j],
                    decreases 12 - i,
                {
                    data[i] = b[4 + i];
                    i = i + 1;
                }
                let device_id = read_be64(b, 16);
                let data2 = read_be16(b, 24);
                let r = BootResponse { data, device_id, data2 };
                proof {
                    assert(data@ =~= b@.subrange(4, 16));
                    assert(r.payload() =~= payload_of(b@, 22));
                }
                Ok(r)
            },
            Err(e) => Err(e),
        }
    }

    /// Decoding the bytes of `m` succeeds, and gives `m` back.
    pub proof fn lemma_round_trip(m: Self, d: Self)
        ensures
            Self::status(m.wire()) is Ok,
            payload_of(m.wire(), 22) == m.payload(),
            d.payload() == m.payload() ==> d == m,
    {
        assert(m.payload().subrange(22, 22) =~= seq![]);
        lemma_frame_bytes_valid(0x4084, m.payload(), seq![]);
        if d.payload() == m.payload() {
            assert(d.payload().subrange(0, 12) =~= d.data@);
            assert(m.payload().subrange(0, 12) =~= m.data@);
            assert(d.data =~= m.data);
            assert(d.payload().subrange(12, 20) =~= be64(d.device_id));
            assert(m.payload().subrange(12, 20) =~= be64(m.device_id));
            lemma_be64_injective(d.device_id, m.device_id);
            assert(d.payload().subrange(20, 22) =~= be16(d.data2));
            assert(m.payload().subrange(20, 22) =~= be16(m.data2));
            lemma_be16_injective(d.data2, m.data2);
        }
    }
}

/// Unsolicited announcement of a device that asks to join a network.
#[derive(Debug, Clone, Copy, PartialEq, Eq)]
pub struct BroadcastResponse {
    pub network_id: u16,
    pub device_id: u64,
    pub data: u8,
}

impl BroadcastResponse {
    /// The payload bytes on the wire.
    pub open spec fn payload(self) -> Seq<u8> {
        be16(self.network_id) + be64(self.device_id) + seq![self.data]
    }

    /// The wire bytes of the message.
    pub open spec fn wire(self) -> Seq<u8> {
        frame_bytes(0xa013, self.payload())
    }

    /// Outcome of the frame checks on `b` for this message.
    pub open spec fn status(b: Seq<u8>) -> Result<(), FrameError> {
        frame_status(b, 0xa013, 11, seq![])
    }

    /// The frame bytes of the message.
    pub fn encode(&self) -> (r: Vec<u8>)
        ensures
            r@ == self.wire(),
    {
        let mut payload: Vec<u8> = Vec::new();
        push_be16(&mut payload, self.network_id);
        push_be64(&mut payload, self.device_id);
        payload.push(self.data);
        proof { assert(payload@ =~= self.payload()); }
        encode_frame(0xa013, &payload)
    }

    /// Reads the message from the front of `b`, making the frame checks in
    /// order; bytes after the frame are ignored.
    pub fn decode(b: &[u8]) -> (r: Result<Self, FrameError>)
        ensures
            decode_result(r, Self::status(b@)),
            r is Ok ==> r->Ok_0.payload() == payload_of(b@, 11),
    {
        let tail: Vec<u8> = Vec::new();
        proof { assert(tail@ =~= seq![]); }
        match check_frame(b, 0xa013, 11, tail.as_slice()) {
            Ok(()) => {
                let network_id = read_be16(b, 4);
                let device_id = read_be64(b, 6);
                let data = b[14];
                let r = BroadcastResponse { network_id, device_id, data };
                proof { assert(r.payload() =~= payload_of(b@, 11)); }
                Ok(r)
            },
            Err(e) => Err(e),
        }
    }

    /// Decoding the bytes of `m` succeeds, and gives `m` back.
    pub proof fn lemma_round_trip(m: Self, d: Self)
        ensures
            Self::status(m.wire()) is Ok,
            payload_of(m.wire(), 11) == m.payload(),
            d.payload() == m.payload() ==> d == m,
    {
        assert(m.payload().subrange(11, 11) =~= seq![]);
        lemma_frame_bytes_valid(0xa013, m.payload(), seq![]);
        if d.payload() == m.payload() {
            assert(d.payload().subrange(0, 2) =~= be16(d.network_id));
            assert(m.payload().subrange(0, 2) =~= be16(m.network_id));
            lemma_be16_injective(d.network_id, m.network_id);
            assert(d.payload().subrange(2, 10) =~= be64(d.device_id));
            assert(m.payload().subrange(2, 10) =~= be64(m.device_id));
            lemma_be64_injective(d.device_id, m.device_id);
            assert(d.payload()[10] == d.data);
        }
    }
}

/// Confirmation that a device on a network took the new time.
#[derive(Debug, Clone, Copy, PartialEq, Eq)]
pub struct UpdateTimeResponse {
    pub network_id: u16,
}

impl UpdateTimeResponse {
    /// The payload bytes on the wire.
    pub open spec fn payload(self) -> Seq<u8> {
        be16(self.network_id) + seq![0x00u8]
    }

    /// The wire bytes of the message.
    pub open spec fn wire(self) -> Seq<u8> {
        frame_bytes(0x40a2, self.payload())
    }

    /// Outcome of the frame checks on `b` for this message.
    pub open spec fn status(b: Seq<u8>) -> Result<(), FrameError> {
        frame_status(b, 0x40a2, 3, seq![0x00u8])
    }

    /// The frame bytes of the message.
    pub fn encode(&self) -> (r: Vec<u8>)
        ensures
            r@ == self.wire(),
    {
        let mut payload: Vec<u8> = Vec::new();
        push_be16(&mut payload, self.network_id);
        payload.push(0x00);
        proof { assert(payload@ =~= self.payload()); }
        encode_frame(0x40a2, &payload)
    }

    /// Reads the message from the front of `b`, making the frame checks in
    /// order; bytes after the frame are ignored.
    pub fn decode(b: &[u8]) -> (r: Result<Self, FrameError>)
        ensures
            decode_result(r, Self::status(b@)),
            r is Ok ==> r->Ok_0.payload() == payload_of(b@, 3),
    {
        let tail: Vec<u8> = vec![0x00u8];
        proof { assert(tail@ =~= seq![0x00u8]); }
        match check_frame(b, 0x40a2, 3, tail.as_slice()) {
            Ok(()) => {
                let network_id = read_be16(b, 4);
                let r = UpdateTimeResponse { network_id };
                proof {
                    assert(b@.subrange(6, 7)[0] == 0x00u8);
                    assert(r.payload() =~= payload_of(b@, 3));
                }
                Ok(r)
            },
            Err(e) => Err(e),
        }
    }

    /// Decoding the bytes of `m` succeeds, and gives `m` back.
    pub proof fn lemma_round_trip(m: Self, d: Self)
        ensures
            Self::status(m.wire()) is Ok,
            payload_of(m.wire(), 3) == m.payload(),
            d.payload() == m.payload() ==> d == m,
    {
        assert(m.payload().subrange(2, 3) =~= seq![0x00u8]);
        lemma_frame_bytes_valid(0x40a2, m.payload(), seq![0x00u8]);
        if d.payload() == m.payload() {
            assert(d.payload().subrange(0, 2) =~= be16(d.network_id));
            assert(m.payload().subrange(0, 2) =~= be16(m.network_id));
            lemma_be16_injective(d.network_id, m.network_id);
        }
    }
}

/// Request that sets the clock of the devices of a network; the time goes
/// little-endian on the wire.
#[derive(Debug, Clone, Copy, PartialEq, Eq)]
pub struct UpdateTimeRequest {
    pub network_id: u16,
    pub time: u32,
}

impl UpdateTimeRequest {
    /// The payload bytes on the wire.
    pub open spec fn payload(self) -> Seq<u8> {
        be16(self.network_id) + le32(self.time)
    }

    /// The wire bytes of the message.
    pub open spec fn wire(self) -> Seq<u8> {
        frame_bytes(0x4022, self.payload())
    }

    /// Outcome of the frame checks on `b` for this message.
    pub open spec fn status(b: Seq<u8>) -> Result<(), FrameError> {
        frame_status(b, 0x4022, 6, seq![])
    }

    /// The frame bytes of the message.
    pub fn encode(&self) -> (r: Vec<u8>)
        ensures
            r@ == self.wire(),
    {
        let mut payload: Vec<u8> = Vec::new();
        push_be16(&mut payload, self.network_id);
        push_le32(&mut payload, self.time);
        proof { assert(payload@ =~= self.payload()); }
        encode_frame(0x4022, &payload)
    }

    /// Reads the message from the front of `b`, making the frame checks in
    /// order; bytes after the frame are ignored.
    pub fn decode(b: &[u8]) -> (r: Result<Self, FrameError>)
        ensures
            decode_result(r, Self::status(b@)),
            r is Ok ==> r->Ok_0.payload() == payload_of(b@, 6),
    {
        let tail: Vec<u8> = Vec::new();
        proof { assert(tail@ =~= seq![]); }
        match check_frame(b, 0x4022, 6, tail.as_slice()) {
            Ok(()) => {
                let network_id = read_be16(b, 4);
                let time = read_le32(b, 6);
                let r = UpdateTimeRequest { network_id, time };
                proof { assert(r.payload() =~= payload_of(b@, 6)); }
                Ok(r)
            },
            Err(e) => Err(e),
        }
    }

    /// Decoding the bytes of `m` succeeds, and gives `m` back.
    pub proof fn lemma_round_trip(m: Self, d: Self)
        ensures
            Self::status(m.wire()) is Ok,
            payload_of(m.wire(), 6) == m.payload(),
            d.payload() == m.payload() ==> d == m,
    {
        assert(m.payload().subrange(6, 6) =~= seq![]);
        lemma_frame_bytes_valid(0x4022, m.payload(), seq![]);
        if d.payload() == m.payload() {
            assert(d.payload().subrange(0, 2) =~= be16(d.network_id));
            assert(m.payload().subrange(0, 2) =~= be16(m.network_id));
            lemma_be16_injective(d.network_id, m.network_id);
            assert(d.payload().subrange(2, 6) =~= le32(d.time));
            assert(m.payload().subrange(2, 6) =~= le32(m.time));
            lemma_le32_injective(d.time, m.time);
        }
    }
}

/// Request that selects the network that later commands address.
#[derive(Debug, Clone, Copy, PartialEq, Eq)]
pub struct HandshakeRequest {
    pub network_id: u16,
}

impl HandshakeRequest {
    /// The payload bytes on the wire.
    pub open spec fn payload(self) -> Seq<u8> {
        be16(self.network_id) + seq![0x05u8, 0x00u8]
    }

    /// The wire bytes of the message.
    pub open spec fn wire(self) -> Seq<u8> {
        frame_bytes(0x4003, self.payload())
    }

    /// Outcome of the frame checks on `b` for this message.
    pub open spec fn status(b: Seq<u8>) -> Result<(), FrameError> {
        frame_status(b, 0x4003, 4, seq![0x05u8, 0x00u8])
    }

    /// The frame bytes of the message.
    pub fn encode(&self) -> (r: Vec<u8>)
        ensures
            r@ == self.wire(),
    {
        let mut payload: Vec<u8> = Vec::new();
        push_be16(&mut payload, self.network_id);
        payload.push(0x05);
        payload.push(0x00);
        proof { assert(payload@ =~= self.payload()); }
        encode_frame(0x4003, &payload)
    }

    /// Reads the message from the front of `b`, making the frame checks in
    /// order; bytes after the frame are ignored.
    pub fn decode(b: &[u8]) -> (r: Result<Self, FrameError>)
        ensures
            decode_result(r, Self::status(b@)),
            r is Ok ==> r->Ok_0.payload() == payload_of(b@, 4),
    {
        let tail: Vec<u8> = vec![0x05u8, 0x00u8];
        proof { assert(tail@ =~= seq![0x05u8, 0x00u8]); }
        match check_frame(b, 0x4003, 4, tail.as_slice()) {
            Ok(()) => {
                let network_id = read_be16(b, 4);
                let r = HandshakeRequest { network_id };
                proof {
                    assert(b@.subrange(6, 8)[0] == 0x05u8 && b@.subrange(6, 8)[1] == 0x00u8);
                    assert(r.payload() =~= payload_of(b@, 4));
                }
                Ok(r)
            },
            Err(e) => Err(e),
        }
    }

    /// Decoding the bytes of `m` succeeds, and gives `m` back.
    pub proof fn lemma_round_trip(m: Self, d: Self)
        ensures
            Self::status(m.wire()) is Ok,
            payload_of(m.wire(), 4) == m.payload(),
            d.payload() == m.payload() ==> d == m,
    {
        assert(m.payload().subrange(2, 4) =~= seq![0x05u8, 0x00u8]);
        lemma_frame_bytes_valid(0x4003, m.payload(), seq![0x05u8, 0x00u8]);
        if d.payload() == m.payload() {
            assert(d.payload().subrange(0, 2) =~= be16(d.network_id));
            assert(m.payload().subrange(0, 2) =~= be16(m.network_id));
            lemma_be16_injective(d.network_id, m.network_id);
        }
    }
}

/// Request for the power samples of one socket of a device.
#[derive(Debug, Clone, Copy, PartialEq, Eq)]
pub struct SamplesRequest {
    pub network_id: u16,
    pub channel_id: u16,
}

impl SamplesRequest {
    /// The payload bytes on the wire.
    pub open spec fn payload(self) -> Seq<u8> {
        be16(self.network_id) + be16(self.channel_id) + seq![0x0au8, 0x00u8]
    }

    /// The wire bytes of the message.
    pub open spec fn wire(self) -> Seq<u8> {
        frame_bytes(0x4024, self.payload())
    }

    /// Outcome of the frame checks on `b` for this message.
    pub open spec fn status(b: Seq<u8>) -> Result<(), FrameError> {
        frame_status(b, 0x4024, 6, seq![0x0au8, 0x00u8])
    }

    /// The frame bytes of the message.
    pub fn encode(&self) -> (r: Vec<u8>)
        ensures
            r@ == self.wire(),
    {
        let mut payload: Vec<u8> = Vec::new();
        push_be16(&mut payload, self.network_id);
        push_be16(&mut payload, self.channel_id);
        payload.push(0x0a);
        payload.push(0x00);
        proof { assert(payload@ =~= self.payload()); }
        encode_frame(0x4024, &payload)
    }

    /// Reads the message from the front of `b`, making the frame checks in
    /// order; bytes after the frame are ignored.
    pub fn decode(b: &[u8]) -> (r: Result<Self, FrameError>)
        ensures
            decode_result(r, Self::status(b@)),
            r is Ok ==> r->Ok_0.payload() == payload_of(b@, 6),
    {
        let tail: Vec<u8> = vec![0x0au8, 0x00u8];
        proof { assert(tail@ =~= seq![0x0au8, 0x00u8]); }
        match check_frame(b, 0x4024, 6, tail.as_slice()) {
            Ok(()) => {
                let network_id = read_be16(b, 4);
                let channel_id = read_be16(b, 6);
                let r = SamplesRequest { network_id, channel_id };
                proof {
                    assert(b@.subrange(8, 10)[0] == 0x0au8 && b@.subrange(8, 10)[1] == 0x00u8);
                    assert(r.payload() =~= payload_of(b@, 6));
                }
                Ok(r)
            },
            Err(e) => Err(e),
        }
    }

    /// Decoding the bytes of `m` succeeds, and gives `m` back.
    pub proof fn lemma_round_trip(m: Self, d: Self)
        ensures
            Self::status(m.wire()) is Ok,
            payload_of(m.wire(), 6) == m.payload(),
            d.payload() == m.payload() ==> d == m,
    {
        assert(m.payload().subrange(4, 6) =~= seq![0x0au8, 0x00u8]);
        lemma_frame_bytes_valid(0x4024, m.payload(), seq![0x0au8, 0x00u8]);
        if d.payload() == m.payload() {
            assert(d.payload().subrange(0, 2) =~= be16(d.network_id));
            assert(m.payload().subrange(0, 2) =~= be16(m.network_id));
            lemma_be16_injective(d.network_id, m.network_id);
            assert(d.payload().subrange(2, 4) =~= be16(d.channel_id));
            assert(m.payload().subrange(2, 4) =~= be16(m.channel_id));
            lemma_be16_injective(d.channel_id, m.channel_id);
        }
    }
}

/// Request that programs the 56-byte weekly schedule of one socket.
#[derive(Debug, Clone, Copy, PartialEq, Eq)]
pub struct ScheduleRequest {
    pub network_id: u16,
    pub channel_id: u8,
    pub schedule: [u8; 56],
}

impl ScheduleRequest {
    /// The payload bytes on the wire.
    pub open spec fn payload(self) -> Seq<u8> {
        be16(self.network_id) + seq![self.channel_id] + self.schedule@
    }

    /// The wire bytes of the message.
    pub open spec fn wire(self) -> Seq<u8> {
        frame_bytes(0x4023, self.payload())
    }

    /// Outcome of the frame checks on `b` for this message.
    pub open spec fn status(b: Seq<u8>) -> Result<(), FrameError> {
        frame_status(b, 0x4023, 59, seq![])
    }

    /// The frame bytes of the message.
    pub fn encode(&self) -> (r: Vec<u8>)
        ensures
            r@ == self.wire(),
    {
        let mut payload: Vec<u8> = Vec::new();
        push_be16(&mut payload, self.network_id);
        payload.push(self.channel_id);
        push_all(&mut payload, self.schedule.as_slice());
        proof { assert(payload@ =~= self.payload()); }
        encode_frame(0x4023, &payload)
    }

    /// Reads the message from the front of `b`, making the frame checks in
    /// order; bytes after the frame are ignored.
    pub fn decode(b: &[u8]) -> (r: Result<Self, FrameError>)
        ensures
            decode_result(r, Self::status(b@)),
            r is Ok ==> r->Ok_0.payload() == payload_of(b@, 59),
    {
        let tail: Vec<u8> = Vec::new();
        proof { assert(tail@ =~= seq![]); }
        match check_frame(b, 0x4023, 59, tail.as_slice()) {
            Ok(()) => {
                let network_id = read_be16(b, 4);
                let channel_id = b[6];
                let mut schedule = [0u8; 56];
                let mut i: usize = 0;
                while i < 56
                    invariant
                        i <= 56,
                        b@.len() >= 64,
                        forall|j: int| 0 <= j < i ==> schedule@[j] == b@[7 + j],
                    decreases 56 - i,
                {
                    schedule[i] = b[7 + i];
                    i = i + 1;
                }
                let r = ScheduleRequest { network_id, channel_id, schedule };
                proof {
                    assert(schedule@ =~= b@.subrange(7, 63));
                    assert(r.payload() =~= payload_of(b@, 59));
                }
                Ok(r)
            },
            Err(e) => Err(e),
        }
    }

    /// Decoding the bytes of `m` succeeds, and gives `m` back.
    pub proof fn lemma_round_trip(m: Self, d: Self)
        ensures
            Self::status(m.wire()) is Ok,
            payload_of(m.wire(), 59) == m.payload(),
            d.payload() == m.payload() ==> d == m,
    {
        assert(m.payload().subrange(59, 59) =~= seq![]);
        lemma_frame_bytes_valid(0x4023, m.payload(), seq![]);
        if d.payload() == m.payload() {
            assert(d.payload().subrange(0, 2) =~= be16(d.network_id));
            assert(m.payload().subrange(0, 2) =~= be16(m.network_id));
            lemma_be16_injective(d.network_id, m.network_id);
            assert(d.payload()[2] == d.channel_id);
            assert(d.payload().subrange(3, 59) =~= d.schedule@);
            assert(m.payload().subrange(3, 59) =~= m.schedule@);
            assert(d.schedule =~= m.schedule);
        }
    }
}

/// Little-endian bytes of each sample, in order.
pub open spec fn samples_bytes(s: Seq<u16>) -> Seq<u8>
    decreases s.len(),
{
    if s.len() == 0 {
        seq![]
    } else {
        samples_bytes(s.drop_last()) + le16(s.last())
    }
}

pub proof fn lemma_samples_bytes_len(s: Seq<u16>)
    ensures
        samples_bytes(s).len() == 2 * s.len(),
    decreases s.len(),
{
    if s.len() > 0 {
        lemma_samples_bytes_len(s.drop_last());
    }
}

/// Sample sequences of one length with the same bytes are equal.
pub proof fn lemma_samples_bytes_injective(s: Seq<u16>, t: Seq<u16>)
    requires
        s.len() == t.len(),
        samples_bytes(s) == samples_bytes(t),
    ensures
        s == t,
    decreases s.len(),
{
    if s.len() > 0 {
        let k = 2 * (s.len() - 1);
        lemma_samples_bytes_len(s.drop_last());
        lemma_samples_bytes_len(t.drop_last());
        assert(samples_bytes(s).subrange(0, k) =~= samples_bytes(s.drop_last()));
        assert(samples_bytes(t).subrange(0, k) =~= samples_bytes(t.drop_last()));
        assert(samples_bytes(s).subrange(k, k + 2) =~= le16(s.last()));
        assert(samples_bytes(t).subrange(k, k + 2) =~= le16(t.last()));
        lemma_samples_bytes_injective(s.drop_last(), t.drop_last());
        lemma_le16_injective(s.last(), t.last());
        assert(s =~= s.drop_last().push(s.last()));
        assert(t =~= t.drop_last().push(t.last()));
    }
}

/// Number of payload bytes of a samples response, as its sample count gives it.
pub open spec fn samples_payload_len(b: Seq<u8>) -> int {
    if b.len() >= 15 {
        14 + 2 * b[14]
    } else {
        14
    }
}

/// The power samples of one socket. On the wire the time and the samples are
/// little-endian, the other fields big-endian.
#[derive(Debug, Clone, PartialEq, Eq)]
pub struct SamplesResponse {
    pub network_id: u16,
    pub channel_id: u16,
    pub data: u16,
    pub time: u32,
    pub sample_count: u8,
    pub stored_sample_count: [u8; 3],
    pub samples: Vec<u16>,
}

impl SamplesResponse {
    /// The sample count matches the samples, and the payload length fits its
    /// one-byte code.
    pub open spec fn wf(&self) -> bool {
        &&& self.sample_count == self.samples@.len()
        &&& self.samples@.len() <= 120
    }

    /// The payload bytes on the wire.
    pub open spec fn payload(&self) -> Seq<u8> {
        be16(self.network_id) + be16(self.channel_id) + be16(self.data) + le32(self.time)
            + seq![self.sample_count] + self.stored_sample_count@ + samples_bytes(self.samples@)
    }

    /// The wire bytes of the message.
    pub open spec fn wire(&self) -> Seq<u8> {
        frame_bytes(0x40a4, self.payload())
    }

    /// Outcome of the frame checks on `b` for this message.
    pub open spec fn status(b: Seq<u8>) -> Result<(), FrameError> {
        frame_status(b, 0x40a4, samples_payload_len(b), seq![])
    }

    /// The frame bytes of the message.
    pub fn encode(&self) -> (r: Vec<u8>)
        requires
            self.wf(),
        ensures
            r@ == self.wire(),
    {
        let mut payload: Vec<u8> = Vec::new();
        push_be16(&mut payload, self.network_id);
        push_be16(&mut payload, self.channel_id);
        push_be16(&mut payload, self.data);
        push_le32(&mut payload, self.time);
        payload.push(self.sample_count);
        push_all(&mut payload, self.stored_sample_count.as_slice());
        let ghost head = payload@;
        let mut i: usize = 0;
        while i < self.samples.len()
            invariant
                i <= self.samples@.len(),
                payload@ == head + samples_bytes(self.samples@.subrange(0, i as int)),
            decreases self.samples@.len() - i,
        {
            push_le16(&mut payload, self.samples[i]);
            assert(self.samples@.subrange(0, i + 1).drop_last() =~= self.samples@.subrange(0, i as int));
            i = i + 1;
        }
        proof {
            assert(self.samples@.subrange(0, self.samples@.len() as int) =~= self.samples@);
            lemma_samples_bytes_len(self.samples@);
            assert(payload@ =~= self.payload());
        }
        encode_frame(0x40a4, &payload)
    }

    /// Reads the message from the front of `b`, making the frame checks in
    /// order; bytes after the frame are ignored.
    pub fn decode(b: &[u8]) -> (r: Result<Self, FrameError>)
        ensures
            decode_result(r, Self::status(b@)),
            r is Ok ==> r->Ok_0.payload() == payload_of(b@, samples_payload_len(b@)),
            r is Ok ==> r->Ok_0.wf(),
    {
        let n: usize = if b.len() >= 15 { 14 + 2 * b[14] as usize } else { 14 };
        let tail: Vec<u8> = Vec::new();
        proof { assert(tail@ =~= seq![]); }
        match check_frame(b, 0x40a4, n, tail.as_slice()) {
            Ok(()) => {
                let network_id = read_be16(b, 4);
                let channel_id = read_be16(b, 6);
                let data = read_be16(b, 8);
                let time = read_le32(b, 10);
                let sample_count = b[14];
                let mut stored_sample_count = [0u8; 3];
                stored_sample_count[0] = b[15];
                stored_sample_count[1] = b[16];
                stored_sample_count[2] = b[17];
                let mut samples: Vec<u16> = Vec::new();
                let mut i: usize = 0;
                while i < sample_count as usize
                    invariant
                        i <= sample_count,
                        sample_count == b@[14],
                        b@.len() >= 19 + 2 * sample_count,
                        samples@.len() == i,
                        samples_bytes(samples@) == b@.subrange(18, 18 + 2 * i),
                    decreases sample_count - i,
                {
                    let s = read_le16(b, 18 + 2 * i);
                    let ghost before = samples@;
                    samples.push(s);
                    assert(samples@.drop_last() =~= before);
                    assert(b@.subrange(18, 18 + 2 * (i + 1)) =~= b@.subrange(18, 18 + 2 * i) + b@.subrange(18 + 2 * i, 18 + 2 * i + 2));
                    i = i + 1;
                }
                let r = SamplesResponse {
                    network_id,
                    channel_id,
                    data,
                    time,
                    sample_count,
                    stored_sample_count,
                    samples,
                };
                proof {
                    assert(stored_sample_count@ =~= b@.subrange(15, 18));
                    assert(r.payload() =~= payload_of(b@, samples_payload_len(b@)));
                }
                Ok(r)
            },
            Err(e) => Err(e),
        }
    }

    /// Decoding the bytes of a well-formed `m` succeeds, and gives back a
    /// message with the same fields and the same samples.
    #[verifier::rlimit(50)]
    pub proof fn lemma_round_trip(m: Self, d: Self)
        requires
            m.wf(),
        ensures
            Self::status(m.wire()) is Ok,
            payload_of(m.wire(), samples_payload_len(m.wire())) == m.payload(),
            d.payload() == m.payload() ==> {
                &&& d.network_id == m.network_id
                &&& d.channel_id == m.channel_id
                &&& d.data == m.data
                &&& d.time == m.time
                &&& d.sample_count == m.sample_count
                &&& d.stored_sample_count == m.stored_sample_count
                &&& d.samples@ == m.samples@
            },
    {
        let p = m.payload();
        lemma_samples_bytes_len(m.samples@);
        lemma_samples_bytes_len(d.samples@);
        assert(p.subrange(p.len() as int, p.len() as int) =~= seq![]);
        lemma_frame_bytes_valid(0x40a4, p, seq![]);
        assert(m.wire()[14] == m.sample_count);
        if d.payload() == p {
            assert(d.payload().subrange(0, 2) =~= be16(d.network_id));
            assert(p.subrange(0, 2) =~= be16(m.network_id));
            lemma_be16_injective(d.network_id, m.network_id);
            assert(d.payload().subrange(2, 4) =~= be16(d.channel_id));
            assert(p.subrange(2, 4) =~= be16(m.channel_id));
            lemma_be16_injective(d.channel_id, m.channel_id);
            assert(d.payload().subrange(4, 6) =~= be16(d.data));
            assert(p.subrange(4, 6) =~= be16(m.data));
            lemma_be16_injective(d.data, m.data);
            assert(d.payload().subrange(6, 10) =~= le32(d.time));
            assert(p.subrange(6, 10) =~= le32(m.time));
            lemma_le32_injective(d.time, m.time);
            assert(d.payload()[10] == d.sample_count);
            assert(d.payload().subrange(11, 14) =~= d.stored_sample_count@);
            assert(p.subrange(11, 14) =~= m.stored_sample_count@);
            assert(d.stored_sample_count =~= m.stored_sample_count);
            assert(d.payload().subrange(14, p.len() as int) =~= samples_bytes(d.samples@));
            assert(p.subrange(14, p.len() as int) =~= samples_bytes(m.samples@));
            lemma_samples_bytes_injective(d.samples@, m.samples@);
        }
    }
}

} // verus!
