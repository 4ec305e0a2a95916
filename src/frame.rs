use vstd::prelude::*;
use crate::checksum::{xor_all, MessageChecksum};

verus! {

/// First byte of every frame; it is not covered by the checksum.
pub const MAGIC: u8 = 0x02;

/// Why a byte sequence is not a frame of the expected message.
#[derive(Debug, Clone, Copy, PartialEq, Eq, Structural)]
pub enum FrameError {
    /// Fewer bytes than the frame needs.
    Truncated,
    /// The first byte is not the frame marker.
    BadMagic,
    /// The command id is not the one of the expected message.
    CommandMismatch,
    /// The payload-length code is not the one of the expected message.
    LengthMismatch,
    /// A field that the protocol fixes holds another value.
    FieldConstantMismatch,
    /// The trailing byte is not the XOR of the bytes between marker and it.
    ChecksumMismatch,
}

/// Big-endian bytes of a `u16`.
pub open spec fn be16(x: u16) -> Seq<u8> {
    seq![(x / 256) as u8, (x % 256) as u8]
}

/// Big-endian bytes of a `u32`.
pub open spec fn be32(x: u32) -> Seq<u8> {
    be16((x / 0x1_0000) as u16) + be16((x % 0x1_0000) as u16)
}

/// Big-endian bytes of a `u64`.
pub open spec fn be64(x: u64) -> Seq<u8> {
    be32((x / 0x1_0000_0000) as u32) + be32((x % 0x1_0000_0000) as u32)
}

/// Little-endian bytes of a `u16`.
pub open spec fn le16(x: u16) -> Seq<u8> {
    seq![(x % 256) as u8, (x / 256) as u8]
}

/// Little-endian bytes of a `u32`.
pub open spec fn le32(x: u32) -> Seq<u8> {
    le16((x % 0x1_0000) as u16) + le16((x / 0x1_0000) as u16)
}

/// The part of a frame that the checksum covers: command id, length code, payload.
pub open spec fn frame_body(command: u16, payload: Seq<u8>) -> Seq<u8> {
    be16(command) + seq![payload.len() as u8] + payload
}

/// The wire bytes of a frame.
pub open spec fn frame_bytes(command: u16, payload: Seq<u8>) -> Seq<u8> {
    seq![MAGIC] + frame_body(command, payload) + seq![xor_all(frame_body(command, payload))]
}

/// The big-endian `u16` read from bytes `hi`, `lo`.
pub open spec fn u16_of(hi: u8, lo: u8) -> u16 {
    (hi as u16 * 256 + lo as u16) as u16
}

/// The command id of a frame.
pub open spec fn command_of(b: Seq<u8>) -> u16 {
    u16_of(b[1], b[2])
}

/// The `n` payload bytes of a frame.
pub open spec fn payload_of(b: Seq<u8>, n: int) -> Seq<u8> {
    b.subrange(4, 4 + n)
}

/// Outcome of the frame checks, in the order they are made, for a message with
/// command id `command`, `n` payload bytes, and payload ending in the fixed
/// bytes `tail`. Bytes after the frame are not looked at.
pub open spec fn frame_status(b: Seq<u8>, command: u16, n: int, tail: Seq<u8>) -> Result<(), FrameError> {
    if b.len() == 0 {
        Err(FrameError::Truncated)
    } else if b[0] != MAGIC {
        Err(FrameError::BadMagic)
    } else if b.len() < n + 5 {
        Err(FrameError::Truncated)
    } else if command_of(b) != command {
        Err(FrameError::CommandMismatch)
    } else if b[3] != n {
        Err(FrameError::LengthMismatch)
    } else if b.subrange(4 + n - tail.len(), 4 + n) != tail {
        Err(FrameError::FieldConstantMismatch)
    } else if b[4 + n] != xor_all(b.subrange(1, 4 + n)) {
        Err(FrameError::ChecksumMismatch)
    } else {
        Ok(())
    }
}

/// Appends the big-endian bytes of `x`.
pub fn push_be16(v: &mut Vec<u8>, x: u16)
    ensures
        final(v)@ == old(v)@ + be16(x),
{
    v.push((x / 256) as u8);
    v.push((x % 256) as u8);
    assert(final(v)@ =~= old(v)@ + be16(x));
}

/// Appends the big-endian bytes of `x`.
pub fn push_be32(v: &mut Vec<u8>, x: u32)
    ensures
        final(v)@ == old(v)@ + be32(x),
{
    push_be16(v, (x / 0x1_0000) as u16);
    push_be16(v, (x % 0x1_0000) as u16);
    assert(final(v)@ =~= old(v)@ + be32(x));
}

/// Appends the big-endian bytes of `x`.
pub fn push_be64(v: &mut Vec<u8>, x: u64)
    ensures
        final(v)@ == old(v)@ + be64(x),
{
    push_be32(v, (x / 0x1_0000_0000) as u32);
    push_be32(v, (x % 0x1_0000_0000) as u32);
    assert(final(v)@ =~= old(v)@ + be64(x));
}

/// Appends the little-endian bytes of `x`.
pub fn push_le16(v: &mut Vec<u8>, x: u16)
    ensures
        final(v)@ == old(v)@ + le16(x),
{
    v.push((x % 256) as u8);
    v.push((x / 256) as u8);
    assert(final(v)@ =~= old(v)@ + le16(x));
}

/// Appends the little-endian bytes of `x`.
pub fn push_le32(v: &mut Vec<u8>, x: u32)
    ensures
        final(v)@ == old(v)@ + le32(x),
{
    push_le16(v, (x % 0x1_0000) as u16);
    push_le16(v, (x / 0x1_0000) as u16);
    assert(final(v)@ =~= old(v)@ + le32(x));
}

/// Appends the bytes of `s`.
pub fn push_all(v: &mut Vec<u8>, s: &[u8])
    ensures
        final(v)@ == old(v)@ + s@,
{
    let mut i: usize = 0;
    while i < s.len()
        invariant
            i <= s@.len(),
            v@ == old(v)@ + s@.subrange(0, i as int),
        decreases s@.len() - i,
    {
        v.push(s[i]);
        assert(old(v)@ + s@.subrange(0, i + 1) =~= (old(v)@ + s@.subrange(0, i as int)).push(s@[i as int]));
        i = i + 1;
    }
    assert(s@.subrange(0, s@.len() as int) =~= s@);
}

/// Wire bytes of a frame with command id `command` and the given payload.
pub fn encode_frame(command: u16, payload: &Vec<u8>) -> (r: Vec<u8>)
    requires
        payload@.len() <= 255,
    ensures
        r@ == frame_bytes(command, payload@),
        r@.len() == payload@.len() + 5,
{
    let mut header: Vec<u8> = Vec::new();
    push_be16(&mut header, command);
    header.push(payload.len() as u8);
    let mut stream = MessageChecksum::new();
    stream.write(header.as_slice());
    stream.write(payload.as_slice());
    let sum = stream.checksum;
    assert(stream.wrapped_stream@ =~= frame_body(command, payload@));
    let mut r: Vec<u8> = Vec::new();
    r.push(MAGIC);
    push_all(&mut r, stream.wrapped_stream.as_slice());
    r.push(sum);
    assert(r@ =~= frame_bytes(command, payload@));
    r
}

/// Makes the frame checks on `b` for a message with command id `command`,
/// `n` payload bytes, and payload ending in the fixed bytes `tail`.
pub fn check_frame(b: &[u8], command: u16, n: usize, tail: &[u8]) -> (r: Result<(), FrameError>)
    requires
        tail@.len() <= n,
        n <= 0x1_0000,
    ensures
        r == frame_status(b@, command, n as int, tail@),
{
    if b.len() == 0 {
        return Err(FrameError::Truncated);
    }
    if b[0] != MAGIC {
        return Err(FrameError::BadMagic);
    }
    if b.len() < n + 5 {
        return Err(FrameError::Truncated);
    }
    let cmd: u16 = b[1] as u16 * 256 + b[2] as u16;
    if cmd != command {
        return Err(FrameError::CommandMismatch);
    }
    if b[3] as usize != n {
        return Err(FrameError::LengthMismatch);
    }
    let start = 4 + n - tail.len();
    let mut i: usize = 0;
    while i < tail.len()
        invariant
            i <= tail@.len(),
            tail@.len() <= n <= 0x1_0000,
            start == 4 + n - tail@.len(),
            n + 5 <= b@.len(),
            b@[0] == MAGIC,
            command_of(b@) == command,
            b@[3] == n,
            forall|j: int| 0 <= j < i ==> b@[start + j] == tail@[j],
        decreases tail@.len() - i,
    {
        if b[start + i] != tail[i] {
            assert(b@.subrange(start as int, 4 + n)[i as int] != tail@[i as int]);
            return Err(FrameError::FieldConstantMismatch);
        }
        i = i + 1;
    }
    assert(b@.subrange(start as int, 4 + n) =~= tail@);
    let mut stream = MessageChecksum::new();
    stream.read(&b[1..n + 5]);
    assert(stream.wrapped_stream@ =~= b@.subrange(1, n + 5));
    assert(stream.wrapped_stream@.drop_last() =~= b@.subrange(1, 4 + n));
    if b[4 + n] != stream.checksum {
        return Err(FrameError::ChecksumMismatch);
    }
    Ok(())
}

/// Number of bytes that follow the 4-byte header of a frame whose length
/// code is `header[3]`: the payload and the checksum.
pub fn remaining_len(header: &[u8]) -> (r: usize)
    requires
        header@.len() >= 4,
    ensures
        r == header@[3] + 1,
{
    header[3] as usize + 1
}

/// Reads the big-endian `u16` at `b[i..i + 2]`.
pub fn read_be16(b: &[u8], i: usize) -> (r: u16)
    requires
        i + 2 <= b@.len(),
    ensures
        be16(r) == b@.subrange(i as int, i + 2),
{
    let hi = b[i];
    let lo = b[i + 1];
    let r: u16 = hi as u16 * 256 + lo as u16;
    assert(r / 256 == hi && r % 256 == lo);
    assert(be16(r) =~= b@.subrange(i as int, i + 2));
    r
}

/// Reads the big-endian `u32` at `b[i..i + 4]`.
pub fn read_be32(b: &[u8], i: usize) -> (r: u32)
    requires
        i + 4 <= b@.len(),
    ensures
        be32(r) == b@.subrange(i as int, i + 4),
{
    let _len = b.len();
    let hi = read_be16(b, i);
    let lo = read_be16(b, i + 2);
    let r: u32 = hi as u32 * 0x1_0000 + lo as u32;
    assert(r / 0x1_0000 == hi && r % 0x1_0000 == lo);
    assert(be32(r) =~= b@.subrange(i as int, i + 4));
    r
}

/// Reads the big-endian `u64` at `b[i..i + 8]`.
pub fn read_be64(b: &[u8], i: usize) -> (r: u64)
    requires
        i + 8 <= b@.len(),
    ensures
        be64(r) == b@.subrange(i as int, i + 8),
{
    let _len = b.len();
    let hi = read_be32(b, i);
    let lo = read_be32(b, i + 4);
    let r: u64 = hi as u64 * 0x1_0000_0000 + lo as u64;
    assert(r / 0x1_0000_0000 == hi && r % 0x1_0000_0000 == lo);
    assert(be64(r) =~= b@.subrange(i as int, i + 8));
    r
}

/// Reads the little-endian `u16` at `b[i..i + 2]`.
pub fn read_le16(b: &[u8], i: usize) -> (r: u16)
    requires
        i + 2 <= b@.len(),
    ensures
        le16(r) == b@.subrange(i as int, i + 2),
{
    let lo = b[i];
    let hi = b[i + 1];
    let r: u16 = hi as u16 * 256 + lo as u16;
    assert(r / 256 == hi && r % 256 == lo);
    assert(le16(r) =~= b@.subrange(i as int, i + 2));
    r
}

/// Reads the little-endian `u32` at `b[i..i + 4]`.
pub fn read_le32(b: &[u8], i: usize) -> (r: u32)
    requires
        i + 4 <= b@.len(),
    ensures
        le32(r) == b@.subrange(i as int, i + 4),
{
    let _len = b.len();
    let lo = read_le16(b, i);
    let hi = read_le16(b, i + 2);
    let r: u32 = hi as u32 * 0x1_0000 + lo as u32;
    assert(r / 0x1_0000 == hi && r % 0x1_0000 == lo);
    assert(le32(r) =~= b@.subrange(i as int, i + 4));
    r
}

/// Two values with the same big-endian bytes are equal.
pub proof fn lemma_be16_injective(x: u16, y: u16)
    requires
        be16(x) == be16(y),
    ensures
        x == y,
{
    assert(be16(x)[0] == be16(y)[0] && be16(x)[1] == be16(y)[1]);
}

/// Two values with the same big-endian bytes are equal.
pub proof fn lemma_be32_injective(x: u32, y: u32)
    requires
        be32(x) == be32(y),
    ensures
        x == y,
{
    assert(be32(x).subrange(0, 2) =~= be16((x / 0x1_0000) as u16));
    assert(be32(y).subrange(0, 2) =~= be16((y / 0x1_0000) as u16));
    assert(be32(x).subrange(2, 4) =~= be16((x % 0x1_0000) as u16));
    assert(be32(y).subrange(2, 4) =~= be16((y % 0x1_0000) as u16));
    lemma_be16_injective((x / 0x1_0000) as u16, (y / 0x1_0000) as u16);
    lemma_be16_injective((x % 0x1_0000) as u16, (y % 0x1_0000) as u16);
}

/// Two values with the same big-endian bytes are equal.
pub proof fn lemma_be64_injective(x: u64, y: u64)
    requires
        be64(x) == be64(y),
    ensures
        x == y,
{
    assert(be64(x).subrange(0, 4) =~= be32((x / 0x1_0000_0000) as u32));
    assert(be64(y).subrange(0, 4) =~= be32((y / 0x1_0000_0000) as u32));
    assert(be64(x).subrange(4, 8) =~= be32((x % 0x1_0000_0000) as u32));
    assert(be64(y).subrange(4, 8) =~= be32((y % 0x1_0000_0000) as u32));
    lemma_be32_injective((x / 0x1_0000_0000) as u32, (y / 0x1_0000_0000) as u32);
    lemma_be32_injective((x % 0x1_0000_0000) as u32, (y % 0x1_0000_0000) as u32);
}

/// Two values with the same little-endian bytes are equal.
pub proof fn lemma_le16_injective(x: u16, y: u16)
    requires
        le16(x) == le16(y),
    ensures
        x == y,
{
    assert(le16(x)[0] == le16(y)[0] && le16(x)[1] == le16(y)[1]);
}

/// Two values with the same little-endian bytes are equal.
pub proof fn lemma_le32_injective(x: u32, y: u32)
    requires
        le32(x) == le32(y),
    ensures
        x == y,
{
    assert(le32(x).subrange(0, 2) =~= le16((x % 0x1_0000) as u16));
    assert(le32(y).subrange(0, 2) =~= le16((y % 0x1_0000) as u16));
    assert(le32(x).subrange(2, 4) =~= le16((x / 0x1_0000) as u16));
    assert(le32(y).subrange(2, 4) =~= le16((y / 0x1_0000) as u16));
    lemma_le16_injective((x % 0x1_0000) as u16, (y % 0x1_0000) as u16);
    lemma_le16_injective((x / 0x1_0000) as u16, (y / 0x1_0000) as u16);
}

/// A frame built by `frame_bytes` passes every frame check for its command,
/// its payload length and any tail of its payload, and carries that payload.
pub proof fn lemma_frame_bytes_valid(command: u16, payload: Seq<u8>, tail: Seq<u8>)
    requires
        payload.len() <= 255,
        tail.len() <= payload.len(),
        payload.subrange(payload.len() - tail.len(), payload.len() as int) == tail,
    ensures
        frame_bytes(command, payload).len() == payload.len() + 5,
        frame_status(frame_bytes(command, payload), command, payload.len() as int, tail) is Ok,
        payload_of(frame_bytes(command, payload), payload.len() as int) == payload,
{
    let b = frame_bytes(command, payload);
    let n = payload.len() as int;
    assert(b[3] == n);
    assert(command_of(b) == command);
    assert(b.subrange(4 + n - tail.len(), 4 + n) =~= payload.subrange(n - tail.len(), n));
    assert(b.subrange(1, 4 + n) =~= frame_body(command, payload));
    assert(payload_of(b, n) =~= payload);
}

/// In a frame that passes the checks, the trailing byte is the XOR of the bytes
/// between the marker and it; with that byte raised by one (wrapping), the
/// checks fail on the checksum and on nothing else.
pub proof fn lemma_checksum_flip(b: Seq<u8>, command: u16, n: int, tail: Seq<u8>)
    requires
        0 <= tail.len() <= n,
        b.len() == n + 5,
        frame_status(b, command, n, tail) is Ok,
    ensures
        b[b.len() - 1] == xor_all(b.subrange(1, b.len() - 1)),
        frame_status(b.update(b.len() - 1, ((b[b.len() - 1] + 1) % 256) as u8), command, n, tail)
            == Err::<(), FrameError>(FrameError::ChecksumMismatch),
{
    let c = b.update(n + 4, ((b[n + 4] + 1) % 256) as u8);
    assert(c.subrange(1, 4 + n) =~= b.subrange(1, 4 + n));
    assert(c.subrange(4 + n - tail.len(), 4 + n) =~= b.subrange(4 + n - tail.len(), 4 + n));
}

/// A frame whose command id is wrong fails on the command, whatever its
/// checksum: here a valid frame gets new command bytes `c1`, `c2` and any
/// trailing byte `k`.
pub proof fn lemma_command_isolation(b: Seq<u8>, command: u16, n: int, tail: Seq<u8>, c1: u8, c2: u8, k: u8)
    requires
        0 <= tail.len() <= n,
        b.len() == n + 5,
        frame_status(b, command, n, tail) is Ok,
        u16_of(c1, c2) != command,
    ensures
        frame_status(b.update(1, c1).update(2, c2).update(n + 4, k), command, n, tail)
            == Err::<(), FrameError>(FrameError::CommandMismatch),
{
    let c = b.update(1, c1).update(2, c2).update(n + 4, k);
    assert(command_of(c) == u16_of(c1, c2));
}

} // verus!
