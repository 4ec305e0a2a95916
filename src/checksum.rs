use vstd::prelude::*;

verus! {

/// XOR of every byte of `s`, folded from the left; zero for no bytes.
pub open spec fn xor_all(s: Seq<u8>) -> u8
    decreases s.len(),
{
    if s.len() == 0 {
        0
    } else {
        xor_all(s.drop_last()) ^ s.last()
    }
}

/// Running XOR checksum over the bytes that pass through it.
///
/// The bytes that passed are kept in `wrapped_stream`. On the write path
/// `checksum` is the XOR of all of them. On the read path it lags one byte
/// behind: `previous_checksum` is the XOR of all bytes read, `checksum` that of
/// all but the last, so when a frame's trailing checksum byte has been read,
/// `checksum` is the value it must equal.
pub struct MessageChecksum {
    pub wrapped_stream: Vec<u8>,
    pub previous_checksum: u8,
    pub checksum: u8,
}

impl MessageChecksum {
    /// The write-path invariant.
    pub open spec fn writing(&self) -> bool {
        self.checksum == xor_all(self.wrapped_stream@)
    }

    /// The read-path invariant.
    pub open spec fn reading(&self) -> bool {
        &&& self.previous_checksum == xor_all(self.wrapped_stream@)
        &&& self.checksum == if self.wrapped_stream@.len() == 0 {
            0u8
        } else {
            xor_all(self.wrapped_stream@.drop_last())
        }
    }

    pub fn new() -> (r: MessageChecksum)
        ensures
            r.wrapped_stream@ == Seq::<u8>::empty(),
            r.previous_checksum == 0,
            r.checksum == 0,
            r.writing(),
            r.reading(),
    {
        MessageChecksum { wrapped_stream: Vec::new(), previous_checksum: 0, checksum: 0 }
    }

    /// Passes `buf` out through the filter.
    pub fn write(&mut self, buf: &[u8])
        requires
            old(self).writing(),
        ensures
            final(self).wrapped_stream@ == old(self).wrapped_stream@ + buf@,
            final(self).writing(),
    {
        let mut i: usize = 0;
        while i < buf.len()
            invariant
                i <= buf@.len(),
                self.writing(),
                self.wrapped_stream@ == old(self).wrapped_stream@ + buf@.subrange(0, i as int),
            decreases buf@.len() - i,
        {
            let byte = buf[i];
            let ghost before = self.wrapped_stream@;
            self.wrapped_stream.push(byte);
            self.checksum = self.checksum ^ byte;
            assert(self.wrapped_stream@.drop_last() =~= before);
            assert(old(self).wrapped_stream@ + buf@.subrange(0, i + 1) =~= before.push(byte));
            i = i + 1;
        }
        assert(buf@.subrange(0, buf@.len() as int) =~= buf@);
    }

    /// Takes `buf` in through the filter.
    pub fn read(&mut self, buf: &[u8])
        requires
            old(self).reading(),
        ensures
            final(self).wrapped_stream@ == old(self).wrapped_stream@ + buf@,
            final(self).reading(),
    {
        let mut i: usize = 0;
        while i < buf.len()
            invariant
                i <= buf@.len(),
                self.reading(),
                self.wrapped_stream@ == old(self).wrapped_stream@ + buf@.subrange(0, i as int),
            decreases buf@.len() - i,
        {
            let byte = buf[i];
            let ghost before = self.wrapped_stream@;
            self.wrapped_stream.push(byte);
            self.checksum = self.previous_checksum;
            self.previous_checksum = self.previous_checksum ^ byte;
            assert(self.wrapped_stream@.drop_last() =~= before);
            assert(old(self).wrapped_stream@ + buf@.subrange(0, i + 1) =~= before.push(byte));
            i = i + 1;
        }
        assert(buf@.subrange(0, buf@.len() as int) =~= buf@);
    }
}

} // verus!
