use vstd::prelude::*;

use crate::driver_125khz::MAX_BUFFER_SIZE;

verus! {

/// XOR of all the bytes of `s` (0 for the empty sequence).
pub open spec fn xor_bytes(s: Seq<u8>) -> u8
    decreases s.len(),
{
    if s.len() == 0 {
        0
    } else {
        xor_bytes(s.drop_last()) ^ s.last()
    }
}

/// The checksum the reader expects for `frame`: the XOR of every byte from the
/// address byte (index 2) to the end of the frame.
pub open spec fn frame_checksum(frame: Seq<u8>) -> u8 {
    if frame.len() <= 2 {
        0
    } else {
        xor_bytes(frame.subrange(2, frame.len() as int))
    }
}

/// `frame` with its checksum stored at index `cs_index`.
pub open spec fn with_checksum(frame: Seq<u8>, cs_index: int) -> Seq<u8> {
    frame.update(cs_index, frame_checksum(frame))
}

/// A frame the reader accepts: the XOR of every byte from index 2 (the
/// address byte) to the end, checksum byte included, is 0.
pub open spec fn frame_checks_out(frame: Seq<u8>) -> bool {
    frame.len() > 2 && xor_bytes(frame.subrange(2, frame.len() as int)) == 0
}

/// Law: the XOR of no bytes is 0, and appending a byte XORs it in.
pub proof fn lemma_xor_bytes_push(s: Seq<u8>, b: u8)
    ensures
        xor_bytes(Seq::<u8>::empty()) == 0,
        xor_bytes(s.push(b)) == xor_bytes(s) ^ b,
{
    assert(s.push(b).drop_last() =~= s);
}

/// Law: the checksum covers exactly the bytes from the address byte (index 2)
/// on: a frame of at most two bytes has checksum 0, and appending a byte to a
/// frame of at least two bytes XORs that byte into the checksum.
pub proof fn lemma_frame_checksum_step(frame: Seq<u8>, b: u8)
    ensures
        frame.len() <= 2 ==> frame_checksum(frame) == 0,
        frame.len() >= 2 ==> frame_checksum(frame.push(b)) == frame_checksum(frame) ^ b,
{
    if frame.len() >= 2 {
        let n = frame.len() as int;
        assert(frame.push(b).subrange(2, n + 1) =~= frame.subrange(2, n).push(b));
        lemma_xor_bytes_push(frame.subrange(2, n), b);
        if n == 2 {
            assert(frame.subrange(2, n) =~= Seq::<u8>::empty());
            assert(0u8 ^ b == b) by (bit_vector);
        }
    }
}

/// Changing one byte of a sequence changes its XOR by the old and the new byte.
pub proof fn lemma_xor_update(s: Seq<u8>, j: int, v: u8)
    requires
        0 <= j < s.len(),
    ensures
        xor_bytes(s.update(j, v)) == xor_bytes(s) ^ s[j] ^ v,
    decreases s.len(),
{
    let t = s.update(j, v);
    let a = xor_bytes(s.drop_last());
    let last = s.last();
    let old_b = s[j];
    if j == s.len() - 1 {
        assert(t.drop_last() =~= s.drop_last());
        assert(a ^ v == (a ^ old_b) ^ old_b ^ v) by (bit_vector);
    } else {
        assert(t.drop_last() =~= s.drop_last().update(j, v));
        lemma_xor_update(s.drop_last(), j, v);
        assert((a ^ old_b ^ v) ^ last == (a ^ last) ^ old_b ^ v) by (bit_vector);
    }
}

/// Law: storing the checksum in a frame whose checksum byte is still 0 yields a
/// frame the reader accepts.
pub proof fn lemma_sealed_frame_checks_out(frame: Seq<u8>, cs_index: int)
    requires
        2 <= cs_index < frame.len(),
        frame[cs_index] == 0,
    ensures
        frame_checks_out(with_checksum(frame, cs_index)),
{
    let n = frame.len() as int;
    let body = frame.subrange(2, n);
    let cs = frame_checksum(frame);
    assert(with_checksum(frame, cs_index).subrange(2, n) =~= body.update(cs_index - 2, cs));
    lemma_xor_update(body, cs_index - 2, cs);
    let x = xor_bytes(body);
    assert(x ^ 0u8 ^ x == 0u8) by (bit_vector);
}

/// Checksum handling and the transport hook shared by all drivers.
pub trait Common {
    /// Computes the checksum of `data`: the XOR of all bytes from the address
    /// byte (index 2) on, 0 for a slice of two bytes or fewer.
    fn _compute_checksum(&self, data: &mut [u8]) -> (cs: u8)
        ensures
            cs == frame_checksum(old(data)@),
            final(data)@ == old(data)@,
    {
        let n = data.len();
        if n <= 2 {
            return 0;
        }
        let mut cs: u8 = 0;
        let mut i: usize = 2;
        while i < n
            invariant
                2 <= i <= n,
                n == data@.len(),
                cs == xor_bytes(data@.subrange(2, i as int)),
            decreases n - i,
        {
            assert(data@.subrange(2, i + 1).drop_last() =~= data@.subrange(2, i as int));
            cs = cs ^ data[i];
            i = i + 1;
        }
        assert(data@.subrange(2, n as int) =~= data@.subrange(2, data@.len() as int));
        cs
    }

    /// Stores the checksum of `data` at index `cs_byte`.
    fn compute_checksum(&self, data: &mut [u8], cs_byte: u8)
        requires
            (cs_byte as int) < old(data)@.len(),
        ensures
            final(data)@ == with_checksum(old(data)@, cs_byte as int),
            final(data)@.len() == old(data)@.len(),
            final(data)@[cs_byte as int] == frame_checksum(old(data)@),
            forall|k: int|
                0 <= k < old(data)@.len() && k != cs_byte ==> final(data)@[k] == old(data)@[k],
    {
        let cs = self._compute_checksum(data);
        data[cs_byte as usize] = cs;
    }

    /// Sends the prepared command to the reader and stores its reply. This is
    /// the transport, left to each implementation; what the reader answers is
    /// up to the device, so no contract is given.
    fn write_command(&mut self);
}

/// The state a 125 kHz driver keeps: the pending command frame, the length of
/// the tag id it holds, and the buffer for the reader's reply (or the tag id).
///
/// Each `spec_*` function names one part of that state; an implementation
/// defines them over its fields and keeps the contracts of the accessors below
/// (every setter changes its own part only). The driver operations of
/// `driver_125khz::DriverFunc` are proved against these contracts.
pub trait DriverProperty {
    /// The command frame currently held.
    spec fn spec_command(&self) -> Vec<u8>;

    /// The number of meaningful bytes of the held tag id.
    spec fn spec_read_char(&self) -> u8;

    /// The reply / tag id buffer.
    spec fn spec_buffer(&self) -> [u8; MAX_BUFFER_SIZE];

    /// Replaces the command frame.
    fn set_command(&mut self, vector: Vec<u8>)
        ensures
            final(self).spec_command()@ == vector@,
            final(self).spec_read_char() == old(self).spec_read_char(),
            final(self).spec_buffer() == old(self).spec_buffer(),
    ;

    /// Gives mutable access to the command frame; nothing else changes.
    fn get_command(&mut self) -> (command: &mut Vec<u8>)
        ensures
            command@ == old(self).spec_command()@,
            final(self).spec_command()@ == final(command)@,
            final(self).spec_read_char() == old(self).spec_read_char(),
            final(self).spec_buffer() == old(self).spec_buffer(),
    ;

    /// Replaces the tag id length.
    fn set_read_char(&mut self, read_char: u8)
        ensures
            final(self).spec_read_char() == read_char,
            final(self).spec_command()@ == old(self).spec_command()@,
            final(self).spec_buffer() == old(self).spec_buffer(),
    ;

    /// The tag id length.
    fn get_read_char(&self) -> (read_char: u8)
        ensures
            read_char == self.spec_read_char(),
    ;

    /// Replaces the reply / tag id buffer.
    fn set_buffer(&mut self, buffer: [u8; MAX_BUFFER_SIZE])
        ensures
            final(self).spec_buffer() == buffer,
            final(self).spec_command()@ == old(self).spec_command()@,
            final(self).spec_read_char() == old(self).spec_read_char(),
    ;

    /// The reply / tag id buffer.
    fn get_buffer(&self) -> (buffer: &[u8; MAX_BUFFER_SIZE])
        ensures
            *buffer == self.spec_buffer(),
    ;

    /// The tag id held: the first `read_char` bytes of the buffer.
    fn get_tag_id(&self) -> (id: &[u8])
        requires
            self.spec_read_char() <= MAX_BUFFER_SIZE,
        ensures
            id@ == self.spec_buffer()@.take(self.spec_read_char() as int),
    ;
}

/// The state an NFC (13.56 MHz) driver keeps: the pending command frame, a
/// reply length, the reply buffer, the tag's uid and the sector keys A and B.
///
/// Each `spec_*` function names one part of that state; an implementation
/// defines them over its fields and keeps the contracts of the accessors below
/// (every setter changes its own part only). The driver operations of
/// `driver_nfc::DriverFunc` are proved against these contracts.
pub trait DriverNFCProperty {
    /// The command frame currently held.
    spec fn spec_command(&self) -> Vec<u8>;

    /// The reply length held.
    spec fn spec_read_char(&self) -> u8;

    /// The reply buffer.
    spec fn spec_buffer(&self) -> [u8; 31];

    /// The tag's uid.
    spec fn spec_tag_id(&self) -> [u8; 4];

    /// Key A with the byte that names it in a request.
    spec fn spec_a_pwd(&self) -> ([u8; 6], u8);

    /// Key B with the byte that names it in a request.
    spec fn spec_b_pwd(&self) -> ([u8; 6], u8);

    /// Replaces the command frame; nothing else changes.
    fn set_command(&mut self, vector: Vec<u8>)
        ensures
            final(self).spec_command()@ == vector@,
            final(self).spec_read_char() == old(self).spec_read_char(),
            final(self).spec_buffer() == old(self).spec_buffer(),
            final(self).spec_tag_id() == old(self).spec_tag_id(),
            final(self).spec_a_pwd() == old(self).spec_a_pwd(),
            final(self).spec_b_pwd() == old(self).spec_b_pwd(),
    ;

    /// Gives mutable access to the command frame; nothing else changes.
    fn get_command(&mut self) -> (command: &mut Vec<u8>)
        ensures
            command@ == old(self).spec_command()@,
            final(self).spec_command()@ == final(command)@,
            final(self).spec_read_char() == old(self).spec_read_char(),
            final(self).spec_buffer() == old(self).spec_buffer(),
            final(self).spec_tag_id() == old(self).spec_tag_id(),
            final(self).spec_a_pwd() == old(self).spec_a_pwd(),
            final(self).spec_b_pwd() == old(self).spec_b_pwd(),
    ;

    /// Replaces the reply length; nothing else changes.
    fn set_read_char(&mut self, read_char: u8)
        ensures
            final(self).spec_read_char() == read_char,
            final(self).spec_command()@ == old(self).spec_command()@,
            final(self).spec_buffer() == old(self).spec_buffer(),
            final(self).spec_tag_id() == old(self).spec_tag_id(),
            final(self).spec_a_pwd() == old(self).spec_a_pwd(),
            final(self).spec_b_pwd() == old(self).spec_b_pwd(),
    ;

    /// The reply length.
    fn get_read_char(&self) -> (read_char: u8)
        ensures
            read_char == self.spec_read_char(),
    ;

    /// Replaces the reply buffer; nothing else changes.
    fn set_buffer(&mut self, buffer: [u8; 31])
        ensures
            final(self).spec_buffer() == buffer,
            final(self).spec_command()@ == old(self).spec_command()@,
            final(self).spec_read_char() == old(self).spec_read_char(),
            final(self).spec_tag_id() == old(self).spec_tag_id(),
            final(self).spec_a_pwd() == old(self).spec_a_pwd(),
            final(self).spec_b_pwd() == old(self).spec_b_pwd(),
    ;

    /// The reply buffer.
    fn get_buffer(&self) -> (buffer: &[u8; 31])
        ensures
            *buffer == self.spec_buffer(),
    ;

    /// The tag's uid.
    fn get_tag_id(&self) -> (id: &[u8])
        ensures
            id@ == self.spec_tag_id()@,
    ;

    /// Key A and the byte 0x0a that names it.
    fn get_a_pwd(&self) -> (key: ([u8; 6], u8))
        ensures
            key == self.spec_a_pwd(),
            key.1 == 0x0a,
    ;

    /// Key B and the byte 0x0b that names it.
    fn get_b_pwd(&self) -> (key: ([u8; 6], u8))
        ensures
            key == self.spec_b_pwd(),
            key.1 == 0x0b,
    ;
}

} // verus!
