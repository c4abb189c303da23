use vstd::prelude::*;
use vstd::slice::{slice_subrange, slice_to_vec};

use crate::common::{
    frame_checks_out, lemma_sealed_frame_checks_out, with_checksum, xor_bytes, Common,
    DriverProperty,
};

verus! {

/// Size of the reply buffer of the 125 kHz reader.
pub const MAX_BUFFER_SIZE: usize = 14;

/// The request that asks the reader for the id of the 125 kHz tag in its field.
pub open spec fn read_request_frame() -> Seq<u8> {
    with_checksum(seq![0xab, 0xba, 0x00, 0x15, 0x00, 0x00], 5)
}

/// The request that writes the first `read_char` bytes of `tag` to a T5577 tag.
pub open spec fn write_request_frame(tag: Seq<u8>, read_char: u8) -> Seq<u8> {
    with_checksum(
        seq![0xab, 0xba, 0x00, 0x16, read_char] + tag.take(read_char as int) + Seq::new(
            (9 - read_char) as nat,
            |i: int| 0u8,
        ),
        5 + read_char,
    )
}

/// The status byte with which the reader reports a failed read.
pub open spec fn read_failed(reply: Seq<u8>) -> bool {
    reply[3] == 0x80
}

/// How many id bytes are kept from a successful reply: the announced length,
/// cut down to the 8 bytes a T5577 tag can hold.
pub open spec fn tag_length(reply: Seq<u8>) -> u8 {
    if reply[4] + 5 >= 14 {
        8
    } else {
        reply[4]
    }
}

/// The buffer holding the id taken from a successful reply: the `n` bytes after
/// the header, then zeros.
pub open spec fn tag_buffer(reply: Seq<u8>, n: int) -> Seq<u8> {
    reply.subrange(5, 5 + n) + Seq::new((14 - n) as nat, |i: int| 0u8)
}

/// The outcome of decoding a reply: from the state (`buffer`, `read_char`,
/// `command`) before to the state after, as `DriverFunc::get_125khz_tag_id`
/// leaves it.
pub open spec fn tag_id_decoded(
    buffer: Seq<u8>,
    read_char: u8,
    command: Seq<u8>,
    new_buffer: Seq<u8>,
    new_read_char: u8,
    new_command: Seq<u8>,
) -> bool {
    if read_failed(buffer) {
        &&& new_buffer == Seq::new(14, |i: int| 0u8)
        &&& new_read_char == read_char
        &&& new_command == command
    } else {
        let n = tag_length(buffer);
        &&& new_read_char == n
        &&& new_buffer == tag_buffer(buffer, n as int)
        &&& new_command == Seq::<u8>::empty()
    }
}

/// Law: decoding a successful reply keeps the announced id length when it is
/// at most 8 and 8 otherwise; the buffer then holds the id bytes of the reply
/// (those after its 5 header bytes) followed by zeros only.
pub proof fn lemma_tag_buffer_layout(reply: Seq<u8>)
    requires
        reply.len() == MAX_BUFFER_SIZE,
        reply[4] + 5 <= 255,
    ensures
        ({
            let n = tag_length(reply);
            let b = tag_buffer(reply, n as int);
            &&& n == (if reply[4] <= 8 {
                reply[4]
            } else {
                8
            })
            &&& b.len() == 14
            &&& forall|k: int| 0 <= k < n ==> b[k] == reply[5 + k]
            &&& forall|k: int| n <= k < 14 ==> b[k] == 0
        }),
{
}

/// Law: `tag_id_decoded` describes a decode: a reply whose status byte is 0x80
/// leaves a zeroed buffer and the id length and command as they were; any other
/// reply leaves its id bytes (at most 8) at the front of the buffer, zeros after
/// them, their number as the id length, and no command.
pub proof fn lemma_tag_id_decoded_layout(
    buffer: Seq<u8>,
    read_char: u8,
    command: Seq<u8>,
    new_buffer: Seq<u8>,
    new_read_char: u8,
    new_command: Seq<u8>,
)
    requires
        buffer.len() == MAX_BUFFER_SIZE,
        buffer[3] != 0x80 ==> buffer[4] + 5 <= 255,
        tag_id_decoded(buffer, read_char, command, new_buffer, new_read_char, new_command),
    ensures
        buffer[3] == 0x80 ==> {
            &&& new_buffer.len() == 14
            &&& forall|k: int| 0 <= k < 14 ==> new_buffer[k] == 0
            &&& new_read_char == read_char
            &&& new_command == command
        },
        buffer[3] != 0x80 ==> {
            &&& new_read_char == (if buffer[4] <= 8 {
                buffer[4]
            } else {
                8
            })
            &&& new_buffer.len() == 14
            &&& forall|k: int| 0 <= k < new_read_char ==> new_buffer[k] == buffer[5 + k]
            &&& forall|k: int| new_read_char <= k < 14 ==> new_buffer[k] == 0
            &&& new_command.len() == 0
        },
{
    if buffer[3] != 0x80 {
        lemma_tag_buffer_layout(buffer);
    }
}

/// Law: the request that reads a tag id is `AB BA 00 15 00 15`.
pub proof fn lemma_read_request_bytes()
    ensures
        read_request_frame() == seq![0xabu8, 0xba, 0x00, 0x15, 0x00, 0x15],
{
    let f = seq![0xabu8, 0xba, 0x00, 0x15, 0x00, 0x00];
    let body = f.subrange(2, 6);
    assert(body =~= seq![0x00u8, 0x15, 0x00, 0x00]);
    reveal_with_fuel(xor_bytes, 5);
    assert(body.drop_last() =~= seq![0x00u8, 0x15, 0x00]);
    assert(body.drop_last().drop_last() =~= seq![0x00u8, 0x15]);
    assert(body.drop_last().drop_last().drop_last() =~= seq![0x00u8]);
    assert(body.drop_last().drop_last().drop_last().drop_last() =~= Seq::<u8>::empty());
    assert(0u8 ^ 0x00u8 ^ 0x15u8 ^ 0x00u8 ^ 0x00u8 == 0x15u8) by (bit_vector);
    assert(read_request_frame() =~= seq![0xabu8, 0xba, 0x00, 0x15, 0x00, 0x15]);
}

/// Law: the request that writes an id of `read_char` (at most 8) bytes is 14
/// bytes: `AB BA 00 16`, the id length, the first `read_char` bytes of `tag`,
/// the checksum, then zeros; and the reader accepts its checksum.
pub proof fn lemma_write_request_layout(tag: Seq<u8>, read_char: u8)
    requires
        tag.len() == MAX_BUFFER_SIZE,
        read_char <= 8,
    ensures
        ({
            let f = write_request_frame(tag, read_char);
            &&& f.len() == 14
            &&& f.take(5) == seq![0xab, 0xba, 0x00, 0x16, read_char]
            &&& f.subrange(5, 5 + read_char) == tag.take(read_char as int)
            &&& forall|k: int| 5 + read_char < k < 14 ==> f[k] == 0
            &&& frame_checks_out(f)
        }),
{
    let unsealed = seq![0xab, 0xba, 0x00, 0x16, read_char] + tag.take(read_char as int) + Seq::new(
        (9 - read_char) as nat,
        |i: int| 0u8,
    );
    lemma_sealed_frame_checks_out(unsealed, 5 + read_char);
    let f = write_request_frame(tag, read_char);
    assert(f.take(5) =~= seq![0xab, 0xba, 0x00, 0x16, read_char]);
    assert(f.subrange(5, 5 + read_char) =~= tag.take(read_char as int));
}

/// The state of a 125 kHz driver held as plain values: the command frame, the
/// tag id length and the reply / tag id buffer. A driver adds the transport.
pub struct Reader125khzState {
    pub buffer: [u8; MAX_BUFFER_SIZE],
    pub read_char: u8,
    pub command: Vec<u8>,
}

impl Reader125khzState {
    /// An empty state: zeroed buffer, no id, no command.
    pub fn new() -> (state: Self)
        ensures
            state.spec_buffer()@ == Seq::new(14, |i: int| 0u8),
            state.spec_read_char() == 0,
            state.spec_command()@ == Seq::<u8>::empty(),
    {
        let state = Reader125khzState {
            buffer: [0u8; MAX_BUFFER_SIZE],
            read_char: 0,
            command: Vec::new(),
        };
        assert(state.buffer@ =~= Seq::new(14, |i: int| 0u8));
        state
    }
}

impl DriverProperty for Reader125khzState {
    open spec fn spec_command(&self) -> Vec<u8> {
        self.command
    }

    open spec fn spec_read_char(&self) -> u8 {
        self.read_char
    }

    open spec fn spec_buffer(&self) -> [u8; MAX_BUFFER_SIZE] {
        self.buffer
    }

    fn set_command(&mut self, vector: Vec<u8>) {
        self.command = vector;
    }

    fn get_command(&mut self) -> (command: &mut Vec<u8>) {
        &mut self.command
    }

    fn set_read_char(&mut self, read_char: u8) {
        self.read_char = read_char;
    }

    fn get_read_char(&self) -> (read_char: u8) {
        self.read_char
    }

    fn set_buffer(&mut self, buffer: [u8; MAX_BUFFER_SIZE]) {
        self.buffer = buffer;
    }

    fn get_buffer(&self) -> (buffer: &[u8; MAX_BUFFER_SIZE]) {
        &self.buffer
    }

    fn get_tag_id(&self) -> (id: &[u8]) {
        slice_subrange(self.buffer.as_slice(), 0, self.read_char as usize)
    }
}

/// Law: the id taken from a successful reply is what the next write request
/// carries. Decoding the reply keeps its announced id length, cut down to 8;
/// the write request built from the decoded buffer holds that length and those
/// id bytes, and the reader accepts its checksum.
pub proof fn lemma_read_then_write_copies_tag(reply: Seq<u8>)
    requires
        reply.len() == MAX_BUFFER_SIZE,
        !read_failed(reply),
        reply[4] + 5 <= 255,
    ensures
        ({
            let n = tag_length(reply);
            let frame = write_request_frame(tag_buffer(reply, n as int), n);
            &&& n == (if reply[4] <= 8 {
                reply[4]
            } else {
                8
            })
            &&& frame.len() == 14
            &&& frame.take(5) == seq![0xab, 0xba, 0x00, 0x16, n]
            &&& frame.subrange(5, 5 + n) == reply.subrange(5, 5 + n)
            &&& frame_checks_out(frame)
        }),
{
    let n = tag_length(reply);
    let tag = tag_buffer(reply, n as int);
    let unsealed = seq![0xab, 0xba, 0x00, 0x16, n] + tag.take(n as int) + Seq::new(
        (9 - n) as nat,
        |i: int| 0u8,
    );
    lemma_sealed_frame_checks_out(unsealed, 5 + n);
    let frame = write_request_frame(tag, n);
    assert(frame.take(5) =~= seq![0xab, 0xba, 0x00, 0x16, n]);
    assert(frame.subrange(5, 5 + n) =~= reply.subrange(5, 5 + n));
}

/// Driver operations of the 125 kHz reader, built on its state accessors.
pub trait DriverFunc: Common + DriverProperty {
    /// Prepares the request that reads a tag id.
    fn prepare_read_request(&mut self)
        ensures
            final(self).spec_command()@ == read_request_frame(),
            final(self).spec_command()@ == seq![0xabu8, 0xba, 0x00, 0x15, 0x00, 0x15],
            frame_checks_out(final(self).spec_command()@),
            final(self).spec_read_char() == old(self).spec_read_char(),
            final(self).spec_buffer() == old(self).spec_buffer(),
    {
        let mut base_command: [u8; 6] = [0xab, 0xba, 0x00, 0x15, 0x00, 0x00];
        let cs_byte: u8 = 5;
        proof {
            lemma_read_request_bytes();
            lemma_sealed_frame_checks_out(base_command@, 5);
        }
        self.compute_checksum(&mut base_command, cs_byte);
        self.set_command(slice_to_vec(base_command.as_slice()));
    }

    /// Prepares the request that writes the held tag id to a T5577 tag.
    /// The 14-byte frame holds at most 8 id bytes before its checksum, so the
    /// held length must not exceed 8.
    fn prepare_write_request(&mut self)
        requires
            old(self).spec_read_char() <= 8,
        ensures
            final(self).spec_command()@ == write_request_frame(
                old(self).spec_buffer()@,
                old(self).spec_read_char(),
            ),
            frame_checks_out(final(self).spec_command()@),
            final(self).spec_command()@.len() == 14,
            final(self).spec_command()@.take(5) == seq![
                0xab,
                0xba,
                0x00,
                0x16,
                old(self).spec_read_char(),
            ],
            final(self).spec_command()@.subrange(5, 5 + old(self).spec_read_char())
                == old(self).spec_buffer()@.take(old(self).spec_read_char() as int),
            forall|k: int|
                5 + old(self).spec_read_char() < k < 14 ==> final(self).spec_command()@[k] == 0,
            final(self).spec_read_char() == old(self).spec_read_char(),
            final(self).spec_buffer() == old(self).spec_buffer(),
    {
        proof {
            lemma_write_request_layout(self.spec_buffer()@, self.spec_read_char());
        }
        let mut base_buffer: [u8; 14] = [0u8; 14];
        let read_char = self.get_read_char();
        base_buffer[0] = 0xab;
        base_buffer[1] = 0xba;
        base_buffer[2] = 0x00;
        base_buffer[3] = 0x16;
        base_buffer[4] = read_char;
        let buffer = self.get_buffer();
        let n = read_char as usize;
        let mut i: usize = 0;
        while i < n
            invariant
                n <= 8,
                i <= n,
                buffer@.len() == 14,
                base_buffer@.len() == 14,
                base_buffer@.subrange(0, 5) == seq![0xab, 0xba, 0x00, 0x16, read_char],
                base_buffer@.subrange(5, 5 + i) == buffer@.take(i as int),
                forall|k: int| 5 + i <= k < 14 ==> base_buffer@[k] == 0,
            decreases n - i,
        {
            base_buffer[5 + i] = buffer[i];
            i = i + 1;
        }
        let ghost frame = base_buffer@;
        assert(frame =~= seq![0xab, 0xba, 0x00, 0x16, read_char] + buffer@.take(n as int) + Seq::new(
            (9 - read_char) as nat,
            |i: int| 0u8,
        ));
        proof {
            lemma_sealed_frame_checks_out(frame, 5 + read_char);
        }
        self.compute_checksum(&mut base_buffer, 5 + read_char);
        self.set_command(slice_to_vec(base_buffer.as_slice()));
    }

    /// Decodes the reader's reply to a read request held in the buffer.
    ///
    /// On a failed read the buffer is cleared. Otherwise the id bytes (at most
    /// 8) are moved to the front of the buffer, zero padded, their number is
    /// kept as `read_char`, and the command is cleared. The announced length
    /// is compared after adding the 5 header bytes in a byte, so it must not
    /// exceed 250.
    fn get_125khz_tag_id(&mut self)
        requires
            !read_failed(old(self).spec_buffer()@) ==> old(self).spec_buffer()@[4] + 5 <= 255,
        ensures
            read_failed(old(self).spec_buffer()@) ==> {
                &&& final(self).spec_buffer()@ == Seq::new(14, |i: int| 0u8)
                &&& final(self).spec_read_char() == old(self).spec_read_char()
                &&& final(self).spec_command()@ == old(self).spec_command()@
            },
            !read_failed(old(self).spec_buffer()@) ==> {
                let n = tag_length(old(self).spec_buffer()@);
                &&& final(self).spec_read_char() == n
                &&& final(self).spec_buffer()@ == tag_buffer(old(self).spec_buffer()@, n as int)
                &&& final(self).spec_command()@ == Seq::<u8>::empty()
            },
            old(self).spec_buffer()@[3] == 0x80 ==> {
                &&& forall|k: int| 0 <= k < 14 ==> final(self).spec_buffer()@[k] == 0
                &&& final(self).spec_read_char() == old(self).spec_read_char()
                &&& final(self).spec_command()@ == old(self).spec_command()@
            },
            old(self).spec_buffer()@[3] != 0x80 ==> {
                &&& final(self).spec_read_char() == (if old(self).spec_buffer()@[4] <= 8 {
                    old(self).spec_buffer()@[4]
                } else {
                    8
                })
                &&& forall|k: int|
                    0 <= k < final(self).spec_read_char() ==> final(self).spec_buffer()@[k]
                        == old(self).spec_buffer()@[5 + k]
                &&& forall|k: int|
                    final(self).spec_read_char() <= k < 14 ==> final(self).spec_buffer()@[k] == 0
                &&& final(self).spec_command()@.len() == 0
            },
    {
        proof {
            if old(self).spec_buffer()@[3] != 0x80 {
                lemma_tag_buffer_layout(old(self).spec_buffer()@);
            }
        }
        let buffer: [u8; MAX_BUFFER_SIZE] = *self.get_buffer();
        if buffer[3] == 0x80 {
            self.set_buffer([0u8; MAX_BUFFER_SIZE]);
            assert(self.spec_buffer()@ =~= Seq::new(14, |i: int| 0u8));
            return;
        } else if buffer[4] + 5 >= 14 {
            self.set_read_char(8);
        } else {
            self.set_read_char(buffer[4]);
        }
        let n = self.get_read_char() as usize;
        let mut id_buffer: [u8; MAX_BUFFER_SIZE] = [0u8; MAX_BUFFER_SIZE];
        let mut i: usize = 0;
        while i < n
            invariant
                n <= 8,
                i <= n,
                buffer@.len() == 14,
                id_buffer@.len() == 14,
                id_buffer@.take(i as int) == buffer@.subrange(5, 5 + i),
                forall|k: int| i <= k < 14 ==> id_buffer@[k] == 0,
            decreases n - i,
        {
            id_buffer[i] = buffer[5 + i];
            i = i + 1;
        }
        assert(id_buffer@ =~= tag_buffer(buffer@, n as int));
        self.set_buffer(id_buffer);
        self.get_command().clear();
    }
}

} // verus!
