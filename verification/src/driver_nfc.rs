use vstd::prelude::*;
use vstd::slice::slice_to_vec;

use crate::common::{
    frame_checks_out, lemma_sealed_frame_checks_out, with_checksum, xor_bytes, Common,
    DriverNFCProperty,
};

verus! {

/// Size of the reply buffer of the NFC reader.
pub const MAX_BUFFER_SIZE: usize = 31;

/// Which of a sector's two keys authenticates a request.
pub enum GroupPwd {
    APassword,
    BPassword,
}

/// The key (and the byte naming it) that `group_pwd` selects.
pub open spec fn selected_key(a_pwd: ([u8; 6], u8), b_pwd: ([u8; 6], u8), group_pwd: GroupPwd) -> ([u8; 6], u8) {
    match group_pwd {
        GroupPwd::APassword => a_pwd,
        GroupPwd::BPassword => b_pwd,
    }
}

/// The common start of the sector requests, `size` bytes long: `AB BA 00`, the
/// command, the data size, the sector, the block (where there is one), the key
/// byte and the six key bytes, then zeros.
pub open spec fn base_frame(
    size: int,
    sector_number: u8,
    block_number: Option<u8>,
    key: ([u8; 6], u8),
    command: u8,
    data_size: u8,
) -> Seq<u8> {
    let header = match block_number {
        Some(block) => seq![0xab, 0xba, 0x00, command, data_size, sector_number, block, key.1],
        None => seq![0xab, 0xba, 0x00, command, data_size, sector_number, key.1],
    };
    let start = header + key.0@;
    start + Seq::new((size - start.len()) as nat, |i: int| 0u8)
}

/// The request that reads the uid of the tag in the field.
pub open spec fn read_uid_frame() -> Seq<u8> {
    with_checksum(seq![0xab, 0xba, 0x00, 0x10, 0x00, 0x00], 5)
}

/// The request that writes `new_uid` to the tag.
pub open spec fn write_uid_frame(new_uid: Seq<u8>) -> Seq<u8> {
    with_checksum(seq![0xab, 0xba, 0x00, 0x11, 0x04] + new_uid + seq![0x00], 9)
}

/// The request that reads a block of a sector.
pub open spec fn read_sector_frame(sector_number: u8, block_number: u8, key: ([u8; 6], u8)) -> Seq<u8> {
    with_checksum(base_frame(15, sector_number, Some(block_number), key, 0x12, 0x09), 14)
}

/// The request that writes 16 bytes of `data` to a block of a sector.
pub open spec fn write_sector_frame(
    sector_number: u8,
    block_number: u8,
    key: ([u8; 6], u8),
    data: Seq<u8>,
) -> Seq<u8> {
    with_checksum(
        base_frame(31, sector_number, Some(block_number), key, 0x13, 0x19).take(14) + data + seq![0x00],
        30,
    )
}

/// The request that replaces a sector's key with `new_pwd`.
pub open spec fn modify_password_frame(sector_number: u8, key: ([u8; 6], u8), new_pwd: Seq<u8>) -> Seq<u8> {
    with_checksum(
        base_frame(20, sector_number, None, key, 0x14, 0x0d).take(13) + new_pwd + seq![0x00],
        19,
    )
}

/// Law: the request that reads the uid is `AB BA 00 10 00 10`.
pub proof fn lemma_read_uid_bytes()
    ensures
        read_uid_frame() == seq![0xabu8, 0xba, 0x00, 0x10, 0x00, 0x10],
{
    let f = seq![0xabu8, 0xba, 0x00, 0x10, 0x00, 0x00];
    let body = f.subrange(2, 6);
    assert(body =~= seq![0x00u8, 0x10, 0x00, 0x00]);
    reveal_with_fuel(xor_bytes, 5);
    assert(body.drop_last() =~= seq![0x00u8, 0x10, 0x00]);
    assert(body.drop_last().drop_last() =~= seq![0x00u8, 0x10]);
    assert(body.drop_last().drop_last().drop_last() =~= seq![0x00u8]);
    assert(body.drop_last().drop_last().drop_last().drop_last() =~= Seq::<u8>::empty());
    assert(0u8 ^ 0x00u8 ^ 0x10u8 ^ 0x00u8 ^ 0x00u8 == 0x10u8) by (bit_vector);
    assert(read_uid_frame() =~= seq![0xabu8, 0xba, 0x00, 0x10, 0x00, 0x10]);
}

/// Law: the request that writes a uid is 10 bytes: `AB BA 00 11 04`, the four
/// uid bytes, and a checksum the reader accepts.
pub proof fn lemma_write_uid_layout(new_uid: Seq<u8>)
    requires
        new_uid.len() == 4,
    ensures
        ({
            let f = write_uid_frame(new_uid);
            &&& f.len() == 10
            &&& f.take(5) == seq![0xabu8, 0xba, 0x00, 0x11, 0x04]
            &&& f.subrange(5, 9) == new_uid
            &&& frame_checks_out(f)
        }),
{
    let unsealed = seq![0xab, 0xba, 0x00, 0x11, 0x04] + new_uid + seq![0x00];
    lemma_sealed_frame_checks_out(unsealed, 9);
    let f = write_uid_frame(new_uid);
    assert(f.take(5) =~= seq![0xab, 0xba, 0x00, 0x11, 0x04]);
    assert(f.subrange(5, 9) =~= new_uid);
}

/// Law: `group_pwd` selects key A for `APassword` and key B for `BPassword`.
pub proof fn lemma_selected_key(a_pwd: ([u8; 6], u8), b_pwd: ([u8; 6], u8))
    ensures
        selected_key(a_pwd, b_pwd, GroupPwd::APassword) == a_pwd,
        selected_key(a_pwd, b_pwd, GroupPwd::BPassword) == b_pwd,
{
}

/// Law: the layout of the common start of the sector requests. It is `size`
/// bytes long and starts `AB BA 00`, command, data size, sector; with a block,
/// the block, the key byte and the key follow; without, the key byte and the
/// key; the rest is zeros.
pub proof fn lemma_base_frame_layout(
    size: int,
    sector_number: u8,
    block_number: Option<u8>,
    key: ([u8; 6], u8),
    command: u8,
    data_size: u8,
)
    requires
        block_number is Some ==> size >= 14,
        block_number is None ==> size >= 13,
    ensures
        ({
            let f = base_frame(size, sector_number, block_number, key, command, data_size);
            &&& f.len() == size
            &&& f.take(6) == seq![0xab, 0xba, 0x00, command, data_size, sector_number]
            &&& block_number matches Some(block) ==> {
                &&& f[6] == block
                &&& f[7] == key.1
                &&& f.subrange(8, 14) == key.0@
                &&& forall|k: int| 14 <= k < size ==> f[k] == 0
            }
            &&& block_number is None ==> {
                &&& f[6] == key.1
                &&& f.subrange(7, 13) == key.0@
                &&& forall|k: int| 13 <= k < size ==> f[k] == 0
            }
        }),
{
    let f = base_frame(size, sector_number, block_number, key, command, data_size);
    assert(f.take(6) =~= seq![0xab, 0xba, 0x00, command, data_size, sector_number]);
    match block_number {
        Some(block) => {
            assert(f.subrange(8, 14) =~= key.0@);
        },
        None => {
            assert(f.subrange(7, 13) =~= key.0@);
        },
    }
}

/// Law: the request that reads a block is 15 bytes: `AB BA 00 12 09`, the
/// sector, the block, the key byte, the six key bytes, and a checksum the
/// reader accepts.
pub proof fn lemma_read_sector_frame_layout(sector_number: u8, block_number: u8, key: ([u8; 6], u8))
    ensures
        ({
            let f = read_sector_frame(sector_number, block_number, key);
            &&& f.len() == 15
            &&& f.take(7) == seq![0xab, 0xba, 0x00, 0x12, 0x09, sector_number, block_number]
            &&& f[7] == key.1
            &&& f.subrange(8, 14) == key.0@
            &&& frame_checks_out(f)
        }),
{
    let base = base_frame(15, sector_number, Some(block_number), key, 0x12, 0x09);
    lemma_base_frame_layout(15, sector_number, Some(block_number), key, 0x12, 0x09);
    lemma_sealed_frame_checks_out(base, 14);
    let f = read_sector_frame(sector_number, block_number, key);
    assert(f.take(6) =~= base.take(6));
    assert(f.take(7) =~= seq![0xab, 0xba, 0x00, 0x12, 0x09, sector_number, block_number]);
    assert(f.subrange(8, 14) =~= base.subrange(8, 14));
}

/// Law: the request that writes a block is 31 bytes: `AB BA 00 13 19`, the
/// sector, the block, the key byte, the six key bytes, the 16 data bytes, and
/// a checksum the reader accepts.
pub proof fn lemma_write_sector_frame_layout(
    sector_number: u8,
    block_number: u8,
    key: ([u8; 6], u8),
    data: Seq<u8>,
)
    requires
        data.len() == 16,
    ensures
        ({
            let f = write_sector_frame(sector_number, block_number, key, data);
            &&& f.len() == 31
            &&& f.take(7) == seq![0xab, 0xba, 0x00, 0x13, 0x19, sector_number, block_number]
            &&& f[7] == key.1
            &&& f.subrange(8, 14) == key.0@
            &&& f.subrange(14, 30) == data
            &&& frame_checks_out(f)
        }),
{
    let base = base_frame(31, sector_number, Some(block_number), key, 0x13, 0x19);
    lemma_base_frame_layout(31, sector_number, Some(block_number), key, 0x13, 0x19);
    let unsealed = base.take(14) + data + seq![0x00];
    lemma_sealed_frame_checks_out(unsealed, 30);
    let f = write_sector_frame(sector_number, block_number, key, data);
    assert(f.take(6) =~= base.take(6));
    assert(f.take(7) =~= seq![0xab, 0xba, 0x00, 0x13, 0x19, sector_number, block_number]);
    assert(f.subrange(8, 14) =~= base.subrange(8, 14));
    assert(f.subrange(14, 30) =~= data);
}

/// Law: the request that changes a key is 20 bytes: `AB BA 00 14 0D`, the
/// sector, the key byte, the six bytes of the current key, the six bytes of
/// the new key, and a checksum the reader accepts.
pub proof fn lemma_modify_password_frame_layout(sector_number: u8, key: ([u8; 6], u8), new_pwd: Seq<u8>)
    requires
        new_pwd.len() == 6,
    ensures
        ({
            let f = modify_password_frame(sector_number, key, new_pwd);
            &&& f.len() == 20
            &&& f.take(6) == seq![0xab, 0xba, 0x00, 0x14, 0x0d, sector_number]
            &&& f[6] == key.1
            &&& f.subrange(7, 13) == key.0@
            &&& f.subrange(13, 19) == new_pwd
            &&& frame_checks_out(f)
        }),
{
    let base = base_frame(20, sector_number, None, key, 0x14, 0x0d);
    lemma_base_frame_layout(20, sector_number, None, key, 0x14, 0x0d);
    let unsealed = base.take(13) + new_pwd + seq![0x00];
    lemma_sealed_frame_checks_out(unsealed, 19);
    let f = modify_password_frame(sector_number, key, new_pwd);
    assert(f.take(6) =~= base.take(6));
    assert(f.subrange(7, 13) =~= base.subrange(7, 13));
    assert(f.subrange(13, 19) =~= new_pwd);
}

/// The state of an NFC driver held as plain values: the command frame, the
/// reply length and buffer, the tag's uid, a sector's data and the two keys.
/// A driver adds the transport.
pub struct ReaderNFCState {
    pub command: Vec<u8>,
    pub buffer: [u8; MAX_BUFFER_SIZE],
    pub read_char: u8,
    pub uid: [u8; 4],
    pub sector_data: [u8; 16],
    pub a_pwd: [u8; 6],
    pub b_pwd: [u8; 6],
}

impl ReaderNFCState {
    /// An empty state holding the keys `a_pwd` and `b_pwd`.
    pub fn new(a_pwd: [u8; 6], b_pwd: [u8; 6]) -> (state: Self)
        ensures
            state.spec_a_pwd() == (a_pwd, 0x0au8),
            state.spec_b_pwd() == (b_pwd, 0x0bu8),
            state.spec_command()@ == Seq::<u8>::empty(),
            state.spec_read_char() == 0,
            state.spec_buffer()@ == Seq::new(31, |i: int| 0u8),
            state.spec_tag_id()@ == Seq::new(4, |i: int| 0u8),
            state.sector_data@ == Seq::new(16, |i: int| 0u8),
    {
        let state = ReaderNFCState {
            a_pwd,
            b_pwd,
            command: Vec::new(),
            read_char: 0,
            buffer: [0u8; MAX_BUFFER_SIZE],
            sector_data: [0u8; 16],
            uid: [0u8; 4],
        };
        assert(state.buffer@ =~= Seq::new(31, |i: int| 0u8));
        assert(state.uid@ =~= Seq::new(4, |i: int| 0u8));
        assert(state.sector_data@ =~= Seq::new(16, |i: int| 0u8));
        state
    }
}

impl DriverNFCProperty for ReaderNFCState {
    open spec fn spec_command(&self) -> Vec<u8> {
        self.command
    }

    open spec fn spec_read_char(&self) -> u8 {
        self.read_char
    }

    open spec fn spec_buffer(&self) -> [u8; 31] {
        self.buffer
    }

    open spec fn spec_tag_id(&self) -> [u8; 4] {
        self.uid
    }

    open spec fn spec_a_pwd(&self) -> ([u8; 6], u8) {
        (self.a_pwd, 0x0a)
    }

    open spec fn spec_b_pwd(&self) -> ([u8; 6], u8) {
        (self.b_pwd, 0x0b)
    }

    fn set_command(&mut self, vector: Vec<u8>) {
        self.command = vector;
    }

    fn get_command(&mut self) -> (command: &mut Vec<u8>) {
        &mut self.command
    }

    fn set_read_char(&mut self, read_char: u8) {
        self.read_char = read_char;
    }

    fn get_read_char(&self) -> (read_char: u8) {
        self.read_char
    }

    fn set_buffer(&mut self, buffer: [u8; 31]) {
        self.buffer = buffer;
    }

    fn get_buffer(&self) -> (buffer: &[u8; 31]) {
        &self.buffer
    }

    fn get_tag_id(&self) -> (id: &[u8]) {
        self.uid.as_slice()
    }

    fn get_a_pwd(&self) -> (key: ([u8; 6], u8)) {
        (self.a_pwd, 0x0a)
    }

    fn get_b_pwd(&self) -> (key: ([u8; 6], u8)) {
        (self.b_pwd, 0x0b)
    }
}

/// Driver operations of the NFC reader, built on its state accessors.
pub trait DriverFunc: Common + DriverNFCProperty {
    /// Prepares the request that reads the tag's uid.
    fn prepare_read_uid_request(&mut self)
        ensures
            final(self).spec_command()@ == read_uid_frame(),
            final(self).spec_command()@ == seq![0xabu8, 0xba, 0x00, 0x10, 0x00, 0x10],
            frame_checks_out(final(self).spec_command()@),
            final(self).spec_read_char() == old(self).spec_read_char(),
            final(self).spec_buffer() == old(self).spec_buffer(),
            final(self).spec_tag_id() == old(self).spec_tag_id(),
            final(self).spec_a_pwd() == old(self).spec_a_pwd(),
            final(self).spec_b_pwd() == old(self).spec_b_pwd(),
    {
        let mut base_command: [u8; 6] = [0xab, 0xba, 0x00, 0x10, 0x00, 0x00];
        let cs_byte: u8 = 5;
        proof {
            lemma_read_uid_bytes();
            lemma_sealed_frame_checks_out(base_command@, 5);
        }
        self.compute_checksum(&mut base_command, cs_byte);
        self.set_command(slice_to_vec(base_command.as_slice()));
    }

    /// Prepares the request that writes `new_uid` to the tag.
    fn prepare_write_uid_request(&mut self, new_uid: [u8; 4])
        ensures
            final(self).spec_command()@ == write_uid_frame(new_uid@),
            final(self).spec_command()@.len() == 10,
            final(self).spec_command()@.take(5) == seq![0xabu8, 0xba, 0x00, 0x11, 0x04],
            final(self).spec_command()@.subrange(5, 9) == new_uid@,
            frame_checks_out(final(self).spec_command()@),
            final(self).spec_read_char() == old(self).spec_read_char(),
            final(self).spec_buffer() == old(self).spec_buffer(),
            final(self).spec_tag_id() == old(self).spec_tag_id(),
            final(self).spec_a_pwd() == old(self).spec_a_pwd(),
            final(self).spec_b_pwd() == old(self).spec_b_pwd(),
    {
        proof {
            lemma_write_uid_layout(new_uid@);
        }
        let mut base_buffer: [u8; 10] = [0u8; 10];
        base_buffer[0] = 0xab;
        base_buffer[1] = 0xba;
        base_buffer[2] = 0x00;
        base_buffer[3] = 0x11;
        base_buffer[4] = 0x04;
        base_buffer[5] = new_uid[0];
        base_buffer[6] = new_uid[1];
        base_buffer[7] = new_uid[2];
        base_buffer[8] = new_uid[3];
        assert(base_buffer@ =~= seq![0xab, 0xba, 0x00, 0x11, 0x04] + new_uid@ + seq![0x00]);
        proof {
            lemma_sealed_frame_checks_out(base_buffer@, 9);
        }
        self.compute_checksum(&mut base_buffer, 9);
        self.set_command(slice_to_vec(base_buffer.as_slice()));
    }

    /// Prepares the request that reads block `block_number` of sector
    /// `sector_number`, authenticated with the key `group_pwd` selects.
    fn prepare_read_specified_sector(&mut self, sector_number: u8, block_number: u8, group_pwd: GroupPwd)
        ensures
            final(self).spec_command()@ == read_sector_frame(
                sector_number,
                block_number,
                selected_key(old(self).spec_a_pwd(), old(self).spec_b_pwd(), group_pwd),
            ),
            frame_checks_out(final(self).spec_command()@),
            final(self).spec_command()@.len() == 15,
            final(self).spec_command()@.take(7) == seq![
                0xab,
                0xba,
                0x00,
                0x12,
                0x09,
                sector_number,
                block_number,
            ],
            group_pwd is APassword ==> {
                &&& final(self).spec_command()@[7] == 0x0a
                &&& final(self).spec_command()@.subrange(8, 14) == old(self).spec_a_pwd().0@
            },
            group_pwd is BPassword ==> {
                &&& final(self).spec_command()@[7] == 0x0b
                &&& final(self).spec_command()@.subrange(8, 14) == old(self).spec_b_pwd().0@
            },
            final(self).spec_read_char() == old(self).spec_read_char(),
            final(self).spec_buffer() == old(self).spec_buffer(),
            final(self).spec_tag_id() == old(self).spec_tag_id(),
            final(self).spec_a_pwd() == old(self).spec_a_pwd(),
            final(self).spec_b_pwd() == old(self).spec_b_pwd(),
    {
        proof {
            lemma_read_sector_frame_layout(
                sector_number,
                block_number,
                selected_key(self.spec_a_pwd(), self.spec_b_pwd(), group_pwd),
            );
        }
        let mut base_buffer = self._create_base_buffer::<15>(
            sector_number,
            Some(block_number),
            group_pwd,
            0x12,
            0x09,
        );
        proof {
            lemma_sealed_frame_checks_out(base_buffer@, 14);
        }
        self.compute_checksum(&mut base_buffer, 14);
        self.set_command(slice_to_vec(base_buffer.as_slice()));
    }

    /// Prepares the request that writes `data` to block `block_number` of
    /// sector `sector_number`, authenticated with the key `group_pwd` selects.
    fn prepare_write_specified_sector(
        &mut self,
        sector_number: u8,
        block_number: u8,
        group_pwd: GroupPwd,
        data: [u8; 16],
    )
        ensures
            final(self).spec_command()@ == write_sector_frame(
                sector_number,
                block_number,
                selected_key(old(self).spec_a_pwd(), old(self).spec_b_pwd(), group_pwd),
                data@,
            ),
            frame_checks_out(final(self).spec_command()@),
            final(self).spec_command()@.len() == 31,
            final(self).spec_command()@.take(7) == seq![
                0xab,
                0xba,
                0x00,
                0x13,
                0x19,
                sector_number,
                block_number,
            ],
            group_pwd is APassword ==> {
                &&& final(self).spec_command()@[7] == 0x0a
                &&& final(self).spec_command()@.subrange(8, 14) == old(self).spec_a_pwd().0@
            },
            group_pwd is BPassword ==> {
                &&& final(self).spec_command()@[7] == 0x0b
                &&& final(self).spec_command()@.subrange(8, 14) == old(self).spec_b_pwd().0@
            },
            final(self).spec_command()@.subrange(14, 30) == data@,
            final(self).spec_read_char() == old(self).spec_read_char(),
            final(self).spec_buffer() == old(self).spec_buffer(),
            final(self).spec_tag_id() == old(self).spec_tag_id(),
            final(self).spec_a_pwd() == old(self).spec_a_pwd(),
            final(self).spec_b_pwd() == old(self).spec_b_pwd(),
    {
        proof {
            lemma_write_sector_frame_layout(
                sector_number,
                block_number,
                selected_key(self.spec_a_pwd(), self.spec_b_pwd(), group_pwd),
                data@,
            );
        }
        let mut base_buffer = self._create_base_buffer::<31>(
            sector_number,
            Some(block_number),
            group_pwd,
            0x13,
            0x19,
        );
        let ghost base = base_buffer@;
        let mut i: usize = 0;
        while i < 16
            invariant
                i <= 16,
                base_buffer@.len() == 31,
                base.len() == 31,
                base_buffer@.take(14) == base.take(14),
                base_buffer@.subrange(14, 14 + i) == data@.take(i as int),
                base_buffer@[30] == base[30],
            decreases 16 - i,
        {
            base_buffer[14 + i] = data[i];
            i = i + 1;
        }
        assert(base[30] == 0);
        assert(data@.take(16) =~= data@);
        assert(base_buffer@.subrange(14, 30) == data@);
        assert(base_buffer@ =~= base.take(14) + data@ + seq![0x00]);
        proof {
            lemma_sealed_frame_checks_out(base_buffer@, 30);
        }
        self.compute_checksum(&mut base_buffer, 30);
        self.set_command(slice_to_vec(base_buffer.as_slice()));
    }

    /// Prepares the request that replaces the key of sector `sector_number`
    /// with `new_pwd`, authenticated with the key `group_pwd` selects.
    fn prepare_modify_password(&mut self, sector_number: u8, group_pwd: GroupPwd, new_pwd: [u8; 6])
        ensures
            final(self).spec_command()@ == modify_password_frame(
                sector_number,
                selected_key(old(self).spec_a_pwd(), old(self).spec_b_pwd(), group_pwd),
                new_pwd@,
            ),
            frame_checks_out(final(self).spec_command()@),
            final(self).spec_command()@.len() == 20,
            final(self).spec_command()@.take(6) == seq![0xab, 0xba, 0x00, 0x14, 0x0d, sector_number],
            final(self).spec_command()@[5] == sector_number,
            group_pwd is APassword ==> {
                &&& final(self).spec_command()@[6] == 0x0a
                &&& final(self).spec_command()@.subrange(7, 13) == old(self).spec_a_pwd().0@
            },
            group_pwd is BPassword ==> {
                &&& final(self).spec_command()@[6] == 0x0b
                &&& final(self).spec_command()@.subrange(7, 13) == old(self).spec_b_pwd().0@
            },
            final(self).spec_command()@.subrange(13, 19) == new_pwd@,
            final(self).spec_read_char() == old(self).spec_read_char(),
            final(self).spec_buffer() == old(self).spec_buffer(),
            final(self).spec_tag_id() == old(self).spec_tag_id(),
            final(self).spec_a_pwd() == old(self).spec_a_pwd(),
            final(self).spec_b_pwd() == old(self).spec_b_pwd(),
    {
        proof {
            lemma_modify_password_frame_layout(
                sector_number,
                selected_key(self.spec_a_pwd(), self.spec_b_pwd(), group_pwd),
                new_pwd@,
            );
        }
        let mut base_buffer = self._create_base_buffer::<20>(sector_number, None, group_pwd, 0x14, 0x0d);
        let ghost base = base_buffer@;
        let mut i: usize = 0;
        while i < 6
            invariant
                i <= 6,
                base_buffer@.len() == 20,
                base.len() == 20,
                base_buffer@.take(13) == base.take(13),
                base_buffer@.subrange(13, 13 + i) == new_pwd@.take(i as int),
                base_buffer@[19] == base[19],
            decreases 6 - i,
        {
            base_buffer[13 + i] = new_pwd[i];
            i = i + 1;
        }
        assert(base[19] == 0);
        assert(new_pwd@.take(6) =~= new_pwd@);
        assert(base_buffer@.subrange(13, 19) == new_pwd@);
        assert(base_buffer@ =~= base.take(13) + new_pwd@ + seq![0x00]);
        proof {
            lemma_sealed_frame_checks_out(base_buffer@, 19);
        }
        self.compute_checksum(&mut base_buffer, 19);
        self.set_command(slice_to_vec(base_buffer.as_slice()));
    }

    /// Builds the first `BUFFER_SIZE` bytes of a sector request: header, key
    /// byte and key, zero padded.
    fn _create_base_buffer<const BUFFER_SIZE: usize>(
        &mut self,
        sector_number: u8,
        block_number: Option<u8>,
        group_pwd: GroupPwd,
        command: u8,
        data_size: u8,
    ) -> (base_buffer: [u8; BUFFER_SIZE])
        requires
            block_number is Some ==> BUFFER_SIZE >= 14,
            block_number is None ==> BUFFER_SIZE >= 13,
        ensures
            base_buffer@ == base_frame(
                BUFFER_SIZE as int,
                sector_number,
                block_number,
                selected_key(old(self).spec_a_pwd(), old(self).spec_b_pwd(), group_pwd),
                command,
                data_size,
            ),
            group_pwd is APassword ==> old(self).spec_a_pwd().1 == 0x0a,
            group_pwd is BPassword ==> old(self).spec_b_pwd().1 == 0x0b,
            base_buffer@.take(6) == seq![0xab, 0xba, 0x00, command, data_size, sector_number],
            block_number matches Some(block) ==> {
                &&& base_buffer@[6] == block
                &&& base_buffer@[7] == (if group_pwd is APassword {
                    0x0au8
                } else {
                    0x0bu8
                })
                &&& base_buffer@.subrange(8, 14) == (if group_pwd is APassword {
                    old(self).spec_a_pwd().0@
                } else {
                    old(self).spec_b_pwd().0@
                })
                &&& forall|k: int| 14 <= k < BUFFER_SIZE ==> base_buffer@[k] == 0
            },
            block_number is None ==> {
                &&& base_buffer@[6] == (if group_pwd is APassword {
                    0x0au8
                } else {
                    0x0bu8
                })
                &&& base_buffer@.subrange(7, 13) == (if group_pwd is APassword {
                    old(self).spec_a_pwd().0@
                } else {
                    old(self).spec_b_pwd().0@
                })
                &&& forall|k: int| 13 <= k < BUFFER_SIZE ==> base_buffer@[k] == 0
            },
            final(self).spec_command()@ == old(self).spec_command()@,
            final(self).spec_read_char() == old(self).spec_read_char(),
            final(self).spec_buffer() == old(self).spec_buffer(),
            final(self).spec_tag_id() == old(self).spec_tag_id(),
            final(self).spec_a_pwd() == old(self).spec_a_pwd(),
            final(self).spec_b_pwd() == old(self).spec_b_pwd(),
    {
        proof {
            lemma_base_frame_layout(
                BUFFER_SIZE as int,
                sector_number,
                block_number,
                selected_key(self.spec_a_pwd(), self.spec_b_pwd(), group_pwd),
                command,
                data_size,
            );
        }
        let mut base_buffer: [u8; BUFFER_SIZE] = [0u8; BUFFER_SIZE];
        let (pwd, pwd_byte) = match group_pwd {
            GroupPwd::APassword => self.get_a_pwd(),
            GroupPwd::BPassword => self.get_b_pwd(),
        };
        base_buffer[0] = 0xab;
        base_buffer[1] = 0xba;
        base_buffer[2] = 0x00;
        base_buffer[3] = command;
        base_buffer[4] = data_size;
        base_buffer[5] = sector_number;
        let start: usize = match block_number {
            Some(block) => {
                base_buffer[6] = block;
                base_buffer[7] = pwd_byte;
                assert(base_buffer@.take(8) =~= seq![
                    0xab,
                    0xba,
                    0x00,
                    command,
                    data_size,
                    sector_number,
                    block,
                    pwd_byte,
                ]);
                8
            },
            None => {
                base_buffer[6] = pwd_byte;
                assert(base_buffer@.take(7) =~= seq![
                    0xab,
                    0xba,
                    0x00,
                    command,
                    data_size,
                    sector_number,
                    pwd_byte,
                ]);
                7
            },
        };
        let ghost header = base_buffer@.take(start as int);
        assert(forall|k: int| start <= k < BUFFER_SIZE ==> base_buffer@[k] == 0);
        let mut i: usize = 0;
        while i < 6
            invariant
                i <= 6,
                start + 6 <= BUFFER_SIZE,
                base_buffer@.len() == BUFFER_SIZE,
                base_buffer@.take(start as int) == header,
                base_buffer@.subrange(start as int, start + i) == pwd@.take(i as int),
                forall|k: int| start + i <= k < BUFFER_SIZE ==> base_buffer@[k] == 0,
            decreases 6 - i,
        {
            base_buffer[start + i] = pwd[i];
            i = i + 1;
        }
        assert(base_buffer@.subrange(start as int, start + 6) =~= pwd@);
        assert(base_buffer@ =~= base_frame(
            BUFFER_SIZE as int,
            sector_number,
            block_number,
            (pwd, pwd_byte),
            command,
            data_size,
        ));
        base_buffer
    }
}

} // verus!
