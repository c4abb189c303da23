use rust_7941w_reader::common::{Common, DriverNFCProperty};
use rust_7941w_reader::driver_nfc::{DriverFunc, GroupPwd, ReaderNFCState, MAX_BUFFER_SIZE};

struct TestDriver {
    buffer: [u8; MAX_BUFFER_SIZE],
    read_char: u8,
    command: Vec<u8>,
    uid: [u8; 4],
    a_pwd: [u8; 6],
    b_pwd: [u8; 6],
}

impl TestDriver {
    fn new(a_pwd: [u8; 6], b_pwd: [u8; 6]) -> Self {
        Self {
            a_pwd,
            b_pwd,
            buffer: [0u8; MAX_BUFFER_SIZE],
            read_char: 0,
            command: Vec::new(),
            uid: [0u8; 4],
        }
    }
}

impl DriverNFCProperty for TestDriver {
    fn spec_command(&self) -> Vec<u8> {
        self.command.clone()
    }
    fn spec_read_char(&self) -> u8 {
        self.read_char
    }
    fn spec_buffer(&self) -> [u8; MAX_BUFFER_SIZE] {
        self.buffer
    }
    fn spec_tag_id(&self) -> [u8; 4] {
        self.uid
    }
    fn spec_a_pwd(&self) -> ([u8; 6], u8) {
        (self.a_pwd, 0x0a)
    }
    fn spec_b_pwd(&self) -> ([u8; 6], u8) {
        (self.b_pwd, 0x0b)
    }
    fn set_command(&mut self, vector: Vec<u8>) {
        self.command = vector;
    }
    fn set_read_char(&mut self, read_char: u8) {
        self.read_char = read_char;
    }
    fn set_buffer(&mut self, buffer: [u8; MAX_BUFFER_SIZE]) {
        self.buffer = buffer;
    }
    fn get_read_char(&self) -> u8 {
        self.read_char
    }
    fn get_command(&mut self) -> &mut Vec<u8> {
        &mut self.command
    }
    fn get_tag_id(&self) -> &[u8] {
        &self.uid
    }
    fn get_buffer(&self) -> &[u8; MAX_BUFFER_SIZE] {
        &self.buffer
    }
    fn get_a_pwd(&self) -> ([u8; 6], u8) {
        (self.a_pwd, 0x0a)
    }
    fn get_b_pwd(&self) -> ([u8; 6], u8) {
        (self.b_pwd, 0x0b)
    }
}

impl Common for TestDriver {
    fn write_command(&mut self) {}
}

impl DriverFunc for TestDriver {}

const A_PWD: [u8; 6] = [0u8; 6];
const B_PWD: [u8; 6] = [0u8; 6];

#[test]
fn test_prepare_read_uid_request() -> () {
    let mut driver = TestDriver::new(A_PWD, B_PWD);
    driver.prepare_read_uid_request();
    assert_eq!(driver.get_command(), &[0xab, 0xba, 0x00, 0x10, 0x00, 0x10]);
}

#[test]
fn test_prepare_write_uid_request() -> () {
    let mut driver = TestDriver::new(A_PWD, B_PWD);
    let mut testing_data = [0xab, 0xba, 0x00, 0x11, 0x04, 0x01, 0x02, 0x03, 0x04, 0x00];
    let len = testing_data.len() - 1;
    driver.prepare_write_uid_request([0x01, 0x02, 0x03, 0x04]);
    driver.compute_checksum(&mut testing_data, len as u8);
    assert_eq!(driver.get_command(), &testing_data);
}

#[test]
fn test_prepare_read_specified_sector() -> () {
    let mut driver = TestDriver::new(A_PWD, B_PWD);
    let sector_number = 0;
    let block_number = 1;
    let mut testing_data = [
        0xab,
        0xba,
        0x00,
        0x12,
        0x09,
        sector_number,
        block_number,
        0x0a,
        0x00,
        0x00,
        0x00,
        0x00,
        0x00,
        0x00,
        0x00,
    ];
    let len = testing_data.len() - 1;
    driver.compute_checksum(&mut testing_data, len as u8);
    driver.prepare_read_specified_sector(sector_number, block_number, GroupPwd::APassword);
    assert_eq!(driver.get_command(), &testing_data);
}

#[test]
fn test_prepare_write_specified_sector() -> () {
    let mut driver = TestDriver::new(A_PWD, B_PWD);
    let sector_number = 0;
    let block_number = 1;
    let mut testing_data = [
        0xab,
        0xba,
        0x00,
        0x13,
        0x19,
        sector_number,
        block_number,
        0x0a,
        0x00,
        0x00,
        0x00,
        0x00,
        0x00,
        0x00,
        0x00,
        0x01,
        0x02,
        0x03,
        0x04,
        0x05,
        0x06,
        0x07,
        0x08,
        0x09,
        0x0a,
        0x0b,
        0x0c,
        0x0d,
        0x0e,
        0x10,
        0x00,
    ];
    let len = testing_data.len() - 1;
    driver.compute_checksum(&mut testing_data, len as u8);
    driver.prepare_write_specified_sector(
        sector_number,
        block_number,
        GroupPwd::APassword,
        [
            0x00, 0x01, 0x02, 0x03, 0x04, 0x05, 0x06, 0x07, 0x08, 0x09, 0x0a, 0x0b, 0x0c, 0x0d,
            0x0e, 0x10,
        ],
    );
    assert_eq!(driver.get_command(), &testing_data);
}

#[test]
fn test_prepare_modify_password() -> () {
    let mut driver = TestDriver::new(A_PWD, B_PWD);
    let sector_number = 0;
    let mut testing_data = [
        0xab,
        0xba,
        0x00,
        0x14,
        0x0d,
        sector_number,
        0x0a,
        0x00,
        0x00,
        0x00,
        0x00,
        0x00,
        0x00,
        0x01,
        0x02,
        0x03,
        0x04,
        0x05,
        0x06,
        0x00,
    ];
    let len = testing_data.len() - 1;
    driver.compute_checksum(&mut testing_data, len as u8);
    driver.prepare_modify_password(
        sector_number,
        GroupPwd::APassword,
        [0x01, 0x02, 0x03, 0x04, 0x05, 0x06],
    );
    assert_eq!(driver.get_command(), &testing_data);
}

fn xor_from_address_byte(frame: &[u8]) -> u8 {
    frame[2..].iter().fold(0u8, |acc, b| acc ^ b)
}

#[test]
fn test_prepare_read_specified_sector_with_key_b() {
    let mut driver = TestDriver::new(A_PWD, [1, 2, 3, 4, 5, 6]);
    driver.prepare_read_specified_sector(2, 3, GroupPwd::BPassword);
    assert_eq!(
        driver.get_command(),
        &[0xab, 0xba, 0x00, 0x12, 0x09, 0x02, 0x03, 0x0b, 1, 2, 3, 4, 5, 6, 0x16]
    );
}

#[test]
fn test_create_base_buffer_without_block() {
    let mut driver = TestDriver::new(A_PWD, [1, 2, 3, 4, 5, 6]);
    let base: [u8; 16] = driver._create_base_buffer::<16>(7, None, GroupPwd::BPassword, 0x14, 0x0d);
    assert_eq!(
        base,
        [0xab, 0xba, 0x00, 0x14, 0x0d, 0x07, 0x0b, 1, 2, 3, 4, 5, 6, 0, 0, 0]
    );
}

#[test]
fn test_prepared_nfc_frames_check_out_and_keep_state() {
    let mut driver = TestDriver::new([9, 9, 9, 1, 2, 3], [4, 5, 6, 7, 8, 9]);
    driver.buffer[0] = 0x42;
    driver.read_char = 3;
    driver.prepare_read_uid_request();
    assert_eq!(xor_from_address_byte(&driver.command), 0);
    driver.prepare_write_uid_request([0xaa, 0xbb, 0xcc, 0xdd]);
    assert_eq!(xor_from_address_byte(&driver.command), 0);
    driver.prepare_read_specified_sector(1, 2, GroupPwd::APassword);
    assert_eq!(xor_from_address_byte(&driver.command), 0);
    driver.prepare_write_specified_sector(1, 2, GroupPwd::BPassword, [0x5a; 16]);
    assert_eq!(driver.command.len(), 31);
    assert_eq!(&driver.command[8..14], &[4, 5, 6, 7, 8, 9]);
    assert_eq!(&driver.command[14..30], &[0x5a; 16]);
    assert_eq!(xor_from_address_byte(&driver.command), 0);
    driver.prepare_modify_password(1, GroupPwd::APassword, [6, 5, 4, 3, 2, 1]);
    assert_eq!(driver.command.len(), 20);
    assert_eq!(&driver.command[7..13], &[9, 9, 9, 1, 2, 3]);
    assert_eq!(xor_from_address_byte(&driver.command), 0);
    assert_eq!(driver.buffer[0], 0x42);
    assert_eq!(driver.read_char, 3);
    assert_eq!(driver.a_pwd, [9, 9, 9, 1, 2, 3]);
}

#[test]
fn test_reader_nfc_state_new_and_accessors() {
    let mut state = ReaderNFCState::new([1, 2, 3, 4, 5, 6], [7, 8, 9, 10, 11, 12]);
    assert_eq!(state.get_a_pwd(), ([1, 2, 3, 4, 5, 6], 0x0a));
    assert_eq!(state.get_b_pwd(), ([7, 8, 9, 10, 11, 12], 0x0b));
    assert_eq!(state.get_buffer(), &[0u8; MAX_BUFFER_SIZE]);
    assert_eq!(state.get_read_char(), 0);
    assert_eq!(state.get_tag_id(), &[0u8; 4]);
    assert!(state.get_command().is_empty());
    assert_eq!(state.sector_data, [0u8; 16]);
    state.set_command(vec![0xab, 0xba]);
    state.set_read_char(3);
    state.set_buffer([0x11; MAX_BUFFER_SIZE]);
    assert_eq!(state.get_command(), &vec![0xab, 0xba]);
    assert_eq!(state.get_read_char(), 3);
    assert_eq!(state.get_buffer(), &[0x11; MAX_BUFFER_SIZE]);
    assert_eq!(state.get_a_pwd(), ([1, 2, 3, 4, 5, 6], 0x0a));
}
