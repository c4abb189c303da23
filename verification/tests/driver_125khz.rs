use rust_7941w_reader::common::{Common, DriverProperty};
use rust_7941w_reader::driver_125khz::{DriverFunc, Reader125khzState, MAX_BUFFER_SIZE};
use rust_7941w_reader::menu::{finish_command, selected_command, start_command, Action, Commands};

struct TestDriver {
    buffer: [u8; MAX_BUFFER_SIZE],
    read_char: u8,
    command: Vec<u8>,
}

impl TestDriver {
    fn new() -> Self {
        Self {
            buffer: [0u8; MAX_BUFFER_SIZE],
            read_char: 0,
            command: Vec::new(),
        }
    }
}

impl DriverProperty for TestDriver {
    fn spec_command(&self) -> Vec<u8> {
        self.command.clone()
    }
    fn spec_read_char(&self) -> u8 {
        self.read_char
    }
    fn spec_buffer(&self) -> [u8; MAX_BUFFER_SIZE] {
        self.buffer
    }
    fn set_command(&mut self, vector: Vec<u8>) {
        self.command = vector;
    }
    fn get_command(&mut self) -> &mut Vec<u8> {
        &mut self.command
    }
    fn set_read_char(&mut self, read_char: u8) {
        self.read_char = read_char
    }
    fn get_read_char(&self) -> u8 {
        self.read_char
    }
    fn set_buffer(&mut self, buffer: [u8; MAX_BUFFER_SIZE]) {
        self.buffer = buffer
    }
    fn get_buffer(&self) -> &[u8; MAX_BUFFER_SIZE] {
        &self.buffer
    }
    fn get_tag_id(&self) -> &[u8] {
        &self.buffer[..self.read_char as usize]
    }
}

impl DriverFunc for TestDriver {}

impl Common for TestDriver {
    fn write_command(&mut self) -> () {}
}

#[test]
fn test_compute_checksum() -> () {
    let driver = TestDriver::new();
    let mut command = [0xab, 0xba, 0x00, 0x17, 0x01, 0x12, 0x00];
    let cs_byte = command.len() - 1;
    let expected_command = [0xab, 0xba, 0x00, 0x17, 0x01, 0x12, 0x04];
    driver.compute_checksum(&mut command, cs_byte as u8);
    assert_eq!(command, expected_command)
}

#[test]
fn test_preparing_read_request() -> () {
    let mut driver = TestDriver::new();
    let expected_command = [0xab, 0xba, 0x00, 0x15, 0x00, 0x15];
    driver.prepare_read_request();
    assert_eq!(driver.command, expected_command)
}

#[test]
fn test_prepare_write_request_correct() -> () {
    let mut driver = TestDriver::new();
    driver.read_char = 4;
    let mut mock_data_buffer = [0u8; MAX_BUFFER_SIZE];
    mock_data_buffer[0..4].clone_from_slice(&[0x12, 0x14, 0xa1, 0x33]);
    driver.set_buffer(mock_data_buffer);

    driver.prepare_write_request();

    let expected_command = [
        0xab, 0xba, 0x00, 0x16, 0x04, 0x12, 0x14, 0xa1, 0x33, 0x86, 0, 0, 0, 0,
    ]; // Write command represents size of max combination of incoming data from device
    assert_eq!(driver.command, expected_command)
}

#[test]
fn test_get_125khz_tag_id_correct() -> () {
    let mut driver = TestDriver::new();
    let mut mock_returned_buffer = [0u8; MAX_BUFFER_SIZE];
    let mut mock_tag_id = [0u8; MAX_BUFFER_SIZE];
    mock_returned_buffer[0..10]
        .clone_from_slice(&[0xcd, 0xdc, 0x00, 0x81, 0x04, 0x12, 0x14, 0xa1, 0x33, 0x00]);
    driver.set_buffer(mock_returned_buffer);
    driver.get_125khz_tag_id();
    mock_tag_id[0..4].copy_from_slice(&[0x12, 0x14, 0xa1, 0x33]);

    assert_eq!(driver.get_buffer(), &mock_tag_id);
}

#[test]
fn test_get_125khz_tag_id_bad() -> () {
    let mut driver = TestDriver::new();
    let mut mock_returned_buffer = [0u8; MAX_BUFFER_SIZE];
    mock_returned_buffer[0..10]
        .clone_from_slice(&[0xcd, 0xdc, 0x00, 0x80, 0x04, 0x12, 0x14, 0xa1, 0x33, 0x00]);
    driver.set_buffer(mock_returned_buffer);
    driver.get_125khz_tag_id();
    assert_eq!(driver.get_buffer(), &[0u8; MAX_BUFFER_SIZE]);
}

#[test]
fn test_get_125khz_tag_id_data_too_long() -> () {
    let mut driver = TestDriver::new();
    let mock_incoming_data = [
        0xcd, 0xdc, 0x00, 0x81, 0x0b, 0x12, 0x14, 0xa1, 0x33, 0x01, 0xa4, 0xd2, 0x42, 0x11,
        0x23, 0x17,
    ];
    //Mock writing
    for (dst, src) in driver.buffer.iter_mut().zip(mock_incoming_data.iter()) {
        *dst = *src
    }

    assert_eq!(
        driver.get_buffer(),
        &[0xcd, 0xdc, 0x00, 0x81, 0x0b, 0x12, 0x14, 0xa1, 0x33, 0x01, 0xa4, 0xd2, 0x42, 0x11]
    );
    driver.get_125khz_tag_id();
    assert_eq!(
        driver.get_buffer(),
        &[0x12, 0x14, 0xa1, 0x33, 0x01, 0xa4, 0xd2, 0x42, 0, 0, 0, 0, 0, 0]
    );
}

#[test]
fn test_print_t5577_tag_id() -> () {
    let mut driver = TestDriver::new();
    let mut mock_returned_buffer = [0u8; MAX_BUFFER_SIZE];
    mock_returned_buffer[0..10]
        .clone_from_slice(&[0xcd, 0xdc, 0x00, 0x81, 0x04, 0x12, 0x14, 0xa1, 0x33, 0x00]);
    driver.set_buffer(mock_returned_buffer);
    driver.get_125khz_tag_id();
    assert_eq!(
        println!(
            "{:x?}",
            &driver.get_buffer()[..driver.get_read_char() as usize]
        ),
        println!("{:x?}", [0x12, 0x14, 0xa1, 0x33])
    )
}

fn xor_from_address_byte(frame: &[u8]) -> u8 {
    frame[2..].iter().fold(0u8, |acc, b| acc ^ b)
}

#[test]
fn test_compute_checksum_starts_at_address_byte() {
    let driver = TestDriver::new();
    let mut data = [0x01, 0x02];
    assert_eq!(driver._compute_checksum(&mut data), 0);
    assert_eq!(data, [0x01, 0x02]);
    let mut data = [0x01, 0x02, 0x03];
    assert_eq!(driver._compute_checksum(&mut data), 0x03);
    let mut data = [0x00, 0x00, 0x01, 0x00];
    assert_eq!(driver._compute_checksum(&mut data), 0x01);
    let mut data = [0x00, 0x00, 0x00, 0x05, 0x06];
    assert_eq!(driver._compute_checksum(&mut data), 0x03);
}

#[test]
fn test_prepare_write_request_empty_id() {
    let mut driver = TestDriver::new();
    driver.prepare_write_request();
    assert_eq!(
        driver.command,
        [0xab, 0xba, 0x00, 0x16, 0x00, 0x16, 0, 0, 0, 0, 0, 0, 0, 0]
    );
    assert_eq!(driver.read_char, 0);
    assert_eq!(driver.buffer, [0u8; MAX_BUFFER_SIZE]);
}

#[test]
fn test_prepared_125khz_frames_check_out() {
    let mut driver = TestDriver::new();
    driver.prepare_read_request();
    assert_eq!(xor_from_address_byte(&driver.command), 0);
    driver.read_char = 8;
    driver.buffer = [9, 8, 7, 6, 5, 4, 3, 2, 1, 0, 0xff, 0xfe, 0xfd, 0xfc];
    driver.prepare_write_request();
    assert_eq!(driver.command.len(), 14);
    assert_eq!(xor_from_address_byte(&driver.command), 0);
}

#[test]
fn test_read_then_write_copies_tag_id() {
    let mut driver = TestDriver::new();
    driver.set_buffer([0xcd, 0xdc, 0x00, 0x81, 0x03, 0xde, 0xad, 0xbe, 0x77, 0, 0, 0, 0, 0]);
    driver.get_125khz_tag_id();
    assert_eq!(driver.get_read_char(), 3);
    assert_eq!(driver.get_tag_id(), &[0xde, 0xad, 0xbe]);
    assert!(driver.command.is_empty());
    driver.prepare_write_request();
    assert_eq!(
        driver.command,
        [0xab, 0xba, 0x00, 0x16, 0x03, 0xde, 0xad, 0xbe, 0xd8, 0, 0, 0, 0, 0]
    );
    assert_eq!(xor_from_address_byte(&driver.command), 0);
}

#[test]
fn test_get_125khz_tag_id_eight_bytes_kept_nine_cut() {
    let mut driver = TestDriver::new();
    driver.set_buffer([0xcd, 0xdc, 0x00, 0x81, 0x08, 1, 2, 3, 4, 5, 6, 7, 8, 9]);
    driver.get_125khz_tag_id();
    assert_eq!(driver.get_read_char(), 8);
    assert_eq!(driver.get_buffer(), &[1, 2, 3, 4, 5, 6, 7, 8, 0, 0, 0, 0, 0, 0]);

    let mut driver = TestDriver::new();
    driver.set_buffer([0xcd, 0xdc, 0x00, 0x81, 0x09, 1, 2, 3, 4, 5, 6, 7, 8, 9]);
    driver.get_125khz_tag_id();
    assert_eq!(driver.get_read_char(), 8);
    assert_eq!(driver.get_buffer(), &[1, 2, 3, 4, 5, 6, 7, 8, 0, 0, 0, 0, 0, 0]);
}

#[test]
fn test_get_125khz_tag_id_failure_keeps_length_and_command() {
    let mut driver = TestDriver::new();
    driver.read_char = 5;
    driver.command = vec![0x01, 0x02];
    driver.set_buffer([0xcd, 0xdc, 0x00, 0x80, 0x04, 1, 2, 3, 4, 5, 6, 7, 8, 9]);
    driver.get_125khz_tag_id();
    assert_eq!(driver.get_buffer(), &[0u8; MAX_BUFFER_SIZE]);
    assert_eq!(driver.read_char, 5);
    assert_eq!(driver.command, vec![0x01, 0x02]);
}

#[test]
fn test_get_125khz_tag_id_success_clears_command() {
    let mut driver = TestDriver::new();
    driver.command = vec![0xab, 0xba, 0x00, 0x15, 0x00, 0x15];
    driver.set_buffer([0xcd, 0xdc, 0x00, 0x81, 0x00, 1, 2, 3, 4, 5, 6, 7, 8, 9]);
    driver.get_125khz_tag_id();
    assert_eq!(driver.get_read_char(), 0);
    assert_eq!(driver.get_buffer(), &[0u8; MAX_BUFFER_SIZE]);
    assert!(driver.command.is_empty());
}

#[test]
fn test_selected_command_keys() {
    assert!(matches!(selected_command(b'5'), Some(Commands::ReadId)));
    assert!(matches!(selected_command(b'6'), Some(Commands::WriteId)));
    assert!(matches!(selected_command(b'7'), Some(Commands::PrintTag)));
    assert!(selected_command(b'0').is_none());
    assert!(selected_command(b'x').is_none());
}

#[test]
fn test_reader_125khz_state_new_and_accessors() {
    let mut state = Reader125khzState::new();
    assert_eq!(state.get_buffer(), &[0u8; MAX_BUFFER_SIZE]);
    assert_eq!(state.get_read_char(), 0);
    assert!(state.get_command().is_empty());
    assert!(state.get_tag_id().is_empty());
    state.set_buffer([1, 2, 3, 4, 5, 6, 7, 8, 9, 10, 11, 12, 13, 14]);
    state.set_read_char(3);
    state.set_command(vec![0xab]);
    assert_eq!(state.get_tag_id(), &[1, 2, 3]);
    state.get_command().clear();
    assert!(state.get_command().is_empty());
    assert_eq!(state.get_read_char(), 3);
}

#[test]
fn test_menu_read_entry_prepares_then_decodes() {
    let mut driver = TestDriver::new();
    assert!(matches!(start_command(&mut driver, &Commands::ReadId), Action::Exchange));
    assert_eq!(driver.command, [0xab, 0xba, 0x00, 0x15, 0x00, 0x15]);
    driver.set_buffer([0xcd, 0xdc, 0x00, 0x81, 0x02, 0x42, 0x43, 0, 0, 0, 0, 0, 0, 0]);
    finish_command(&mut driver, &Commands::ReadId);
    assert_eq!(driver.get_read_char(), 2);
    assert_eq!(driver.get_tag_id(), &[0x42, 0x43]);
    assert!(driver.command.is_empty());
}

#[test]
fn test_menu_other_entries() {
    let mut driver = TestDriver::new();
    driver.read_char = 1;
    driver.buffer[0] = 0x99;
    assert!(matches!(start_command(&mut driver, &Commands::WriteId), Action::Exchange));
    assert_eq!(
        driver.command,
        [0xab, 0xba, 0x00, 0x16, 0x01, 0x99, 0x8e, 0, 0, 0, 0, 0, 0, 0]
    );
    let before = driver.buffer;
    finish_command(&mut driver, &Commands::WriteId);
    assert_eq!(driver.buffer, before);
    assert_eq!(driver.read_char, 1);
    assert!(matches!(start_command(&mut driver, &Commands::PrintTag), Action::PrintTag));
    assert!(matches!(start_command(&mut driver, &Commands::ReadNFCId), Action::Skip));
    assert_eq!(driver.command.len(), 14);
}
