use vstd::prelude::*;

use crate::common::DriverProperty;
use crate::driver_125khz::{
    read_failed, read_request_frame, tag_id_decoded, write_request_frame, DriverFunc,
};

verus! {

/// The entries of the program's menu.
pub enum Commands {
    ReadNFCId,
    ReadId,
    WriteId,
    PrintTag,
}

/// The 125 kHz menu entry that a pressed key selects: `5` reads a tag id, `6`
/// writes the held id to a T5577 tag, `7` prints it; any other key selects
/// nothing.
pub open spec fn spec_selected_command(key: u8) -> Option<Commands> {
    if key == 53 {
        Some(Commands::ReadId)
    } else if key == 54 {
        Some(Commands::WriteId)
    } else if key == 55 {
        Some(Commands::PrintTag)
    } else {
        None
    }
}

/// Law: only the keys `5`, `6` and `7` select an entry: reading, writing and
/// printing, in that order.
pub proof fn lemma_selected_command_keys(key: u8)
    ensures
        spec_selected_command(key) is Some <==> (key == 53 || key == 54 || key == 55),
        key == 53 ==> spec_selected_command(key) == Some(Commands::ReadId),
        key == 54 ==> spec_selected_command(key) == Some(Commands::WriteId),
        key == 55 ==> spec_selected_command(key) == Some(Commands::PrintTag),
{
}

/// The 125 kHz menu entry that the pressed key `key` selects, if any.
pub fn selected_command(key: u8) -> (command: Option<Commands>)
    ensures
        command == spec_selected_command(key),
        key == 53 ==> command == Some(Commands::ReadId),
        key == 54 ==> command == Some(Commands::WriteId),
        key == 55 ==> command == Some(Commands::PrintTag),
        (key != 53 && key != 54 && key != 55) ==> command is None,
{
    if key == 53 {
        Some(Commands::ReadId)
    } else if key == 54 {
        Some(Commands::WriteId)
    } else if key == 55 {
        Some(Commands::PrintTag)
    } else {
        None
    }
}

/// What the program does once a menu entry has been started.
pub enum Action {
    /// Send the prepared command to the reader and take its reply.
    Exchange,
    /// Print the tag id held.
    PrintTag,
    /// Nothing more.
    Skip,
}

/// Starts the 125 kHz menu entry `command`: reading and writing prepare their
/// request and ask for the exchange with the reader; printing asks for the
/// print; the NFC entry does nothing. The id length and buffer stay as they
/// were. Writing needs an id of at most 8 bytes.
pub fn start_command<D: DriverFunc>(driver: &mut D, command: &Commands) -> (action: Action)
    requires
        *command is WriteId ==> old(driver).spec_read_char() <= 8,
    ensures
        match *command {
            Commands::ReadId => {
                &&& action is Exchange
                &&& final(driver).spec_command()@ == read_request_frame()
                &&& final(driver).spec_command()@ == seq![0xabu8, 0xba, 0x00, 0x15, 0x00, 0x15]
            },
            Commands::WriteId => {
                &&& action is Exchange
                &&& final(driver).spec_command()@ == write_request_frame(
                    old(driver).spec_buffer()@,
                    old(driver).spec_read_char(),
                )
                &&& final(driver).spec_command()@.len() == 14
                &&& final(driver).spec_command()@.take(5) == seq![
                    0xab,
                    0xba,
                    0x00,
                    0x16,
                    old(driver).spec_read_char(),
                ]
                &&& final(driver).spec_command()@.subrange(5, 5 + old(driver).spec_read_char())
                    == old(driver).spec_buffer()@.take(old(driver).spec_read_char() as int)
            },
            Commands::PrintTag => {
                &&& action is PrintTag
                &&& final(driver).spec_command()@ == old(driver).spec_command()@
            },
            Commands::ReadNFCId => {
                &&& action is Skip
                &&& final(driver).spec_command()@ == old(driver).spec_command()@
            },
        },
        final(driver).spec_read_char() == old(driver).spec_read_char(),
        final(driver).spec_buffer() == old(driver).spec_buffer(),
{
    match command {
        Commands::ReadId => {
            driver.prepare_read_request();
            Action::Exchange
        },
        Commands::WriteId => {
            driver.prepare_write_request();
            Action::Exchange
        },
        Commands::PrintTag => Action::PrintTag,
        Commands::ReadNFCId => Action::Skip,
    }
}

/// Finishes the menu entry `command` after the exchange with the reader:
/// reading decodes the reply held in the buffer; the other entries leave the
/// state as it is.
pub fn finish_command<D: DriverFunc>(driver: &mut D, command: &Commands)
    requires
        (*command is ReadId && !read_failed(old(driver).spec_buffer()@)) ==> old(
            driver,
        ).spec_buffer()@[4] + 5 <= 255,
    ensures
        *command is ReadId ==> tag_id_decoded(
            old(driver).spec_buffer()@,
            old(driver).spec_read_char(),
            old(driver).spec_command()@,
            final(driver).spec_buffer()@,
            final(driver).spec_read_char(),
            final(driver).spec_command()@,
        ),
        (*command is ReadId && old(driver).spec_buffer()@[3] == 0x80) ==> {
            &&& forall|k: int| 0 <= k < 14 ==> final(driver).spec_buffer()@[k] == 0
            &&& final(driver).spec_read_char() == old(driver).spec_read_char()
            &&& final(driver).spec_command()@ == old(driver).spec_command()@
        },
        (*command is ReadId && old(driver).spec_buffer()@[3] != 0x80) ==> {
            &&& final(driver).spec_read_char() == (if old(driver).spec_buffer()@[4] <= 8 {
                old(driver).spec_buffer()@[4]
            } else {
                8
            })
            &&& forall|k: int|
                0 <= k < final(driver).spec_read_char() ==> final(driver).spec_buffer()@[k]
                    == old(driver).spec_buffer()@[5 + k]
            &&& forall|k: int|
                final(driver).spec_read_char() <= k < 14 ==> final(driver).spec_buffer()@[k] == 0
            &&& final(driver).spec_command()@.len() == 0
        },
        !(*command is ReadId) ==> {
            &&& final(driver).spec_buffer() == old(driver).spec_buffer()
            &&& final(driver).spec_read_char() == old(driver).spec_read_char()
            &&& final(driver).spec_command()@ == old(driver).spec_command()@
        },
{
    if let Commands::ReadId = command {
        driver.get_125khz_tag_id();
    }
}

} // verus!
