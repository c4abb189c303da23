# rust_7941w_reader

Request framing and reply decoding for the 7941W RFID reader/writer, verified
with Verus.

- `src/common.rs`: the checksum (XOR of every byte from the address byte,
  index 2, on),
  the `Common` trait that computes and stores it, and the state accessors that a
  driver implements (`DriverProperty` for 125 kHz, `DriverNFCProperty` for NFC).
- `src/driver_125khz.rs`: read / write requests for 125 kHz tags and the
  decoding of the reader's reply into a tag id; `Reader125khzState`, the
  driver state as plain values.
- `src/driver_nfc.rs`: uid, sector read / write and key change requests for
  13.56 MHz tags; `ReaderNFCState`.
- `src/menu.rs`: which menu entry a pressed key selects, and the steps around
  the exchange with the reader (prepare the request, then decode the reply).
- `app/`: the program for a Raspberry Pi: the drivers on the UART of the
  `rpi_embedded` crate, the menu loop and the printing.
