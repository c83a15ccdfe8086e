# bluetooth_battery

A Bluetooth RFCOMM connector and connected-device search for Windows, split in two:

- `src/` is the verified library. It holds every decision the connector takes: what a
  Winsock or Bluetooth API result means, which call comes next, the error texts, the
  device records, and the address value computed from a MAC address text (through the
  `macaddr` and `hex` crates).
  - `text`: decimal rendering of error codes.
  - `address`: MAC text to the 64-bit address value of a Bluetooth socket address.
  - `device`: the device record (name and address text).
  - `connector`: the connector's state and the decisions around socket set-up,
    connection, transfer and disconnection, with the laws that relate them.
  - `scan`: the state machines of the device search and the radio search.
- `app/` makes the Windows calls (`windows` crate) and hands their results to the library.
