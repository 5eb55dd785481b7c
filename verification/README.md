# virtual_devices

A virtual device that answers a motion controller's host-link frames over UDP,
verified with Verus.

- `src/canopen.rs`: the CANopen SDO server of each drive and the table of
  operating modes that SDO writes set and reads report.
- `src/frame.rs`: the request frame (head byte, commands, tail byte), its
  well-formedness, and the answer built from one block per command.
- `src/service.rs`: what the device does with each event of its socket.
- `src/protocol.rs`: the `protocol` array of the JSON protocol description,
  read with `serde_json`.
- `app/main.rs`: the program: logging, the UDP socket and the service loop.
