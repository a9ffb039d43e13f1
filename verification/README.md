# ef_core

A verified core for talking to EcoFlow power stations over Bluetooth LE: the plaintext
`0xAA` packet codec and its streaming reassembler, the encrypted `0x5A5A` outer frames,
CRC-8/CRC-16, control-command encoding, telemetry decoding, and the pure steps of the
ECDH (secp160r1) + AES-CBC handshake with its order as a state machine. Every function in `src/` carries a Verus contract.

Layout:

- `src/` — the library (Verus). `packet`, `encpacket`, `crc`, `bytes`, `command`,
  `river`, `model`, `profile`, `session`, `auth`, `handshake`, `crypto`, `keydata`, `secp160r1`,
  `ble`, `cloud`, `store`, `manager`, `text`.
- `tests/` — tests of the library, including the captured golden frames.
- `app/` — the program around it: the BLE transport (btleplug), the async device
  runtime, the HTTP login, the JSON files, and the floating-point parts of the snapshot.

The 65280-byte session-key table is data read at run time and handed to
`crypto::gen_session_key`.
