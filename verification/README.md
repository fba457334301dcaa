# emv_reader

Reads the payment applications of an EMV contactless card through a
PC/SC smart card reader, verified with Verus.

- `src/tlv` — BER-TLV decoding (`decode`) and lookups in the decoded tree
  (`find_tag`, `walk`), specified against a byte-level model of the format.
- `src/smartcard` — ISO 7816 command and response APDUs and the
  `SmartCardReader` / `SmartCardChannel` traits that a card transport
  implements.
- `src/emv` — the card-reading protocol: SELECT of the PPSE, its directory
  entries, SELECT and GET PROCESSING OPTIONS of each application. An
  `EmvApduExchanger` keeps a ghost transcript of the exchanges; each entry
  is tied to a call of the channel's `exchange_apdu` with the command's
  bytes, made in the state that the previous call left the channel in, and
  every reading step is specified as a function of the answers recorded
  there. `read_emv_card` is tied to what the reader's `connect` returned.
- `src/scripts` — `send_ppse`: connect, SELECT the PPSE, reset, decode.
- `src/text` — decimal and hexadecimal number text; the log texts of
  `BerTlv` and `EmvTag` are methods beside those types.
- `src/hex` — upper-case hexadecimal text of bytes.
- `app/` — the program: the PC/SC reader (crate `pcsc`), logging and the two
  scripts (`send_ppse`, `read_emv_card`).
