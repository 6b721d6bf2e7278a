# typed_protocols

Three small protocols written as typestates and verified with Verus:

- `auction`, `auction_client_api`: an auction that takes bids and a client
  that joins it, bids, checks its bid and learns whether it won;
- `card_api`, `reader_api`, `pin_entry`: a PIN card with three attempts, a
  reader that authenticates it, and the reading of a PIN from a line of input;
- `ring_a`, `ring_b`: members of a ring that pass a value on over channels.

`src/` is the verified library; `app/main.rs` runs one protocol
(`auction`, `pin` or `ring`) with its input and output; `tests/` exercises the
library.
