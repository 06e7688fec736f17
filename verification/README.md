# vhenncoin

The verified core of a small account-based payment ledger ("VhennCoin"), and
the node that serves it over HTTP.

- `src/` is the library, verified with Verus:
  - `amount` — exact decimal amounts (arithmetic by `bigdecimal`);
  - `account` — the balance of an account from its chain of transfers;
  - `transfer` — transaction ids (SHA-256 of the transfer's fields) and the
    rules that apply a transfer to both accounts, with the laws that a transfer
    moves exactly its amount and is applied at most once;
  - `wallet` — funds checks, ECDSA (secp256k1) signature checks, new accounts;
  - `crypto` — SHA-256, hex, and the `k256` signature check;
  - `protocol` and `text` — the text protocol between nodes (fields joined by
    a separator) and the laws that framed messages are read back field by field;
  - `controllers` — how a wallet request (a transfer, a new wallet) is decided
    against the stored accounts, and how each outcome is answered;
  - `identity`, `chain`, `models`, `errors`, `services`.
- `app/` is the node: the HTTP endpoints, the sled, redb and Mongo stores, and
  the TCP/HTTP exchanges with other nodes. It reads and writes, and leaves every
  decision to the library.
