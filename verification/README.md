# tranfr

Verified core of the Tranfr recovery lock for CKB.

- `src/since.rs` — CKB `since` values: the epoch-with-fraction comparison,
  the flag-matching `since` check, and the recipient path's deadline check
  (with `0/0` read as `0/1`), each with an exact contract over spec functions.
- `src/lock.rs` — the lock's error codes and its entry decision on the loaded
  script arguments and `WitnessArgs.lock`.
- `src/laws.rs` — properties proved over those contracts (the recipient check
  is a comparison of points in time, monotonicity, inclusive boundary, ...).
- `app/main.rs` — the CKB-VM entry point: loads arguments and witness through
  `ckb-std` syscalls and returns the library's decision.
