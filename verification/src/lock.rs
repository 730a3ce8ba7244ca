//! The lock script's entry decision: which code it returns to the CKB VM
//! for the script arguments and the `WitnessArgs.lock` field it loaded.
//!
//! Arguments are 72 bytes: the owner's lock hash (32), the recovery
//! recipient's lock hash (32) and the little-endian `deadline_since` (8).
//! `WitnessArgs.lock` is 66 bytes: a mode byte (`0x00` owner path, `0x01`
//! recipient path) followed by a 65-byte signature.

use vstd::prelude::*;

verus! {

/// Unknown `mode` byte in `WitnessArgs.lock[0]` (not 0x00 or 0x01).
pub const ERR_UNKNOWN_MODE: i8 = 1;
/// `args` length is not exactly 72 bytes.
pub const ERR_ARGS_LEN: i8 = 2;
/// `WitnessArgs.lock` length is not exactly 66 bytes.
pub const ERR_WITNESS_LEN: i8 = 3;
/// Failed to load `WitnessArgs` (absent or malformed, or without a lock field).
pub const ERR_LOAD_WITNESS: i8 = 4;
/// Recovered pubkey hash did not match `owner_lock_hash` (owner path).
pub const ERR_OWNER_SIG: i8 = 5;
/// Recovered pubkey hash did not match `recipient_lock_hash` (recipient path).
pub const ERR_RECIPIENT_SIG: i8 = 6;
/// The input's `since` value was relative-flagged (only absolute is valid on the recipient path).
pub const ERR_RELATIVE_SINCE: i8 = 7;
/// The input's `since` metric was not epoch-with-fraction, or it did not reach the deadline.
pub const ERR_SINCE_NOT_ELIGIBLE: i8 = 8;
/// Failed to load the script args.
pub const ERR_LOAD_SCRIPT: i8 = 9;

/// Exact length of the lock script's arguments.
pub const ARGS_LEN: usize = 72;
/// Exact length of `WitnessArgs.lock`.
pub const WITNESS_LOCK_LEN: usize = 66;
/// Mode byte selecting the owner path.
pub const MODE_OWNER: u8 = 0x00;
/// Mode byte selecting the recipient path.
pub const MODE_RECIPIENT: u8 = 0x01;

/// The code the lock returns: `ERR_LOAD_SCRIPT` when the arguments could
/// not be loaded, `ERR_ARGS_LEN` when they are not 72 bytes,
/// `ERR_LOAD_WITNESS` when there is no `WitnessArgs.lock`, `ERR_WITNESS_LEN`
/// when it is not 66 bytes, `ERR_UNKNOWN_MODE` when its first byte selects
/// neither path, and `0` (success) otherwise; checked in that order.
pub open spec fn lock_outcome(args: Option<Seq<u8>>, witness_lock: Option<Seq<u8>>) -> i8 {
    match args {
        None => ERR_LOAD_SCRIPT,
        Some(a) => if a.len() != ARGS_LEN {
            ERR_ARGS_LEN
        } else {
            match witness_lock {
                None => ERR_LOAD_WITNESS,
                Some(w) => if w.len() != WITNESS_LOCK_LEN {
                    ERR_WITNESS_LEN
                } else if w[0] != MODE_OWNER && w[0] != MODE_RECIPIENT {
                    ERR_UNKNOWN_MODE
                } else {
                    0
                },
            }
        },
    }
}

/// Entry decision of the lock script, given the script arguments and the
/// lock field of the input group's first `WitnessArgs` (`None` when either
/// could not be loaded). Returns `0` on success and one of the `ERR_*` codes
/// otherwise, as [`lock_outcome`] says.
pub fn program_entry(args: Option<&[u8]>, witness_lock: Option<&[u8]>) -> (code: i8)
    ensures
        code == lock_outcome(args.deep_view(), witness_lock.deep_view()),
{
    let args = match args {
        None => return ERR_LOAD_SCRIPT,
        Some(a) => a,
    };
    if args.len() != ARGS_LEN {
        return ERR_ARGS_LEN;
    }
    let lock = match witness_lock {
        None => return ERR_LOAD_WITNESS,
        Some(w) => w,
    };
    if lock.len() != WITNESS_LOCK_LEN {
        return ERR_WITNESS_LEN;
    }
    let mode = lock[0];
    if mode != MODE_OWNER && mode != MODE_RECIPIENT {
        return ERR_UNKNOWN_MODE;
    }
    0
}

} // verus!
