//! Deadline check of the Tranfr recovery lock: comparison of CKB `since`
//! values encoded as absolute epoch-with-fraction, and the framing checks
//! of the lock script's arguments and witness.

pub mod laws;
pub mod lock;
pub mod since;

pub use lock::{
    program_entry, ERR_ARGS_LEN, ERR_LOAD_SCRIPT, ERR_LOAD_WITNESS, ERR_OWNER_SIG,
    ERR_RECIPIENT_SIG, ERR_RELATIVE_SINCE, ERR_SINCE_NOT_ELIGIBLE, ERR_UNKNOWN_MODE,
    ERR_WITNESS_LEN,
};
pub use since::{epoch_number_with_fraction_cmp, recipient_path_eligible, since_value_satisfied};
