//! CKB `since` values and their epoch-with-fraction comparison.
//!
//! A `since` value is a `u64` whose high byte holds flags (relative bit and
//! metric) and whose low 56 bits hold the metric-specific value. For the
//! epoch-with-fraction metric the value packs an epoch number `E` (bits
//! 0..24), an index `I` (bits 24..40) and a length `L` (bits 40..56): the
//! point `I / L` of the way through epoch `E`.

use vstd::prelude::*;

verus! {

/// Number of low bits of a `since` value that hold the metric-specific value.
pub const SINCE_VALUE_BITS: u64 = 56;
/// Mask for the low 56 bits of a `since` value.
pub const SINCE_VALUE_MASK: u64 = 0x00ff_ffff_ffff_ffff;
/// Flags byte of an absolute `since` with the epoch-with-fraction metric.
pub const SINCE_EPOCH_FRACTION_FLAG: u8 = 0b0010_0000;

/// Bit offset of the epoch number inside an epoch-with-fraction value.
pub const NUMBER_OFFSET: u64 = 0;
/// Mask of the 24-bit epoch number.
pub const NUMBER_MASK: u64 = 0xff_ffff;
/// Bit offset of the epoch index.
pub const INDEX_OFFSET: u64 = 24;
/// Mask of the 16-bit epoch index.
pub const INDEX_MASK: u64 = 0xffff;
/// Bit offset of the epoch length.
pub const LENGTH_OFFSET: u64 = 40;
/// Mask of the 16-bit epoch length.
pub const LENGTH_MASK: u64 = 0xffff;

/// Epoch number `E` of an epoch-with-fraction value.
pub open spec fn epoch_number(v: u64) -> u64 {
    (v >> NUMBER_OFFSET) & NUMBER_MASK
}

/// Epoch index `I` of an epoch-with-fraction value.
pub open spec fn epoch_index(v: u64) -> u64 {
    (v >> INDEX_OFFSET) & INDEX_MASK
}

/// Epoch length `L` of an epoch-with-fraction value.
pub open spec fn epoch_length(v: u64) -> u64 {
    (v >> LENGTH_OFFSET) & LENGTH_MASK
}

/// Three-way comparison of two epoch-with-fraction values: first by epoch
/// number, then by the fractions `I_a / L_a` and `I_b / L_b` compared by
/// cross-multiplication, `I_a * L_b` against `I_b * L_a`.
/// `-1` means `a` comes first, `1` that `b` does, `0` that neither does.
pub open spec fn epoch_fraction_order(a: u64, b: u64) -> int {
    if epoch_number(a) < epoch_number(b) {
        -1
    } else if epoch_number(a) > epoch_number(b) {
        1
    } else {
        let a_block = epoch_index(a) * epoch_length(b);
        let b_block = epoch_index(b) * epoch_length(a);
        if a_block < b_block {
            -1
        } else if a_block > b_block {
            1
        } else {
            0
        }
    }
}

pub(crate) proof fn lemma_fields_bounded(v: u64)
    ensures
        epoch_number(v) <= 0xff_ffff,
        epoch_index(v) <= 0xffff,
        epoch_length(v) <= 0xffff,
{
    assert((v >> 0u64) & 0xff_ffffu64 <= 0xff_ffff) by (bit_vector);
    assert((v >> 24u64) & 0xffffu64 <= 0xffff) by (bit_vector);
    assert((v >> 40u64) & 0xffffu64 <= 0xffff) by (bit_vector);
}

/// Compares two epoch-with-fraction values, `a` and `b` being the low 56
/// bits of two `since` values of that metric: `-1` when `a` is earlier,
/// `1` when it is later, `0` when neither is (see [`epoch_fraction_order`]).
///
/// No normalisation is applied: a length of zero makes that operand's
/// cross-multiplication term vanish.
pub fn epoch_number_with_fraction_cmp(a: u64, b: u64) -> (r: i8)
    ensures
        r == epoch_fraction_order(a, b),
        -1 <= r <= 1,
{
    let a_epoch = (a >> NUMBER_OFFSET) & NUMBER_MASK;
    let a_index = (a >> INDEX_OFFSET) & INDEX_MASK;
    let a_len = (a >> LENGTH_OFFSET) & LENGTH_MASK;

    let b_epoch = (b >> NUMBER_OFFSET) & NUMBER_MASK;
    let b_index = (b >> INDEX_OFFSET) & INDEX_MASK;
    let b_len = (b >> LENGTH_OFFSET) & LENGTH_MASK;

    proof {
        lemma_fields_bounded(a);
        lemma_fields_bounded(b);
    }

    if a_epoch < b_epoch {
        -1
    } else if a_epoch > b_epoch {
        1
    } else {
        assert(a_index * b_len <= 0xffff * 0xffff) by (nonlinear_arith)
            requires
                a_index <= 0xffff,
                b_len <= 0xffff,
        ;
        assert(b_index * a_len <= 0xffff * 0xffff) by (nonlinear_arith)
            requires
                b_index <= 0xffff,
                a_len <= 0xffff,
        ;
        let a_block = a_index * b_len;
        let b_block = b_index * a_len;
        if a_block < b_block {
            -1
        } else if a_block > b_block {
            1
        } else {
            0
        }
    }
}


/// Flags byte (high 8 bits) of a `since` value.
pub open spec fn flags_of(since: u64) -> u8 {
    (since >> SINCE_VALUE_BITS) as u8
}

/// Metric-specific value (low 56 bits) of a `since` value.
pub open spec fn value_of(since: u64) -> u64 {
    since & SINCE_VALUE_MASK
}

/// When an input `since` satisfies a required one: the flag bytes are
/// equal, and the input's value is not earlier than the required value
/// (by [`epoch_fraction_order`] for the epoch-with-fraction metric, as plain
/// integers for every other metric).
pub open spec fn since_satisfies(input_since: u64, required_since: u64) -> bool {
    &&& flags_of(input_since) == flags_of(required_since)
    &&& if flags_of(input_since) == SINCE_EPOCH_FRACTION_FLAG {
        epoch_fraction_order(value_of(input_since), value_of(required_since)) >= 0
    } else {
        value_of(input_since) >= value_of(required_since)
    }
}

/// The flags byte of a `since` value.
fn since_flags(since: u64) -> (flags: u8)
    ensures
        flags == flags_of(since),
{
    (since >> SINCE_VALUE_BITS) as u8
}

/// Whether an input's `since` satisfies a required `since`: their flag
/// bytes must be equal, and the input's value must not be earlier than the
/// required one (see [`since_satisfies`]).
pub fn since_value_satisfied(input_since: u64, required_since: u64) -> (ok: bool)
    ensures
        ok == since_satisfies(input_since, required_since),
{
    let input_flags = since_flags(input_since);
    let required_flags = since_flags(required_since);
    if input_flags != required_flags {
        return false;
    }
    let input_value = input_since & SINCE_VALUE_MASK;
    let required_value = required_since & SINCE_VALUE_MASK;

    if input_flags == SINCE_EPOCH_FRACTION_FLAG {
        epoch_number_with_fraction_cmp(input_value, required_value) >= 0
    } else {
        input_value >= required_value
    }
}

/// An epoch-with-fraction value with the degenerate fraction `0/0` read as
/// `0/1`, the start of its epoch; every other value unchanged.
pub open spec fn normalized(v: u64) -> u64 {
    if epoch_index(v) == 0 && epoch_length(v) == 0 {
        v | (1u64 << LENGTH_OFFSET)
    } else {
        v
    }
}

/// Reads the fraction `0/0` of an epoch-with-fraction value as `0/1`,
/// leaving the epoch number, every other fraction and the bits above the
/// length field untouched.
fn normalize_epoch_fraction_value(value: u64) -> (r: u64)
    ensures
        r == normalized(value),
        epoch_number(r) == epoch_number(value),
        epoch_index(r) == epoch_index(value),
        epoch_length(r) == if epoch_index(value) == 0 && epoch_length(value) == 0 {
            1
        } else {
            epoch_length(value)
        },
        r >> 56u64 == value >> 56u64,
{
    let index = (value >> INDEX_OFFSET) & INDEX_MASK;
    let length = (value >> LENGTH_OFFSET) & LENGTH_MASK;
    proof {
        lemma_normalize_fields(value);
    }
    if index == 0 && length == 0 {
        value | (1u64 << LENGTH_OFFSET)
    } else {
        value
    }
}

pub(crate) proof fn lemma_normalize_fields(v: u64)
    ensures
        ((v >> 24u64) & 0xffffu64 == 0 && (v >> 40u64) & 0xffffu64 == 0) ==> {
            let w = v | (1u64 << 40u64);
            &&& (w >> 0u64) & 0xff_ffffu64 == (v >> 0u64) & 0xff_ffffu64
            &&& (w >> 24u64) & 0xffffu64 == 0
            &&& (w >> 40u64) & 0xffffu64 == 1
            &&& w >> 56u64 == v >> 56u64
        },
{
    assert(((v >> 24u64) & 0xffffu64 == 0 && (v >> 40u64) & 0xffffu64 == 0) ==> {
        let w = v | (1u64 << 40u64);
        &&& (w >> 0u64) & 0xff_ffffu64 == (v >> 0u64) & 0xff_ffffu64
        &&& (w >> 24u64) & 0xffffu64 == 0
        &&& (w >> 40u64) & 0xffffu64 == 1
        &&& w >> 56u64 == v >> 56u64
    }) by (bit_vector);
}

/// When the recipient path may spend: both `input_since` and
/// `deadline_since` are absolute epoch-with-fraction values, and the input's
/// value, with `0/0` read as `0/1` on both sides, is not earlier than the
/// deadline's.
pub open spec fn recipient_eligible(input_since: u64, deadline_since: u64) -> bool {
    &&& flags_of(input_since) == SINCE_EPOCH_FRACTION_FLAG
    &&& flags_of(deadline_since) == SINCE_EPOCH_FRACTION_FLAG
    &&& epoch_fraction_order(
        normalized(value_of(input_since)),
        normalized(value_of(deadline_since)),
    ) >= 0
}

proof fn lemma_recombine(since: u64, n: u64)
    requires
        n >> 56u64 == 0,
    ensures
        ((since & !0x00ff_ffff_ffff_ffffu64) | n) >> 56u64 == since >> 56u64,
        ((since & !0x00ff_ffff_ffff_ffffu64) | n) & 0x00ff_ffff_ffff_ffffu64 == n,
{
    assert(((since & !0x00ff_ffff_ffff_ffffu64) | n) >> 56u64 == since >> 56u64) by (bit_vector)
        requires
            n >> 56u64 == 0,
    ;
    assert(((since & !0x00ff_ffff_ffff_ffffu64) | n) & 0x00ff_ffff_ffff_ffffu64 == n) by (bit_vector)
        requires
            n >> 56u64 == 0,
    ;
}

/// Normalises the value part of a `since` value, keeping its flags byte.
fn normalize_since(since: u64) -> (r: u64)
    ensures
        flags_of(r) == flags_of(since),
        value_of(r) == normalized(value_of(since)),
{
    let value = since & SINCE_VALUE_MASK;
    assert(value >> 56u64 == 0) by (bit_vector)
        requires
            value == since & 0x00ff_ffff_ffff_ffffu64,
    ;
    let n = normalize_epoch_fraction_value(value);
    proof {
        lemma_recombine(since, n);
    }
    (since & !SINCE_VALUE_MASK) | n
}

/// The recipient path's deadline check: `true` exactly when both
/// `input_since` and `deadline_since` are absolute epoch-with-fraction
/// values and the input, with `0/0` read as `0/1` on both sides, is not
/// earlier than the deadline (see [`recipient_eligible`]). A relative flag
/// or another metric on either side is refused outright.
pub fn recipient_path_eligible(input_since: u64, deadline_since: u64) -> (ok: bool)
    ensures
        ok == recipient_eligible(input_since, deadline_since),
{
    let input_flags = since_flags(input_since);
    let deadline_flags = since_flags(deadline_since);

    if input_flags != SINCE_EPOCH_FRACTION_FLAG || deadline_flags != SINCE_EPOCH_FRACTION_FLAG {
        return false;
    }

    let normalized_input = normalize_since(input_since);
    let normalized_deadline = normalize_since(deadline_since);

    since_value_satisfied(normalized_input, normalized_deadline)
}

} // verus!
