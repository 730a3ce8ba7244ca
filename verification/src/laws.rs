//! Properties of the deadline check that span its functions.

use vstd::prelude::*;

use crate::since::{
    epoch_fraction_order, epoch_index, epoch_length, epoch_number, flags_of, lemma_fields_bounded,
    lemma_normalize_fields, normalized, recipient_eligible, since_satisfies, value_of,
    SINCE_EPOCH_FRACTION_FLAG,
};
use crate::lock::{lock_outcome, ARGS_LEN, MODE_OWNER, MODE_RECIPIENT, WITNESS_LOCK_LEN};

verus! {

/// An epoch-with-fraction value whose fraction is proper: `I < L`, or the
/// degenerate `0/0` that stands for the start of the epoch.
pub open spec fn well_formed_fraction(v: u64) -> bool {
    epoch_index(v) < epoch_length(v) || (epoch_index(v) == 0 && epoch_length(v) == 0)
}

/// The length of an epoch-with-fraction value with `0/0` read as `0/1`.
pub open spec fn effective_length(v: u64) -> int {
    if epoch_index(v) == 0 && epoch_length(v) == 0 {
        1
    } else {
        epoch_length(v) as int
    }
}

/// Point `a` in time, `E_a + I_a / L_a` epochs, is not before point `b`,
/// `E_b + I_b / L_b` (with `0/0` read as `0/1`), compared without division:
/// `(E_a * L_a + I_a) * L_b >= (E_b * L_b + I_b) * L_a`.
pub open spec fn not_before(a: u64, b: u64) -> bool {
    (epoch_number(a) * effective_length(a) + epoch_index(a)) * effective_length(b) >= (
    epoch_number(b) * effective_length(b) + epoch_index(b)) * effective_length(a)
}

/// Comparing two fractions of a point in time lexicographically (epoch
/// first, then the fraction by cross-multiplication) agrees with comparing
/// the points `e + i / l` themselves, when `0 <= i < l`.
proof fn lemma_lexicographic_is_positional(ea: int, ia: int, la: int, eb: int, ib: int, lb: int)
    requires
        0 <= ia < la,
        0 <= ib < lb,
    ensures
        (ea > eb || (ea == eb && ia * lb >= ib * la)) <==> ((ea * la + ia) * lb >= (eb * lb + ib)
            * la),
{
    assert((ea * la + ia) * lb - (eb * lb + ib) * la == (ea - eb) * (la * lb) + ia * lb - ib * la)
        by (nonlinear_arith);
    assert(ia * lb >= 0) by (nonlinear_arith)
        requires
            0 <= ia,
            0 < lb,
    ;
    assert(ib * la >= 0) by (nonlinear_arith)
        requires
            0 <= ib,
            0 < la,
    ;
    assert(ib * la < lb * la) by (nonlinear_arith)
        requires
            ib < lb,
            0 < la,
    ;
    assert(ia * lb < la * lb) by (nonlinear_arith)
        requires
            ia < la,
            0 < lb,
    ;
    assert(la * lb > 0) by (nonlinear_arith)
        requires
            0 < la,
            0 < lb,
    ;
    if ea > eb {
        assert((ea - eb) * (la * lb) >= la * lb) by (nonlinear_arith)
            requires
                ea - eb >= 1,
                la * lb > 0,
        ;
    } else if ea < eb {
        assert((ea - eb) * (la * lb) <= -(la * lb)) by (nonlinear_arith)
            requires
                ea - eb <= -1,
                la * lb > 0,
        ;
    } else {
        assert((ea - eb) * (la * lb) == 0) by (nonlinear_arith)
            requires
                ea == eb,
        ;
    }
}

/// Facts about a normalised value of a well-formed fraction.
proof fn lemma_normalized_fields(v: u64)
    requires
        well_formed_fraction(v),
    ensures
        epoch_number(normalized(v)) == epoch_number(v),
        epoch_index(normalized(v)) == epoch_index(v),
        epoch_length(normalized(v)) == effective_length(v),
        epoch_index(normalized(v)) < epoch_length(normalized(v)),
{
    lemma_normalize_fields(v);
}

/// The recipient path's deadline check is a comparison of points in time: for
/// absolute epoch-with-fraction values whose fractions are proper (`I < L`,
/// or `0/0` for the start of the epoch), recovery is allowed exactly when the
/// input's point `E + I / L` is not before the deadline's.
pub proof fn lemma_recovery_is_time_order(input_since: u64, deadline_since: u64)
    requires
        well_formed_fraction(value_of(input_since)),
        well_formed_fraction(value_of(deadline_since)),
    ensures
        recipient_eligible(input_since, deadline_since) <==> {
            &&& flags_of(input_since) == SINCE_EPOCH_FRACTION_FLAG
            &&& flags_of(deadline_since) == SINCE_EPOCH_FRACTION_FLAG
            &&& not_before(value_of(input_since), value_of(deadline_since))
        },
{
    let a = value_of(input_since);
    let b = value_of(deadline_since);
    lemma_normalized_fields(a);
    lemma_normalized_fields(b);
    lemma_fields_bounded(a);
    lemma_fields_bounded(b);
    lemma_lexicographic_is_positional(
        epoch_number(a) as int,
        epoch_index(a) as int,
        effective_length(a),
        epoch_number(b) as int,
        epoch_index(b) as int,
        effective_length(b),
    );
}


/// Reading `0/0` as `0/1` is idempotent: a normalised value is left as it
/// is by a second normalisation.
pub proof fn lemma_normalization_idempotent(v: u64)
    ensures
        normalized(normalized(v)) == normalized(v),
{
    lemma_normalize_fields(v);
}

/// The fields of an epoch-with-fraction value are the 24-bit epoch number
/// `E`, the 16-bit index `I` and the 16-bit length `L` of the packing
/// `E + I * 2^24 + L * 2^40` (bits above 56 ignored).
pub proof fn lemma_fields_of_packed(e: u64, i: u64, l: u64, flags: u64)
    requires
        e < 0x100_0000,
        i < 0x1_0000,
        l < 0x1_0000,
        flags < 0x100,
    ensures
        ({
            let v = (e + i * 0x100_0000 + l * 0x100_0000_0000 + flags * 0x100_0000_0000_0000) as u64;
            &&& epoch_number(v) == e
            &&& epoch_index(v) == i
            &&& epoch_length(v) == l
            &&& flags_of(v) == flags
            &&& value_of(v) == e + i * 0x100_0000 + l * 0x100_0000_0000
        }),
{
    let v: u64 = (e + i * 0x100_0000 + l * 0x100_0000_0000 + flags * 0x100_0000_0000_0000) as u64;
    assert(v == e + i * 0x100_0000 + l * 0x100_0000_0000 + flags * 0x100_0000_0000_0000) by (
    nonlinear_arith)
        requires
            e < 0x100_0000,
            i < 0x1_0000,
            l < 0x1_0000,
            flags < 0x100,
            v == (e + i * 0x100_0000 + l * 0x100_0000_0000 + flags * 0x100_0000_0000_0000) as u64,
    ;
    assert({
        &&& (v >> 0u64) & 0xff_ffffu64 == e
        &&& (v >> 24u64) & 0xffffu64 == i
        &&& (v >> 40u64) & 0xffffu64 == l
        &&& (v >> 56u64) as u8 == flags
        &&& v & 0x00ff_ffff_ffff_ffffu64 == e + i * 0x100_0000 + l * 0x100_0000_0000
    }) by (bit_vector)
        requires
            e < 0x100_0000,
            i < 0x1_0000,
            l < 0x1_0000,
            flags < 0x100,
            v == e + i * 0x100_0000 + l * 0x100_0000_0000 + flags * 0x100_0000_0000_0000,
    ;
}

/// Values in different epochs are ordered by their epoch numbers alone,
/// whatever their index and length fields (a length of zero included); in
/// the same epoch the fractions `I_a / L_a` and `I_b / L_b` decide, by the
/// sign of `I_a * L_b - I_b * L_a`.
pub proof fn lemma_order_epoch_first(a: u64, b: u64)
    ensures
        epoch_number(a) < epoch_number(b) ==> epoch_fraction_order(a, b) == -1,
        epoch_number(a) > epoch_number(b) ==> epoch_fraction_order(a, b) == 1,
        epoch_number(a) == epoch_number(b) ==> {
            &&& epoch_index(a) * epoch_length(b) < epoch_index(b) * epoch_length(a)
                ==> epoch_fraction_order(a, b) == -1
            &&& epoch_index(a) * epoch_length(b) > epoch_index(b) * epoch_length(a)
                ==> epoch_fraction_order(a, b) == 1
            &&& epoch_index(a) * epoch_length(b) == epoch_index(b) * epoch_length(a)
                ==> epoch_fraction_order(a, b) == 0
        },
{
}

/// For two absolute epoch-with-fraction `since` values, the input
/// satisfies the requirement exactly when its epoch is later, or the epochs
/// are equal and its fraction is not smaller by cross-multiplication; in
/// particular an input from an earlier epoch never satisfies it, whatever
/// either fraction is (`0/0` included).
pub proof fn lemma_since_epoch_fraction_satisfaction(input_since: u64, required_since: u64)
    requires
        flags_of(input_since) == SINCE_EPOCH_FRACTION_FLAG,
        flags_of(required_since) == SINCE_EPOCH_FRACTION_FLAG,
    ensures
        since_satisfies(input_since, required_since) <==> {
            let i = value_of(input_since);
            let r = value_of(required_since);
            ||| epoch_number(i) > epoch_number(r)
            ||| epoch_number(i) == epoch_number(r) && epoch_index(i) * epoch_length(r)
                >= epoch_index(r) * epoch_length(i)
        },
        epoch_number(value_of(input_since)) < epoch_number(value_of(required_since))
            ==> !since_satisfies(input_since, required_since),
        epoch_number(value_of(input_since)) > epoch_number(value_of(required_since))
            ==> since_satisfies(input_since, required_since),
{
}

/// The recipient check in terms of the fields: an absolute
/// epoch-with-fraction input may recover exactly when its epoch is later
/// than the deadline's, or the epochs are equal and its fraction, with `0/0`
/// read as `0/1` on both sides, is not smaller by cross-multiplication. An
/// input from an earlier epoch never may, one from a later epoch always may.
pub proof fn lemma_recovery_by_fields(input_since: u64, deadline_since: u64)
    ensures
        recipient_eligible(input_since, deadline_since) <==> {
            let i = value_of(input_since);
            let d = value_of(deadline_since);
            &&& flags_of(input_since) == SINCE_EPOCH_FRACTION_FLAG
            &&& flags_of(deadline_since) == SINCE_EPOCH_FRACTION_FLAG
            &&& {
                ||| epoch_number(i) > epoch_number(d)
                ||| epoch_number(i) == epoch_number(d) && epoch_index(i) * effective_length(d)
                    >= epoch_index(d) * effective_length(i)
            }
        },
{
    let i = value_of(input_since);
    let d = value_of(deadline_since);
    lemma_normalize_fields(i);
    lemma_normalize_fields(d);
}

/// Swapping the operands of the epoch-with-fraction comparison negates
/// its result.
pub proof fn lemma_order_antisymmetric(a: u64, b: u64)
    ensures
        epoch_fraction_order(a, b) == -epoch_fraction_order(b, a),
{
}

/// Every epoch-with-fraction value compares equal to itself.
pub proof fn lemma_order_reflexive(a: u64)
    ensures
        epoch_fraction_order(a, a) == 0,
{
}

/// A raw value whose fraction is `0/0` compares equal to every value of
/// the same epoch when it is the first operand: its cross-multiplication
/// term vanishes whatever the other fraction is.
pub proof fn lemma_raw_zero_length_equals_whole_epoch(a: u64, b: u64)
    requires
        epoch_number(a) == epoch_number(b),
        epoch_index(a) == 0,
        epoch_length(a) == 0,
    ensures
        epoch_fraction_order(a, b) == 0,
{
}

/// The boundary is inclusive: a `since` value always satisfies itself.
pub proof fn lemma_since_satisfies_reflexive(s: u64)
    ensures
        since_satisfies(s, s),
{
}

/// A `since` whose flags byte differs from the required one never
/// satisfies it, whatever the values.
pub proof fn lemma_flags_must_match(input_since: u64, required_since: u64)
    requires
        flags_of(input_since) != flags_of(required_since),
    ensures
        !since_satisfies(input_since, required_since),
{
}

/// For every metric other than epoch-with-fraction, satisfaction is the
/// plain integer comparison of the 56-bit values.
pub proof fn lemma_other_metrics_compare_as_integers(input_since: u64, required_since: u64)
    requires
        flags_of(input_since) == flags_of(required_since),
        flags_of(input_since) != SINCE_EPOCH_FRACTION_FLAG,
    ensures
        since_satisfies(input_since, required_since) <==> value_of(input_since) >= value_of(
            required_since,
        ),
{
}

/// The recipient path never falls back to another comparison: a relative
/// flag or another metric on either side refuses the spend.
pub proof fn lemma_recovery_refuses_other_flags(input_since: u64, deadline_since: u64)
    requires
        flags_of(input_since) != SINCE_EPOCH_FRACTION_FLAG || flags_of(deadline_since)
            != SINCE_EPOCH_FRACTION_FLAG,
    ensures
        !recipient_eligible(input_since, deadline_since),
{
}

/// The recipient check reads the degenerate fraction `0/0` as `0/1` on either side:
/// setting the length of such a value to 1 changes no verdict.
pub proof fn lemma_recovery_zero_over_zero_is_epoch_start(
    input_since: u64,
    deadline_since: u64,
    input_start: u64,
    deadline_start: u64,
)
    requires
        input_start == if epoch_index(value_of(input_since)) == 0 && epoch_length(
            value_of(input_since),
        ) == 0 {
            input_since | (1u64 << 40u64)
        } else {
            input_since
        },
        deadline_start == if epoch_index(value_of(deadline_since)) == 0 && epoch_length(
            value_of(deadline_since),
        ) == 0 {
            deadline_since | (1u64 << 40u64)
        } else {
            deadline_since
        },
    ensures
        recipient_eligible(input_start, deadline_start) == recipient_eligible(
            input_since,
            deadline_since,
        ),
{
    lemma_start_of_epoch(input_since);
    lemma_start_of_epoch(deadline_since);
}

proof fn lemma_start_of_epoch(s: u64)
    ensures
        (epoch_index(value_of(s)) == 0 && epoch_length(value_of(s)) == 0) ==> {
            &&& flags_of(s | (1u64 << 40u64)) == flags_of(s)
            &&& value_of(s | (1u64 << 40u64)) == normalized(value_of(s))
            &&& normalized(value_of(s | (1u64 << 40u64))) == normalized(value_of(s))
        },
{
    let v = value_of(s);
    lemma_normalize_fields(v);
    if epoch_index(v) == 0 && epoch_length(v) == 0 {
        let t = s | (1u64 << 40u64);
        assert(((t >> 56u64) as u8 == (s >> 56u64) as u8) && (t & 0x00ff_ffff_ffff_ffffu64 == (s
            & 0x00ff_ffff_ffff_ffffu64) | (1u64 << 40u64))) by (bit_vector)
            requires
                t == s | (1u64 << 40u64),
        ;
        lemma_normalize_fields(value_of(t));
    }
}

/// Points in time compare transitively.
proof fn lemma_not_before_transitive(a: u64, b: u64, c: u64)
    requires
        not_before(c, a),
        not_before(a, b),
        effective_length(a) > 0,
        effective_length(b) > 0,
        effective_length(c) > 0,
    ensures
        not_before(c, b),
{
    let xa = epoch_number(a) * effective_length(a) + epoch_index(a);
    let xb = epoch_number(b) * effective_length(b) + epoch_index(b);
    let xc = epoch_number(c) * effective_length(c) + epoch_index(c);
    let la = effective_length(a);
    let lb = effective_length(b);
    let lc = effective_length(c);
    assert(xc * lb >= xb * lc) by (nonlinear_arith)
        requires
            xc * la >= xa * lc,
            xa * lb >= xb * la,
            la > 0,
            lb > 0,
            lc > 0,
    {
        assert(xc * la * lb >= xa * lc * lb);
        assert(xa * lb * lc >= xb * la * lc);
        assert(xc * lb * la >= xb * lc * la);
    }
}

/// Once recovery is allowed it stays allowed: an absolute
/// epoch-with-fraction input not before one that may recover may recover
/// too (all fractions proper).
pub proof fn lemma_recovery_monotone_in_input(input_since: u64, later_since: u64, deadline_since: u64)
    requires
        well_formed_fraction(value_of(input_since)),
        well_formed_fraction(value_of(later_since)),
        well_formed_fraction(value_of(deadline_since)),
        flags_of(later_since) == SINCE_EPOCH_FRACTION_FLAG,
        not_before(value_of(later_since), value_of(input_since)),
        recipient_eligible(input_since, deadline_since),
    ensures
        recipient_eligible(later_since, deadline_since),
{
    lemma_recovery_is_time_order(input_since, deadline_since);
    lemma_recovery_is_time_order(later_since, deadline_since);
    lemma_normalized_fields(value_of(input_since));
    lemma_normalized_fields(value_of(later_since));
    lemma_normalized_fields(value_of(deadline_since));
    lemma_not_before_transitive(
        value_of(input_since),
        value_of(deadline_since),
        value_of(later_since),
    );
}

/// Moving the deadline earlier never refuses a spend that the later
/// deadline allowed (all fractions proper).
pub proof fn lemma_recovery_monotone_in_deadline(
    input_since: u64,
    deadline_since: u64,
    earlier_deadline: u64,
)
    requires
        well_formed_fraction(value_of(input_since)),
        well_formed_fraction(value_of(deadline_since)),
        well_formed_fraction(value_of(earlier_deadline)),
        flags_of(earlier_deadline) == SINCE_EPOCH_FRACTION_FLAG,
        not_before(value_of(deadline_since), value_of(earlier_deadline)),
        recipient_eligible(input_since, deadline_since),
    ensures
        recipient_eligible(input_since, earlier_deadline),
{
    lemma_recovery_is_time_order(input_since, deadline_since);
    lemma_recovery_is_time_order(input_since, earlier_deadline);
    lemma_normalized_fields(value_of(input_since));
    lemma_normalized_fields(value_of(deadline_since));
    lemma_normalized_fields(value_of(earlier_deadline));
    lemma_not_before_transitive(
        value_of(deadline_since),
        value_of(earlier_deadline),
        value_of(input_since),
    );
}


/// The lock succeeds only on well-framed inputs: arguments of exactly 72
/// bytes, and a witness lock of exactly 66 bytes whose mode byte selects
/// the owner or the recipient path; every other input gets a nonzero code.
pub proof fn lemma_success_requires_framing(args: Option<Seq<u8>>, witness_lock: Option<Seq<u8>>)
    ensures
        lock_outcome(args, witness_lock) == 0 <==> {
            &&& args matches Some(a) && a.len() == ARGS_LEN
            &&& witness_lock matches Some(w) && w.len() == WITNESS_LOCK_LEN && (w[0] == MODE_OWNER
                || w[0] == MODE_RECIPIENT)
        },
{
}

} // verus!
