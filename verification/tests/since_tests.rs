use tranfr::since::{
    epoch_number_with_fraction_cmp, recipient_path_eligible, since_value_satisfied,
    INDEX_MASK, INDEX_OFFSET, LENGTH_MASK, LENGTH_OFFSET, NUMBER_MASK, NUMBER_OFFSET,
    SINCE_EPOCH_FRACTION_FLAG, SINCE_VALUE_BITS, SINCE_VALUE_MASK,
};

/// Packs (flags_byte, epoch, index, length) into a `since`-shaped u64.
fn pack(flags: u8, epoch: u64, index: u64, length: u64) -> u64 {
    ((flags as u64) << SINCE_VALUE_BITS)
        | ((length & LENGTH_MASK) << LENGTH_OFFSET)
        | ((index & INDEX_MASK) << INDEX_OFFSET)
        | ((epoch & NUMBER_MASK) << NUMBER_OFFSET)
}

const EPOCH_FRACTION: u8 = SINCE_EPOCH_FRACTION_FLAG; // 0x20: absolute, epoch metric
const RELATIVE_EPOCH_FRACTION: u8 = 0b1010_0000; // 0xA0: relative bit set, epoch metric
const ABSOLUTE_BLOCK_NUMBER: u8 = 0b0000_0000; // 0x00: absolute, block-number metric

#[test]
fn epoch_cmp_by_epoch_number_alone() {
    let a = pack(0, 10, 3, 4) & SINCE_VALUE_MASK;
    let b = pack(0, 11, 0, 1) & SINCE_VALUE_MASK;
    assert_eq!(epoch_number_with_fraction_cmp(a, b), -1);
    assert_eq!(epoch_number_with_fraction_cmp(b, a), 1);
}

#[test]
fn epoch_cmp_same_epoch_different_denominators_equal_ratio() {
    // 1/4 == 2/8 within the same epoch -> equal, despite different L.
    let a = pack(0, 10, 1, 4) & SINCE_VALUE_MASK;
    let b = pack(0, 10, 2, 8) & SINCE_VALUE_MASK;
    assert_eq!(epoch_number_with_fraction_cmp(a, b), 0);
}

#[test]
fn epoch_cmp_same_epoch_different_denominators_unequal_ratio() {
    // 3/4 > 2/8 within the same epoch.
    let a = pack(0, 10, 3, 4) & SINCE_VALUE_MASK;
    let b = pack(0, 10, 2, 8) & SINCE_VALUE_MASK;
    assert_eq!(epoch_number_with_fraction_cmp(a, b), 1);
    assert_eq!(epoch_number_with_fraction_cmp(b, a), -1);
}

#[test]
fn epoch_cmp_raw_port_does_not_normalize_zero_over_zero_by_itself() {
    // With length 0 on the first operand its cross-multiplication term is
    // zero, so (epoch, 0, 0) compares equal to every fraction of that epoch.
    let zero_over_zero = pack(0, 10, 0, 0) & SINCE_VALUE_MASK;
    let zero_over_one = pack(0, 10, 0, 1) & SINCE_VALUE_MASK;
    let near_end_of_epoch = pack(0, 10, 999, 1000) & SINCE_VALUE_MASK;
    assert_eq!(
        epoch_number_with_fraction_cmp(zero_over_zero, zero_over_one),
        0
    );
    assert_eq!(
        epoch_number_with_fraction_cmp(zero_over_zero, near_end_of_epoch),
        0
    );
}

#[test]
fn since_value_satisfied_requires_matching_flags() {
    let required = pack(EPOCH_FRACTION, 100, 0, 1);
    let input_different_metric = pack(ABSOLUTE_BLOCK_NUMBER, 100, 0, 1);
    assert!(!since_value_satisfied(input_different_metric, required));
}

#[test]
fn since_value_satisfied_epoch_fraction_boundary_inclusive() {
    let required = pack(EPOCH_FRACTION, 100, 1, 2);
    let exactly_equal = pack(EPOCH_FRACTION, 100, 1, 2);
    let one_tick_before = pack(EPOCH_FRACTION, 100, 0, 2);
    let one_epoch_after = pack(EPOCH_FRACTION, 101, 0, 1);
    assert!(since_value_satisfied(exactly_equal, required));
    assert!(!since_value_satisfied(one_tick_before, required));
    assert!(since_value_satisfied(one_epoch_after, required));
}

#[test]
fn since_value_satisfied_non_fraction_metric_uses_plain_integer_compare() {
    let required = pack(ABSOLUTE_BLOCK_NUMBER, 1_000_000, 0, 0);
    let earlier = pack(ABSOLUTE_BLOCK_NUMBER, 999_999, 0, 0);
    let later = pack(ABSOLUTE_BLOCK_NUMBER, 1_000_001, 0, 0);
    assert!(!since_value_satisfied(earlier, required));
    assert!(since_value_satisfied(later, required));
}

#[test]
fn recipient_path_rejects_relative_flag_even_if_numerically_far_enough() {
    let deadline = pack(EPOCH_FRACTION, 100, 0, 1);
    // A relative since is measured from the input's own commitment block
    // and is never accepted in place of an absolute one.
    let huge_relative = pack(RELATIVE_EPOCH_FRACTION, 1_000_000, 0, 1);
    assert!(!recipient_path_eligible(huge_relative, deadline));
}

#[test]
fn recipient_path_rejects_wrong_metric_on_either_side() {
    let deadline_block_number = pack(ABSOLUTE_BLOCK_NUMBER, 500, 0, 0);
    let input_epoch_fraction = pack(EPOCH_FRACTION, 500, 0, 1);
    assert!(!recipient_path_eligible(
        input_epoch_fraction,
        deadline_block_number
    ));
}

#[test]
fn recipient_path_rejects_degenerate_zero_length_early_claim() {
    // Deadline near the very end of epoch 540.
    let deadline = pack(EPOCH_FRACTION, 540, 999, 1000);
    // A claim at (epoch 540, index 0, length 0): the start of that epoch.
    let degenerate_early_attempt = pack(EPOCH_FRACTION, 540, 0, 0);

    // The raw comparison alone is fooled by (0, 0).
    assert_eq!(
        since_value_satisfied(degenerate_early_attempt, deadline),
        true,
        "sanity check: the raw port alone is indeed fooled by (0,0)"
    );

    // The recipient check still rejects it.
    assert!(!recipient_path_eligible(degenerate_early_attempt, deadline));

    // (epoch 540, 0/1) is early as well, since 0/1 < 999/1000.
    let honest_start_of_epoch = pack(EPOCH_FRACTION, 540, 0, 1);
    assert!(!recipient_path_eligible(honest_start_of_epoch, deadline));

    // The start of the next epoch is past the deadline.
    let honest_late_fraction = pack(EPOCH_FRACTION, 541, 0, 1);
    assert!(recipient_path_eligible(honest_late_fraction, deadline));
}

#[test]
fn recipient_path_accepts_valid_absolute_epoch_fraction_past_deadline() {
    let deadline = pack(EPOCH_FRACTION, 540, 0, 1); // about 90 days out
    let just_past = pack(EPOCH_FRACTION, 541, 0, 1);
    let well_before = pack(EPOCH_FRACTION, 1, 0, 1);
    assert!(recipient_path_eligible(just_past, deadline));
    assert!(!recipient_path_eligible(well_before, deadline));
}

#[test]
fn cmp_swapping_operands_negates_result() {
    let pairs = [
        (pack(0, 7, 1, 3), pack(0, 7, 1, 2)),
        (pack(0, 7, 2, 4), pack(0, 7, 1, 2)),
        (pack(0, 3, 0, 1), pack(0, 9, 5, 6)),
        (pack(0, 12, 4, 0), pack(0, 12, 1, 9)),
    ];
    for (a, b) in pairs {
        assert_eq!(
            epoch_number_with_fraction_cmp(a, b),
            -epoch_number_with_fraction_cmp(b, a)
        );
    }
}

#[test]
fn cmp_of_value_with_itself_is_equal() {
    for v in [pack(0, 0, 0, 0), pack(0, 540, 999, 1000), pack(0, 0xff_ffff, 0xffff, 0xffff)] {
        assert_eq!(epoch_number_with_fraction_cmp(v, v), 0);
    }
}

#[test]
fn cmp_cross_multiplies_fractions() {
    // 1/3 < 1/2 in the same epoch: 1 * 2 = 2 against 1 * 3 = 3.
    let a = pack(0, 5, 1, 3);
    let b = pack(0, 5, 1, 2);
    assert_eq!(epoch_number_with_fraction_cmp(a, b), -1);
    assert_eq!(epoch_number_with_fraction_cmp(b, a), 1);
}

#[test]
fn cmp_reads_only_the_low_56_bits() {
    let a = pack(0xff, 10, 3, 4);
    let b = pack(0x20, 10, 2, 8);
    assert_eq!(epoch_number_with_fraction_cmp(a, b), 1);
    assert_eq!(
        epoch_number_with_fraction_cmp(a, b),
        epoch_number_with_fraction_cmp(a & SINCE_VALUE_MASK, b & SINCE_VALUE_MASK)
    );
}

#[test]
fn cmp_largest_fields_do_not_overflow() {
    let a = pack(0, 0xff_ffff, 0xffff, 0xffff);
    let b = pack(0, 0xff_ffff, 0xfffe, 0xffff);
    assert_eq!(epoch_number_with_fraction_cmp(a, b), 1);
}

#[test]
fn since_value_satisfies_itself() {
    for s in [
        pack(EPOCH_FRACTION, 100, 1, 2),
        pack(ABSOLUTE_BLOCK_NUMBER, 42, 0, 0),
        pack(RELATIVE_EPOCH_FRACTION, 3, 0, 0),
        u64::MAX,
        0,
    ] {
        assert!(since_value_satisfied(s, s));
    }
}

#[test]
fn since_value_satisfied_timestamp_metric_uses_plain_integer_compare() {
    let timestamp_flag: u8 = 0b0100_0000;
    let required = pack(timestamp_flag, 1_700_000, 0, 0);
    assert!(since_value_satisfied(pack(timestamp_flag, 1_700_000, 0, 0), required));
    assert!(!since_value_satisfied(pack(timestamp_flag, 1_699_999, 0, 0), required));
}

#[test]
fn recipient_check_compares_points_in_time() {
    let deadline = pack(EPOCH_FRACTION, 10, 1, 2);
    // 1/3 of epoch 10 is before its half; 2/3 is after; 2/4 is the half.
    assert!(!recipient_path_eligible(pack(EPOCH_FRACTION, 10, 1, 3), deadline));
    assert!(recipient_path_eligible(pack(EPOCH_FRACTION, 10, 2, 3), deadline));
    assert!(recipient_path_eligible(pack(EPOCH_FRACTION, 10, 2, 4), deadline));
    assert!(!recipient_path_eligible(pack(EPOCH_FRACTION, 9, 999, 1000), deadline));
}

#[test]
fn recipient_check_stays_open_for_later_inputs() {
    let deadline = pack(EPOCH_FRACTION, 540, 0, 1);
    let first = pack(EPOCH_FRACTION, 540, 0, 1);
    assert!(recipient_path_eligible(first, deadline));
    for later in [
        pack(EPOCH_FRACTION, 540, 1, 1800),
        pack(EPOCH_FRACTION, 540, 1799, 1800),
        pack(EPOCH_FRACTION, 541, 0, 0),
        pack(EPOCH_FRACTION, 100_000, 3, 7),
    ] {
        assert!(recipient_path_eligible(later, deadline));
    }
}

#[test]
fn recipient_check_reads_zero_over_zero_deadline_as_epoch_start() {
    let deadline_zero = pack(EPOCH_FRACTION, 540, 0, 0);
    let deadline_start = pack(EPOCH_FRACTION, 540, 0, 1);
    for input in [
        pack(EPOCH_FRACTION, 540, 0, 1),
        pack(EPOCH_FRACTION, 540, 0, 0),
        pack(EPOCH_FRACTION, 539, 999, 1000),
        pack(EPOCH_FRACTION, 540, 5, 10),
    ] {
        assert_eq!(
            recipient_path_eligible(input, deadline_zero),
            recipient_path_eligible(input, deadline_start)
        );
    }
    assert!(recipient_path_eligible(pack(EPOCH_FRACTION, 540, 0, 0), deadline_zero));
    assert!(!recipient_path_eligible(pack(EPOCH_FRACTION, 539, 999, 1000), deadline_zero));
}

#[test]
fn recipient_check_rejects_reserved_flag_bits() {
    let deadline = pack(EPOCH_FRACTION, 1, 0, 1);
    let reserved = pack(EPOCH_FRACTION | 0b0000_0001, 1000, 0, 1);
    assert!(!recipient_path_eligible(reserved, deadline));
    assert!(!recipient_path_eligible(pack(EPOCH_FRACTION, 1000, 0, 1), reserved));
}

#[test]
fn crate_root_reexports_the_since_functions() {
    let deadline = pack(EPOCH_FRACTION, 540, 0, 1);
    let input = pack(EPOCH_FRACTION, 541, 0, 1);
    assert!(tranfr::recipient_path_eligible(input, deadline));
    assert!(tranfr::since_value_satisfied(input, deadline));
    assert_eq!(
        tranfr::epoch_number_with_fraction_cmp(input & SINCE_VALUE_MASK, deadline & SINCE_VALUE_MASK),
        1
    );
}
