use zkevm_gadgets::CmpWordsGadget;
use zkevm_gadgets::ComparisonGadget;
use zkevm_gadgets::MinMaxGadget;
use zkevm_gadgets::MulAddWordsGadget;
use zkevm_gadgets::RangeCheckGadget;
use zkevm_gadgets::Word;

fn check_range(value: u64, expected: bool) {
    let gadget = RangeCheckGadget::construct(value as u128, 4);
    assert_eq!(gadget.check(value as u128), expected);
    if expected {
        assert_eq!(gadget.recompose(), value as u128);
    }
}

#[test]
fn test_rangecheck_just_in_range() {
    check_range(0, true);
    check_range(1, true);
    // max - 1
    check_range((1u64 << 32) - 1, true);
}

#[test]
fn test_rangecheck_out_of_range() {
    check_range(1u64 << 32, false);
}

fn check_cmp_word_eq(a: &Word, b: &Word, expected: bool) {
    let gadget = CmpWordsGadget::construct(a, b);
    // (a < b) * (a == b) == 0
    assert!(!(gadget.lt && gadget.eq));
    assert_eq!(gadget.eq, expected);
}

fn check_cmp_word_lt(a: &Word, b: &Word, expected: bool) {
    let gadget = CmpWordsGadget::construct(a, b);
    assert!(!(gadget.lt && gadget.eq));
    assert_eq!(gadget.lt, expected);
}

#[test]
fn test_cmpword() {
    let zero = Word::from_u64(0);
    let one = Word::from_u64(1);
    let max = Word::max_word();

    // a == b check
    check_cmp_word_eq(&zero, &zero, true);
    check_cmp_word_eq(&one, &one, true);
    check_cmp_word_eq(&max, &max, true);
    check_cmp_word_eq(&zero, &max, false);

    // a < b check
    check_cmp_word_lt(&zero, &one, true);
    check_cmp_word_lt(&one, &max, true);
    check_cmp_word_lt(&one, &zero, false);
}

const MINMAX_N_BYTES: usize = 4;

fn check_minmax_min_a(a: u64, b: u64, expected: bool) {
    let gadget = MinMaxGadget::construct(a as u128, b as u128, MINMAX_N_BYTES);
    assert_eq!(gadget.min() == a as u128 && gadget.max() == b as u128, expected);
}

fn check_minmax_min_b(a: u64, b: u64, expected: bool) {
    let gadget = MinMaxGadget::construct(a as u128, b as u128, MINMAX_N_BYTES);
    assert_eq!(gadget.min() == b as u128 && gadget.max() == a as u128, expected);
}

#[test]
fn test_minmax_eq() {
    check_minmax_min_a(0, 0, true);
}

#[test]
fn test_minmax_expect_min_a() {
    check_minmax_min_a(0, 1, true);
}

#[test]
fn test_minmx_unexpect_min_a() {
    check_minmax_min_a(1, 0, false);
}

#[test]
fn test_minmax_expect_min_b() {
    check_minmax_min_b(1, 0, true);
}

fn check_muladd(a: u64, b: u64, c: u64, d: u64, expected: bool) {
    let a = Word::from_u64(a);
    let b = Word::from_u64(b);
    let c = Word::from_u64(c);
    let d = Word::from_u64(d);
    let gadget = MulAddWordsGadget::construct(&a, &b, &c, &d);
    assert_eq!(gadget.check(&a, &b, &c, &d), expected);
}

#[test]
fn test_muladd() {
    check_muladd(0, 0, 0, 0, true);
    check_muladd(1, 0, 0, 0, true);
    check_muladd(1, 1, 0, 1, true);
    check_muladd(1, 1, 1, 2, true);
    // 10 * 1 + 1 == 11, not 3
    check_muladd(10, 1, 1, 3, false);
}

#[test]
fn test_muladd_carries_and_overflow() {
    // (2^256 - 1) * (2^256 - 1) + (2^256 - 1) == (2^256 - 1) * 2^256,
    // so the low word is 0 and the overflow is 2^256 - 1
    let max = Word::max_word();
    let zero = Word::zero();
    let gadget = MulAddWordsGadget::construct(&max, &max, &max, &zero);
    assert!(gadget.check(&max, &max, &max, &zero));
    assert_eq!(gadget.overflow().bytes, max.bytes);
    assert_eq!(gadget.carry_lo.len(), 9);
    assert_eq!(gadget.carry_hi.len(), 9);

    // 2^128 * 2^128 == 2^256: the low word is 0 and the overflow is 1
    let two_128 = Word::from_u128_pair(0, 1);
    let g2 = MulAddWordsGadget::construct(&two_128, &two_128, &zero, &zero);
    assert!(g2.check(&two_128, &two_128, &zero, &zero));
    assert_eq!(g2.overflow().bytes, Word::from_u64(1).bytes);
}

#[test]
fn test_muladd_wrapping_result() {
    // (2^255) * 2 + 5 == 2^256 + 5, so d == 5 with overflow 1
    let mut half_bytes = vec![0u8; 32];
    half_bytes[31] = 0x80;
    let a = Word::from_le_bytes(half_bytes);
    let b = Word::from_u64(2);
    let c = Word::from_u64(5);
    let d = Word::from_u64(5);
    let gadget = MulAddWordsGadget::construct(&a, &b, &c, &d);
    assert!(gadget.check(&a, &b, &c, &d));
    assert_eq!(gadget.overflow().bytes, Word::from_u64(1).bytes);
    // any other low word is rejected
    let wrong = Word::from_u64(6);
    let g2 = MulAddWordsGadget::construct(&a, &b, &c, &wrong);
    assert!(!g2.check(&a, &b, &c, &wrong));
}

#[test]
fn test_comparison_trichotomy_cases() {
    // exactly one of lt, eq, gt holds for each pair
    let pairs: Vec<(u64, u64)> = vec![(0, 0), (0, 1), (1, 0), (7, 7), (u64::MAX, 1)];
    for (a, b) in pairs {
        let wa = Word::from_u64(a);
        let wb = Word::from_u64(b);
        let g = CmpWordsGadget::construct(&wa, &wb);
        let gt = !g.lt && !g.eq;
        assert_eq!(g.lt, a < b);
        assert_eq!(g.eq, a == b);
        assert_eq!(gt, a > b);
        let one_hot = (g.lt as u8) + (g.eq as u8) + (gt as u8);
        assert_eq!(one_hot, 1);
    }
}

#[test]
fn test_range_check_truncates_over_wide_value() {
    // 0x1_0000_0001 does not fit 4 bytes: the witness holds the truncation,
    // and the recomposition constraint rejects the over-wide value
    let gadget = RangeCheckGadget::construct(0x1_0000_0001, 4);
    assert_eq!(gadget.recompose(), 1);
    assert!(!gadget.check(0x1_0000_0001));
    assert!(gadget.parts.iter().all(|&b| b == 0 || b == 1));
}

#[test]
fn test_minmax_full_width() {
    // 16-byte operands at the top of the range
    let a = u128::MAX;
    let b = u128::MAX - 1;
    let gadget = MinMaxGadget::construct(a, b, 16);
    assert_eq!(gadget.min(), b);
    assert_eq!(gadget.max(), a);
}

#[test]
fn test_comparison_gadget_direct() {
    // 2-byte operands: 0x0100 vs 0x00ff
    let g = ComparisonGadget::construct(0x0100, 0x00ff, 2);
    assert!(!g.lt);
    assert!(!g.eq);
    // diff = 0x0100 - 0x00ff + 0x10000 decomposes into 3 bytes ending in 1
    assert_eq!(g.range_check.parts, vec![0x01, 0x00, 0x01]);
    let (lt, eq) = g.expr();
    assert!(!lt && !eq);

    let g2 = ComparisonGadget::construct(0x00ff, 0x0100, 2);
    assert!(g2.lt);
    assert!(!g2.eq);
    // the top byte of the borrow decomposition is 0 when lhs < rhs
    assert_eq!(g2.range_check.parts[2], 0);

    let g3 = ComparisonGadget::construct(0x0100, 0x0100, 2);
    assert!(!g3.lt);
    assert!(g3.eq);
    // diff == 0x10000 exactly
    assert_eq!(g3.range_check.parts, vec![0x00, 0x00, 0x01]);
}

#[test]
fn test_word_halves_round_trip() {
    let w = Word::from_u128_pair(0x1122, u128::MAX);
    assert_eq!(w.lo_u128(), 0x1122);
    assert_eq!(w.hi_u128(), u128::MAX);
    assert_eq!(w.bytes.len(), 32);
    assert_eq!(w.bytes[0], 0x22);
    assert_eq!(w.bytes[1], 0x11);
    assert_eq!(w.limb64_u64(0), 0x1122);
    assert_eq!(w.limb64_u64(3), u64::MAX);
}
