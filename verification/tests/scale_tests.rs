//! The nice-maximum ceiling on literal inputs, and its behavior over a
//! dense sweep.

use barh::num::Dec;
use barh::scale::calc_max_value;

fn dec(m: u64, e: u32) -> Dec {
    Dec::new(false, m, e).unwrap()
}

fn nice(m: u64, e: u32) -> Dec {
    calc_max_value(&dec(m, e))
}

#[test]
fn max_v_02() {
    assert_eq!(nice(2, 1), dec(2, 1));
}

#[test]
fn max_v_1() {
    assert_eq!(nice(1, 0), dec(1, 0));
}

#[test]
fn max_v_2() {
    assert_eq!(nice(2, 0), dec(2, 0));
}

#[test]
fn max_v_3() {
    assert_eq!(nice(3, 0), dec(4, 0));
}

#[test]
fn max_v_4() {
    assert_eq!(nice(4, 0), dec(4, 0));
}

#[test]
fn max_v_5() {
    assert_eq!(nice(5, 0), dec(6, 0));
}

#[test]
fn max_v_6() {
    assert_eq!(nice(6, 0), dec(8, 0));
}

#[test]
fn max_v_7() {
    assert_eq!(nice(7, 0), dec(8, 0));
}

#[test]
fn max_v_8() {
    assert_eq!(nice(8, 0), dec(10, 0));
}

#[test]
fn max_v_9() {
    assert_eq!(nice(9, 0), dec(10, 0));
}

#[test]
fn max_v_10() {
    assert_eq!(nice(10, 0), dec(10, 0));
}

#[test]
fn max_v_11() {
    assert_eq!(nice(11, 0), dec(12, 0));
}

#[test]
fn max_v_12() {
    assert_eq!(nice(12, 0), dec(16, 0));
}

#[test]
fn max_v_14() {
    assert_eq!(nice(14, 0), dec(16, 0));
}

#[test]
fn max_v_15() {
    assert_eq!(nice(15, 0), dec(20, 0));
}

#[test]
fn max_v_19() {
    assert_eq!(nice(19, 0), dec(20, 0));
}

#[test]
fn max_v_20() {
    assert_eq!(nice(20, 0), dec(20, 0));
}

#[test]
fn max_v_21() {
    assert_eq!(nice(21, 0), dec(24, 0));
}

#[test]
fn max_v_22() {
    assert_eq!(nice(22, 0), dec(24, 0));
}

#[test]
fn max_v_25() {
    assert_eq!(nice(25, 0), dec(30, 0));
}

#[test]
fn max_v_29() {
    assert_eq!(nice(29, 0), dec(30, 0));
}

#[test]
fn max_v_30() {
    assert_eq!(nice(30, 0), dec(40, 0));
}

#[test]
fn max_v_35() {
    assert_eq!(nice(35, 0), dec(40, 0));
}

#[test]
fn max_v_40() {
    assert_eq!(nice(40, 0), dec(40, 0));
}

#[test]
fn max_v_42() {
    assert_eq!(nice(42, 0), dec(50, 0));
}

#[test]
fn max_v_50() {
    assert_eq!(nice(50, 0), dec(60, 0));
}

#[test]
fn max_v_57() {
    assert_eq!(nice(57, 0), dec(60, 0));
}

#[test]
fn max_v_60() {
    assert_eq!(nice(60, 0), dec(80, 0));
}

#[test]
fn max_v_70() {
    assert_eq!(nice(70, 0), dec(80, 0));
}

#[test]
fn max_v_74() {
    assert_eq!(nice(74, 0), dec(80, 0));
}

#[test]
fn max_v_75() {
    assert_eq!(nice(75, 0), dec(100, 0));
}

#[test]
fn max_v_95() {
    assert_eq!(nice(95, 0), dec(100, 0));
}

#[test]
fn max_v_100() {
    assert_eq!(nice(100, 0), dec(100, 0));
}

#[test]
fn max_v_101() {
    assert_eq!(nice(101, 0), dec(120, 0));
}

#[test]
fn max_v_129() {
    assert_eq!(nice(129, 0), dec(160, 0));
}

#[test]
fn max_v_1120() {
    assert_eq!(nice(1120, 0), dec(1200, 0));
}

#[test]
fn max_v_19684() {
    assert_eq!(nice(19684, 0), dec(20000, 0));
}

#[test]
fn test_max_num_match() {
    // must not fail
    for i in 10..1000u64 {
        calc_max_value(&Dec::new(false, i, 1).unwrap());
    }
}

#[test]
fn ceiling_not_below_input_on_the_literal_table() {
    // the auto-computed ceiling covers the value for the table inputs
    let table: [(u64, u32); 12] = [
        (2, 1),
        (1, 0),
        (3, 0),
        (42, 0),
        (75, 0),
        (95, 0),
        (100, 0),
        (101, 0),
        (129, 0),
        (1120, 0),
        (19684, 0),
        (5, 1),
    ];
    for (m, e) in table {
        let v = dec(m, e);
        let c = nice(m, e);
        assert!(v.le(&c));
    }
}

#[test]
fn ceiling_monotone_over_a_dense_sweep() {
    // tenths from 0.1 up to 999.9: the ceiling never decreases
    let mut prev = nice(1, 1);
    for i in 2..10000u64 {
        let cur = calc_max_value(&Dec::new(false, i, 1).unwrap());
        assert!(prev.le(&cur), "not monotone at {i}");
        prev = cur;
    }
}

#[test]
fn ceiling_stabilizes_after_two_applications() {
    // one application need not be a fixed point (12 -> 16 -> 20), but
    // from 20 on it is
    assert_eq!(nice(12, 0), dec(16, 0));
    assert_eq!(nice(16, 0), dec(20, 0));
    assert_eq!(nice(20, 0), dec(20, 0));
    // integer ceilings with a leading 1, 2, 24 or 4, and such values
    // below one, are fixed points
    for c in [dec(1, 0), dec(2, 0), dec(24, 0), dec(4, 0), dec(100, 0), dec(240, 0), dec(400, 0),
        dec(24, 2), dec(2, 1)] {
        assert_eq!(calc_max_value(&c), c);
    }
    // a fractional ceiling above one is not: its re-application rounds
    assert_eq!(calc_max_value(&dec(24, 1)), dec(2, 0));
}
