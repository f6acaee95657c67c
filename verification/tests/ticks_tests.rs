//! Tick generation: always five values, evenly spaced, ceiling last.

use barh::num::Dec;
use barh::scale::{gen_ticks_list, quarter};

fn dec(m: u64, e: u32) -> Dec {
    Dec::new(false, m, e).unwrap()
}

#[test]
fn five_ticks_for_an_integer_ceiling() {
    let ticks = gen_ticks_list(&dec(100, 0));
    assert_eq!(ticks, vec![dec(0, 0), dec(25, 0), dec(50, 0), dec(75, 0), dec(100, 0)]);
}

#[test]
fn five_ticks_with_fractional_steps() {
    let ticks = gen_ticks_list(&dec(50, 0));
    assert_eq!(ticks, vec![dec(0, 0), dec(125, 1), dec(25, 0), dec(375, 1), dec(50, 0)]);
}

#[test]
fn five_ticks_for_a_fractional_ceiling() {
    let ticks = gen_ticks_list(&dec(2, 1));
    assert_eq!(ticks, vec![dec(0, 0), dec(5, 2), dec(1, 1), dec(15, 2), dec(2, 1)]);
}

#[test]
fn quarter_is_exact() {
    assert_eq!(quarter(&dec(100, 0)), dec(25, 0));
    assert_eq!(quarter(&dec(2, 1)), dec(5, 2));
    assert_eq!(quarter(&dec(1200, 0)), dec(300, 0));
    assert_eq!(quarter(&dec(6, 0)), dec(15, 1));
}

#[test]
fn last_tick_is_the_ceiling() {
    for c in [dec(100, 0), dec(1200, 0), dec(2, 1), dec(16, 0), dec(20000, 0)] {
        let ticks = gen_ticks_list(&c);
        assert_eq!(ticks.len(), 5);
        assert_eq!(ticks[0], dec(0, 0));
        assert_eq!(ticks[4], c);
    }
}
