use rusty_osu::utils::{
    btree_gt, btree_less, circle_contains_point, is_bit_set, is_nth_bit_set, lerp, OrderedTable,
    Timer,
};

#[test]
fn bit_arithmetic_test() {
    assert!(is_nth_bit_set(0b_0000_0001, 0));
    assert!(!is_nth_bit_set(0b_0000_0010, 0));
    assert!(is_nth_bit_set(0b_0000_0011, 1));
    assert!(is_nth_bit_set(0b_0000_0101, 2));
    assert!(is_nth_bit_set(0b_1000_0101, 7));
}

#[test]
fn lerp_test() {
    // halfway (5000 ten-thousandths) between 0 and 50 is 25
    assert_eq!(lerp(0, 50, 5000), 25);
}

#[test]
fn btree_utils_test() {
    let mut map = OrderedTable::new();
    map.insert(1, 1);
    map.insert(2, 2);
    map.insert(4, 4);
    map.insert(10, 10);
    assert_eq!(btree_gt(&map, 2), Some(2));
    assert_eq!(btree_gt(&map, 3), Some(4));
    assert_eq!(btree_less(&map, 100), Some(10));
    assert_eq!(btree_gt(&map, 40), None);
}

#[test]
fn btree_less_strict_test() {
    let mut map = OrderedTable::new();
    map.insert(5, 50);
    map.insert(7, 70);
    // strictly-below lookup never returns the equal key
    assert_eq!(btree_less(&map, 5), None);
    assert_eq!(btree_less(&map, 6), Some(50));
    assert_eq!(btree_less(&map, 8), Some(70));
}

#[test]
fn ordered_table_overwrite_test() {
    let mut map = OrderedTable::new();
    map.insert(3, 30);
    map.insert(3, 33);
    assert_eq!(btree_gt(&map, 3), Some(33));
    assert_eq!(btree_gt(&map, 4), None);
}

#[test]
fn is_bit_set_test() {
    assert!(is_bit_set(0b_0000_0111, 0b_0000_0101));
    assert!(!is_bit_set(0b_0000_0110, 0b_0000_0101));
}

#[test]
fn circle_contains_point_test() {
    // squared-distance test is strict
    assert!(circle_contains_point(0, 0, 3, 4, 6));
    assert!(!circle_contains_point(0, 0, 3, 4, 5));
    assert!(!circle_contains_point(0, 0, 3, 4, -1));
    assert!(circle_contains_point(10, 10, 10, 10, 1));
}

#[test]
fn timer_test() {
    let mut t = Timer::new(10_000);
    assert!(!t.tick(10_000));
    assert!(t.tick(1));
    t.reset();
    assert!(!t.tick(9_999));
}
