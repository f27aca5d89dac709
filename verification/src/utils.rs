//! Small helpers: an interval timer, bit tests, fixed-point interpolation,
//! the circle containment test, and an ordered key/value table with
//! nearest-key lookups.

use vstd::prelude::*;
use crate::consts::{COORD_LIMIT, GEOM_LIMIT, PROGRESS_SCALE, TIME_LIMIT};

verus! {

/// Repeating interval timer counting elapsed microseconds against a duration.
pub struct Timer {
    pub elapsed: i64,
    pub duration: i64,
}

impl Timer {
    pub open spec fn wf(self) -> bool {
        &&& 0 <= self.elapsed
        &&& 0 <= self.duration <= TIME_LIMIT
    }

    pub open spec fn spec_elapsed(self) -> i64 {
        self.elapsed
    }

    pub open spec fn spec_duration(self) -> i64 {
        self.duration
    }

    /// Advances the timer by the frame delta and reports whether more than
    /// the configured duration has now elapsed.
    pub fn tick(&mut self, delta_us: i64) -> (expired: bool)
        requires
            old(self).wf(),
            0 <= delta_us,
            old(self).spec_elapsed() + delta_us <= i64::MAX,
        ensures
            final(self).wf(),
            final(self).spec_elapsed() == old(self).spec_elapsed() + delta_us,
            final(self).spec_duration() == old(self).spec_duration(),
            expired == (final(self).spec_elapsed() > final(self).spec_duration()),
    {
        self.elapsed = self.elapsed + delta_us;
        self.elapsed > self.duration
    }

    pub fn new(duration_us: i64) -> (t: Timer)
        requires
            0 <= duration_us <= TIME_LIMIT,
        ensures
            t.wf(),
            t.spec_elapsed() == 0,
            t.spec_duration() == duration_us,
    {
        Timer { elapsed: 0, duration: duration_us }
    }

    pub fn reset(&mut self)
        requires
            old(self).wf(),
        ensures
            final(self).wf(),
            final(self).spec_elapsed() == 0,
            final(self).spec_duration() == old(self).spec_duration(),
    {
        self.elapsed = 0;
    }
}

/// Whether every bit of `bit_mask` is set in `src`.
pub fn is_bit_set(src: u8, bit_mask: u8) -> (r: bool)
    ensures
        r == (src & bit_mask == bit_mask),
{
    src & bit_mask == bit_mask
}

/// Whether bit number `bit_index` (counting from the least significant) is
/// set in `src`.
pub fn is_nth_bit_set(src: u8, bit_index: u8) -> (r: bool)
    requires
        bit_index < 8,
    ensures
        r == (src & (1u8 << bit_index) == 1u8 << bit_index),
{
    is_bit_set(src, 1u8 << bit_index)
}

/// Fixed-point linear interpolation between `v1` and `v2`, with `t` in
/// ten-thousandths of the way from `v1` to `v2`.
pub open spec fn spec_lerp(v1: int, v2: int, t: int) -> int {
    ((PROGRESS_SCALE - t) * v1 + t * v2) / (PROGRESS_SCALE as int)
}

proof fn lemma_lerp_bounds(v1: int, v2: int, t: int, m: int)
    requires
        0 <= t <= PROGRESS_SCALE,
        0 <= v1 <= m,
        0 <= v2 <= m,
    ensures
        0 <= (PROGRESS_SCALE - t) * v1 + t * v2 <= PROGRESS_SCALE * m,
{
    assert(0 <= (PROGRESS_SCALE - t) * v1 + t * v2 <= PROGRESS_SCALE * m)
        by (nonlinear_arith)
        requires
            0 <= t <= PROGRESS_SCALE,
            0 <= v1 <= m,
            0 <= v2 <= m,
    ;
}

/// Linear interpolation `(1 - t) * value_1 + t * value_2` in fixed point.
pub fn lerp(value_1: i64, value_2: i64, t: i64) -> (r: i64)
    requires
        0 <= t <= PROGRESS_SCALE,
        0 <= value_1 <= COORD_LIMIT,
        0 <= value_2 <= COORD_LIMIT,
    ensures
        r == spec_lerp(value_1 as int, value_2 as int, t as int),
        0 <= r <= COORD_LIMIT,
{
    proof {
        lemma_lerp_bounds(value_1 as int, value_2 as int, t as int, COORD_LIMIT as int);
        vstd::arithmetic::div_mod::lemma_div_pos_is_pos(
            (PROGRESS_SCALE - t) * value_1 + t * value_2,
            PROGRESS_SCALE as int,
        );
        vstd::arithmetic::div_mod::lemma_div_is_ordered(
            (PROGRESS_SCALE - t) * value_1 + t * value_2,
            PROGRESS_SCALE * COORD_LIMIT,
            PROGRESS_SCALE as int,
        );
        vstd::arithmetic::div_mod::lemma_div_multiples_vanish(
            COORD_LIMIT as int,
            PROGRESS_SCALE as int,
        );
    }
    let num: u64 = ((PROGRESS_SCALE - t) as u64) * (value_1 as u64) + (t as u64) * (value_2 as u64);
    (num / (PROGRESS_SCALE as u64)) as i64
}

/// Whether the point lies strictly inside the circle: the squared Euclidean
/// distance from the centre is less than the squared radius.
pub open spec fn spec_circle_contains_point(
    point_x: int,
    point_y: int,
    circle_x: int,
    circle_y: int,
    circle_radius: int,
) -> bool {
    &&& 0 <= circle_radius
    &&& (point_x - circle_x) * (point_x - circle_x) + (point_y - circle_y) * (point_y - circle_y)
        < circle_radius * circle_radius
}

proof fn lemma_square_bound(x: int, b: int)
    requires
        -b <= x <= b,
        0 <= b,
    ensures
        0 <= x * x <= b * b,
{
    assert(0 <= x * x <= b * b) by (nonlinear_arith)
        requires
            -b <= x <= b,
            0 <= b,
    ;
}

/// Strict Euclidean containment test of a point in a circle, computed on
/// squared distances so that it is exact.
pub fn circle_contains_point(
    point_x: i64,
    point_y: i64,
    circle_x: i64,
    circle_y: i64,
    circle_radius: i64,
) -> (r: bool)
    requires
        -GEOM_LIMIT <= point_x <= GEOM_LIMIT,
        -GEOM_LIMIT <= point_y <= GEOM_LIMIT,
        -GEOM_LIMIT <= circle_x <= GEOM_LIMIT,
        -GEOM_LIMIT <= circle_y <= GEOM_LIMIT,
        -GEOM_LIMIT <= circle_radius <= GEOM_LIMIT,
    ensures
        r == spec_circle_contains_point(
            point_x as int,
            point_y as int,
            circle_x as int,
            circle_y as int,
            circle_radius as int,
        ),
{
    if circle_radius < 0 {
        return false;
    }
    let dx: i128 = point_x as i128 - circle_x as i128;
    let dy: i128 = point_y as i128 - circle_y as i128;
    proof {
        lemma_square_bound(dx as int, 2 * GEOM_LIMIT as int);
        lemma_square_bound(dy as int, 2 * GEOM_LIMIT as int);
        lemma_square_bound(circle_radius as int, GEOM_LIMIT as int);
    }
    dx * dx + dy * dy < (circle_radius as i128) * (circle_radius as i128)
}

/// Ordered key/value table with strictly increasing keys; used as the
/// timing-point lookup of the spawner. Insertion keeps the order and
/// overwrites an equal key.
pub struct OrderedTable {
    pub entries: Vec<(i64, i64)>,
}

/// The table after inserting `(key, value)` in key order, overwriting an
/// entry with an equal key.
pub open spec fn spec_table_insert(s: Seq<(i64, i64)>, key: i64, value: i64) -> Seq<(i64, i64)>
    decreases s.len(),
{
    if s.len() == 0 {
        seq![(key, value)]
    } else if key < s[0].0 {
        seq![(key, value)] + s
    } else if key == s[0].0 {
        s.update(0, (key, value))
    } else {
        seq![s[0]] + spec_table_insert(s.drop_first(), key, value)
    }
}

/// The value of the last entry whose key is strictly below `key`.
pub open spec fn spec_btree_less(s: Seq<(i64, i64)>, key: i64) -> Option<i64>
    decreases s.len(),
{
    if s.len() == 0 {
        None
    } else if s.last().0 < key {
        Some(s.last().1)
    } else {
        spec_btree_less(s.drop_last(), key)
    }
}

/// The value of the first entry whose key is at or above `key`.
pub open spec fn spec_btree_gt(s: Seq<(i64, i64)>, key: i64) -> Option<i64>
    decreases s.len(),
{
    if s.len() == 0 {
        None
    } else if s[0].0 >= key {
        Some(s[0].1)
    } else {
        spec_btree_gt(s.drop_first(), key)
    }
}

proof fn lemma_table_insert_at(s: Seq<(i64, i64)>, key: i64, value: i64, i: int)
    requires
        0 <= i <= s.len(),
        forall|j: int| 0 <= j < i ==> s[j].0 < key,
        i < s.len() ==> s[i].0 >= key,
    ensures
        spec_table_insert(s, key, value) == if i < s.len() && s[i].0 == key {
            s.update(i, (key, value))
        } else {
            s.subrange(0, i) + seq![(key, value)] + s.subrange(i, s.len() as int)
        },
    decreases i,
{
    if i == 0 {
        if s.len() == 0 {
            assert(spec_table_insert(s, key, value) =~= s.subrange(0, 0) + seq![(key, value)]
                + s.subrange(0, 0));
        } else if s[0].0 == key {
        } else {
            assert(key < s[0].0);
            assert(seq![(key, value)] + s =~= s.subrange(0, 0) + seq![(key, value)] + s.subrange(
                0,
                s.len() as int,
            ));
        }
    } else {
        assert(s[0].0 < key);
        let rest = s.drop_first();
        lemma_table_insert_at(rest, key, value, i - 1);
        if i < s.len() && s[i].0 == key {
            assert(rest[i - 1] == s[i]);
            assert(seq![s[0]] + rest.update(i - 1, (key, value)) =~= s.update(i, (key, value)));
        } else {
            assert(seq![s[0]] + (rest.subrange(0, i - 1) + seq![(key, value)] + rest.subrange(
                i - 1,
                rest.len() as int,
            )) =~= s.subrange(0, i) + seq![(key, value)] + s.subrange(i, s.len() as int));
        }
    }
}

impl OrderedTable {
    /// Keys are strictly increasing.
    pub open spec fn wf(self) -> bool {
        forall|i: int, j: int|
            0 <= i < j < self.entries@.len() ==> self.entries@[i].0 < self.entries@[j].0
    }

    pub fn new() -> (t: OrderedTable)
        ensures
            t.wf(),
            t.entries@.len() == 0,
    {
        OrderedTable { entries: Vec::new() }
    }

    /// Inserts `(key, value)` keeping key order, overwriting an equal key.
    pub fn insert(&mut self, key: i64, value: i64)
        requires
            old(self).wf(),
        ensures
            final(self).wf(),
            final(self).entries@ == spec_table_insert(old(self).entries@, key, value),
    {
        let ghost s = self.entries@;
        let mut i: usize = 0;
        while i < self.entries.len() && self.entries[i].0 < key
            invariant
                0 <= i <= self.entries@.len(),
                self.entries@ == s,
                forall|j: int| 0 <= j < i ==> s[j].0 < key,
            decreases self.entries@.len() - i,
        {
            i = i + 1;
        }
        proof {
            lemma_table_insert_at(s, key, value, i as int);
        }
        if i < self.entries.len() && self.entries[i].0 == key {
            self.entries.set(i, (key, value));
        } else {
            self.entries.insert(i, (key, value));
            proof {
                let t = self.entries@;
                assert(t =~= s.subrange(0, i as int) + seq![(key, value)] + s.subrange(
                    i as int,
                    s.len() as int,
                ));
                assert forall|p: int, q: int| 0 <= p < q < t.len() implies t[p].0 < t[q].0 by {
                    assert(i < s.len() ==> s[i as int].0 > key);
                }
            }
        }
    }
}

/// The value of the nearest key strictly below `key`, if any.
pub fn btree_less(btree: &OrderedTable, key: i64) -> (r: Option<i64>)
    ensures
        r == spec_btree_less(btree.entries@, key),
{
    let ghost s = btree.entries@;
    proof {
        assert(s.subrange(0, s.len() as int) =~= s);
    }
    let mut i: usize = btree.entries.len();
    while i > 0
        invariant
            0 <= i <= s.len(),
            btree.entries@ == s,
            spec_btree_less(s, key) == spec_btree_less(s.subrange(0, i as int), key),
        decreases i,
    {
        i = i - 1;
        if btree.entries[i].0 < key {
            proof {
                assert(s.subrange(0, i as int + 1).last() == s[i as int]);
            }
            return Some(btree.entries[i].1);
        }
        proof {
            assert(s.subrange(0, i as int + 1).drop_last() =~= s.subrange(0, i as int));
        }
    }
    proof {
        assert(s.subrange(0, 0).len() == 0);
    }
    None
}

/// The value of the nearest key at or above `key`, if any.
pub fn btree_gt(btree: &OrderedTable, key: i64) -> (r: Option<i64>)
    ensures
        r == spec_btree_gt(btree.entries@, key),
{
    let ghost s = btree.entries@;
    proof {
        assert(s.subrange(0, s.len() as int) =~= s);
    }
    let mut i: usize = 0;
    while i < btree.entries.len()
        invariant
            0 <= i <= s.len(),
            btree.entries@ == s,
            spec_btree_gt(s, key) == spec_btree_gt(s.subrange(i as int, s.len() as int), key),
        decreases s.len() - i,
    {
        if btree.entries[i].0 >= key {
            proof {
                assert(s.subrange(i as int, s.len() as int)[0] == s[i as int]);
            }
            return Some(btree.entries[i].1);
        }
        proof {
            assert(s.subrange(i as int, s.len() as int).drop_first() =~= s.subrange(
                i as int + 1,
                s.len() as int,
            ));
        }
        i = i + 1;
    }
    None
}

} // verus!
