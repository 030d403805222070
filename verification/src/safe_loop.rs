//! The Safe Loop: a reboot-surviving state machine that makes aggressive tuning recoverable.
//! Before every apply a boot flag is armed; a clean validation clears it. A flag still armed at
//! boot means the last apply crashed the machine, so the region around that point is
//! blacklisted, the loop recedes to the last known-good point, and after three consecutive
//! crashes it falls back to Safe Mode (stock, hands off).
//!
//! Everything here is the pure logic: tuning points, the state machine, bugcheck
//! classification and the recovery decision. Reading and writing the flag and record files is
//! left to the caller.
use vstd::prelude::*;
use crate::text::{compare_text, lemma_text_lt_asymmetric, lemma_text_lt_transitive, text_lt, TextOrder};

verus! {

/// Three consecutive crashes trips Safe Mode.
pub const SAFE_MODE_CRASH_THRESHOLD: u32 = 3;

/// Default blacklist radius (in per-axis steps) carved out around a crash point.
pub const DEFAULT_BLACKLIST_RADIUS: i64 = 1;

/// `0x101 CLOCK_WATCHDOG_TIMEOUT` — a core stopped responding; classic OC crash.
pub const BUGCHECK_CLOCK_WATCHDOG: u64 = 0x101;

/// `0x124 WHEA_UNCORRECTABLE_ERROR` — machine-check; classic undervolt/OC crash.
pub const BUGCHECK_WHEA_UNCORRECTABLE: u64 = 0x124;

/// `0x133 DPC_WATCHDOG_VIOLATION` — also commonly OC/driver instability.
pub const BUGCHECK_DPC_WATCHDOG: u64 = 0x133;

/// The setting of axis `key` in a list of axes: the last entry with that key wins; an axis
/// that is not listed is at its neutral 0.
pub open spec fn axis_value(axes: Seq<(Seq<char>, i64)>, key: Seq<char>) -> int
    decreases axes.len(),
{
    if axes.len() == 0 {
        0
    } else if axes.last().0 == key {
        axes.last().1 as int
    } else {
        axis_value(axes.drop_last(), key)
    }
}

/// Whether some entry of the list names axis `key`.
pub open spec fn has_axis(axes: Seq<(Seq<char>, i64)>, key: Seq<char>) -> bool {
    exists|i: int| 0 <= i < axes.len() && (#[trigger] axes[i]).0 == key
}

/// Keys strictly increasing: the canonical, duplicate-free form.
pub open spec fn axes_sorted(axes: Seq<(Seq<char>, i64)>) -> bool {
    forall|i: int, j: int| 0 <= i < j < axes.len() ==> text_lt(#[trigger] axes[i].0, #[trigger] axes[j].0)
}

/// The axes of a list of named settings, by the text of each name.
pub open spec fn axes_view(axes: Seq<(String, i64)>) -> Seq<(Seq<char>, i64)> {
    axes.map_values(|e: (String, i64)| (e.0@, e.1))
}

/// A point in tuning space: axis name → integer setting (mV offset, MHz, ratio…), kept sorted
/// by axis name with each axis named once.
///
/// An empty list (or all-zero axes) is the *stock* point — the recovery target that is always
/// safe.
#[derive(Debug, PartialEq, Eq)]
pub struct TuningPoint {
    axes: Vec<(String, i64)>,
}

impl TuningPoint {
    /// Every point keeps its axes strictly sorted by name, so no axis is named twice.
    #[verifier::type_invariant]
    spec fn axes_well_formed(self) -> bool {
        axes_sorted(axes_view(self.axes@))
    }

    /// The `(axis, setting)` entries, sorted by axis name, each axis once.
    pub fn entries(&self) -> (r: &Vec<(String, i64)>)
        ensures
            axes_view(r@) == self@,
            axes_sorted(self@),
    {
        proof {
            use_type_invariant(self);
        }
        &self.axes
    }
}

impl View for TuningPoint {
    type V = Seq<(Seq<char>, i64)>;

    closed spec fn view(&self) -> Seq<(Seq<char>, i64)> {
        axes_view(self.axes@)
    }
}

impl Clone for TuningPoint {
    fn clone(&self) -> (r: Self)
        ensures
            r@ == self@,
    {
        proof {
            use_type_invariant(self);
        }
        let mut axes: Vec<(String, i64)> = Vec::new();
        let mut i: usize = 0;
        while i < self.axes.len()
            invariant
                i <= self.axes@.len(),
                axes@.len() == i,
                axes_view(axes@) == axes_view(self.axes@).take(i as int),
            decreases self.axes@.len() - i,
        {
            let entry = (self.axes[i].0.clone(), self.axes[i].1);
            let ghost before = axes@;
            axes.push(entry);
            proof {
                assert(entry.0@ == self.axes@[i as int].0@);
                assert forall|j: int| 0 <= j < i + 1 implies axes_view(axes@)[j] == axes_view(
                    self.axes@,
                )[j] by {
                    if j < i {
                        assert(axes@[j] == before[j]);
                        assert(axes_view(before)[j] == axes_view(self.axes@).take(i as int)[j]);
                    }
                }
                assert(axes_view(axes@) =~= axes_view(self.axes@).take(i as int + 1));
            }
            i = i + 1;
        }
        proof {
            assert(axes_view(axes@) =~= axes_view(self.axes@));
        }
        TuningPoint { axes }
    }
}

proof fn lemma_axis_value_take(s: Seq<(Seq<char>, i64)>, i: int, k: Seq<char>)
    requires
        0 <= i < s.len(),
    ensures
        axis_value(s.take(i + 1), k) == if s[i].0 == k {
            s[i].1 as int
        } else {
            axis_value(s.take(i), k)
        },
{
    assert(s.take(i + 1).drop_last() =~= s.take(i));
}

/// With no entry for `k` after position `i`, the value of `k` is decided by the prefix.
proof fn lemma_axis_value_suffix_free(s: Seq<(Seq<char>, i64)>, i: int, k: Seq<char>)
    requires
        0 <= i <= s.len(),
        forall|j: int| i <= j < s.len() ==> (#[trigger] s[j]).0 != k,
    ensures
        axis_value(s, k) == axis_value(s.take(i), k),
    decreases s.len() - i,
{
    if i < s.len() {
        lemma_axis_value_take(s, i, k);
        lemma_axis_value_suffix_free(s, i + 1, k);
    } else {
        assert(s.take(i) =~= s);
    }
}

/// In a list where `k` occurs only at position `i`, its value is the one stored there; a key
/// that occurs nowhere is at 0.
proof fn lemma_axis_value_at(s: Seq<(Seq<char>, i64)>, k: Seq<char>)
    ensures
        !has_axis(s, k) ==> axis_value(s, k) == 0,
        forall|i: int|
            0 <= i < s.len() && (#[trigger] s[i]).0 == k && (forall|j: int|
                i < j < s.len() ==> (#[trigger] s[j]).0 != k) ==> axis_value(s, k) == s[i].1,
    decreases s.len(),
{
    if s.len() > 0 {
        lemma_axis_value_at(s.drop_last(), k);
        if !has_axis(s, k) {
            assert(!has_axis(s.drop_last(), k)) by {
                if has_axis(s.drop_last(), k) {
                    let i = choose|i: int| 0 <= i < s.drop_last().len() && (#[trigger] s.drop_last()[i]).0 == k;
                    assert(s[i].0 == k);
                }
            }
        }
        assert forall|i: int|
            0 <= i < s.len() && (#[trigger] s[i]).0 == k && (forall|j: int|
                i < j < s.len() ==> (#[trigger] s[j]).0 != k) implies axis_value(s, k) == s[i].1 by {
            if i < s.len() - 1 {
                assert(s[s.len() - 1].0 != k);
                assert(s.drop_last()[i] == s[i]);
                assert forall|j: int| i < j < s.drop_last().len() implies (#[trigger] s.drop_last()[j]).0
                    != k by {
                    assert(s.drop_last()[j] == s[j]);
                }
            }
        }
    }
}

/// In sorted axes every key occurs at most once, so a listed key's value is the one stored.
proof fn lemma_sorted_axis_value(s: Seq<(Seq<char>, i64)>, i: int)
    requires
        axes_sorted(s),
        0 <= i < s.len(),
    ensures
        axis_value(s, s[i].0) == s[i].1,
{
    assert forall|j: int| i < j < s.len() implies (#[trigger] s[j]).0 != s[i].0 by {
        lemma_text_lt_asymmetric(s[i].0, s[j].0);
    }
    lemma_axis_value_at(s, s[i].0);
}

/// Value of `key` in `axes` (the last entry with that name wins; 0 when absent).
fn axis_lookup(axes: &Vec<(String, i64)>, key: &str) -> (r: i64)
    ensures
        r == axis_value(axes_view(axes@), key@),
{
    let ghost s = axes_view(axes@);
    let mut i = axes.len();
    proof {
        assert(s.take(i as int) =~= s);
    }
    while i > 0
        invariant
            i <= axes@.len(),
            s == axes_view(axes@),
            axis_value(s, key@) == axis_value(s.take(i as int), key@),
        decreases i,
    {
        i = i - 1;
        let name = axes[i].0.as_str();
        proof {
            lemma_axis_value_take(s, i as int, key@);
        }
        match compare_text(name, key) {
            TextOrder::Equal => {
                return axes[i].1;
            },
            _ => {},
        }
    }
    proof {
        assert(s.take(0) =~= Seq::<(Seq<char>, i64)>::empty());
    }
    0
}

/// Axis-wise gap between two points on axis `k`.
pub open spec fn axis_gap(a: Seq<(Seq<char>, i64)>, b: Seq<(Seq<char>, i64)>, k: Seq<char>) -> int {
    let d = axis_value(a, k) - axis_value(b, k);
    if d < 0 {
        -d
    } else {
        d
    }
}

/// The largest gap over the listed keys (0 for none).
pub open spec fn max_gap(keys: Seq<Seq<char>>, a: Seq<(Seq<char>, i64)>, b: Seq<(Seq<char>, i64)>) -> int
    decreases keys.len(),
{
    if keys.len() == 0 {
        0
    } else {
        let m = max_gap(keys.drop_last(), a, b);
        let g = axis_gap(a, b, keys.last());
        if g > m {
            g
        } else {
            m
        }
    }
}

/// The names of a point's axes, in order.
pub open spec fn axis_names(a: Seq<(Seq<char>, i64)>) -> Seq<Seq<char>> {
    a.map_values(|e: (Seq<char>, i64)| e.0)
}

/// Chebyshev (L∞) distance between two points, any axis missing from either side taken as 0.
pub open spec fn chebyshev_distance(a: Seq<(Seq<char>, i64)>, b: Seq<(Seq<char>, i64)>) -> int {
    max_gap(axis_names(a) + axis_names(b), a, b)
}

proof fn lemma_max_gap_self(keys: Seq<Seq<char>>, a: Seq<(Seq<char>, i64)>)
    ensures
        max_gap(keys, a, a) == 0,
    decreases keys.len(),
{
    if keys.len() > 0 {
        lemma_max_gap_self(keys.drop_last(), a);
    }
}

proof fn lemma_max_gap_bounds(keys: Seq<Seq<char>>, a: Seq<(Seq<char>, i64)>, b: Seq<(Seq<char>, i64)>)
    ensures
        max_gap(keys, a, b) >= 0,
        forall|i: int| 0 <= i < keys.len() ==> axis_gap(a, b, #[trigger] keys[i]) <= max_gap(keys, a, b),
        max_gap(keys, a, b) == 0 || exists|i: int|
            0 <= i < keys.len() && axis_gap(a, b, #[trigger] keys[i]) == max_gap(keys, a, b),
    decreases keys.len(),
{
    if keys.len() > 0 {
        let d = keys.drop_last();
        lemma_max_gap_bounds(d, a, b);
        assert forall|i: int| 0 <= i < keys.len() implies axis_gap(a, b, #[trigger] keys[i]) <= max_gap(
            keys,
            a,
            b,
        ) by {
            if i < keys.len() - 1 {
                assert(keys[i] == d[i]);
            }
        }
        if max_gap(keys, a, b) != 0 {
            if max_gap(keys, a, b) == max_gap(d, a, b) {
                let i = choose|i: int| 0 <= i < d.len() && axis_gap(a, b, #[trigger] d[i]) == max_gap(d, a, b);
                assert(keys[i] == d[i]);
            } else {
                assert(axis_gap(a, b, keys[keys.len() - 1]) == max_gap(keys, a, b));
            }
        }
    }
}

/// Distance from a point to itself is 0.
pub proof fn lemma_chebyshev_self(a: Seq<(Seq<char>, i64)>)
    ensures
        chebyshev_distance(a, a) == 0,
{
    lemma_max_gap_self(axis_names(a) + axis_names(a), a);
}

/// The distance does not depend on the order of its arguments: a point lies within a radius of
/// a crash center exactly when the center lies within that radius of the point.
pub proof fn lemma_chebyshev_symmetric(a: Seq<(Seq<char>, i64)>, b: Seq<(Seq<char>, i64)>)
    ensures
        chebyshev_distance(a, b) == chebyshev_distance(b, a),
{
    let k1 = axis_names(a) + axis_names(b);
    let k2 = axis_names(b) + axis_names(a);
    lemma_max_gap_bounds(k1, a, b);
    lemma_max_gap_bounds(k2, b, a);
    let na = axis_names(a).len();
    let nb = axis_names(b).len();
    // every key of one list occurs in the other, with the same gap either way round
    assert forall|i: int| 0 <= i < k1.len() implies axis_gap(a, b, #[trigger] k1[i]) <= max_gap(k2, b, a) by {
        let j = if i < na { nb + i } else { i - na };
        assert(k2[j] == k1[i]);
        assert(axis_gap(b, a, k2[j]) <= max_gap(k2, b, a));
    }
    assert forall|i: int| 0 <= i < k2.len() implies axis_gap(b, a, #[trigger] k2[i]) <= max_gap(k1, a, b) by {
        let j = if i < nb { na + i } else { i - nb };
        assert(k1[j] == k2[i]);
        assert(axis_gap(a, b, k1[j]) <= max_gap(k1, a, b));
    }
    if max_gap(k1, a, b) != 0 {
        let i = choose|i: int| 0 <= i < k1.len() && axis_gap(a, b, #[trigger] k1[i]) == max_gap(k1, a, b);
        assert(axis_gap(a, b, k1[i]) <= max_gap(k2, b, a));
    }
    if max_gap(k2, b, a) != 0 {
        let i = choose|i: int| 0 <= i < k2.len() && axis_gap(b, a, #[trigger] k2[i]) == max_gap(k2, b, a);
        assert(axis_gap(b, a, k2[i]) <= max_gap(k1, a, b));
    }
}

/// Exact Chebyshev distance, computed wide enough that it cannot overflow.
fn chebyshev_wide(a: &TuningPoint, b: &TuningPoint) -> (r: i128)
    ensures
        r == chebyshev_distance(a@, b@),
{
    let ghost keys = axis_names(a@) + axis_names(b@);
    let la = a.axes.len();
    let lb = b.axes.len();
    let mut max: i128 = 0;
    let mut i: usize = 0;
    while i < la
        invariant
            la == a.axes@.len(),
            lb == b.axes@.len(),
            keys == axis_names(a@) + axis_names(b@),
            keys.len() == la + lb,
            i <= la,
            max == max_gap(keys.take(i as int), a@, b@),
        decreases la - i,
    {
        let key = a.axes[i].0.as_str();
        proof {
            assert(key@ == keys[i as int]);
        }
        let va = axis_lookup(&a.axes, key) as i128;
        let vb = axis_lookup(&b.axes, key) as i128;
        let d = va - vb;
        let g = if d < 0 {
            -d
        } else {
            d
        };
        proof {
            assert(keys.take(i as int + 1).drop_last() =~= keys.take(i as int));
        }
        if g > max {
            max = g;
        }
        i = i + 1;
    }
    let mut j: usize = 0;
    while j < lb
        invariant
            la == a.axes@.len(),
            lb == b.axes@.len(),
            keys == axis_names(a@) + axis_names(b@),
            keys.len() == la + lb,
            j <= lb,
            max == max_gap(keys.take(la + j), a@, b@),
        decreases lb - j,
    {
        let key = b.axes[j].0.as_str();
        proof {
            assert(key@ == keys[la + j]);
        }
        let va = axis_lookup(&a.axes, key) as i128;
        let vb = axis_lookup(&b.axes, key) as i128;
        let d = va - vb;
        let g = if d < 0 {
            -d
        } else {
            d
        };
        proof {
            assert(keys.take(la + j + 1).drop_last() =~= keys.take(la + j));
        }
        if g > max {
            max = g;
        }
        j = j + 1;
    }
    proof {
        assert(keys.take(la + lb) =~= keys);
    }
    max
}

impl TuningPoint {
    /// The always-safe stock point (no offsets applied).
    pub fn stock() -> (r: Self)
        ensures
            r@ == Seq::<(Seq<char>, i64)>::empty(),
    {
        TuningPoint { axes: Vec::new() }
    }

    /// True when every axis is at its neutral (0) setting.
    pub fn is_stock(&self) -> (r: bool)
        ensures
            r == forall|k: Seq<char>| has_axis(self@, k) ==> axis_value(self@, k) == 0,
            r == forall|i: int| 0 <= i < self@.len() ==> (#[trigger] self@[i]).1 == 0,
    {
        proof {
            use_type_invariant(self);
            assert forall|i: int| 0 <= i < self@.len() implies axis_value(self@, (#[trigger] self@[i]).0)
                == self@[i].1 by {
                lemma_sorted_axis_value(self@, i);
            }
        }
        let mut i: usize = 0;
        while i < self.axes.len()
            invariant
                i <= self.axes@.len(),
                forall|j: int| 0 <= j < i ==> axis_value(self@, (#[trigger] self@[j]).0) == 0,
            decreases self.axes@.len() - i,
        {
            let v = axis_lookup(&self.axes, self.axes[i].0.as_str());
            if v != 0 {
                proof {
                    assert(has_axis(self@, self@[i as int].0));
                    use_type_invariant(self);
                    lemma_sorted_axis_value(self@, i as int);
                    assert(self@[i as int].1 != 0);
                }
                return false;
            }
            i = i + 1;
        }
        proof {
            assert forall|k: Seq<char>| has_axis(self@, k) implies axis_value(self@, k) == 0 by {
                let j = choose|j: int| 0 <= j < self@.len() && (#[trigger] self@[j]).0 == k;
            }
        }
        true
    }

    /// Chebyshev (L∞) distance, treating any axis missing from either side as 0.
    /// Used to decide whether a candidate falls inside a blacklisted region.
    pub fn chebyshev(&self, other: &Self) -> (r: i64)
        requires
            chebyshev_distance(self@, other@) <= i64::MAX,
        ensures
            r == chebyshev_distance(self@, other@),
    {
        let wide = chebyshev_wide(self, other);
        proof {
            lemma_max_gap_bounds(axis_names(self@) + axis_names(other@), self@, other@);
        }
        wide as i64
    }
}

/// A carved-out region of tuning space known to be unstable.
#[derive(Debug, PartialEq, Eq)]
pub struct BlacklistRegion {
    pub center: TuningPoint,
    pub radius: i64,
}

impl Clone for BlacklistRegion {
    fn clone(&self) -> (r: Self)
        ensures
            r.center@ == self.center@,
            r.radius == self.radius,
    {
        BlacklistRegion { center: self.center.clone(), radius: self.radius }
    }
}

impl BlacklistRegion {
    pub fn around(center: TuningPoint, radius: i64) -> (r: Self)
        ensures
            r.center == center,
            r.radius == radius,
    {
        BlacklistRegion { center, radius }
    }

    /// A point is blacklisted when it lies within `radius` of the crash center.
    pub fn contains(&self, point: &TuningPoint) -> (r: bool)
        ensures
            r == (chebyshev_distance(self.center@, point@) <= self.radius),
    {
        chebyshev_wide(&self.center, point) <= self.radius as i128
    }
}

/// A sorted list changed only at `key` (now set to `value`) has the old list's settings
/// everywhere else.
proof fn lemma_sorted_set_model(
    old: Seq<(Seq<char>, i64)>,
    new: Seq<(Seq<char>, i64)>,
    key: Seq<char>,
    value: i64,
)
    requires
        axes_sorted(old),
        axes_sorted(new),
        exists|p: int| 0 <= p < new.len() && #[trigger] new[p] == (key, value),
        forall|k: Seq<char>| k != key ==> (has_axis(new, k) <==> has_axis(old, k)),
        forall|i: int|
            0 <= i < old.len() && (#[trigger] old[i]).0 != key ==> exists|j: int|
                0 <= j < new.len() && #[trigger] new[j] == old[i],
    ensures
        forall|k: Seq<char>| #[trigger]
            axis_value(new, k) == if k == key {
                value as int
            } else {
                axis_value(old, k)
            },
        forall|k: Seq<char>| has_axis(new, k) <==> (k == key || has_axis(old, k)),
{
    assert forall|k: Seq<char>| #[trigger]
        axis_value(new, k) == if k == key {
            value as int
        } else {
            axis_value(old, k)
        } by {
        if k == key {
            let p = choose|p: int| 0 <= p < new.len() && #[trigger] new[p] == (key, value);
            lemma_sorted_axis_value(new, p);
        } else if has_axis(old, k) {
            let m = choose|m: int| 0 <= m < old.len() && (#[trigger] old[m]).0 == k;
            let j = choose|j: int| 0 <= j < new.len() && #[trigger] new[j] == old[m];
            lemma_sorted_axis_value(new, j);
            lemma_sorted_axis_value(old, m);
        } else {
            lemma_axis_value_at(new, k);
            lemma_axis_value_at(old, k);
        }
    }
    assert forall|k: Seq<char>| has_axis(new, k) <==> (k == key || has_axis(old, k)) by {
        if k == key {
            let p = choose|p: int| 0 <= p < new.len() && #[trigger] new[p] == (key, value);
            assert(new[p].0 == k);
        }
    }
}

/// Set axis `key` to `value` in sorted axes, keeping them sorted (a new key is inserted at its
/// place; an existing key has its setting replaced).
fn insert_axis(axes: &mut Vec<(String, i64)>, key: String, value: i64)
    requires
        axes_sorted(axes_view(old(axes)@)),
    ensures
        axes_sorted(axes_view(final(axes)@)),
        forall|k: Seq<char>| #[trigger]
            axis_value(axes_view(final(axes)@), k) == if k == key@ {
                value as int
            } else {
                axis_value(axes_view(old(axes)@), k)
            },
        forall|k: Seq<char>|
            has_axis(axes_view(final(axes)@), k) <==> (k == key@ || has_axis(
                axes_view(old(axes)@),
                k,
            )),
{
    let ghost old_view = axes_view(axes@);
    let ghost entry = (key@, value);
    let ghost key_g = key;
    let n = axes.len();
    let mut i: usize = 0;
    while i < n
        invariant
            n == axes@.len(),
            axes_view(axes@) == old_view,
            key == key_g,
            entry == (key@, value),
            old_view == axes_view(old(axes)@),
            axes_sorted(old_view),
            old_view.len() == n,
            i <= n,
            forall|j: int| 0 <= j < i ==> text_lt((#[trigger] old_view[j]).0, key@),
        decreases n - i,
    {
        let order = compare_text(key.as_str(), axes[i].0.as_str());
        match order {
            TextOrder::Equal => {
                let ghost pre = axes@;
                axes.set(i, (key, value));
                proof {
                    let new_view = axes_view(axes@);
                    assert forall|j: int| 0 <= j < new_view.len() implies new_view[j] == old_view.update(
                        i as int,
                        entry,
                    )[j] by {
                        assert(axes_view(pre)[j] == old_view[j]);
                        if j != i {
                            assert(axes@[j] == pre[j]);
                        } else {
                            assert(axes@[j].0 == key_g);
                            assert(new_view[j] == (axes@[j].0@, axes@[j].1));
                        }
                    }
                    assert(new_view =~= old_view.update(i as int, entry));
                    assert(axes_sorted(new_view)) by {
                        assert forall|a: int, b: int| 0 <= a < b < new_view.len() implies text_lt(
                            #[trigger] new_view[a].0,
                            #[trigger] new_view[b].0,
                        ) by {
                            assert(new_view[a].0 == old_view[a].0);
                            assert(new_view[b].0 == old_view[b].0);
                        }
                    }
                    assert(new_view[i as int] == entry);
                    assert forall|k: Seq<char>| k != key@ implies (has_axis(new_view, k) <==> has_axis(
                        old_view,
                        k,
                    )) by {
                        if has_axis(new_view, k) {
                            let m = choose|m: int| 0 <= m < new_view.len() && (#[trigger] new_view[m]).0 == k;
                            assert(old_view[m].0 == k);
                        }
                        if has_axis(old_view, k) {
                            let m = choose|m: int| 0 <= m < old_view.len() && (#[trigger] old_view[m]).0 == k;
                            assert(new_view[m].0 == k);
                        }
                    }
                    assert forall|a: int| 0 <= a < old_view.len() && (#[trigger] old_view[a]).0 != key@ implies exists|
                        j: int,
                    | 0 <= j < new_view.len() && #[trigger] new_view[j] == old_view[a] by {
                        assert(new_view[a] == old_view[a]);
                    }
                    lemma_sorted_set_model(old_view, new_view, key@, value);
                }
                return;
            },
            TextOrder::Less => {
                let ghost pre = axes@;
                axes.insert(i, (key, value));
                proof {
                    let new_view = axes_view(axes@);
                    assert forall|j: int| 0 <= j < new_view.len() implies new_view[j] == old_view.insert(
                        i as int,
                        entry,
                    )[j] by {
                        if j < i {
                            assert(axes@[j] == pre[j]);
                            assert(axes_view(pre)[j] == old_view[j]);
                        } else if j > i {
                            assert(axes@[j] == pre[j - 1]);
                            assert(axes_view(pre)[j - 1] == old_view[j - 1]);
                        } else {
                            assert(axes@[j].0 == key_g);
                            assert(new_view[j] == (axes@[j].0@, axes@[j].1));
                        }
                    }
                    assert(new_view =~= old_view.insert(i as int, entry));
                    assert(axes_sorted(new_view)) by {
                        assert forall|a: int, b: int| 0 <= a < b < new_view.len() implies text_lt(
                            #[trigger] new_view[a].0,
                            #[trigger] new_view[b].0,
                        ) by {
                            if b < i {
                                assert(new_view[a] == old_view[a]);
                                assert(new_view[b] == old_view[b]);
                            } else if b == i {
                                assert(new_view[a] == old_view[a]);
                            } else if a == i {
                                assert(new_view[b] == old_view[b - 1]);
                                if b - 1 > i {
                                    lemma_text_lt_transitive(key@, old_view[i as int].0, old_view[b - 1].0);
                                }
                            } else if a < i {
                                assert(new_view[a] == old_view[a]);
                                assert(new_view[b] == old_view[b - 1]);
                            } else {
                                assert(new_view[a] == old_view[a - 1]);
                                assert(new_view[b] == old_view[b - 1]);
                            }
                        }
                    }
                    assert(new_view[i as int] == entry);
                    assert forall|k: Seq<char>| k != key@ implies (has_axis(new_view, k) <==> has_axis(
                        old_view,
                        k,
                    )) by {
                        if has_axis(new_view, k) {
                            let m = choose|m: int| 0 <= m < new_view.len() && (#[trigger] new_view[m]).0 == k;
                            if m < i {
                                assert(old_view[m].0 == k);
                            } else {
                                assert(m != i);
                                assert(old_view[m - 1].0 == k);
                            }
                        }
                        if has_axis(old_view, k) {
                            let m = choose|m: int| 0 <= m < old_view.len() && (#[trigger] old_view[m]).0 == k;
                            if m < i {
                                assert(new_view[m].0 == k);
                            } else {
                                assert(new_view[m + 1].0 == k);
                            }
                        }
                    }
                    assert forall|a: int| 0 <= a < old_view.len() && (#[trigger] old_view[a]).0 != key@ implies exists|
                        j: int,
                    | 0 <= j < new_view.len() && #[trigger] new_view[j] == old_view[a] by {
                        if a < i {
                            assert(new_view[a] == old_view[a]);
                        } else {
                            assert(new_view[a + 1] == old_view[a]);
                        }
                    }
                    lemma_sorted_set_model(old_view, new_view, key@, value);
                }
                return;
            },
            TextOrder::Greater => {
                proof {
                    assert(text_lt(old_view[i as int].0, key@));
                }
            },
        }
        i = i + 1;
    }
    let ghost pre = axes@;
    axes.push((key, value));
    proof {
        let new_view = axes_view(axes@);
        assert forall|j: int| 0 <= j < new_view.len() implies new_view[j] == old_view.push(entry)[j] by {
            if j < n {
                assert(axes@[j] == pre[j]);
                assert(axes_view(pre)[j] == old_view[j]);
            }
        }
        assert(new_view =~= old_view.push(entry));
        assert(axes_sorted(new_view)) by {
            assert forall|a: int, b: int| 0 <= a < b < new_view.len() implies text_lt(
                #[trigger] new_view[a].0,
                #[trigger] new_view[b].0,
            ) by {
                assert(new_view[a] == old_view[a]);
                if b < n {
                    assert(new_view[b] == old_view[b]);
                }
            }
        }
        assert(new_view[n as int] == entry);
        assert forall|k: Seq<char>| k != key@ implies (has_axis(new_view, k) <==> has_axis(old_view, k)) by {
            if has_axis(new_view, k) {
                let m = choose|m: int| 0 <= m < new_view.len() && (#[trigger] new_view[m]).0 == k;
                assert(m != n);
                assert(old_view[m].0 == k);
            }
            if has_axis(old_view, k) {
                let m = choose|m: int| 0 <= m < old_view.len() && (#[trigger] old_view[m]).0 == k;
                assert(new_view[m].0 == k);
            }
        }
        assert forall|a: int| 0 <= a < old_view.len() && (#[trigger] old_view[a]).0 != key@ implies exists|
            j: int,
        | 0 <= j < new_view.len() && #[trigger] new_view[j] == old_view[a] by {
            assert(new_view[a] == old_view[a]);
        }
        lemma_sorted_set_model(old_view, new_view, key@, value);
    }
}

/// The named settings of a list of `(name, setting)` pairs, by the text of each name.
pub open spec fn named_settings(axes: Seq<(&str, i64)>) -> Seq<(Seq<char>, i64)> {
    axes.map_values(|e: (&str, i64)| (e.0@, e.1))
}

impl TuningPoint {
    /// The point with the given settings; a later entry for the same axis replaces an earlier
    /// one. The axes come out sorted by name.
    pub fn from_axes<const N: usize>(axes: [(&str, i64); N]) -> (r: Self)
        ensures
            axes_sorted(r@),
            forall|k: Seq<char>| #[trigger] axis_value(r@, k) == axis_value(named_settings(axes@), k),
            forall|k: Seq<char>| has_axis(r@, k) <==> has_axis(named_settings(axes@), k),
    {
        let ghost src = named_settings(axes@);
        let mut out: Vec<(String, i64)> = Vec::new();
        let mut i: usize = 0;
        proof {
            assert(src.take(0) =~= Seq::<(Seq<char>, i64)>::empty());
            assert(axes_view(out@) =~= Seq::<(Seq<char>, i64)>::empty());
        }
        while i < N
            invariant
                i <= N,
                axes@.len() == N,
                src == named_settings(axes@),
                axes_sorted(axes_view(out@)),
                forall|k: Seq<char>| #[trigger]
                    axis_value(axes_view(out@), k) == axis_value(src.take(i as int), k),
                forall|k: Seq<char>|
                    has_axis(axes_view(out@), k) <==> has_axis(src.take(i as int), k),
            decreases N - i,
        {
            let (name, value) = axes[i];
            let ghost prev = axes_view(out@);
            insert_axis(&mut out, String::from_str(name), value);
            proof {
                assert(src[i as int] == (name@, value));
                assert forall|k: Seq<char>| #[trigger]
                    axis_value(axes_view(out@), k) == axis_value(src.take(i as int + 1), k) by {
                    lemma_axis_value_take(src, i as int, k);
                }
                assert forall|k: Seq<char>|
                    has_axis(axes_view(out@), k) <==> has_axis(src.take(i as int + 1), k) by {
                    let t = src.take(i as int + 1);
                    if has_axis(t, k) {
                        let m = choose|m: int| 0 <= m < t.len() && (#[trigger] t[m]).0 == k;
                        if m < i {
                            assert(src.take(i as int)[m] == t[m]);
                        }
                    }
                    if has_axis(src.take(i as int), k) {
                        let m = choose|m: int| 0 <= m < i && (#[trigger] src.take(i as int)[m]).0 == k;
                        assert(t[m] == src.take(i as int)[m]);
                    }
                    if k == name@ {
                        assert(t[i as int].0 == k);
                    }
                }
            }
            i = i + 1;
        }
        proof {
            assert(src.take(N as int) =~= src);
        }
        TuningPoint { axes: out }
    }
}

impl TuningPoint {
    /// The point with the given `(axis, setting)` entries; a later entry for the same axis
    /// replaces an earlier one. The axes come out sorted by name.
    pub fn from_entries(entries: Vec<(String, i64)>) -> (r: Self)
        ensures
            forall|k: Seq<char>| #[trigger] axis_value(r@, k) == axis_value(axes_view(entries@), k),
            forall|k: Seq<char>| has_axis(r@, k) <==> has_axis(axes_view(entries@), k),
    {
        let ghost src = axes_view(entries@);
        let mut out: Vec<(String, i64)> = Vec::new();
        let mut i: usize = 0;
        proof {
            assert(src.take(0) =~= Seq::<(Seq<char>, i64)>::empty());
            assert(axes_view(out@) =~= Seq::<(Seq<char>, i64)>::empty());
        }
        while i < entries.len()
            invariant
                i <= entries@.len(),
                src == axes_view(entries@),
                axes_sorted(axes_view(out@)),
                forall|k: Seq<char>| #[trigger]
                    axis_value(axes_view(out@), k) == axis_value(src.take(i as int), k),
                forall|k: Seq<char>|
                    has_axis(axes_view(out@), k) <==> has_axis(src.take(i as int), k),
            decreases entries@.len() - i,
        {
            let name = entries[i].0.clone();
            let value = entries[i].1;
            insert_axis(&mut out, name, value);
            proof {
                assert(src[i as int] == (name@, value));
                assert forall|k: Seq<char>| #[trigger]
                    axis_value(axes_view(out@), k) == axis_value(src.take(i as int + 1), k) by {
                    lemma_axis_value_take(src, i as int, k);
                }
                assert forall|k: Seq<char>|
                    has_axis(axes_view(out@), k) <==> has_axis(src.take(i as int + 1), k) by {
                    let t = src.take(i as int + 1);
                    if has_axis(t, k) {
                        let m = choose|m: int| 0 <= m < t.len() && (#[trigger] t[m]).0 == k;
                        if m < i {
                            assert(src.take(i as int)[m] == t[m]);
                        }
                    }
                    if has_axis(src.take(i as int), k) {
                        let m = choose|m: int| 0 <= m < i && (#[trigger] src.take(i as int)[m]).0 == k;
                        assert(t[m] == src.take(i as int)[m]);
                    }
                    if k == name@ {
                        assert(t[i as int].0 == k);
                    }
                }
            }
            i = i + 1;
        }
        proof {
            assert(src.take(entries@.len() as int) =~= src);
        }
        TuningPoint { axes: out }
    }
}

/// The live phase of the loop.
#[derive(Debug, Clone, Copy, PartialEq, Eq)]
pub enum SafeLoopState {
    Idle,
    Probing,
    Applying,
    Dwell,
    Validated,
    Unstable,
    SafeMode,
}

/// Events that drive the state machine forward.
#[derive(Debug, Clone, Copy, PartialEq, Eq)]
pub enum SafeLoopEvent {
    /// Begin exploring a new candidate.
    StartProbe,
    /// Boot-flag armed, point pushed to hardware.
    Applied,
    /// Begin the dwell window with the stressor running.
    EnterDwell,
    /// Dwell completed cleanly — point is good.
    DwellPassed,
    /// WHEA correctable delta during dwell — revert without crashing.
    SoftFail,
    /// A hard crash was detected (post-reboot, boot-flag was armed).
    HardCrash,
    /// Crash threshold reached — drop to stock and stop.
    TripSafeMode,
    /// Operator/recovery reset back to idle.
    Reset,
}

/// The state machine's step relation.
pub open spec fn next_state(state: SafeLoopState, event: SafeLoopEvent) -> SafeLoopState {
    match (state, event) {
        (_, SafeLoopEvent::TripSafeMode) => SafeLoopState::SafeMode,
        (_, SafeLoopEvent::Reset) => SafeLoopState::Idle,
        (_, SafeLoopEvent::HardCrash) => SafeLoopState::Unstable,
        (SafeLoopState::Idle, SafeLoopEvent::StartProbe) => SafeLoopState::Probing,
        (SafeLoopState::Probing, SafeLoopEvent::Applied) => SafeLoopState::Applying,
        (SafeLoopState::Applying, SafeLoopEvent::EnterDwell) => SafeLoopState::Dwell,
        (SafeLoopState::Dwell, SafeLoopEvent::DwellPassed) => SafeLoopState::Validated,
        (SafeLoopState::Dwell, SafeLoopEvent::SoftFail) => SafeLoopState::Unstable,
        (SafeLoopState::Validated, SafeLoopEvent::StartProbe) => SafeLoopState::Probing,
        (SafeLoopState::Unstable, SafeLoopEvent::StartProbe) => SafeLoopState::Probing,
        (other, _) => other,
    }
}

/// Pure state-transition function. Unknown transitions leave the state intact,
/// so a stray event can never push the loop into an unsafe phase.
pub fn transition(state: SafeLoopState, event: SafeLoopEvent) -> (r: SafeLoopState)
    ensures
        r == next_state(state, event),
{
    match (state, event) {
        (_, SafeLoopEvent::TripSafeMode) => SafeLoopState::SafeMode,
        (_, SafeLoopEvent::Reset) => SafeLoopState::Idle,
        (_, SafeLoopEvent::HardCrash) => SafeLoopState::Unstable,
        (SafeLoopState::Idle, SafeLoopEvent::StartProbe) => SafeLoopState::Probing,
        (SafeLoopState::Probing, SafeLoopEvent::Applied) => SafeLoopState::Applying,
        (SafeLoopState::Applying, SafeLoopEvent::EnterDwell) => SafeLoopState::Dwell,
        (SafeLoopState::Dwell, SafeLoopEvent::DwellPassed) => SafeLoopState::Validated,
        (SafeLoopState::Dwell, SafeLoopEvent::SoftFail) => SafeLoopState::Unstable,
        (SafeLoopState::Validated, SafeLoopEvent::StartProbe)
        | (SafeLoopState::Unstable, SafeLoopEvent::StartProbe) => SafeLoopState::Probing,
        (other, _) => other,
    }
}

/// The safety laws of the state machine: the trip, the reset and a crash report win from every
/// state; the phases that touch hardware are reached only one step at a time (`Applying` only
/// from `Probing` by `Applied`, `Dwell` only from `Applying` by `EnterDwell`, `Validated` only
/// from `Dwell` by `DwellPassed`); Safe Mode is left only by a reset; and any other event leaves
/// the state as it was.
pub proof fn lemma_transition_safety(state: SafeLoopState, event: SafeLoopEvent)
    ensures
        event == SafeLoopEvent::TripSafeMode ==> next_state(state, event) == SafeLoopState::SafeMode,
        event == SafeLoopEvent::Reset ==> next_state(state, event) == SafeLoopState::Idle,
        event == SafeLoopEvent::HardCrash ==> next_state(state, event) == SafeLoopState::Unstable,
        next_state(state, event) == SafeLoopState::Applying && state != SafeLoopState::Applying
            ==> state == SafeLoopState::Probing && event == SafeLoopEvent::Applied,
        next_state(state, event) == SafeLoopState::Dwell && state != SafeLoopState::Dwell ==> state
            == SafeLoopState::Applying && event == SafeLoopEvent::EnterDwell,
        next_state(state, event) == SafeLoopState::Validated && state != SafeLoopState::Validated
            ==> state == SafeLoopState::Dwell && event == SafeLoopEvent::DwellPassed,
        state == SafeLoopState::SafeMode && event != SafeLoopEvent::Reset && event
            != SafeLoopEvent::HardCrash ==> next_state(state, event) == SafeLoopState::SafeMode,
        next_state(state, event) != state ==> (event == SafeLoopEvent::TripSafeMode || event
            == SafeLoopEvent::Reset || event == SafeLoopEvent::HardCrash || (state
            == SafeLoopState::Idle && event == SafeLoopEvent::StartProbe) || (state
            == SafeLoopState::Probing && event == SafeLoopEvent::Applied) || (state
            == SafeLoopState::Applying && event == SafeLoopEvent::EnterDwell) || (state
            == SafeLoopState::Dwell && (event == SafeLoopEvent::DwellPassed || event
            == SafeLoopEvent::SoftFail)) || ((state == SafeLoopState::Validated || state
            == SafeLoopState::Unstable) && event == SafeLoopEvent::StartProbe)),
{
}

/// How a bugcheck code maps to a stability finding.
#[derive(Debug, Clone, Copy, PartialEq, Eq)]
pub enum CrashClass {
    /// Bugcheck strongly associated with overclock/undervolt instability.
    OcInstability,
    /// A real BSOD, but not a typical OC signature (driver, disk, etc.).
    Unrelated,
    /// No bugcheck code available (e.g. a freeze with no dump).
    Unknown,
}

/// Classify a Windows bugcheck (stop) code.
pub fn classify_bugcheck(code: u64) -> (r: CrashClass)
    ensures
        r == if code == 0 {
            CrashClass::Unknown
        } else if code == BUGCHECK_CLOCK_WATCHDOG || code == BUGCHECK_WHEA_UNCORRECTABLE || code
            == BUGCHECK_DPC_WATCHDOG {
            CrashClass::OcInstability
        } else {
            CrashClass::Unrelated
        },
{
    if code == 0 {
        CrashClass::Unknown
    } else if code == BUGCHECK_CLOCK_WATCHDOG || code == BUGCHECK_WHEA_UNCORRECTABLE || code
        == BUGCHECK_DPC_WATCHDOG {
        CrashClass::OcInstability
    } else {
        CrashClass::Unrelated
    }
}

/// An ASCII hexadecimal digit.
pub open spec fn is_hex_digit(c: char) -> bool {
    ('0' <= c && c <= '9') || ('a' <= c && c <= 'f') || ('A' <= c && c <= 'F')
}

/// The value of an ASCII hexadecimal digit.
pub open spec fn hex_digit_value(c: char) -> int {
    if '0' <= c && c <= '9' {
        c as int - '0' as int
    } else if 'a' <= c && c <= 'f' {
        c as int - 'a' as int + 10
    } else {
        c as int - 'A' as int + 10
    }
}

/// A `0x` / `0X` marker starts at position `i`.
pub open spec fn hex_marker_at(s: Seq<char>, i: int) -> bool {
    0 <= i && i + 1 < s.len() && s[i] == '0' && (s[i + 1] == 'x' || s[i + 1] == 'X')
}

/// Length of the run of hexadecimal digits starting at `start`.
pub open spec fn hex_run_len(s: Seq<char>, start: int) -> nat
    decreases s.len() - start,
{
    if start < 0 || start >= s.len() || !is_hex_digit(s[start]) {
        0
    } else {
        1 + hex_run_len(s, start + 1)
    }
}

/// The number written by the `n` hexadecimal digits starting at `start`.
pub open spec fn hex_number(s: Seq<char>, start: int, n: nat) -> int
    decreases n,
{
    if n == 0 {
        0
    } else {
        hex_number(s, start, (n - 1) as nat) * 16 + hex_digit_value(s[start + n - 1])
    }
}

/// The stop code written after the first `0x` marker of a message: `None` when there is no
/// marker, no digit after it, or the number does not fit in 64 bits.
pub open spec fn bugcheck_code_in(s: Seq<char>) -> Option<u64> {
    if exists|i: int| hex_marker_at(s, i) {
        let i = choose|i: int| hex_marker_at(s, i) && forall|j: int| 0 <= j < i ==> !hex_marker_at(s, j);
        let n = hex_run_len(s, i + 2);
        if n == 0 || hex_number(s, i + 2, n) > u64::MAX {
            None
        } else {
            Some(hex_number(s, i + 2, n) as u64)
        }
    } else {
        None
    }
}

proof fn lemma_first_marker(s: Seq<char>, i: int)
    requires
        hex_marker_at(s, i),
        forall|j: int| 0 <= j < i ==> !hex_marker_at(s, j),
    ensures
        (choose|k: int| hex_marker_at(s, k) && forall|j: int| 0 <= j < k ==> !hex_marker_at(s, j)) == i,
{
    let k = choose|k: int| hex_marker_at(s, k) && forall|j: int| 0 <= j < k ==> !hex_marker_at(s, j);
    assert(hex_marker_at(s, k) && forall|j: int| 0 <= j < k ==> !hex_marker_at(s, j));
    if k < i {
        assert(!hex_marker_at(s, k));
    } else if k > i {
        assert(!hex_marker_at(s, i));
    }
}

proof fn lemma_hex_run_step(s: Seq<char>, start: int, n: nat)
    requires
        0 <= start,
        n < hex_run_len(s, start),
    ensures
        start + n < s.len(),
        is_hex_digit(s[start + n]),
        hex_run_len(s, start) == n + hex_run_len(s, start + n),
    decreases n,
{
    if n > 0 {
        lemma_hex_run_step(s, start + 1, (n - 1) as nat);
        assert(hex_run_len(s, start + 1 + (n - 1)) == hex_run_len(s, start + n));
    }
}

proof fn lemma_hex_number_grows(s: Seq<char>, start: int, n: nat, m: nat)
    requires
        n <= m,
        forall|k: int| start <= k < start + m ==> is_hex_digit(#[trigger] s[k]),
    ensures
        0 <= hex_number(s, start, n) <= hex_number(s, start, m),
    decreases m,
{
    if n < m {
        lemma_hex_number_grows(s, start, n, (m - 1) as nat);
        assert(0 <= hex_digit_value(s[start + m - 1]));
    } else if n > 0 {
        lemma_hex_number_grows(s, start, (n - 1) as nat, (n - 1) as nat);
        assert(0 <= hex_digit_value(s[start + n - 1]));
    }
}

/// Position of the first `0x` / `0X` marker.
fn find_hex_marker(text: &str) -> (r: Option<usize>)
    ensures
        match r {
            Some(i) => hex_marker_at(text@, i as int) && forall|j: int|
                0 <= j < i ==> !hex_marker_at(text@, j),
            None => forall|j: int| !hex_marker_at(text@, j),
        },
{
    let len = text.unicode_len();
    let mut i: usize = 0;
    while i < len
        invariant
            len == text@.len(),
            i <= len,
            forall|j: int| 0 <= j < i ==> !hex_marker_at(text@, j),
        decreases len - i,
    {
        if i + 1 < len {
            let c0 = text.get_char(i);
            let c1 = text.get_char(i + 1);
            if c0 == '0' && (c1 == 'x' || c1 == 'X') {
                return Some(i);
            }
        }
        i = i + 1;
    }
    None
}

/// The value of a hexadecimal digit character, `None` for any other character.
fn hex_digit(c: char) -> (r: Option<u64>)
    ensures
        match r {
            Some(d) => is_hex_digit(c) && d == hex_digit_value(c) && d < 16,
            None => !is_hex_digit(c),
        },
{
    if '0' <= c && c <= '9' {
        Some((c as u32 - '0' as u32) as u64)
    } else if 'a' <= c && c <= 'f' {
        Some((c as u32 - 'a' as u32 + 10) as u64)
    } else if 'A' <= c && c <= 'F' {
        Some((c as u32 - 'A' as u32 + 10) as u64)
    } else {
        None
    }
}

/// The number written by the run of hex digits at `start`: `None` for an empty run or one that
/// does not fit in 64 bits.
fn hex_run_value(text: &str, start: usize) -> (r: Option<u64>)
    requires
        start <= text@.len(),
    ensures
        r == (if hex_run_len(text@, start as int) == 0 || hex_number(
            text@,
            start as int,
            hex_run_len(text@, start as int),
        ) > u64::MAX {
            None
        } else {
            Some(hex_number(text@, start as int, hex_run_len(text@, start as int)) as u64)
        }),
{
    let ghost s = text@;
    let ghost run = hex_run_len(s, start as int);
    let len = text.unicode_len();
    let mut n: usize = 0;
    let mut value: u64 = 0;
    let mut done = false;
    while !done && start + n < len
        invariant
            len == s.len(),
            s == text@,
            start <= len,
            start + n <= len,
            run == hex_run_len(s, start as int),
            forall|k: int| start <= k < start + n ==> is_hex_digit(#[trigger] s[k]),
            value == hex_number(s, start as int, n as nat),
            run == n + hex_run_len(s, start + n),
            done ==> hex_run_len(s, start + n) == 0,
        decreases len - start - n, if done {
            0int
        } else {
            1int
        },
    {
        match hex_digit(text.get_char(start + n)) {
            None => {
                done = true;
            },
            Some(d) => {
                proof {
                    assert(hex_run_len(s, start + n) == 1 + hex_run_len(s, start + n + 1));
                }
                if value > (u64::MAX - d) / 16 {
                    proof {
                        let m = (n + 1) as nat;
                        assert(hex_number(s, start as int, m) == value * 16 + d);
                        assert(value * 16 + d > u64::MAX) by (nonlinear_arith)
                            requires
                                value > (u64::MAX - d) / 16,
                                d < 16,
                        ;
                        assert forall|k: int| start <= k < start + run implies is_hex_digit(
                            #[trigger] s[k],
                        ) by {
                            lemma_hex_run_step(s, start as int, (k - start) as nat);
                        }
                        lemma_hex_number_grows(s, start as int, m, run);
                    }
                    return None;
                }
                value = value * 16 + d;
                n = n + 1;
            },
        }
    }
    if n == 0 {
        None
    } else {
        Some(value)
    }
}

/// Extract the bugcheck code from a Windows "BugCheck" event-log message.
///
/// The WER message reads e.g. `The computer has rebooted from a bugcheck.
/// The bugcheck was: 0x00000124 (0x..., ...)`. The first `0x` hex token is always the stop
/// code.
pub fn parse_bugcheck_code(text: &str) -> (r: Option<u64>)
    ensures
        r == bugcheck_code_in(text@),
{
    let len = text.unicode_len();
    match find_hex_marker(text) {
        None => None,
        Some(i) => {
            proof {
                lemma_first_marker(text@, i as int);
            }
            hex_run_value(text, i + 2)
        },
    }
}

/// Layer-1 detection: a rise in WHEA correctable errors during the dwell window is a *soft
/// fail* — instability before the hard crash.
pub fn whea_soft_fail(count_before: u32, count_after: u32) -> (r: bool)
    ensures
        r == (count_after > count_before),
{
    count_after > count_before
}

/// Everything the loop must remember across reboots.
#[derive(Debug, PartialEq, Eq)]
pub struct SafeLoopRecord {
    pub state: SafeLoopState,
    pub consecutive_crashes: u32,
    pub last_validated: Option<TuningPoint>,
    pub blacklist: Vec<BlacklistRegion>,
    pub safe_mode: bool,
    /// Most recent crash classifications, newest last (capped).
    pub crash_log: Vec<CrashClass>,
}

impl Default for SafeLoopRecord {
    fn default() -> (r: Self)
        ensures
            r.state == SafeLoopState::Idle,
            r.consecutive_crashes == 0,
            r.last_validated is None,
            r.blacklist@.len() == 0,
            !r.safe_mode,
            r.crash_log@.len() == 0,
    {
        SafeLoopRecord {
            state: SafeLoopState::Idle,
            consecutive_crashes: 0,
            last_validated: None,
            blacklist: Vec::new(),
            safe_mode: false,
            crash_log: Vec::new(),
        }
    }
}

/// Some blacklist region holds `point`.
pub open spec fn blacklisted(blacklist: Seq<BlacklistRegion>, point: Seq<(Seq<char>, i64)>) -> bool {
    exists|i: int|
        0 <= i < blacklist.len() && chebyshev_distance((#[trigger] blacklist[i]).center@, point)
            <= blacklist[i].radius
}

/// The point recovery falls back to: the last validated one, else stock.
pub open spec fn recovery_point(record: SafeLoopRecord) -> Seq<(Seq<char>, i64)> {
    match record.last_validated {
        Some(p) => p@,
        None => Seq::empty(),
    }
}

impl SafeLoopRecord {
    /// Is this candidate inside any known-unstable region?
    pub fn is_blacklisted(&self, point: &TuningPoint) -> (r: bool)
        ensures
            r == blacklisted(self.blacklist@, point@),
    {
        let mut i: usize = 0;
        while i < self.blacklist.len()
            invariant
                i <= self.blacklist@.len(),
                forall|j: int|
                    0 <= j < i ==> chebyshev_distance((#[trigger] self.blacklist@[j]).center@, point@)
                        > self.blacklist@[j].radius,
            decreases self.blacklist@.len() - i,
        {
            if self.blacklist[i].contains(point) {
                return true;
            }
            i = i + 1;
        }
        false
    }

    /// Record a freshly validated point and reset the crash streak.
    pub fn mark_validated(&mut self, point: TuningPoint)
        ensures
            *final(self) == (SafeLoopRecord {
                last_validated: Some(point),
                consecutive_crashes: 0,
                state: SafeLoopState::Validated,
                ..*old(self)
            }),
    {
        self.last_validated = Some(point);
        self.consecutive_crashes = 0;
        self.state = SafeLoopState::Validated;
    }

    /// The point recovery should fall back to: last good, else stock.
    pub fn recovery_target(&self) -> (r: TuningPoint)
        ensures
            r@ == recovery_point(*self),
    {
        match &self.last_validated {
            Some(p) => p.clone(),
            None => TuningPoint::stock(),
        }
    }
}

/// The boot-flag: written to disk *before* an apply, deleted *after* a clean validation. Its
/// mere presence at boot means the last apply crashed.
#[derive(Debug, PartialEq, Eq)]
pub struct BootFlag {
    pub intent: TuningPoint,
    pub phase: String,
    pub timestamp: String,
}

impl BootFlag {
    /// A flag for applying `intent` in `phase`, stamped with `timestamp` (the RFC 3339 time the
    /// caller read from the clock when arming it).
    pub fn new(intent: TuningPoint, phase: &str, timestamp: &str) -> (r: Self)
        ensures
            r.intent == intent,
            r.phase@ == phase@,
            r.timestamp@ == timestamp@,
    {
        BootFlag { intent, phase: String::from_str(phase), timestamp: String::from_str(timestamp) }
    }
}

/// What the service should do on boot, decided purely from persisted state.
#[derive(Debug, PartialEq, Eq)]
pub enum RecoveryAction {
    /// Boot-flag was clear and nothing is validated yet — nothing to restore.
    Idle,
    /// Boot-flag clear; reapply the last known-good profile.
    ApplyLastValidated { point: TuningPoint },
    /// Boot-flag armed: blacklist the crash region and recede to known-good.
    BlacklistAndRecede { crashed: TuningPoint, recede_to: TuningPoint, class: CrashClass },
    /// Crash threshold tripped — apply stock and stop touching anything.
    EnterSafeMode { stock: TuningPoint },
}

/// The crash count after one more crash (saturating).
pub open spec fn bumped(crashes: u32) -> u32 {
    if crashes == u32::MAX {
        u32::MAX
    } else {
        (crashes + 1) as u32
    }
}

/// Pure recovery decision. `bugcheck` is the classification from the post-reboot
/// minidump/event analysis; pass [`CrashClass::Unknown`] when none.
///
/// This does **not** mutate `record`; call [`apply_recovery`] to commit the resulting state
/// change once the decision is made.
pub fn decide_recovery(boot_flag: Option<&BootFlag>, bugcheck: CrashClass, record: &SafeLoopRecord) -> (r:
    RecoveryAction)
    ensures
        match boot_flag {
            Some(flag) => if bumped(record.consecutive_crashes) >= SAFE_MODE_CRASH_THRESHOLD {
                r matches RecoveryAction::EnterSafeMode { stock } && stock@.len() == 0
            } else {
                r matches RecoveryAction::BlacklistAndRecede { crashed, recede_to, class } && crashed@
                    == flag.intent@ && recede_to@ == recovery_point(*record) && class == bugcheck
            },
            None => if record.safe_mode {
                r matches RecoveryAction::EnterSafeMode { stock } && stock@.len() == 0
            } else {
                match record.last_validated {
                    Some(p) => r matches RecoveryAction::ApplyLastValidated { point } && point@ == p@,
                    None => r is Idle,
                }
            },
        },
{
    match boot_flag {
        Some(flag) => {
            // The apply that armed this flag never reached a clean validation.
            let crashes = record.consecutive_crashes.saturating_add(1);
            if crashes >= SAFE_MODE_CRASH_THRESHOLD {
                RecoveryAction::EnterSafeMode { stock: TuningPoint::stock() }
            } else {
                RecoveryAction::BlacklistAndRecede {
                    crashed: flag.intent.clone(),
                    recede_to: record.recovery_target(),
                    class: bugcheck,
                }
            }
        },
        None => {
            if record.safe_mode {
                RecoveryAction::EnterSafeMode { stock: TuningPoint::stock() }
            } else {
                match &record.last_validated {
                    Some(point) => RecoveryAction::ApplyLastValidated { point: point.clone() },
                    None => RecoveryAction::Idle,
                }
            }
        },
    }
}

/// The newest `cap` items of `s`.
pub open spec fn newest(s: Seq<CrashClass>, cap: nat) -> Seq<CrashClass> {
    if s.len() > cap {
        s.skip(s.len() - cap)
    } else {
        s
    }
}

/// Append `item`, then drop the oldest entries beyond `cap`.
fn push_capped(v: &mut Vec<CrashClass>, item: CrashClass, cap: usize)
    ensures
        final(v)@ == newest(old(v)@.push(item), cap as nat),
{
    v.push(item);
    let ghost full = v@;
    while v.len() > cap
        invariant
            full == old(v)@.push(item),
            v@.len() <= full.len(),
            v@.len() >= (if full.len() > cap {
                cap as int
            } else {
                full.len() as int
            }),
            v@ == full.skip(full.len() - v@.len()),
        decreases v@.len(),
    {
        v.remove(0);
        proof {
            assert(v@ =~= full.skip(full.len() - v@.len()));
        }
    }
    proof {
        if full.len() <= cap {
            assert(full.skip(0) =~= full);
        }
    }
}

/// Commit the effects of a recovery decision to the persisted record. Returns the point that
/// should be applied to hardware.
pub fn apply_recovery(record: &mut SafeLoopRecord, action: &RecoveryAction) -> (r: TuningPoint)
    ensures
        match *action {
            RecoveryAction::Idle => r@.len() == 0 && *final(record) == (SafeLoopRecord {
                state: SafeLoopState::Idle,
                ..*old(record)
            }),
            RecoveryAction::ApplyLastValidated { point } => r@ == point@ && *final(record) == (
            SafeLoopRecord { state: SafeLoopState::Validated, ..*old(record) }),
            RecoveryAction::BlacklistAndRecede { crashed, recede_to, class } => {
                &&& r@ == recede_to@
                &&& final(record).state == SafeLoopState::Unstable
                &&& final(record).consecutive_crashes == bumped(old(record).consecutive_crashes)
                &&& final(record).last_validated == old(record).last_validated
                &&& final(record).safe_mode == old(record).safe_mode
                &&& final(record).crash_log@ == newest(old(record).crash_log@.push(class), 32)
                &&& final(record).blacklist@.len() == old(record).blacklist@.len() + 1
                &&& final(record).blacklist@.take(old(record).blacklist@.len() as int)
                    == old(record).blacklist@
                &&& final(record).blacklist@.last().center@ == crashed@
                &&& final(record).blacklist@.last().radius == DEFAULT_BLACKLIST_RADIUS
                &&& blacklisted(final(record).blacklist@, crashed@)
            },
            RecoveryAction::EnterSafeMode { stock } => r@ == stock@ && *final(record) == (
            SafeLoopRecord {
                consecutive_crashes: bumped(old(record).consecutive_crashes),
                safe_mode: true,
                state: SafeLoopState::SafeMode,
                ..*old(record)
            }),
        },
{
    match action {
        RecoveryAction::Idle => {
            record.state = SafeLoopState::Idle;
            TuningPoint::stock()
        },
        RecoveryAction::ApplyLastValidated { point } => {
            record.state = SafeLoopState::Validated;
            point.clone()
        },
        RecoveryAction::BlacklistAndRecede { crashed, recede_to, class } => {
            record.consecutive_crashes = record.consecutive_crashes.saturating_add(1);
            let region = BlacklistRegion::around(crashed.clone(), DEFAULT_BLACKLIST_RADIUS);
            let ghost before = record.blacklist@;
            record.blacklist.push(region);
            push_capped(&mut record.crash_log, *class, 32);
            record.state = SafeLoopState::Unstable;
            proof {
                let b = record.blacklist@;
                assert(b.take(before.len() as int) =~= before);
                lemma_chebyshev_self(crashed@);
                assert(b[b.len() - 1].center@ == crashed@);
            }
            recede_to.clone()
        },
        RecoveryAction::EnterSafeMode { stock } => {
            record.consecutive_crashes = record.consecutive_crashes.saturating_add(1);
            record.safe_mode = true;
            record.state = SafeLoopState::SafeMode;
            stock.clone()
        },
    }
}
/// The loop always moves forward on the events it is waiting for: a probe starts (into
/// `Probing`) from idle, from a validated point and after a failure (`Unstable`); an applied
/// point is then dwelled on, the dwell passes into `Validated` or fails into `Unstable`.
pub proof fn lemma_transition_progress(state: SafeLoopState, event: SafeLoopEvent)
    ensures
        event == SafeLoopEvent::StartProbe && (state == SafeLoopState::Idle || state
            == SafeLoopState::Validated || state == SafeLoopState::Unstable) ==> next_state(state, event)
            == SafeLoopState::Probing,
        state == SafeLoopState::Probing && event == SafeLoopEvent::Applied ==> next_state(state, event)
            == SafeLoopState::Applying,
        state == SafeLoopState::Applying && event == SafeLoopEvent::EnterDwell ==> next_state(state, event)
            == SafeLoopState::Dwell,
        state == SafeLoopState::Dwell && event == SafeLoopEvent::DwellPassed ==> next_state(state, event)
            == SafeLoopState::Validated,
        state == SafeLoopState::Dwell && event == SafeLoopEvent::SoftFail ==> next_state(state, event)
            == SafeLoopState::Unstable,
{
}

} // verus!
