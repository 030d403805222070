//! Pure voltage/frequency curve planning for NVIDIA GPUs.
//!
//! Every function here takes the curve as `(index, voltage_mv, freq_mhz)` triples (the shape the
//! driver's per-point status query returns) and computes, without touching hardware, the
//! per-point frequency offsets a writer would apply. The planners are fail-closed: they reject
//! (never clamp) any request outside their bounds.
use vstd::prelude::*;
use crate::text::{decimal, decimal_text, signed_decimal, signed_decimal_text};

verus! {

/// One curve triple: `(point index, voltage in mV, frequency in MHz)`.
pub type CurvePoint = (usize, u32, u32);

/// One point of the GPU's voltage/frequency curve.
#[derive(Debug, Clone, Copy, PartialEq, Eq)]
pub struct VfCurvePoint {
    pub voltage_mv: u32,
    pub freq_mhz: u32,
}

/// A snapshot of the GPU's current V/F curve.
#[derive(Debug, Clone, PartialEq, Eq)]
pub struct GpuCurve {
    pub name: String,
    pub points: Vec<VfCurvePoint>,
}

/// The highest frequency in `pts`.
pub open spec fn max_freq(pts: Seq<VfCurvePoint>) -> u32
    decreases pts.len(),
{
    if pts.len() == 0 {
        0
    } else {
        let rest = max_freq(pts.drop_last());
        if pts.last().freq_mhz > rest { pts.last().freq_mhz } else { rest }
    }
}

/// `p` is the plateau of `pts`: it is a point at the highest frequency, with the lowest voltage
/// among those, and the first such point in order.
pub open spec fn is_plateau(pts: Seq<VfCurvePoint>, i: int) -> bool {
    &&& 0 <= i < pts.len()
    &&& forall|j: int| 0 <= j < pts.len() ==> pts[j].freq_mhz <= pts[i].freq_mhz
    &&& forall|j: int|
        0 <= j < pts.len() && pts[j].freq_mhz == pts[i].freq_mhz ==> pts[i].voltage_mv
            <= pts[j].voltage_mv
    &&& forall|j: int|
        0 <= j < i && pts[j].freq_mhz == pts[i].freq_mhz ==> pts[i].voltage_mv
            < pts[j].voltage_mv
}

impl GpuCurve {
    /// The highest frequency present and the lowest voltage at which it appears (the first such
    /// point) — i.e. where a flat-curve undervolt has locked the clock. `None` for an empty curve.
    pub fn plateau(&self) -> (r: Option<VfCurvePoint>)
        ensures
            self.points@.len() == 0 <==> r is None,
            r matches Some(p) ==> exists|i: int| is_plateau(self.points@, i) && self.points@[i] == p,
    {
        let pts = &self.points;
        if pts.len() == 0 {
            return None;
        }
        let mut max_f: u32 = pts[0].freq_mhz;
        let mut i: usize = 1;
        while i < pts.len()
            invariant
                1 <= i <= pts.len(),
                forall|j: int| 0 <= j < i ==> pts@[j].freq_mhz <= max_f,
                exists|j: int| 0 <= j < i && pts@[j].freq_mhz == max_f,
            decreases pts.len() - i,
        {
            if pts[i].freq_mhz > max_f {
                max_f = pts[i].freq_mhz;
            }
            i = i + 1;
        }
        let ghost w = choose|j: int| 0 <= j < pts.len() && pts@[j].freq_mhz == max_f;
        let mut best: usize = 0;
        let mut found = false;
        let mut k: usize = 0;
        while k < pts.len()
            invariant
                0 <= k <= pts.len(),
                forall|j: int| 0 <= j < pts.len() ==> pts@[j].freq_mhz <= max_f,
                0 <= w < pts.len() && pts@[w].freq_mhz == max_f,
                found ==> best < k && pts@[best as int].freq_mhz == max_f,
                found ==> forall|j: int|
                    0 <= j < k && pts@[j].freq_mhz == max_f ==> pts@[best as int].voltage_mv
                        <= pts@[j].voltage_mv,
                found ==> forall|j: int|
                    0 <= j < best && pts@[j].freq_mhz == max_f ==> pts@[best as int].voltage_mv
                        < pts@[j].voltage_mv,
                !found ==> forall|j: int| 0 <= j < k ==> pts@[j].freq_mhz != max_f,
            decreases pts.len() - k,
        {
            if pts[k].freq_mhz == max_f {
                if !found || pts[k].voltage_mv < pts[best].voltage_mv {
                    best = k;
                    found = true;
                }
            }
            k = k + 1;
        }
        assert(found);
        assert(is_plateau(pts@, best as int));
        Some(pts[best])
    }
}

/// The bin a measured voltage snaps to: the first curve position holding the lowest voltage at
/// or above `measured_mv`.
pub open spec fn is_bin_at_or_above(c: Seq<CurvePoint>, measured_mv: u32, i: int) -> bool {
    &&& 0 <= i < c.len()
    &&& c[i].1 >= measured_mv
    &&& forall|j: int| 0 <= j < c.len() && c[j].1 >= measured_mv ==> c[i].1 <= c[j].1
    &&& forall|j: int| 0 <= j < i && c[j].1 >= measured_mv ==> c[i].1 < c[j].1
}

/// The highest-voltage bin of the curve: the last position holding the maximal voltage.
pub open spec fn is_top_bin(c: Seq<CurvePoint>, i: int) -> bool {
    &&& 0 <= i < c.len()
    &&& forall|j: int| 0 <= j < c.len() ==> c[j].1 <= c[i].1
    &&& forall|j: int| i < j < c.len() ==> c[j].1 < c[i].1
}

/// Snap a *measured* (sensor) voltage to a deterministic VF-table bin: the lowest curve voltage at
/// or above `measured_mv`. If `measured_mv` is above every bin, clamps to the highest bin (safe
/// top-of-curve). Empty curve → `None`.
pub fn nearest_vf_bin_at_or_above(curve: &[CurvePoint], measured_mv: u32) -> (r: Option<(usize, u32)>)
    ensures
        curve@.len() == 0 <==> r is None,
        (exists|j: int| 0 <= j < curve@.len() && curve@[j].1 >= measured_mv) ==> (r matches Some(
            b,
        ) && exists|i: int|
            is_bin_at_or_above(curve@, measured_mv, i) && b == (curve@[i].0, curve@[i].1)),
        (forall|j: int| 0 <= j < curve@.len() ==> curve@[j].1 < measured_mv) ==> (r matches None
            || (r matches Some(b) && exists|i: int|
            is_top_bin(curve@, i) && b == (curve@[i].0, curve@[i].1))),
{
    if curve.len() == 0 {
        return None;
    }
    let mut best: usize = 0;
    let mut found = false;
    let mut k: usize = 0;
    while k < curve.len()
        invariant
            0 <= k <= curve.len(),
            found ==> best < k && curve@[best as int].1 >= measured_mv,
            found ==> forall|j: int|
                0 <= j < k && curve@[j].1 >= measured_mv ==> curve@[best as int].1 <= curve@[j].1,
            found ==> forall|j: int|
                0 <= j < best && curve@[j].1 >= measured_mv ==> curve@[best as int].1 < curve@[j].1,
            !found ==> forall|j: int| 0 <= j < k ==> curve@[j].1 < measured_mv,
        decreases curve.len() - k,
    {
        let (_, mv, _) = curve[k];
        if mv >= measured_mv {
            if !found || mv < curve[best].1 {
                best = k;
                found = true;
            }
        }
        k = k + 1;
    }
    if found {
        assert(is_bin_at_or_above(curve@, measured_mv, best as int));
        return Some((curve[best].0, curve[best].1));
    }
    // Measured above all bins → clamp to the highest available table voltage (last maximum).
    let mut top: usize = 0;
    let mut m: usize = 1;
    while m < curve.len()
        invariant
            1 <= m <= curve.len(),
            top < m,
            forall|j: int| 0 <= j < m ==> curve@[j].1 <= curve@[top as int].1,
            forall|j: int| top < j < m ==> curve@[j].1 < curve@[top as int].1,
        decreases curve.len() - m,
    {
        if curve[m].1 >= curve[top].1 {
            top = m;
        }
        m = m + 1;
    }
    assert(is_top_bin(curve@, top as int));
    Some((curve[top].0, curve[top].1))
}

/// Classification of one VF-curve bin under a flatten-ceiling write plan.
#[derive(Debug, Clone, Copy, PartialEq, Eq)]
pub enum VfBinClass {
    /// Below the ceiling — left elastic (offset 0 by design, NOT part of the flatten set).
    BelowCeiling,
    /// At/above the ceiling, stock base above target → needs a negative (pull-down) offset.
    FlattenDown,
    /// At/above the ceiling, stock base below target → needs a positive (raise) offset.
    FlattenUp,
    /// At/above the ceiling, stock base already at target → desired offset is legitimately 0.
    AlreadyAtTarget,
}

/// One bin's entry in a flatten-ceiling write plan.
#[derive(Debug, Clone, Copy, PartialEq, Eq)]
pub struct VfWritePlanEntry {
    pub index: usize,
    pub voltage_mv: u32,
    pub base_mhz: u32,
    /// `target - base` for bins at/above the ceiling, else 0 (below-ceiling bins stay elastic).
    pub desired_offset_mhz: i32,
    pub below_ceiling: bool,
    /// At/above the ceiling → part of the intended flatten set.
    pub in_flatten_set: bool,
    pub desired_offset_is_zero: bool,
    pub class: VfBinClass,
}

/// `target - base` in MHz, with both clocks read as signed 32-bit values.
pub open spec fn signed_delta(target_mhz: u32, base_mhz: u32) -> int {
    (target_mhz as i32) - (base_mhz as i32)
}

/// The signed difference of two clocks fits in an `i32`.
pub open spec fn delta_fits(target_mhz: u32, base_mhz: u32) -> bool {
    i32::MIN <= signed_delta(target_mhz, base_mhz) <= i32::MAX
}

/// The plan entry for one point under a flatten-ceiling plan.
pub open spec fn ceiling_plan_entry(p: CurvePoint, ceiling_mv: u32, target_mhz: u32) -> VfWritePlanEntry {
    let in_set = p.1 >= ceiling_mv;
    let off: i32 = if in_set { signed_delta(target_mhz, p.2) as i32 } else { 0 };
    VfWritePlanEntry {
        index: p.0,
        voltage_mv: p.1,
        base_mhz: p.2,
        desired_offset_mhz: off,
        below_ceiling: !in_set,
        in_flatten_set: in_set,
        desired_offset_is_zero: off == 0,
        class: if !in_set {
            VfBinClass::BelowCeiling
        } else if off == 0 {
            VfBinClass::AlreadyAtTarget
        } else if off < 0 {
            VfBinClass::FlattenDown
        } else {
            VfBinClass::FlattenUp
        },
    }
}

/// No offset the flatten-ceiling plan computes overflows an `i32`.
pub open spec fn ceiling_plan_fits(c: Seq<CurvePoint>, ceiling_mv: u32, target_mhz: u32) -> bool {
    forall|i: int| 0 <= i < c.len() && c[i].1 >= ceiling_mv ==> delta_fits(target_mhz, c[i].2)
}

/// Pure preview of the Afterburner-style VF-ceiling transform: points with voltage ≥ `ceiling_mv`
/// are flattened to `target_mhz` (offset `target - base`); lower-voltage points stay elastic
/// (offset 0). Preserves `curve` order.
pub fn plan_vf_ceiling(curve: &[CurvePoint], ceiling_mv: u32, target_mhz: u32) -> (r: Vec<VfWritePlanEntry>)
    requires
        ceiling_plan_fits(curve@, ceiling_mv, target_mhz),
    ensures
        r@.len() == curve@.len(),
        forall|i: int|
            0 <= i < curve@.len() ==> r@[i] == ceiling_plan_entry(curve@[i], ceiling_mv, target_mhz),
{
    let mut out: Vec<VfWritePlanEntry> = Vec::new();
    let mut k: usize = 0;
    while k < curve.len()
        invariant
            0 <= k <= curve.len(),
            ceiling_plan_fits(curve@, ceiling_mv, target_mhz),
            out@.len() == k,
            forall|i: int|
                0 <= i < k ==> out@[i] == ceiling_plan_entry(curve@[i], ceiling_mv, target_mhz),
        decreases curve.len() - k,
    {
        let (index, voltage_mv, base_mhz) = curve[k];
        let in_flatten_set = voltage_mv >= ceiling_mv;
        let desired_offset_mhz: i32 = if in_flatten_set {
            assert(delta_fits(target_mhz, curve@[k as int].2));
            target_mhz as i32 - base_mhz as i32
        } else {
            0
        };
        let class = if !in_flatten_set {
            VfBinClass::BelowCeiling
        } else if desired_offset_mhz == 0 {
            VfBinClass::AlreadyAtTarget
        } else if desired_offset_mhz < 0 {
            VfBinClass::FlattenDown
        } else {
            VfBinClass::FlattenUp
        };
        out.push(
            VfWritePlanEntry {
                index,
                voltage_mv,
                base_mhz,
                desired_offset_mhz,
                below_ceiling: !in_flatten_set,
                in_flatten_set,
                desired_offset_is_zero: desired_offset_mhz == 0,
                class,
            },
        );
        k = k + 1;
    }
    out
}

/// The plan entry for one point under the monotone-down (static-base) ceiling plan.
pub open spec fn monotone_plan_entry(p: CurvePoint, ceiling_mv: u32, target_mhz: u32) -> VfWritePlanEntry {
    let in_set = p.1 >= ceiling_mv;
    let off: i32 = if in_set && p.2 > target_mhz { signed_delta(target_mhz, p.2) as i32 } else { 0 };
    VfWritePlanEntry {
        index: p.0,
        voltage_mv: p.1,
        base_mhz: p.2,
        desired_offset_mhz: off,
        below_ceiling: !in_set,
        in_flatten_set: in_set,
        desired_offset_is_zero: off == 0,
        class: if !in_set {
            VfBinClass::BelowCeiling
        } else if p.2 > target_mhz {
            VfBinClass::FlattenDown
        } else {
            VfBinClass::AlreadyAtTarget
        },
    }
}

/// No offset the monotone plan computes overflows an `i32`.
pub open spec fn monotone_plan_fits(c: Seq<CurvePoint>, ceiling_mv: u32, target_mhz: u32) -> bool {
    forall|i: int|
        0 <= i < c.len() && c[i].1 >= ceiling_mv && c[i].2 > target_mhz ==> delta_fits(
            target_mhz,
            c[i].2,
        )
}

/// Pure preview of the monotone-down VF-ceiling transform anchored to the static VF-table base:
/// below-ceiling bins stay elastic (offset 0); bins at/above `ceiling_mv` whose base is above the
/// target are capped down by exactly `target - base`; bins already at/below target keep offset 0.
/// Never emits a positive offset.
pub fn plan_vf_ceiling_monotone(static_base_curve: &[CurvePoint], ceiling_mv: u32, target_mhz: u32) -> (r: Vec<VfWritePlanEntry>)
    requires
        monotone_plan_fits(static_base_curve@, ceiling_mv, target_mhz),
    ensures
        r@.len() == static_base_curve@.len(),
        forall|i: int|
            0 <= i < static_base_curve@.len() ==> r@[i] == monotone_plan_entry(
                static_base_curve@[i],
                ceiling_mv,
                target_mhz,
            ),
        forall|i: int| 0 <= i < r@.len() ==> r@[i].class != VfBinClass::FlattenUp,
{
    let c = static_base_curve;
    let mut out: Vec<VfWritePlanEntry> = Vec::new();
    let mut k: usize = 0;
    while k < c.len()
        invariant
            0 <= k <= c.len(),
            monotone_plan_fits(c@, ceiling_mv, target_mhz),
            out@.len() == k,
            forall|i: int| 0 <= i < k ==> out@[i] == monotone_plan_entry(c@[i], ceiling_mv, target_mhz),
        decreases c.len() - k,
    {
        let (index, voltage_mv, base_mhz) = c[k];
        let in_flatten_set = voltage_mv >= ceiling_mv;
        let (desired_offset_mhz, class) = if !in_flatten_set {
            (0i32, VfBinClass::BelowCeiling)
        } else if base_mhz > target_mhz {
            assert(delta_fits(target_mhz, c@[k as int].2));
            (target_mhz as i32 - base_mhz as i32, VfBinClass::FlattenDown)
        } else {
            (0i32, VfBinClass::AlreadyAtTarget)
        };
        out.push(
            VfWritePlanEntry {
                index,
                voltage_mv,
                base_mhz,
                desired_offset_mhz,
                below_ceiling: !in_flatten_set,
                in_flatten_set,
                desired_offset_is_zero: desired_offset_mhz == 0,
                class,
            },
        );
        k = k + 1;
    }
    out
}

/// Conservative absolute cap on a positive (raise) frequency offset for a single VF bin (MHz).
pub const POS_OFFSET_MAX_MHZ: i32 = 30;

/// Conservative cap on the per-step increase in positive offset between consecutive probes (MHz).
pub const POS_OFFSET_STEP_MAX_MHZ: i32 = 15;

/// Hard absolute cap on a positive offset for the target sweep's progressive learned horizon
/// (MHz), reachable only through chained per-step increments.
pub const TARGET_SWEEP_HORIZON_MAX_MHZ: i32 = 210;

/// Lowest plausible graphics-core voltage of a base-curve point (mV).
pub const POS_SANE_MV_MIN: u32 = 600;
/// Highest plausible graphics-core voltage of a base-curve point (mV).
pub const POS_SANE_MV_MAX: u32 = 1150;
/// Lowest plausible graphics-core frequency of a base-curve point (MHz).
pub const POS_SANE_MHZ_MIN: u32 = 500;
/// Highest plausible graphics-core frequency of a base-curve point (MHz).
pub const POS_SANE_MHZ_MAX: u32 = 3500;

/// A plausible graphics-core VF point.
pub open spec fn sane_point(voltage_mv: u32, freq_mhz: u32) -> bool {
    POS_SANE_MV_MIN <= voltage_mv <= POS_SANE_MV_MAX && POS_SANE_MHZ_MIN <= freq_mhz
        <= POS_SANE_MHZ_MAX
}

/// A non-empty base curve made only of plausible graphics-core points.
pub open spec fn sane_curve(c: Seq<CurvePoint>) -> bool {
    c.len() > 0 && forall|i: int| 0 <= i < c.len() ==> sane_point(#[trigger] c[i].1, c[i].2)
}

fn is_sane_base_point(voltage_mv: u32, freq_mhz: u32) -> (r: bool)
    ensures
        r == sane_point(voltage_mv, freq_mhz),
{
    POS_SANE_MV_MIN <= voltage_mv && voltage_mv <= POS_SANE_MV_MAX && POS_SANE_MHZ_MIN <= freq_mhz
        && freq_mhz <= POS_SANE_MHZ_MAX
}

fn is_sane_base_curve(curve: &[CurvePoint]) -> (r: bool)
    ensures
        r == sane_curve(curve@),
{
    if curve.len() == 0 {
        return false;
    }
    let mut k: usize = 0;
    while k < curve.len()
        invariant
            0 <= k <= curve.len(),
            forall|i: int| 0 <= i < k ==> sane_point(#[trigger] curve@[i].1, curve@[i].2),
        decreases curve.len() - k,
    {
        if !is_sane_base_point(curve[k].1, curve[k].2) {
            return false;
        }
        k = k + 1;
    }
    true
}

/// Fail-closed bounds for a bounded positive-offset plan.
#[derive(Debug, Clone, Copy, PartialEq, Eq)]
pub struct PositiveOffsetLimits {
    /// Absolute cap on the positive freq offset applied to one bin (MHz).
    pub abs_max_offset_mhz: i32,
    /// Cap on the per-step increase in offset between consecutive probes (MHz).
    pub step_max_offset_mhz: i32,
    /// Lowest safe voltage bin (mV); a bin below this is rejected.
    pub hw_floor_mv: u32,
    /// Conservative absolute clock ceiling (MHz); a planned effective clock above this is rejected.
    pub clock_ceiling_mhz: u32,
}

impl PositiveOffsetLimits {
    /// Conservative limits: the built-in offset caps + the caller's hardware floor/ceiling.
    pub fn conservative(hw_floor_mv: u32, clock_ceiling_mhz: u32) -> (r: Self)
        ensures
            r == (PositiveOffsetLimits {
                abs_max_offset_mhz: POS_OFFSET_MAX_MHZ,
                step_max_offset_mhz: POS_OFFSET_STEP_MAX_MHZ,
                hw_floor_mv,
                clock_ceiling_mhz,
            }),
    {
        Self {
            abs_max_offset_mhz: POS_OFFSET_MAX_MHZ,
            step_max_offset_mhz: POS_OFFSET_STEP_MAX_MHZ,
            hw_floor_mv,
            clock_ceiling_mhz,
        }
    }

    /// Manual-prior limits: both offset caps widened to `max_offset_mhz`; floor and ceiling as
    /// given.
    pub fn manual_prior(hw_floor_mv: u32, clock_ceiling_mhz: u32, max_offset_mhz: i32) -> (r: Self)
        ensures
            r == (PositiveOffsetLimits {
                abs_max_offset_mhz: max_offset_mhz,
                step_max_offset_mhz: max_offset_mhz,
                hw_floor_mv,
                clock_ceiling_mhz,
            }),
    {
        Self {
            abs_max_offset_mhz: max_offset_mhz,
            step_max_offset_mhz: max_offset_mhz,
            hw_floor_mv,
            clock_ceiling_mhz,
        }
    }

    /// Target-sweep learned-horizon limits: only the absolute cap is raised (to
    /// [`TARGET_SWEEP_HORIZON_MAX_MHZ`]); the per-step cap stays conservative.
    pub fn target_sweep_learning_horizon(hw_floor_mv: u32, clock_ceiling_mhz: u32) -> (r: Self)
        ensures
            r == (PositiveOffsetLimits {
                abs_max_offset_mhz: TARGET_SWEEP_HORIZON_MAX_MHZ,
                step_max_offset_mhz: POS_OFFSET_STEP_MAX_MHZ,
                hw_floor_mv,
                clock_ceiling_mhz,
            }),
    {
        Self {
            abs_max_offset_mhz: TARGET_SWEEP_HORIZON_MAX_MHZ,
            step_max_offset_mhz: POS_OFFSET_STEP_MAX_MHZ,
            hw_floor_mv,
            clock_ceiling_mhz,
        }
    }

    /// Full frontier-discovery envelope: both offset caps are the physical clock span
    /// `max(clock_ceiling - min_base, 1)` (saturating at 0 before the `max`), read as an `i32`.
    pub fn hardware_frontier(hw_floor_mv: u32, clock_ceiling_mhz: u32, min_base_mhz: u32) -> (r: Self)
        ensures
            ({
                let span: u32 = if clock_ceiling_mhz > min_base_mhz {
                    (clock_ceiling_mhz - min_base_mhz) as u32
                } else {
                    1
                };
                r == (PositiveOffsetLimits {
                    abs_max_offset_mhz: span as i32,
                    step_max_offset_mhz: span as i32,
                    hw_floor_mv,
                    clock_ceiling_mhz,
                })
            }),
    {
        let diff = clock_ceiling_mhz.saturating_sub(min_base_mhz);
        let span: u32 = if diff > 1 { diff } else { 1 };
        let physical_delta = span as i32;
        Self {
            abs_max_offset_mhz: physical_delta,
            step_max_offset_mhz: physical_delta,
            hw_floor_mv,
            clock_ceiling_mhz,
        }
    }
}

/// A validated single-bin bounded positive-offset write plan.
#[derive(Debug, Clone, Copy, PartialEq, Eq)]
pub struct PositiveOffsetPlan {
    pub index: usize,
    pub voltage_mv: u32,
    pub base_mhz: u32,
    /// The validated positive offset to apply to this bin (> 0, ≤ abs cap).
    pub offset_mhz: i32,
    /// The previously-applied offset on the prior probe (0 if none).
    pub prev_offset_mhz: i32,
    /// `offset_mhz - prev_offset_mhz` (the per-step increase; ≤ step cap).
    pub step_delta_mhz: i32,
    /// The planned effective clock at this bin (`base + offset`, == target).
    pub effective_mhz: u32,
}

/// Why a positive-offset planner refused a request.
#[derive(Debug, Clone, Copy, PartialEq, Eq)]
pub enum OffsetRefusal {
    EmptyBase,
    NonSaneBase,
    BinNotReal,
    BelowFloor,
    NonPositiveOffset,
    AboveAbsoluteCap,
    AbovePerStepCap,
    AboveClockCeiling,
    /// A lower-voltage bin already sits above the target (non-monotone curve).
    NonMonotoneLowerBin,
    /// A positive offset would land on a bin other than the single anchor.
    PositiveOutsideAnchor,
}

/// The error text of a single-bin refusal, over the refused request: the rule that failed and
/// the numbers it failed on.
pub open spec fn refusal_text(
    k: OffsetRefusal,
    c: Seq<CurvePoint>,
    bin: usize,
    target_mhz: u32,
    prev_offset_mhz: i32,
    limits: PositiveOffsetLimits,
) -> Seq<char> {
    let p = c[bin_position(c, bin)->0];
    let offset = (target_mhz as i32) - p.2;
    match k {
        OffsetRefusal::EmptyBase => "F2: static VF-table base unavailable/empty — fail closed"@,
        OffsetRefusal::NonSaneBase => "F2: base curve has foreign / non-sane points — fail closed"@,
        OffsetRefusal::BinNotReal => "F2: bin index "@ + decimal(bin as nat)
            + " is not a real VF point — fail closed"@,
        OffsetRefusal::BelowFloor => "F2: bin "@ + decimal(p.1 as nat) + " mV is below the hardware floor "@
            + decimal(limits.hw_floor_mv as nat) + " mV — fail closed"@,
        OffsetRefusal::NonPositiveOffset => "F2: bin "@ + decimal(p.1 as nat) + " mV base "@ + decimal(
            p.2 as nat,
        ) + " MHz already >= target "@ + decimal(target_mhz as nat) + " MHz (offset "@ + signed_decimal(
            offset,
        ) + " <= 0) — positive-offset-only, fail closed"@,
        OffsetRefusal::AboveAbsoluteCap => "F2: offset +"@ + signed_decimal(offset)
            + " MHz exceeds the absolute cap +"@ + signed_decimal(limits.abs_max_offset_mhz as int)
            + " MHz — fail closed"@,
        OffsetRefusal::AbovePerStepCap => "F2: per-step increase +"@ + signed_decimal(
            offset - prev_offset_mhz,
        ) + " MHz (prev +"@ + signed_decimal(prev_offset_mhz as int) + ") exceeds the per-step cap +"@
            + signed_decimal(limits.step_max_offset_mhz as int) + " MHz — fail closed"@,
        OffsetRefusal::AboveClockCeiling => "F2: planned clock "@ + signed_decimal(p.2 + offset)
            + " MHz exceeds the clock ceiling "@ + decimal(limits.clock_ceiling_mhz as nat)
            + " MHz — fail closed"@,
        OffsetRefusal::NonMonotoneLowerBin => Seq::empty(),
        OffsetRefusal::PositiveOutsideAnchor => Seq::empty(),
    }
}

/// `"F2: bin index {bin} is not a real VF point — fail closed"`.
fn bin_not_real_message(bin: usize) -> (r: String)
    ensures
        r@ == "F2: bin index "@ + decimal(bin as nat) + " is not a real VF point — fail closed"@,
{
    let mut m = String::from_str("F2: bin index ");
    m.append(decimal_text(bin as u64).as_str());
    m.append(" is not a real VF point — fail closed");
    m
}

fn below_floor_message(voltage_mv: u32, floor_mv: u32) -> (r: String)
    ensures
        r@ == "F2: bin "@ + decimal(voltage_mv as nat) + " mV is below the hardware floor "@ + decimal(
            floor_mv as nat,
        ) + " mV — fail closed"@,
{
    let mut m = String::from_str("F2: bin ");
    m.append(decimal_text(voltage_mv as u64).as_str());
    m.append(" mV is below the hardware floor ");
    m.append(decimal_text(floor_mv as u64).as_str());
    m.append(" mV — fail closed");
    m
}

fn non_positive_message(voltage_mv: u32, base_mhz: u32, target_mhz: u32, offset_mhz: i32) -> (r: String)
    ensures
        r@ == "F2: bin "@ + decimal(voltage_mv as nat) + " mV base "@ + decimal(base_mhz as nat)
            + " MHz already >= target "@ + decimal(target_mhz as nat) + " MHz (offset "@ + signed_decimal(
            offset_mhz as int,
        ) + " <= 0) — positive-offset-only, fail closed"@,
{
    let mut m = String::from_str("F2: bin ");
    m.append(decimal_text(voltage_mv as u64).as_str());
    m.append(" mV base ");
    m.append(decimal_text(base_mhz as u64).as_str());
    m.append(" MHz already >= target ");
    m.append(decimal_text(target_mhz as u64).as_str());
    m.append(" MHz (offset ");
    m.append(signed_decimal_text(offset_mhz as i64).as_str());
    m.append(" <= 0) — positive-offset-only, fail closed");
    m
}

fn absolute_cap_message(offset_mhz: i32, cap_mhz: i32) -> (r: String)
    ensures
        r@ == "F2: offset +"@ + signed_decimal(offset_mhz as int) + " MHz exceeds the absolute cap +"@
            + signed_decimal(cap_mhz as int) + " MHz — fail closed"@,
{
    let mut m = String::from_str("F2: offset +");
    m.append(signed_decimal_text(offset_mhz as i64).as_str());
    m.append(" MHz exceeds the absolute cap +");
    m.append(signed_decimal_text(cap_mhz as i64).as_str());
    m.append(" MHz — fail closed");
    m
}

fn step_cap_message(step_delta_mhz: i32, prev_offset_mhz: i32, cap_mhz: i32) -> (r: String)
    ensures
        r@ == "F2: per-step increase +"@ + signed_decimal(step_delta_mhz as int) + " MHz (prev +"@
            + signed_decimal(prev_offset_mhz as int) + ") exceeds the per-step cap +"@ + signed_decimal(
            cap_mhz as int,
        ) + " MHz — fail closed"@,
{
    let mut m = String::from_str("F2: per-step increase +");
    m.append(signed_decimal_text(step_delta_mhz as i64).as_str());
    m.append(" MHz (prev +");
    m.append(signed_decimal_text(prev_offset_mhz as i64).as_str());
    m.append(") exceeds the per-step cap +");
    m.append(signed_decimal_text(cap_mhz as i64).as_str());
    m.append(" MHz — fail closed");
    m
}

fn clock_ceiling_message(effective_mhz: i32, ceiling_mhz: u32) -> (r: String)
    ensures
        r@ == "F2: planned clock "@ + signed_decimal(effective_mhz as int) + " MHz exceeds the clock ceiling "@
            + decimal(ceiling_mhz as nat) + " MHz — fail closed"@,
{
    let mut m = String::from_str("F2: planned clock ");
    m.append(signed_decimal_text(effective_mhz as i64).as_str());
    m.append(" MHz exceeds the clock ceiling ");
    m.append(decimal_text(ceiling_mhz as u64).as_str());
    m.append(" MHz — fail closed");
    m
}

/// How a `u32` reads when reinterpreted as an `i32`.
pub proof fn lemma_u32_as_i32(x: u32)
    ensures
        x <= i32::MAX ==> x as i32 == x,
        x > i32::MAX ==> x as i32 == x - 0x1_0000_0000,
{
    assert(x <= 0x7fff_ffff ==> x as i32 == x) by (bit_vector);
    assert(x > 0x7fff_ffff ==> x as i32 == x - 0x1_0000_0000) by (bit_vector);
}

/// `i` is the first curve position carrying point index `bin`.
pub open spec fn is_first_with_index(c: Seq<CurvePoint>, bin: usize, i: int) -> bool {
    0 <= i < c.len() && c[i].0 == bin && forall|j: int| 0 <= j < i ==> c[j].0 != bin
}

/// The first curve position carrying point index `bin`, if any.
pub open spec fn bin_position(c: Seq<CurvePoint>, bin: usize) -> Option<int> {
    if exists|i: int| 0 <= i < c.len() && c[i].0 == bin {
        Some(choose|i: int| is_first_with_index(c, bin, i))
    } else {
        None
    }
}

proof fn lemma_bin_position(c: Seq<CurvePoint>, bin: usize, i: int)
    requires
        is_first_with_index(c, bin, i),
    ensures
        bin_position(c, bin) == Some(i),
{
    let k = choose|k: int| is_first_with_index(c, bin, k);
    assert(is_first_with_index(c, bin, k));
    if k < i {
        assert(c[k].0 != bin);
    }
    if i < k {
        assert(c[i].0 != bin);
    }
}

/// The single-bin planner's verdict, rule by rule in its fixed order: empty base, non-sane base,
/// bin not on the curve, bin below the floor, non-positive offset, absolute cap, per-step cap,
/// clock ceiling.
pub open spec fn positive_offset_plan(
    c: Seq<CurvePoint>,
    bin: usize,
    target_mhz: u32,
    prev_offset_mhz: i32,
    limits: PositiveOffsetLimits,
) -> Result<PositiveOffsetPlan, OffsetRefusal> {
    if c.len() == 0 {
        Err(OffsetRefusal::EmptyBase)
    } else if !sane_curve(c) {
        Err(OffsetRefusal::NonSaneBase)
    } else {
        match bin_position(c, bin) {
            None => Err(OffsetRefusal::BinNotReal),
            Some(i) => {
                let (index, voltage_mv, base_mhz) = c[i];
                let offset = (target_mhz as i32) - base_mhz;
                if voltage_mv < limits.hw_floor_mv {
                    Err(OffsetRefusal::BelowFloor)
                } else if offset <= 0 {
                    Err(OffsetRefusal::NonPositiveOffset)
                } else if offset > limits.abs_max_offset_mhz {
                    Err(OffsetRefusal::AboveAbsoluteCap)
                } else if offset - prev_offset_mhz > limits.step_max_offset_mhz {
                    Err(OffsetRefusal::AbovePerStepCap)
                } else if base_mhz + offset > limits.clock_ceiling_mhz {
                    Err(OffsetRefusal::AboveClockCeiling)
                } else {
                    Ok(
                        PositiveOffsetPlan {
                            index,
                            voltage_mv,
                            base_mhz,
                            offset_mhz: offset as i32,
                            prev_offset_mhz,
                            step_delta_mhz: (offset - prev_offset_mhz) as i32,
                            effective_mhz: (base_mhz + offset) as u32,
                        },
                    )
                }
            },
        }
    }
}

/// The single-bin planner's arithmetic does not overflow: once a sane bin at/above the floor is
/// found, `target - base` fits an `i32`, and when that offset is within the absolute cap,
/// `offset - prev` fits too.
pub open spec fn positive_offset_arith_ok(
    c: Seq<CurvePoint>,
    bin: usize,
    target_mhz: u32,
    prev_offset_mhz: i32,
    limits: PositiveOffsetLimits,
) -> bool {
    match bin_position(c, bin) {
        Some(i) => {
            let offset = (target_mhz as i32) - c[i].2;
            (sane_curve(c) && c[i].1 >= limits.hw_floor_mv) ==> (i32::MIN <= offset && (0 < offset
                <= limits.abs_max_offset_mhz ==> i32::MIN <= offset - prev_offset_mhz <= i32::MAX))
        },
        None => true,
    }
}

/// Pure, fail-closed planner for ONE bounded positive-offset point: raise the `bin_index` VF point
/// just enough to hold `target_mhz` at that (lower) voltage. Computes `offset = target - base` and
/// rejects (never clamps) when any rule fails; see [`positive_offset_plan`] for the rules and their
/// order.
pub fn plan_bounded_positive_offset(
    static_base_curve: &[CurvePoint],
    bin_index: usize,
    target_mhz: u32,
    prev_offset_mhz: i32,
    limits: &PositiveOffsetLimits,
) -> (r: Result<PositiveOffsetPlan, String>)
    requires
        positive_offset_arith_ok(static_base_curve@, bin_index, target_mhz, prev_offset_mhz, *limits),
    ensures
        match positive_offset_plan(static_base_curve@, bin_index, target_mhz, prev_offset_mhz, *limits) {
            Ok(p) => r == Ok::<PositiveOffsetPlan, String>(p),
            Err(k) => r is Err && r->Err_0@ == refusal_text(
                k,
                static_base_curve@,
                bin_index,
                target_mhz,
                prev_offset_mhz,
                *limits,
            ),
        },
        r matches Ok(p) ==> p.offset_mhz > 0 && p.offset_mhz <= limits.abs_max_offset_mhz
            && p.step_delta_mhz <= limits.step_max_offset_mhz && p.effective_mhz == target_mhz
            && p.effective_mhz <= limits.clock_ceiling_mhz && p.voltage_mv >= limits.hw_floor_mv,
{
    let c = static_base_curve;
    if c.len() == 0 {
        return Err(String::from_str("F2: static VF-table base unavailable/empty — fail closed"));
    }
    if !is_sane_base_curve(c) {
        return Err(String::from_str("F2: base curve has foreign / non-sane points — fail closed"));
    }
    let mut k: usize = 0;
    while k < c.len() && c[k].0 != bin_index
        invariant
            0 <= k <= c.len(),
            forall|j: int| 0 <= j < k ==> c@[j].0 != bin_index,
        decreases c.len() - k,
    {
        k = k + 1;
    }
    if k == c.len() {
        return Err(bin_not_real_message(bin_index));
    }
    proof {
        lemma_bin_position(c@, bin_index, k as int);
    }
    let (index, voltage_mv, base_mhz) = c[k];
    assert(sane_point(c@[k as int].1, c@[k as int].2));
    proof {
        lemma_u32_as_i32(target_mhz);
        lemma_u32_as_i32(base_mhz);
    }
    if voltage_mv < limits.hw_floor_mv {
        return Err(below_floor_message(voltage_mv, limits.hw_floor_mv));
    }
    let offset_mhz: i32 = target_mhz as i32 - base_mhz as i32;
    if offset_mhz <= 0 {
        return Err(non_positive_message(voltage_mv, base_mhz, target_mhz, offset_mhz));
    }
    if offset_mhz > limits.abs_max_offset_mhz {
        return Err(absolute_cap_message(offset_mhz, limits.abs_max_offset_mhz));
    }
    let step_delta_mhz: i32 = offset_mhz - prev_offset_mhz;
    if step_delta_mhz > limits.step_max_offset_mhz {
        return Err(step_cap_message(step_delta_mhz, prev_offset_mhz, limits.step_max_offset_mhz));
    }
    let effective_mhz: i32 = base_mhz as i32 + offset_mhz;
    if effective_mhz <= 0 || effective_mhz as u32 > limits.clock_ceiling_mhz {
        return Err(clock_ceiling_message(effective_mhz, limits.clock_ceiling_mhz));
    }
    Ok(
        PositiveOffsetPlan {
            index,
            voltage_mv,
            base_mhz,
            offset_mhz,
            prev_offset_mhz,
            step_delta_mhz,
            effective_mhz: effective_mhz as u32,
        },
    )
}

/// Role of one bin within an [`AnchoredPositiveOffsetPlan`].
#[derive(Debug, Clone, Copy, PartialEq, Eq)]
pub enum AnchoredBinRole {
    /// The selected anchor bin: a bounded positive offset raises it to the target.
    Anchor,
    /// A higher-voltage bin held at/below the target by a ≤ 0 offset.
    CappedAbove,
    /// A lower-voltage bin left elastic (offset 0, never raised).
    ElasticBelow,
}

/// One bin's entry in an anchored plan.
#[derive(Debug, Clone, Copy, PartialEq, Eq)]
pub struct AnchoredBinEntry {
    pub index: usize,
    pub voltage_mv: u32,
    pub base_mhz: u32,
    /// Offset to write: `> 0` only at the anchor; `≤ 0` for capped higher-voltage bins; `0` for
    /// elastic lower-voltage bins.
    pub offset_mhz: i32,
    /// `base + offset` — never above the target for any bin.
    pub effective_mhz: u32,
    pub role: AnchoredBinRole,
}

/// A validated anchored positive-offset (classic undervolt point) plan.
#[derive(Debug, Clone, PartialEq, Eq)]
pub struct AnchoredPositiveOffsetPlan {
    pub target_mhz: u32,
    /// The validated bounded positive raise at the anchor bin.
    pub anchor: PositiveOffsetPlan,
    /// Every curve bin's write entry, in input-curve order.
    pub entries: Vec<AnchoredBinEntry>,
    /// Higher-voltage bins capped down (negative offset) to the target.
    pub capped_above_bins: u32,
    /// Higher-voltage bins already at/below the target (offset 0).
    pub above_already_ok_bins: u32,
    /// Lower-voltage bins left elastic (offset 0).
    pub elastic_below_bins: u32,
    /// The largest positive offset across all bins (== the anchor offset).
    pub max_positive_offset_mhz: i32,
    /// The largest downward flatten across the higher-voltage bins (absolute MHz; 0 if none).
    pub max_negative_flatten_mhz: i32,
}

/// The anchored plan's entry for one curve point.
pub open spec fn anchored_entry(p: CurvePoint, a: PositiveOffsetPlan, target_mhz: u32) -> AnchoredBinEntry {
    if p.0 == a.index {
        AnchoredBinEntry {
            index: p.0,
            voltage_mv: p.1,
            base_mhz: p.2,
            offset_mhz: a.offset_mhz,
            effective_mhz: target_mhz,
            role: AnchoredBinRole::Anchor,
        }
    } else if p.1 > a.voltage_mv {
        let off: int = if p.2 > target_mhz { target_mhz - p.2 } else { 0 };
        AnchoredBinEntry {
            index: p.0,
            voltage_mv: p.1,
            base_mhz: p.2,
            offset_mhz: off as i32,
            effective_mhz: (p.2 + off) as u32,
            role: AnchoredBinRole::CappedAbove,
        }
    } else {
        AnchoredBinEntry {
            index: p.0,
            voltage_mv: p.1,
            base_mhz: p.2,
            offset_mhz: 0,
            effective_mhz: p.2,
            role: AnchoredBinRole::ElasticBelow,
        }
    }
}

/// All entries of the anchored plan, in curve order.
pub open spec fn anchored_entries(c: Seq<CurvePoint>, a: PositiveOffsetPlan, target_mhz: u32) -> Seq<AnchoredBinEntry> {
    Seq::new(c.len(), |i: int| anchored_entry(c[i], a, target_mhz))
}

/// A lower-voltage (non-anchor) bin whose base already sits above the target.
pub open spec fn lower_bin_violates(p: CurvePoint, a: PositiveOffsetPlan, target_mhz: u32) -> bool {
    p.0 != a.index && p.1 <= a.voltage_mv && p.2 > target_mhz
}

/// How many points of `c` satisfy `f`.
pub open spec fn count_where(c: Seq<CurvePoint>, f: spec_fn(CurvePoint) -> bool) -> nat
    decreases c.len(),
{
    if c.len() == 0 {
        0
    } else {
        count_where(c.drop_last(), f) + if f(c.last()) { 1nat } else { 0nat }
    }
}

/// The largest `base - target` over the higher-voltage bins capped down (0 when none).
pub open spec fn max_flatten(c: Seq<CurvePoint>, a: PositiveOffsetPlan, target_mhz: u32) -> int
    decreases c.len(),
{
    if c.len() == 0 {
        0
    } else {
        let rest = max_flatten(c.drop_last(), a, target_mhz);
        let p = c.last();
        if p.0 != a.index && p.1 > a.voltage_mv && p.2 > target_mhz && p.2 - target_mhz > rest {
            p.2 - target_mhz
        } else {
            rest
        }
    }
}

/// What the anchored planner decides: the single-bin anchor rules first, then the lower-bin
/// monotonicity rule, then the single-anchor rule (the anchor index must occur exactly once).
pub open spec fn anchored_outcome(
    c: Seq<CurvePoint>,
    bin: usize,
    target_mhz: u32,
    prev_offset_mhz: i32,
    limits: PositiveOffsetLimits,
) -> Result<PositiveOffsetPlan, OffsetRefusal> {
    match positive_offset_plan(c, bin, target_mhz, prev_offset_mhz, limits) {
        Err(k) => Err(k),
        Ok(a) => if exists|i: int| 0 <= i < c.len() && lower_bin_violates(c[i], a, target_mhz) {
            Err(OffsetRefusal::NonMonotoneLowerBin)
        } else if count_where(c, |p: CurvePoint| p.0 == a.index) != 1 {
            Err(OffsetRefusal::PositiveOutsideAnchor)
        } else {
            Ok(a)
        },
    }
}

proof fn lemma_take_last<T>(c: Seq<T>, k: int)
    requires
        0 <= k < c.len(),
    ensures
        c.take(k + 1).drop_last() == c.take(k),
        c.take(k + 1).last() == c[k],
{
    assert(c.take(k + 1).drop_last() =~= c.take(k));
}

proof fn lemma_count_step(c: Seq<CurvePoint>, k: int, f: spec_fn(CurvePoint) -> bool)
    requires
        0 <= k < c.len(),
    ensures
        count_where(c.take(k + 1), f) == count_where(c.take(k), f) + if f(c[k]) { 1nat } else { 0nat },
{
    lemma_take_last(c, k);
}

/// `i` is the first curve position holding a lower-voltage bin already above the target.
pub open spec fn is_first_lower_violation(c: Seq<CurvePoint>, a: PositiveOffsetPlan, target_mhz: u32, i: int) -> bool {
    &&& 0 <= i < c.len()
    &&& lower_bin_violates(c[i], a, target_mhz)
    &&& forall|j: int| 0 <= j < i ==> !lower_bin_violates(c[j], a, target_mhz)
}

proof fn lemma_first_lower_violation(c: Seq<CurvePoint>, a: PositiveOffsetPlan, target_mhz: u32, i: int)
    requires
        is_first_lower_violation(c, a, target_mhz, i),
    ensures
        (choose|j: int| is_first_lower_violation(c, a, target_mhz, j)) == i,
{
    let k = choose|j: int| is_first_lower_violation(c, a, target_mhz, j);
    assert(is_first_lower_violation(c, a, target_mhz, k));
    if k < i {
        assert(!lower_bin_violates(c[k], a, target_mhz));
    }
    if i < k {
        assert(!lower_bin_violates(c[i], a, target_mhz));
    }
}

/// The error text of an anchored refusal: the single-bin texts for the anchor's own rules, the
/// first offending lower-voltage bin for a non-monotone curve, and the single-anchor rule.
pub open spec fn anchored_refusal_text(
    k: OffsetRefusal,
    c: Seq<CurvePoint>,
    bin: usize,
    target_mhz: u32,
    prev_offset_mhz: i32,
    limits: PositiveOffsetLimits,
) -> Seq<char> {
    match k {
        OffsetRefusal::NonMonotoneLowerBin => {
            let a = positive_offset_plan(c, bin, target_mhz, prev_offset_mhz, limits)->Ok_0;
            let i = choose|i: int| is_first_lower_violation(c, a, target_mhz, i);
            "F2 anchored: lower-voltage bin "@ + decimal(c[i].1 as nat) + " mV base "@ + decimal(
                c[i].2 as nat,
            ) + " MHz already above target "@ + decimal(target_mhz as nat)
                + " MHz — non-monotone/unsafe, fail closed"@
        },
        OffsetRefusal::PositiveOutsideAnchor =>
            "F2 anchored: plan would carry a positive offset outside the anchor bin — fail closed"@,
        _ => refusal_text(k, c, bin, target_mhz, prev_offset_mhz, limits),
    }
}

fn non_monotone_message(voltage_mv: u32, base_mhz: u32, target_mhz: u32) -> (r: String)
    ensures
        r@ == "F2 anchored: lower-voltage bin "@ + decimal(voltage_mv as nat) + " mV base "@ + decimal(
            base_mhz as nat,
        ) + " MHz already above target "@ + decimal(target_mhz as nat)
            + " MHz — non-monotone/unsafe, fail closed"@,
{
    let mut m = String::from_str("F2 anchored: lower-voltage bin ");
    m.append(decimal_text(voltage_mv as u64).as_str());
    m.append(" mV base ");
    m.append(decimal_text(base_mhz as u64).as_str());
    m.append(" MHz already above target ");
    m.append(decimal_text(target_mhz as u64).as_str());
    m.append(" MHz — non-monotone/unsafe, fail closed");
    m
}

/// Pure, fail-closed planner for an anchored positive-offset (classic undervolt) point. Raises the
/// `anchor_bin_index` bin to `target_mhz` with the single-bin planner's rules, caps every
/// higher-voltage bin down to the target (offset ≤ 0, never raised), and leaves every
/// lower-voltage bin elastic (offset 0). Rejects a lower-voltage bin already above the target and
/// a plan whose positive offset would land outside the single anchor bin.
pub fn plan_bounded_anchored_positive_offset(
    static_base_curve: &[CurvePoint],
    anchor_bin_index: usize,
    target_mhz: u32,
    prev_offset_mhz: i32,
    limits: &PositiveOffsetLimits,
) -> (r: Result<AnchoredPositiveOffsetPlan, String>)
    requires
        positive_offset_arith_ok(static_base_curve@, anchor_bin_index, target_mhz, prev_offset_mhz, *limits),
        static_base_curve@.len() <= u32::MAX,
    ensures
        match anchored_outcome(static_base_curve@, anchor_bin_index, target_mhz, prev_offset_mhz, *limits) {
            Err(k) => r is Err && r->Err_0@ == anchored_refusal_text(
                k,
                static_base_curve@,
                anchor_bin_index,
                target_mhz,
                prev_offset_mhz,
                *limits,
            ),
            Ok(a) => r matches Ok(plan) && {
                let c = static_base_curve@;
                &&& plan.target_mhz == target_mhz
                &&& plan.anchor == a
                &&& plan.entries@ == anchored_entries(c, a, target_mhz)
                &&& plan.capped_above_bins == count_where(c, |p: CurvePoint| p.0 != a.index && p.1 > a.voltage_mv && p.2 > target_mhz)
                &&& plan.above_already_ok_bins == count_where(c, |p: CurvePoint| p.0 != a.index && p.1 > a.voltage_mv && p.2 <= target_mhz)
                &&& plan.elastic_below_bins == count_where(c, |p: CurvePoint| p.0 != a.index && p.1 <= a.voltage_mv)
                &&& plan.max_positive_offset_mhz == a.offset_mhz
                &&& plan.max_negative_flatten_mhz == max_flatten(c, a, target_mhz)
            },
        },
        r matches Ok(plan) ==> forall|i: int| 0 <= i < plan.entries@.len() ==> {
            let e = #[trigger] plan.entries@[i];
            &&& e.effective_mhz <= target_mhz
            &&& (e.offset_mhz > 0 <==> e.role == AnchoredBinRole::Anchor)
            &&& e.role == AnchoredBinRole::ElasticBelow ==> e.offset_mhz == 0 && e.voltage_mv <= plan.anchor.voltage_mv
            &&& e.role == AnchoredBinRole::CappedAbove ==> e.offset_mhz <= 0 && e.voltage_mv > plan.anchor.voltage_mv
        },
{
    let c = static_base_curve;
    let anchor = match plan_bounded_positive_offset(c, anchor_bin_index, target_mhz, prev_offset_mhz, limits) {
        Ok(a) => a,
        Err(e) => {
            return Err(e);
        },
    };
    let ghost a = anchor;
    assert(positive_offset_plan(c@, anchor_bin_index, target_mhz, prev_offset_mhz, *limits) == Ok::<PositiveOffsetPlan, OffsetRefusal>(a));
    let anchor_mv = anchor.voltage_mv;
    proof {
        lemma_u32_as_i32(target_mhz);
    }
    let target_i: i32 = target_mhz as i32;
    assert(target_i == target_mhz);
    assert(sane_curve(c@));

    let ghost f_cap = |p: CurvePoint| p.0 != a.index && p.1 > a.voltage_mv && p.2 > target_mhz;
    let ghost f_ok = |p: CurvePoint| p.0 != a.index && p.1 > a.voltage_mv && p.2 <= target_mhz;
    let ghost f_el = |p: CurvePoint| p.0 != a.index && p.1 <= a.voltage_mv;
    let ghost f_an = |p: CurvePoint| p.0 == a.index;

    let mut entries: Vec<AnchoredBinEntry> = Vec::new();
    let mut capped_above_bins: u32 = 0;
    let mut above_already_ok_bins: u32 = 0;
    let mut elastic_below_bins: u32 = 0;
    let mut anchor_count: u32 = 0;
    let mut max_negative_flatten_mhz: i32 = 0;
    let mut k: usize = 0;
    while k < c.len()
        invariant
            0 <= k <= c.len(),
            c@.len() <= u32::MAX,
            c@ == static_base_curve@,
            sane_curve(c@),
            positive_offset_plan(c@, anchor_bin_index, target_mhz, prev_offset_mhz, *limits) == Ok::<PositiveOffsetPlan, OffsetRefusal>(a),
            anchor == a,
            anchor_mv == a.voltage_mv,
            forall|p: CurvePoint| #[trigger] f_cap(p) == (p.0 != a.index && p.1 > a.voltage_mv && p.2 > target_mhz),
            forall|p: CurvePoint| #[trigger] f_ok(p) == (p.0 != a.index && p.1 > a.voltage_mv && p.2 <= target_mhz),
            forall|p: CurvePoint| #[trigger] f_el(p) == (p.0 != a.index && p.1 <= a.voltage_mv),
            forall|p: CurvePoint| #[trigger] f_an(p) == (p.0 == a.index),
            target_i == target_mhz,
            0 < target_mhz <= i32::MAX,
            entries@ == anchored_entries(c@, a, target_mhz).take(k as int),
            forall|i: int| 0 <= i < k ==> !lower_bin_violates(c@[i], a, target_mhz),
            capped_above_bins == count_where(c@.take(k as int), f_cap),
            above_already_ok_bins == count_where(c@.take(k as int), f_ok),
            elastic_below_bins == count_where(c@.take(k as int), f_el),
            anchor_count == count_where(c@.take(k as int), f_an),
            capped_above_bins + above_already_ok_bins + elastic_below_bins + anchor_count == k,
            max_negative_flatten_mhz == max_flatten(c@.take(k as int), a, target_mhz),
            0 <= max_negative_flatten_mhz <= POS_SANE_MHZ_MAX,
        decreases c.len() - k,
    {
        proof {
            lemma_take_last(c@, k as int);
            lemma_count_step(c@, k as int, f_cap);
            lemma_count_step(c@, k as int, f_ok);
            lemma_count_step(c@, k as int, f_el);
            lemma_count_step(c@, k as int, f_an);
        }
        let (index, voltage_mv, base_mhz) = c[k];
        assert(sane_point(c@[k as int].1, c@[k as int].2));
        proof {
            lemma_u32_as_i32(base_mhz);
        }
        if index == anchor.index {
            entries.push(
                AnchoredBinEntry {
                    index,
                    voltage_mv,
                    base_mhz,
                    offset_mhz: anchor.offset_mhz,
                    effective_mhz: target_mhz,
                    role: AnchoredBinRole::Anchor,
                },
            );
            anchor_count = anchor_count + 1;
        } else if voltage_mv > anchor_mv {
            let base_i = base_mhz as i32;
            let offset: i32 = if base_i > target_i { target_i - base_i } else { 0 };
            let effective: i32 = base_i + offset;
            if offset < 0 {
                capped_above_bins = capped_above_bins + 1;
                if -offset > max_negative_flatten_mhz {
                    max_negative_flatten_mhz = -offset;
                }
            } else {
                above_already_ok_bins = above_already_ok_bins + 1;
            }
            entries.push(
                AnchoredBinEntry {
                    index,
                    voltage_mv,
                    base_mhz,
                    offset_mhz: offset,
                    effective_mhz: effective as u32,
                    role: AnchoredBinRole::CappedAbove,
                },
            );
        } else {
            if base_mhz as i32 > target_i {
                assert(lower_bin_violates(c@[k as int], a, target_mhz));
                proof {
                    lemma_first_lower_violation(c@, a, target_mhz, k as int);
                }
                return Err(non_monotone_message(voltage_mv, base_mhz, target_mhz));
            }
            elastic_below_bins = elastic_below_bins + 1;
            entries.push(
                AnchoredBinEntry {
                    index,
                    voltage_mv,
                    base_mhz,
                    offset_mhz: 0,
                    effective_mhz: base_mhz,
                    role: AnchoredBinRole::ElasticBelow,
                },
            );
        }
        assert(entries@ =~= anchored_entries(c@, a, target_mhz).take(k + 1));
        k = k + 1;
    }
    assert(c@.take(c@.len() as int) =~= c@);
    assert(entries@ =~= anchored_entries(c@, a, target_mhz));
    if anchor_count != 1 {
        return Err(
            String::from_str("F2 anchored: plan would carry a positive offset outside the anchor bin — fail closed"),
        );
    }
    Ok(
        AnchoredPositiveOffsetPlan {
            target_mhz,
            anchor,
            entries,
            capped_above_bins,
            above_already_ok_bins,
            elastic_below_bins,
            max_positive_offset_mhz: anchor.offset_mhz,
            max_negative_flatten_mhz,
        },
    )
}


/// The refusal when the static VF-table base could not be read.
pub open spec fn empty_static_base_text() -> Seq<char> {
    "static VF-table base unavailable (read_vf_base_curve_modern empty) — fail closed"@
}

/// The refusal when no static-base bin reaches the ceiling.
pub open spec fn no_bin_at_ceiling_text(ceiling_mv: u32) -> Seq<char> {
    "no static-base bin at/above ceiling "@ + decimal(ceiling_mv as nat) + " mV — fail closed"@
}

/// The writes of the build-frontier monotone-down ceiling over the static VF-table base, decided
/// before anything is written: fails closed on an empty base or when no bin sits at/above the
/// ceiling (never falling back to the live curve); otherwise the monotone plan, whose offsets
/// are all `≤ 0` for clocks that fit an `i32`.
pub fn monotone_ceiling_writes(static_base_curve: &[CurvePoint], ceiling_mv: u32, target_mhz: u32) -> (r: Result<
    Vec<VfWritePlanEntry>,
    String,
>)
    requires
        monotone_plan_fits(static_base_curve@, ceiling_mv, target_mhz),
    ensures
        match r {
            Ok(plan) => {
                &&& static_base_curve@.len() > 0
                &&& exists|i: int| 0 <= i < static_base_curve@.len() && #[trigger] static_base_curve@[i].1 >= ceiling_mv
                &&& plan@.len() == static_base_curve@.len()
                &&& forall|i: int|
                    0 <= i < static_base_curve@.len() ==> plan@[i] == monotone_plan_entry(
                        static_base_curve@[i],
                        ceiling_mv,
                        target_mhz,
                    )
                &&& forall|i: int|
                    0 <= i < plan@.len() && target_mhz <= i32::MAX && static_base_curve@[i].2 <= i32::MAX
                        ==> #[trigger] plan@[i].desired_offset_mhz <= 0
            },
            Err(e) => if static_base_curve@.len() == 0 {
                e@ == empty_static_base_text()
            } else {
                &&& forall|i: int| 0 <= i < static_base_curve@.len() ==> #[trigger] static_base_curve@[i].1 < ceiling_mv
                &&& e@ == no_bin_at_ceiling_text(ceiling_mv)
            },
        },
{
    if static_base_curve.len() == 0 {
        return Err(
            String::from_str("static VF-table base unavailable (read_vf_base_curve_modern empty) — fail closed"),
        );
    }
    let plan = plan_vf_ceiling_monotone(static_base_curve, ceiling_mv, target_mhz);
    let mut k: usize = 0;
    while k < plan.len() && !plan[k].in_flatten_set
        invariant
            k <= plan@.len(),
            plan@.len() == static_base_curve@.len(),
            forall|i: int|
                0 <= i < static_base_curve@.len() ==> plan@[i] == monotone_plan_entry(
                    static_base_curve@[i],
                    ceiling_mv,
                    target_mhz,
                ),
            forall|i: int| 0 <= i < k ==> static_base_curve@[i].1 < ceiling_mv,
        decreases plan@.len() - k,
    {
        k = k + 1;
    }
    if k == plan.len() {
        let mut m = String::from_str("no static-base bin at/above ceiling ");
        m.append(decimal_text(ceiling_mv as u64).as_str());
        m.append(" mV — fail closed");
        return Err(m);
    }
    proof {
        assert(static_base_curve@[k as int].1 >= ceiling_mv);
        assert forall|i: int|
            0 <= i < plan@.len() && target_mhz <= i32::MAX && static_base_curve@[i].2 <= i32::MAX implies
            #[trigger] plan@[i].desired_offset_mhz <= 0 by {
            let p = static_base_curve@[i];
            if p.1 >= ceiling_mv && p.2 > target_mhz {
                lemma_u32_as_i32(target_mhz);
                lemma_u32_as_i32(p.2);
            }
        }
    }
    Ok(plan)
}

/// What a reset readback of one point says: `None` when the point is back at stock (within
/// 1 MHz), else the refusal naming the point and its remaining offset or the missing readback.
pub open spec fn reset_readback_text(index: usize, readback_khz: Option<i32>) -> Option<Seq<char>> {
    match readback_khz {
        Some(khz) => if -1000 <= khz <= 1000 {
            None
        } else {
            Some("VF reset: point "@ + decimal(index as nat) + " still has "@ + signed_decimal(khz as int)
                + " kHz offset"@)
        },
        None => Some("VF reset: point "@ + decimal(index as nat) + " readback unavailable"@),
    }
}

/// Judge one point's readback after a reset write: proven stock only when the remaining offset
/// is within ±1000 kHz.
pub fn reset_readback_verdict(index: usize, readback_khz: Option<i32>) -> (r: Result<(), String>)
    requires
        readback_khz != Some(i32::MIN),
    ensures
        match reset_readback_text(index, readback_khz) {
            None => r is Ok,
            Some(t) => r is Err && r->Err_0@ == t,
        },
{
    match readback_khz {
        Some(khz) => {
            let magnitude: i32 = if khz < 0 {
                -khz
            } else {
                khz
            };
            if magnitude <= 1000 {
                Ok(())
            } else {
                let mut m = String::from_str("VF reset: point ");
                m.append(decimal_text(index as u64).as_str());
                m.append(" still has ");
                m.append(signed_decimal_text(khz as i64).as_str());
                m.append(" kHz offset");
                Err(m)
            }
        },
        None => {
            let mut m = String::from_str("VF reset: point ");
            m.append(decimal_text(index as u64).as_str());
            m.append(" readback unavailable");
            Err(m)
        },
    }
}


/// The curve points a GetStatus sweep reports: every index whose voltage is nonzero, as
/// `(index, voltage_mv, freq_mhz)` with the kHz/µV readings truncated to MHz/mV, in index order.
pub open spec fn status_points(status: Seq<Option<(u32, u32)>>) -> Seq<CurvePoint>
    decreases status.len(),
{
    if status.len() == 0 {
        Seq::empty()
    } else {
        let rest = status_points(status.drop_last());
        let i = status.len() - 1;
        match status.last() {
            Some((f_khz, uv)) => if uv > 0 {
                rest.push((i as usize, (uv / 1000) as u32, (f_khz / 1000) as u32))
            } else {
                rest
            },
            None => rest,
        }
    }
}

/// Build the curve from per-index GetStatus readings `(freq_khz, voltage_uv)`: the points with a
/// nonzero voltage, converted to MHz/mV, in index order.
pub fn curve_points_from_status(status: &[Option<(u32, u32)>]) -> (r: Vec<CurvePoint>)
    ensures
        r@ == status_points(status@),
{
    let mut out: Vec<CurvePoint> = Vec::new();
    let mut i: usize = 0;
    while i < status.len()
        invariant
            i <= status@.len(),
            out@ == status_points(status@.take(i as int)),
        decreases status@.len() - i,
    {
        proof {
            assert(status@.take(i + 1).drop_last() =~= status@.take(i as int));
        }
        match status[i] {
            Some((f_khz, uv)) => {
                if uv > 0 {
                    out.push((i, uv / 1000, f_khz / 1000));
                }
            },
            None => {},
        }
        i = i + 1;
    }
    proof {
        assert(status@.take(status@.len() as int) =~= status@);
    }
    out
}

/// One graphics point of the driver's legacy VFP table: `(point index, voltage in µV, frequency
/// in kHz)`.
pub type VfpTablePoint = (usize, u32, u32);

/// The point sits at/above the ceiling, its voltage read in whole mV.
pub open spec fn vfp_at_ceiling(p: VfpTablePoint, ceiling_mv: u32) -> bool {
    p.1 / 1000 >= ceiling_mv
}

/// `target − f` in MHz, with `f` the point's clock in whole MHz and the target read as a signed
/// 32-bit value.
pub open spec fn vfp_mhz_gap(p: VfpTablePoint, target_mhz: u32) -> int {
    (target_mhz as i32) - p.2 / 1000
}

/// The table delta the legacy flatten ceiling writes to one point: the MHz gap in table units.
pub open spec fn vfp_table_delta(p: VfpTablePoint, target_mhz: u32, khz_per_mhz: i32) -> int {
    vfp_mhz_gap(p, target_mhz) * khz_per_mhz
}

/// No gap or table delta of a point at/above the ceiling overflows an `i32`.
pub open spec fn vfp_ceiling_fits(c: Seq<VfpTablePoint>, ceiling_mv: u32, target_mhz: u32, khz_per_mhz: i32) -> bool {
    forall|i: int|
        0 <= i < c.len() && vfp_at_ceiling(c[i], ceiling_mv) ==> {
            &&& i32::MIN <= vfp_mhz_gap(#[trigger] c[i], target_mhz)
            &&& i32::MIN <= vfp_table_delta(c[i], target_mhz, khz_per_mhz) <= i32::MAX
        }
}

/// The legacy flatten-ceiling deltas: `(index, delta)` for each point at/above the ceiling, in
/// table order.
pub open spec fn vfp_ceiling_deltas_of(c: Seq<VfpTablePoint>, ceiling_mv: u32, target_mhz: u32, khz_per_mhz: i32) -> Seq<
    (usize, i32),
>
    decreases c.len(),
{
    if c.len() == 0 {
        Seq::empty()
    } else {
        let rest = vfp_ceiling_deltas_of(c.drop_last(), ceiling_mv, target_mhz, khz_per_mhz);
        let p = c.last();
        if vfp_at_ceiling(p, ceiling_mv) {
            rest.push((p.0, vfp_table_delta(p, target_mhz, khz_per_mhz) as i32))
        } else {
            rest
        }
    }
}

/// The refusal when no legacy table point reaches the ceiling.
pub open spec fn no_point_at_ceiling_text() -> Seq<char> {
    "no curve points at/above the ceiling voltage"@
}

/// The table deltas of the legacy VFP-table ceiling (`khz_per_mhz` is the calibrated table unit):
/// every point at/above `ceiling_mv` gets `(target − f) · khz_per_mhz`; lower points are left out.
/// Refuses when no point reaches the ceiling.
pub fn vfp_ceiling_deltas(curve: &[VfpTablePoint], ceiling_mv: u32, target_mhz: u32, khz_per_mhz: i32) -> (r: Result<
    Vec<(usize, i32)>,
    String,
>)
    requires
        vfp_ceiling_fits(curve@, ceiling_mv, target_mhz, khz_per_mhz),
    ensures
        match r {
            Ok(d) => d@.len() > 0 && d@ == vfp_ceiling_deltas_of(curve@, ceiling_mv, target_mhz, khz_per_mhz),
            Err(e) => vfp_ceiling_deltas_of(curve@, ceiling_mv, target_mhz, khz_per_mhz).len() == 0
                && e@ == no_point_at_ceiling_text(),
        },
{
    let mut out: Vec<(usize, i32)> = Vec::new();
    let mut i: usize = 0;
    while i < curve.len()
        invariant
            i <= curve@.len(),
            vfp_ceiling_fits(curve@, ceiling_mv, target_mhz, khz_per_mhz),
            out@ == vfp_ceiling_deltas_of(curve@.take(i as int), ceiling_mv, target_mhz, khz_per_mhz),
        decreases curve@.len() - i,
    {
        proof {
            assert(curve@.take(i + 1).drop_last() =~= curve@.take(i as int));
            assert(curve@.take(i + 1).last() == curve@[i as int]);
        }
        let (index, voltage_uv, freq_khz) = curve[i];
        if voltage_uv / 1000 >= ceiling_mv {
            proof {
                assert(vfp_at_ceiling(curve@[i as int], ceiling_mv));
            }
            let f: i32 = (freq_khz / 1000) as i32;
            let gap: i32 = target_mhz as i32 - f;
            let delta: i32 = gap * khz_per_mhz;
            out.push((index, delta));
        }
        i = i + 1;
    }
    proof {
        assert(curve@.take(curve@.len() as int) =~= curve@);
    }
    if out.len() == 0 {
        return Err(String::from_str("no curve points at/above the ceiling voltage"));
    }
    Ok(out)
}

/// `i` is the point the unit calibration probes: the highest voltage, the last such point in
/// table order.
pub open spec fn is_calibration_point(c: Seq<VfpTablePoint>, i: int) -> bool {
    &&& 0 <= i < c.len()
    &&& forall|j: int| 0 <= j < c.len() ==> c[j].1 <= c[i].1
    &&& forall|j: int| i < j < c.len() ==> c[j].1 < c[i].1
}

/// The point the table-unit calibration probes, as `(index, base clock in MHz)`: the top-voltage
/// graphics point (the last one among equals). `None` for an empty table.
pub fn vfp_calibration_point(curve: &[VfpTablePoint]) -> (r: Option<(usize, i32)>)
    ensures
        curve@.len() == 0 <==> r is None,
        r matches Some((idx, base)) ==> exists|i: int|
            is_calibration_point(curve@, i) && idx == curve@[i].0 && base == curve@[i].2 / 1000,
{
    if curve.len() == 0 {
        return None;
    }
    let mut best: usize = 0;
    let mut i: usize = 1;
    while i < curve.len()
        invariant
            1 <= i <= curve@.len(),
            best < i,
            forall|j: int| 0 <= j < i ==> curve@[j].1 <= curve@[best as int].1,
            forall|j: int| best < j < i ==> curve@[j].1 < curve@[best as int].1,
        decreases curve@.len() - i,
    {
        if curve[i].1 >= curve[best].1 {
            best = i;
        }
        i = i + 1;
    }
    let (idx, _, freq_khz) = curve[best];
    let base: i32 = (freq_khz / 1000) as i32;
    proof {
        assert(is_calibration_point(curve@, best as int));
    }
    Some((idx, base))
}

/// The lowering delta, in table units, that the unit calibration writes to its probe point.
pub const VFP_CALIBRATION_PROBE: i32 = -30000;

/// The outcome of the table-unit calibration from the re-read table: `(probe units, MHz the
/// probe point moved, its base MHz)`. The moved clock is read from the first re-read point with
/// the probe's index; when none is there the point counts as unmoved.
pub fn vfp_calibration_outcome(probe_index: usize, base_mhz: i32, reread: &[VfpTablePoint]) -> (r: (i32, i32, i32))
    requires
        0 <= base_mhz,
    ensures
        r.0 == VFP_CALIBRATION_PROBE,
        r.2 == base_mhz,
        (exists|i: int| is_first_vfp_with_index(reread@, probe_index, i) && r.1 == reread@[i].2 / 1000 - base_mhz)
            || ((forall|i: int| 0 <= i < reread@.len() ==> reread@[i].0 != probe_index) && r.1 == 0),
{
    let mut i: usize = 0;
    while i < reread.len()
        invariant
            i <= reread@.len(),
            0 <= base_mhz,
            forall|j: int| 0 <= j < i ==> reread@[j].0 != probe_index,
        decreases reread@.len() - i,
    {
        if reread[i].0 == probe_index {
            let after: i32 = (reread[i].2 / 1000) as i32;
            proof {
                assert(reread@[i as int].2 / 1000 <= 4294967);
                assert(after == reread@[i as int].2 / 1000);
                assert(is_first_vfp_with_index(reread@, probe_index, i as int));
            }
            return (VFP_CALIBRATION_PROBE, after - base_mhz, base_mhz);
        }
        i = i + 1;
    }
    (VFP_CALIBRATION_PROBE, 0, base_mhz)
}

/// `i` is the first table position carrying point index `idx`.
pub open spec fn is_first_vfp_with_index(c: Seq<VfpTablePoint>, idx: usize, i: int) -> bool {
    0 <= i < c.len() && c[i].0 == idx && forall|j: int| 0 <= j < i ==> c[j].0 != idx
}

/// The refusal when the driver rejects the write of point `index` with `status`.
pub open spec fn set_point_failure_text(prefix: Seq<char>, index: usize, status: i32) -> Seq<char> {
    prefix + "set_point("@ + decimal(index as nat) + ") status "@ + signed_decimal(status as int)
}

/// One step of writing a plan to the curve, after the driver answered the write of point `index`
/// (offset `offset_mhz`) with `status`: a nonzero status ends the write-out with the refusal
/// (`prefix` names the caller); an accepted write adds one to `written` when its offset is
/// nonzero.
pub fn point_write_step(written: usize, index: usize, offset_mhz: i32, status: i32, prefix: &str) -> (r: Result<
    usize,
    String,
>)
    requires
        written < usize::MAX,
    ensures
        status == 0 ==> r == Ok::<usize, String>(if offset_mhz != 0 { (written + 1) as usize } else { written }),
        status != 0 ==> (r matches Err(e) && e@ == set_point_failure_text(prefix@, index, status)),
{
    if status != 0 {
        let mut m = String::from_str(prefix);
        m.append("set_point(");
        m.append(decimal_text(index as u64).as_str());
        m.append(") status ");
        m.append(signed_decimal_text(status as i64).as_str());
        return Err(m);
    }
    if offset_mhz != 0 {
        Ok(written + 1)
    } else {
        Ok(written)
    }
}

} // verus!
