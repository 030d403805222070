//! GPU undervolt sweep engine: find the minimum stable voltage per frequency by walking the
//! stability frontier from the safe side, then synthesize the three named profiles.
//!
//! This is a pure step machine: it emits [`SweepCommand`]s ("apply this point and test it") and
//! consumes [`StabilityResult`]s. It performs no I/O.
use vstd::prelude::*;

verus! {

/// A point on the voltage/frequency curve.
#[derive(Debug, Clone, Copy, PartialEq, Eq)]
pub struct VfPoint {
    pub freq_mhz: u32,
    pub voltage_mv: u32,
}

/// Outcome of evaluating a candidate point.
#[derive(Debug, Clone, Copy, PartialEq, Eq)]
pub enum StabilityResult {
    /// Compute validation matched the known answer and no WHEA/crash occurred.
    Stable,
    /// The workload ran but showed a marginal-silicon symptom (stall, slowdown) without output
    /// corruption.
    Unstable,
    /// Driver/output produced wrong results without crashing.
    SilentError,
    /// Hard fault (driver TDR / crash / WHEA).
    Crash,
}

impl StabilityResult {
    pub fn is_stable(self) -> (r: bool)
        ensures
            r == (self == StabilityResult::Stable),
    {
        match self {
            StabilityResult::Stable => true,
            _ => false,
        }
    }
}

/// Compute validation: any divergence from the known-good checksum is a silent error.
pub fn validate_compute(expected: u64, actual: u64) -> (r: StabilityResult)
    ensures
        r == if expected == actual { StabilityResult::Stable } else { StabilityResult::SilentError },
{
    if expected == actual {
        StabilityResult::Stable
    } else {
        StabilityResult::SilentError
    }
}

/// Apply the safety margin to a measured stability cliff: a fixed buffer plus a temperature
/// coefficient times the thermal headroom.
pub fn apply_safety_margin(cliff_mv: u32, fixed_margin_mv: u32, temp_coeff_mv_per_c: u32, headroom_c: u32) -> (r: u32)
    requires
        cliff_mv + fixed_margin_mv + temp_coeff_mv_per_c * headroom_c <= u32::MAX,
    ensures
        r == cliff_mv + fixed_margin_mv + temp_coeff_mv_per_c * headroom_c,
{
    proof {
        assert(0 <= temp_coeff_mv_per_c * headroom_c) by (nonlinear_arith);
    }
    cliff_mv + fixed_margin_mv + temp_coeff_mv_per_c * headroom_c
}

/// Bisection search for the minimum stable voltage at a fixed frequency. Descends from a
/// known-stable voltage; once an unstable point is found it bisects the gap until it is within
/// `min_step_mv`.
#[derive(Debug, Clone, PartialEq, Eq)]
pub struct VoltageBisection {
    pub freq_mhz: u32,
    /// Lowest voltage proven stable so far (starts at the stock voltage).
    pub stable_mv: u32,
    /// Highest voltage proven unstable so far, if any.
    pub unstable_mv: Option<u32>,
    /// Don't probe below this hard floor.
    pub floor_mv: u32,
    /// Coarse descent step before a cliff is bracketed.
    pub descent_step_mv: u32,
    /// Convergence threshold for the bisection gap.
    pub min_step_mv: u32,
    /// The point currently under test (None until `next_test` is called).
    pub current_mv: Option<u32>,
}

/// `a - b`, saturating at 0.
pub open spec fn sat_sub(a: u32, b: u32) -> u32 {
    if a > b { (a - b) as u32 } else { 0 }
}

/// The voltage the bisection tests next (`None` when converged).
pub open spec fn bisection_candidate(b: VoltageBisection) -> Option<u32> {
    match b.unstable_mv {
        None => if b.stable_mv <= b.floor_mv {
            None
        } else {
            let d = sat_sub(b.stable_mv, b.descent_step_mv);
            Some(if d > b.floor_mv { d } else { b.floor_mv })
        },
        Some(u) => if sat_sub(b.stable_mv, u) <= b.min_step_mv {
            None
        } else {
            Some((u + (b.stable_mv - u) / 2) as u32)
        },
    }
}

/// The search has converged: nothing lower to try, or the bracket is within `min_step_mv`.
pub open spec fn bisection_converged(b: VoltageBisection) -> bool {
    match b.unstable_mv {
        None => b.stable_mv <= b.floor_mv,
        Some(u) => sat_sub(b.stable_mv, u) <= b.min_step_mv,
    }
}

/// The search's progress measure: how far it can still move.
pub open spec fn bisection_measure(b: VoltageBisection) -> int {
    match b.unstable_mv {
        None => b.stable_mv - b.floor_mv + u32::MAX + 1,
        Some(u) => b.stable_mv - u,
    }
}

fn midpoint(a: u32, b: u32) -> (r: u32)
    requires
        a <= b,
    ensures
        r == a + (b - a) / 2,
        a <= r <= b,
{
    a + (b - a) / 2
}

impl VoltageBisection {
    pub fn new(freq_mhz: u32, stock_mv: u32, floor_mv: u32, descent_step_mv: u32, min_step_mv: u32) -> (r: Self)
        ensures
            r == (VoltageBisection {
                freq_mhz,
                stable_mv: stock_mv,
                unstable_mv: None,
                floor_mv,
                descent_step_mv: if descent_step_mv > 1 { descent_step_mv } else { 1 },
                min_step_mv: if min_step_mv > 1 { min_step_mv } else { 1 },
                current_mv: None,
            }),
    {
        Self {
            freq_mhz,
            stable_mv: stock_mv,
            unstable_mv: None,
            floor_mv,
            descent_step_mv: if descent_step_mv > 1 { descent_step_mv } else { 1 },
            min_step_mv: if min_step_mv > 1 { min_step_mv } else { 1 },
            current_mv: None,
        }
    }

    /// The next voltage to test, or `None` when converged. Records it as the point under test.
    pub fn next_test(&mut self) -> (r: Option<u32>)
        ensures
            r == bisection_candidate(*old(self)),
            *final(self) == (VoltageBisection { current_mv: r, ..*old(self) }),
            r is None <==> bisection_converged(*old(self)),
    {
        let candidate = match self.unstable_mv {
            None => {
                if self.stable_mv <= self.floor_mv {
                    None
                } else {
                    let d = self.stable_mv.saturating_sub(self.descent_step_mv);
                    Some(if d > self.floor_mv { d } else { self.floor_mv })
                }
            },
            Some(unstable) => {
                if self.stable_mv.saturating_sub(unstable) <= self.min_step_mv {
                    None
                } else {
                    Some(midpoint(unstable, self.stable_mv))
                }
            },
        };
        self.current_mv = candidate;
        candidate
    }

    /// Feed back the result of testing [`Self::current_mv`]: a stable result lowers the proven
    /// stable voltage, any other result raises the proven unstable voltage.
    pub fn record(&mut self, result: StabilityResult)
        ensures
            match old(self).current_mv {
                None => *final(self) == *old(self),
                Some(tested) => if result == StabilityResult::Stable {
                    *final(self) == (VoltageBisection {
                        stable_mv: if tested < old(self).stable_mv {
                            tested
                        } else {
                            old(self).stable_mv
                        },
                        current_mv: None,
                        ..*old(self)
                    })
                } else {
                    *final(self) == (VoltageBisection {
                        unstable_mv: Some(
                            match old(self).unstable_mv {
                                None => tested,
                                Some(u) => if u > tested { u } else { tested },
                            },
                        ),
                        current_mv: None,
                        ..*old(self)
                    })
                },
            },
    {
        let tested = match self.current_mv {
            Some(t) => t,
            None => {
                return;
            },
        };
        if result.is_stable() {
            if tested < self.stable_mv {
                self.stable_mv = tested;
            }
        } else {
            self.unstable_mv = Some(
                match self.unstable_mv {
                    None => tested,
                    Some(u) => if u > tested { u } else { tested },
                },
            );
        }
        self.current_mv = None;
    }

    /// Whether the search has converged on a minimum stable voltage (does not change the search).
    pub fn is_converged(&mut self) -> (r: bool)
        ensures
            r == bisection_converged(*old(self)),
            *final(self) == *old(self),
    {
        match self.unstable_mv {
            None => self.stable_mv <= self.floor_mv,
            Some(unstable) => self.stable_mv.saturating_sub(unstable) <= self.min_step_mv,
        }
    }

    /// The search a fresh bisection at `freq_mhz` under `c` starts from.
    pub open spec fn new_spec(freq_mhz: u32, c: GpuSweepConfig) -> VoltageBisection {
        VoltageBisection {
            freq_mhz,
            stable_mv: c.stock_mv,
            unstable_mv: None,
            floor_mv: c.floor_mv,
            descent_step_mv: if c.descent_step_mv > 1 { c.descent_step_mv } else { 1 },
            min_step_mv: if c.min_step_mv > 1 { c.min_step_mv } else { 1 },
            current_mv: None,
        }
    }

    /// `after` is `before` with `result` recorded.
    pub open spec fn record_spec(before: VoltageBisection, result: StabilityResult, after: VoltageBisection) -> bool {
        match before.current_mv {
            None => after == before,
            Some(tested) => if result == StabilityResult::Stable {
                after == (VoltageBisection {
                    stable_mv: if tested < before.stable_mv { tested } else { before.stable_mv },
                    current_mv: None,
                    ..before
                })
            } else {
                after == (VoltageBisection {
                    unstable_mv: Some(
                        match before.unstable_mv {
                            None => tested,
                            Some(u) => if u > tested { u } else { tested },
                        },
                    ),
                    current_mv: None,
                    ..before
                })
            },
        }
    }

    /// The minimum stable voltage found (the cliff, before safety margin).
    pub fn min_stable_mv(&self) -> (r: u32)
        ensures
            r == self.stable_mv,
    {
        self.stable_mv
    }
}

/// Each test proposed by the bisection lies strictly below the proven-stable voltage, at or above
/// the floor while descending, and strictly inside the bracket while bisecting; and testing it
/// (whatever the result) strictly shrinks the search, so the search always converges.
pub proof fn lemma_bisection_progress(b: VoltageBisection, result: StabilityResult)
    requires
        b.descent_step_mv >= 1,
        b.min_step_mv >= 1,
        bisection_candidate(b) is Some,
    ensures
        ({
            let v = bisection_candidate(b)->0;
            &&& v < b.stable_mv
            &&& b.unstable_mv is None ==> v >= b.floor_mv
            &&& b.unstable_mv matches Some(u) ==> u < v
            &&& {
                let tested = VoltageBisection { current_mv: Some(v), ..b };
                let after = if result == StabilityResult::Stable {
                    VoltageBisection { stable_mv: v, current_mv: None, ..b }
                } else {
                    VoltageBisection {
                        unstable_mv: Some(
                            match b.unstable_mv {
                                None => v,
                                Some(u) => if u > v { u } else { v },
                            },
                        ),
                        current_mv: None,
                        ..b
                    }
                };
                0 <= bisection_measure(after) < bisection_measure(b)
            }
        }),
{
}

/// One synthesized, named profile.
#[derive(Debug, PartialEq, Eq)]
pub struct GpuProfile {
    pub name: String,
    pub description: String,
    pub point: VfPoint,
}

impl Clone for GpuProfile {
    fn clone(&self) -> (r: Self)
        ensures
            r == *self,
    {
        GpuProfile { name: self.name.clone(), description: self.description.clone(), point: self.point }
    }
}

/// The three named outputs.
#[derive(Debug, PartialEq, Eq)]
pub struct GpuProfileSet {
    pub godforge: GpuProfile,
    pub brokkrs_best: GpuProfile,
    pub deep_calm: GpuProfile,
}

impl Clone for GpuProfileSet {
    fn clone(&self) -> (r: Self)
        ensures
            r == *self,
    {
        GpuProfileSet {
            godforge: self.godforge.clone(),
            brokkrs_best: self.brokkrs_best.clone(),
            deep_calm: self.deep_calm.clone(),
        }
    }
}

/// A validated (frequency, minimum-stable-voltage) datum from the sweep.
#[derive(Debug, Clone, Copy, PartialEq, Eq)]
pub struct TradeoffPoint {
    pub freq_mhz: u32,
    pub vmin_mv: u32,
}

/// Godforge's choice: the highest frequency, and among those the lowest voltage.
pub open spec fn is_godforge(pts: Seq<TradeoffPoint>, p: TradeoffPoint) -> bool {
    &&& pts.contains(p)
    &&& forall|j: int|
        0 <= j < pts.len() ==> pts[j].freq_mhz < p.freq_mhz || (pts[j].freq_mhz == p.freq_mhz
            && pts[j].vmin_mv >= p.vmin_mv)
}

/// The perf/watt key: MHz per mV (×1000 for integer precision; voltage at least 1).
pub open spec fn perf_per_mv(p: TradeoffPoint) -> int {
    (p.freq_mhz * 1000) / (if p.vmin_mv > 1 { p.vmin_mv as int } else { 1 })
}

/// Brokkr's Best: the last point with the best MHz-per-mV ratio.
pub open spec fn is_brokkrs(pts: Seq<TradeoffPoint>, i: int) -> bool {
    &&& 0 <= i < pts.len()
    &&& forall|j: int| 0 <= j < pts.len() ==> perf_per_mv(pts[j]) <= perf_per_mv(pts[i])
    &&& forall|j: int| i < j < pts.len() ==> perf_per_mv(pts[j]) < perf_per_mv(pts[i])
}

/// 95% of the baseline frequency (integer division).
pub open spec fn deep_calm_threshold(baseline_freq_mhz: u32) -> int {
    (baseline_freq_mhz * 95) / 100
}

/// Deep Calm: among the points holding the threshold, the lowest voltage, then the highest
/// frequency.
pub open spec fn is_deep_calm(pts: Seq<TradeoffPoint>, thr: int, p: TradeoffPoint) -> bool {
    &&& pts.contains(p)
    &&& p.freq_mhz >= thr
    &&& forall|j: int|
        0 <= j < pts.len() && pts[j].freq_mhz >= thr ==> pts[j].vmin_mv > p.vmin_mv || (
        pts[j].vmin_mv == p.vmin_mv && pts[j].freq_mhz <= p.freq_mhz)
}

fn ratio_key(p: TradeoffPoint) -> (r: u64)
    ensures
        r == perf_per_mv(p),
{
    let v: u64 = if p.vmin_mv > 1 { p.vmin_mv as u64 } else { 1 };
    (p.freq_mhz as u64 * 1000) / v
}

fn profile(name: &str, description: &str, p: TradeoffPoint) -> (r: GpuProfile)
    ensures
        r.name@ == name@,
        r.description@ == description@,
        r.point == (VfPoint { freq_mhz: p.freq_mhz, voltage_mv: p.vmin_mv }),
{
    GpuProfile {
        name: String::from_str(name),
        description: String::from_str(description),
        point: VfPoint { freq_mhz: p.freq_mhz, voltage_mv: p.vmin_mv },
    }
}

/// The profile of a tradeoff point.
pub open spec fn point_of(p: TradeoffPoint) -> VfPoint {
    VfPoint { freq_mhz: p.freq_mhz, voltage_mv: p.vmin_mv }
}

/// The profile set synthesized from a tradeoff map: the three names and descriptions, Godforge at the highest
/// frequency's lowest voltage, Deep Calm at the lowest voltage holding ≥95% of the baseline
/// frequency (Godforge's point when none does), Brokkr's Best at the best MHz-per-mV point.
pub open spec fn profiles_fit(baseline_freq_mhz: u32, points: Seq<TradeoffPoint>, set: GpuProfileSet) -> bool {
    &&& set.godforge.name@ == "Godforge"@
    &&& set.brokkrs_best.name@ == "Brokkr's Best"@
    &&& set.deep_calm.name@ == "Deep Calm"@
    &&& set.godforge.description@ == "Highest sustained clock at the lowest stable voltage."@
    &&& set.brokkrs_best.description@ == "Perf/watt knee — every MHz still worth the watt."@
    &&& set.deep_calm.description@ == "Lowest watts while holding >=95% of base clock — cool and quiet."@
    &&& exists|g: TradeoffPoint|
        is_godforge(points, g) && set.godforge.point == point_of(g) && ((exists|d: TradeoffPoint|
            is_deep_calm(points, deep_calm_threshold(baseline_freq_mhz), d) && set.deep_calm.point
                == point_of(d)) || ((forall|j: int|
            0 <= j < points.len() ==> points[j].freq_mhz < deep_calm_threshold(baseline_freq_mhz))
            && set.deep_calm.point == point_of(g)))
    &&& exists|i: int| is_brokkrs(points, i) && set.brokkrs_best.point == point_of(points[i])
}

/// Synthesize the three profiles from the validated tradeoff map: Godforge = highest frequency at
/// its lowest voltage; Brokkr's Best = best MHz-per-mV; Deep Calm = lowest voltage among points
/// holding ≥95% of the baseline frequency (Godforge when none does). `None` when empty.
pub fn synthesize_profiles(baseline_freq_mhz: u32, points: &[TradeoffPoint]) -> (r: Option<GpuProfileSet>)
    ensures
        points@.len() == 0 <==> r is None,
        r matches Some(set) ==> profiles_fit(baseline_freq_mhz, points@, set),
{
    if points.len() == 0 {
        return None;
    }
    // Godforge: highest frequency, lowest voltage among those.
    let mut g: usize = 0;
    let mut i: usize = 1;
    while i < points.len()
        invariant
            1 <= i <= points@.len(),
            g < i,
            forall|j: int|
                0 <= j < i ==> points@[j].freq_mhz < points@[g as int].freq_mhz || (
                points@[j].freq_mhz == points@[g as int].freq_mhz && points@[j].vmin_mv
                    >= points@[g as int].vmin_mv),
        decreases points@.len() - i,
    {
        let p = points[i];
        let best = points[g];
        if p.freq_mhz > best.freq_mhz || (p.freq_mhz == best.freq_mhz && p.vmin_mv <= best.vmin_mv) {
            g = i;
        }
        i = i + 1;
    }
    let godforge = points[g];
    assert(points@.contains(godforge)) by {
        assert(points@[g as int] == godforge);
    }
    // Brokkr's Best: the last maximum of the perf/watt key.
    let mut b: usize = 0;
    let mut best_key: u64 = ratio_key(points[0]);
    let mut k: usize = 1;
    while k < points.len()
        invariant
            1 <= k <= points@.len(),
            b < k,
            best_key == perf_per_mv(points@[b as int]),
            forall|j: int| 0 <= j < k ==> perf_per_mv(points@[j]) <= best_key,
            forall|j: int| b < j < k ==> perf_per_mv(points@[j]) < best_key,
        decreases points@.len() - k,
    {
        let key = ratio_key(points[k]);
        if key >= best_key {
            b = k;
            best_key = key;
        }
        k = k + 1;
    }
    assert(is_brokkrs(points@, b as int));
    let brokkrs = points[b];
    // Deep Calm: among points holding ≥95% baseline, the lowest voltage (then highest frequency).
    let threshold = (baseline_freq_mhz as u64 * 95 / 100) as u32;
    let mut d: usize = 0;
    let mut found = false;
    let mut m: usize = 0;
    while m < points.len()
        invariant
            0 <= m <= points@.len(),
            threshold == deep_calm_threshold(baseline_freq_mhz),
            found ==> d < m && points@[d as int].freq_mhz >= threshold,
            found ==> forall|j: int|
                0 <= j < m && points@[j].freq_mhz >= threshold ==> points@[j].vmin_mv
                    > points@[d as int].vmin_mv || (points@[j].vmin_mv == points@[d as int].vmin_mv
                    && points@[j].freq_mhz <= points@[d as int].freq_mhz),
            !found ==> forall|j: int| 0 <= j < m ==> points@[j].freq_mhz < threshold,
        decreases points@.len() - m,
    {
        let p = points[m];
        if p.freq_mhz >= threshold {
            if !found || p.vmin_mv < points[d].vmin_mv || (p.vmin_mv == points[d].vmin_mv
                && p.freq_mhz > points[d].freq_mhz) {
                d = m;
                found = true;
            }
        }
        m = m + 1;
    }
    let deep = if found {
        assert(points@.contains(points@[d as int]));
        points[d]
    } else {
        godforge
    };
    assert(is_godforge(points@, godforge));
    assert(found ==> is_deep_calm(points@, deep_calm_threshold(baseline_freq_mhz), deep));
    let set = GpuProfileSet {
            godforge: profile(
                "Godforge",
                "Highest sustained clock at the lowest stable voltage.",
                godforge,
            ),
            brokkrs_best: profile(
                "Brokkr's Best",
                "Perf/watt knee — every MHz still worth the watt.",
                brokkrs,
            ),
            deep_calm: profile(
                "Deep Calm",
                "Lowest watts while holding >=95% of base clock — cool and quiet.",
                deep,
            ),
        };
    assert(set.deep_calm.point == point_of(deep));
    assert(set.godforge.point == point_of(godforge));
    assert(set.brokkrs_best.point == point_of(points@[b as int]));
    Some(set)
}

/// Reported phase of the overall pipeline.
#[derive(Debug, Clone, Copy, PartialEq, Eq)]
pub enum SweepPhase {
    Idle,
    Baseline,
    VramDiagnostic,
    VoltageBisection,
    Synthesis,
    Done,
    Aborted,
}

/// Configuration for a sweep run.
#[derive(Debug, Clone, PartialEq, Eq)]
pub struct GpuSweepConfig {
    /// Target frequencies to characterize (descending sustained clocks).
    pub target_freqs_mhz: Vec<u32>,
    /// Stock voltage at the ceiling, the known-stable starting point.
    pub stock_mv: u32,
    /// Hard voltage floor — never probe below this.
    pub floor_mv: u32,
    pub descent_step_mv: u32,
    pub min_step_mv: u32,
    pub fixed_margin_mv: u32,
    pub temp_coeff_mv_per_c: u32,
    pub temp_headroom_c: u32,
}

impl Default for GpuSweepConfig {
    fn default() -> (r: Self)
        ensures
            r.target_freqs_mhz@ == seq![1950u32, 1875, 1800, 1695],
            r.stock_mv == 1050,
            r.floor_mv == 700,
            r.descent_step_mv == 25,
            r.min_step_mv == 5,
            r.fixed_margin_mv == 15,
            r.temp_coeff_mv_per_c == 1,
            r.temp_headroom_c == 15,
    {
        let mut freqs: Vec<u32> = Vec::new();
        freqs.push(1950);
        freqs.push(1875);
        freqs.push(1800);
        freqs.push(1695);
        Self {
            target_freqs_mhz: freqs,
            stock_mv: 1050,
            floor_mv: 700,
            descent_step_mv: 25,
            min_step_mv: 5,
            fixed_margin_mv: 15,
            temp_coeff_mv_per_c: 1,
            temp_headroom_c: 15,
        }
    }
}

/// What the engine wants the runtime to do next.
#[derive(Debug, Clone, PartialEq, Eq)]
pub enum SweepCommand {
    /// Apply this point (arm Safe Loop, set V/F), dwell, run validation, report.
    ApplyAndTest { point: VfPoint },
    /// Sweep is finished; profiles are available.
    Finished,
}

/// Live progress snapshot for the UI.
#[derive(Debug, Clone, PartialEq, Eq)]
pub struct GpuSweepProgress {
    pub phase: SweepPhase,
    pub current: Option<VfPoint>,
    pub freq_index: usize,
    pub total_freqs: usize,
    pub tradeoffs: Vec<TradeoffPoint>,
    pub profiles: Option<GpuProfileSet>,
    /// True when running against the simulated tuner (no real hardware writes).
    pub simulated: bool,
}

/// The pure sweep step machine: characterizes vmin per target frequency, then synthesizes the
/// profiles. Drive it with [`Self::next_command`] / [`Self::record`]; it performs no I/O.
#[derive(Debug, Clone)]
pub struct GpuSweepEngine {
    config: GpuSweepConfig,
    baseline_freq_mhz: u32,
    phase: SweepPhase,
    freq_index: usize,
    bisection: Option<VoltageBisection>,
    tradeoffs: Vec<TradeoffPoint>,
    profiles: Option<GpuProfileSet>,
    simulated: bool,
}

/// The voltage recorded for a frequency: the cliff plus the configured safety margin.
pub open spec fn margin_of(c: GpuSweepConfig, cliff_mv: int) -> int {
    cliff_mv + c.fixed_margin_mv + c.temp_coeff_mv_per_c * c.temp_headroom_c
}

/// The tradeoff a converged search records: its frequency at its minimum stable voltage plus the
/// safety margin.
pub open spec fn converged_tradeoff(c: GpuSweepConfig, b: VoltageBisection) -> TradeoffPoint {
    TradeoffPoint { freq_mhz: b.freq_mhz, vmin_mv: margin_of(c, b.stable_mv as int) as u32 }
}

/// Where the sweep lands from target cursor `fi` with search `b`: every search that has
/// converged records its tradeoff and the cursor moves to the next target (a missing search starts
/// fresh at stock), until a search still has a voltage to test or the targets run out. Yields the
/// tradeoffs recorded on the way, the final cursor and the search left under test (`None` once
/// every target has been searched).
pub open spec fn sweep_advance(c: GpuSweepConfig, fi: int, b: Option<VoltageBisection>) -> (
    Seq<TradeoffPoint>,
    int,
    Option<VoltageBisection>,
)
    decreases c.target_freqs_mhz@.len() - fi, if b is Some { 0int } else { 1int },
{
    if fi < 0 || fi >= c.target_freqs_mhz@.len() {
        (Seq::empty(), fi, None)
    } else {
        match b {
            None => sweep_advance(c, fi, Some(VoltageBisection::new_spec(c.target_freqs_mhz@[fi], c))),
            Some(bb) => if bisection_converged(bb) {
                let next = sweep_advance(c, fi + 1, None);
                (seq![converged_tradeoff(c, bb)].add(next.0), next.1, next.2)
            } else {
                (Seq::empty(), fi, Some(bb))
            },
        }
    }
}

impl GpuSweepEngine {
    pub closed spec fn config_view(&self) -> GpuSweepConfig {
        self.config
    }

    pub closed spec fn phase_view(&self) -> SweepPhase {
        self.phase
    }

    pub closed spec fn freq_index_view(&self) -> int {
        self.freq_index as int
    }

    pub closed spec fn bisection_view(&self) -> Option<VoltageBisection> {
        self.bisection
    }

    pub closed spec fn tradeoffs_view(&self) -> Seq<TradeoffPoint> {
        self.tradeoffs@
    }

    pub closed spec fn profiles_view(&self) -> Option<GpuProfileSet> {
        self.profiles
    }

    pub open spec fn has_profiles(&self) -> bool {
        self.profiles_view() is Some
    }

    pub closed spec fn baseline_view(&self) -> u32 {
        self.baseline_freq_mhz
    }

    pub closed spec fn simulated_view(&self) -> bool {
        self.simulated
    }

    /// The engine's structural invariant: the frequency cursor stays within the targets, and a
    /// running bisection searches the current target from at most the stock voltage.
    pub closed spec fn inv(&self) -> bool {
        &&& self.freq_index <= self.config.target_freqs_mhz@.len()
        &&& self.profiles is Some ==> (self.phase == SweepPhase::Done || self.phase == SweepPhase::Aborted)
        &&& self.profiles matches Some(set) ==> profiles_fit(self.baseline_freq_mhz, self.tradeoffs@, set)
        &&& self.phase == SweepPhase::Done ==> {
            &&& self.freq_index == self.config.target_freqs_mhz@.len()
            &&& self.bisection is None
            &&& (self.profiles is Some <==> self.tradeoffs@.len() > 0)
        }
        &&& self.bisection matches Some(b) ==> {
            &&& self.freq_index < self.config.target_freqs_mhz@.len()
            &&& b.freq_mhz == self.config.target_freqs_mhz@[self.freq_index as int]
            &&& b.stable_mv <= self.config.stock_mv
            &&& b.floor_mv == self.config.floor_mv
            &&& b.descent_step_mv >= 1
            &&& b.min_step_mv >= 1
        }
    }

    /// The stock voltage plus the safety margin fits a `u32` (every recorded voltage then does).
    pub open spec fn margins_fit(&self) -> bool {
        margin_of(self.config_view(), self.config_view().stock_mv as int) <= u32::MAX
    }

    pub fn new(config: GpuSweepConfig, baseline_freq_mhz: u32, simulated: bool) -> (r: Self)
        ensures
            r.inv(),
            r.config_view() == config,
            r.baseline_view() == baseline_freq_mhz,
            r.simulated_view() == simulated,
            r.phase_view() == SweepPhase::VoltageBisection,
            r.freq_index_view() == 0,
            r.bisection_view() is None,
            r.tradeoffs_view().len() == 0,
            r.profiles_view() is None,
    {
        Self {
            config,
            baseline_freq_mhz,
            phase: SweepPhase::VoltageBisection,
            freq_index: 0,
            bisection: None,
            tradeoffs: Vec::new(),
            profiles: None,
            simulated,
        }
    }

    fn start_freq(&mut self)
        requires
            old(self).inv(),
            old(self).freq_index < old(self).config.target_freqs_mhz@.len(),
        ensures
            final(self).inv(),
            final(self).bisection == Some(
                VoltageBisection::new_spec(
                    old(self).config.target_freqs_mhz@[old(self).freq_index as int],
                    old(self).config,
                ),
            ),
            *final(self) == (GpuSweepEngine { bisection: final(self).bisection, ..*old(self) }),
    {
        let freq = self.config.target_freqs_mhz[self.freq_index];
        self.bisection = Some(
            VoltageBisection::new(
                freq,
                self.config.stock_mv,
                self.config.floor_mv,
                self.config.descent_step_mv,
                self.config.min_step_mv,
            ),
        );
    }

    /// Emit the next action, advancing internal phase as needed. A finished or aborted sweep
    /// keeps answering `Finished`. Otherwise every search that has converged records its cliff
    /// plus margin and the engine moves on to the next target; the first search with a voltage
    /// left to test is proposed as `ApplyAndTest`; once every target has been searched the
    /// engine synthesizes the profiles and finishes.
    pub fn next_command(&mut self) -> (r: SweepCommand)
        requires
            old(self).inv(),
            (old(self).phase_view() != SweepPhase::Done && old(self).phase_view() != SweepPhase::Aborted)
                ==> old(self).margins_fit(),
        ensures
            final(self).inv(),
            final(self).config_view() == old(self).config_view(),
            final(self).baseline_view() == old(self).baseline_view(),
            final(self).simulated_view() == old(self).simulated_view(),
            (old(self).phase_view() == SweepPhase::Done || old(self).phase_view()
                == SweepPhase::Aborted) ==> r == SweepCommand::Finished && *final(self) == *old(self),
            (old(self).phase_view() != SweepPhase::Done && old(self).phase_view()
                != SweepPhase::Aborted) ==> {
                let adv = sweep_advance(
                    old(self).config_view(),
                    old(self).freq_index_view(),
                    old(self).bisection_view(),
                );
                &&& final(self).tradeoffs_view() == old(self).tradeoffs_view() + adv.0
                &&& final(self).freq_index_view() == adv.1
                &&& match adv.2 {
                    Some(b) => {
                        &&& bisection_candidate(b) is Some
                        &&& r == SweepCommand::ApplyAndTest {
                            point: VfPoint { freq_mhz: b.freq_mhz, voltage_mv: bisection_candidate(b)->0 },
                        }
                        &&& final(self).bisection_view() == Some(
                            VoltageBisection { current_mv: bisection_candidate(b), ..b },
                        )
                        &&& final(self).phase_view() == old(self).phase_view()
                        &&& final(self).profiles_view() == old(self).profiles_view()
                    },
                    None => {
                        &&& r == SweepCommand::Finished
                        &&& final(self).phase_view() == SweepPhase::Done
                        &&& final(self).bisection_view() is None
                        &&& adv.1 == old(self).config_view().target_freqs_mhz@.len()
                        &&& (final(self).has_profiles() <==> final(self).tradeoffs_view().len() > 0)
                        &&& final(self).profiles_view() matches Some(set) ==> profiles_fit(
                            final(self).baseline_view(),
                            final(self).tradeoffs_view(),
                            set,
                        )
                    },
                }
            },
        decreases old(self).config_view().target_freqs_mhz@.len() - old(self).freq_index_view(),
                  if old(self).bisection_view() is Some { 0int } else { 1int },
    {
        match self.phase {
            SweepPhase::Done | SweepPhase::Aborted => {
                return SweepCommand::Finished;
            },
            _ => {},
        }
        if self.bisection.is_none() {
            if self.freq_index >= self.config.target_freqs_mhz.len() {
                let r = self.finish();
                proof {
                    assert(self.tradeoffs@ =~= old(self).tradeoffs@ + Seq::<TradeoffPoint>::empty());
                }
                return r;
            }
            self.start_freq();
        }
        let n_freqs = self.config.target_freqs_mhz.len();
        let fi = self.freq_index;
        assert(fi < n_freqs);
        let ghost pre = *self;
        proof {
            assert(sweep_advance(old(self).config, old(self).freq_index as int, old(self).bisection)
                == sweep_advance(pre.config, pre.freq_index as int, pre.bisection));
        }
        let mut bis = match self.bisection.take() {
            Some(b) => b,
            None => {
                return SweepCommand::Finished;
            },
        };
        let ghost b0 = bis;
        match bis.next_test() {
            Some(mv) => {
                let point = VfPoint { freq_mhz: bis.freq_mhz, voltage_mv: mv };
                self.bisection = Some(bis);
                proof {
                    assert(self.tradeoffs@ =~= old(self).tradeoffs@ + Seq::<TradeoffPoint>::empty());
                }
                SweepCommand::ApplyAndTest { point }
            },
            None => {
                // Converged for this frequency: record the cliff + margin, advance.
                let cliff = bis.min_stable_mv();
                proof {
                    assert(0 <= self.config.temp_coeff_mv_per_c * self.config.temp_headroom_c)
                        by (nonlinear_arith);
                }
                let safe = apply_safety_margin(
                    cliff,
                    self.config.fixed_margin_mv,
                    self.config.temp_coeff_mv_per_c,
                    self.config.temp_headroom_c,
                );
                let t = TradeoffPoint { freq_mhz: bis.freq_mhz, vmin_mv: safe };
                assert(t == converged_tradeoff(pre.config, b0));
                self.tradeoffs.push(t);
                self.freq_index = fi + 1;
                let ghost mid = *self;
                let r = self.next_command();
                proof {
                    let rest = sweep_advance(mid.config, mid.freq_index as int, None);
                    assert(sweep_advance(pre.config, fi as int, Some(b0)) == (
                        seq![t].add(rest.0),
                        rest.1,
                        rest.2,
                    ));
                    assert(mid.tradeoffs@ == old(self).tradeoffs@.push(t));
                    assert(self.tradeoffs@ =~= old(self).tradeoffs@ + seq![t].add(rest.0));
                }
                r
            },
        }
    }

    fn finish(&mut self) -> (r: SweepCommand)
        requires
            old(self).inv(),
            old(self).freq_index >= old(self).config.target_freqs_mhz@.len(),
            old(self).bisection is None,
        ensures
            final(self).inv(),
            r == SweepCommand::Finished,
            *final(self) == (GpuSweepEngine {
                phase: SweepPhase::Done,
                profiles: final(self).profiles,
                ..*old(self)
            }),
            final(self).profiles is Some <==> old(self).tradeoffs@.len() > 0,
    {
        self.phase = SweepPhase::Synthesis;
        self.profiles = synthesize_profiles(self.baseline_freq_mhz, self.tradeoffs.as_slice());
        self.phase = SweepPhase::Done;
        SweepCommand::Finished
    }

    /// Feed back the stability result for the last `ApplyAndTest`: only the search under test
    /// changes.
    pub fn record(&mut self, result: StabilityResult)
        requires
            old(self).inv(),
        ensures
            final(self).inv(),
            final(self).config_view() == old(self).config_view(),
            final(self).phase_view() == old(self).phase_view(),
            final(self).freq_index_view() == old(self).freq_index_view(),
            final(self).tradeoffs_view() == old(self).tradeoffs_view(),
            final(self).profiles_view() == old(self).profiles_view(),
            final(self).baseline_view() == old(self).baseline_view(),
            final(self).simulated_view() == old(self).simulated_view(),
            old(self).bisection_view() is None ==> final(self).bisection_view() is None,
            old(self).bisection_view() matches Some(b) ==> (final(self).bisection_view() matches Some(nb)
                && VoltageBisection::record_spec(b, result, nb)),
    {
        if let Some(mut bis) = self.bisection.take() {
            bis.record(result);
            self.bisection = Some(bis);
        }
    }

    /// Abort the sweep (e.g. on operator stop or a hard crash recovery): the search under test is
    /// dropped and everything recorded so far stays as it was.
    pub fn abort(&mut self)
        requires
            old(self).inv(),
        ensures
            final(self).inv(),
            final(self).phase_view() == SweepPhase::Aborted,
            final(self).bisection_view() is None,
            final(self).config_view() == old(self).config_view(),
            final(self).freq_index_view() == old(self).freq_index_view(),
            final(self).tradeoffs_view() == old(self).tradeoffs_view(),
            final(self).profiles_view() == old(self).profiles_view(),
            final(self).baseline_view() == old(self).baseline_view(),
            final(self).simulated_view() == old(self).simulated_view(),
    {
        self.phase = SweepPhase::Aborted;
        self.bisection = None;
    }

    /// A snapshot of the sweep's progress.
    pub fn progress(&self) -> (r: GpuSweepProgress)
        requires
            self.inv(),
        ensures
            r.phase == self.phase_view(),
            r.current == (match self.bisection_view() {
                Some(b) => match b.current_mv {
                    Some(mv) => Some(VfPoint { freq_mhz: b.freq_mhz, voltage_mv: mv }),
                    None => None,
                },
                None => None,
            }),
            r.freq_index == self.freq_index_view(),
            r.total_freqs == self.config_view().target_freqs_mhz@.len(),
            r.tradeoffs@ == self.tradeoffs_view(),
            r.profiles == self.profiles_view(),
            r.simulated == self.simulated_view(),
            r.profiles matches Some(set) ==> profiles_fit(self.baseline_view(), self.tradeoffs_view(), set),
    {
        let current = match &self.bisection {
            Some(b) => match b.current_mv {
                Some(mv) => Some(VfPoint { freq_mhz: b.freq_mhz, voltage_mv: mv }),
                None => None,
            },
            None => None,
        };
        let profiles = match &self.profiles {
            Some(p) => Some(p.clone()),
            None => None,
        };
        let tradeoffs = self.tradeoffs.clone();
        assert(tradeoffs@ =~= self.tradeoffs@);
        GpuSweepProgress {
            phase: self.phase,
            current,
            freq_index: self.freq_index,
            total_freqs: self.config.target_freqs_mhz.len(),
            tradeoffs,
            profiles,
            simulated: self.simulated,
        }
    }

    pub fn profiles(&self) -> (r: Option<&GpuProfileSet>)
        requires
            self.inv(),
        ensures
            r is Some == self.has_profiles(),
            r matches Some(set) ==> *set == self.profiles_view()->0,
            r matches Some(set) ==> profiles_fit(self.baseline_view(), self.tradeoffs_view(), *set),
    {
        self.profiles.as_ref()
    }

    pub fn phase(&self) -> (r: SweepPhase)
        ensures
            r == self.phase_view(),
    {
        self.phase
    }
}

/// How far the search moves: while no unstable voltage is known it descends one step below the
/// proven-stable voltage (never below the floor) and stops once it stands on the floor; once a
/// cliff is bracketed it tests the midpoint of the bracket and stops when the bracket is no
/// wider than the minimum step.
pub proof fn lemma_bisection_step_size(b: VoltageBisection)
    ensures
        b.unstable_mv is None && b.stable_mv > b.floor_mv ==> bisection_candidate(b) == Some(
            (if b.stable_mv - b.descent_step_mv > b.floor_mv {
                b.stable_mv - b.descent_step_mv
            } else {
                b.floor_mv as int
            }) as u32,
        ),
        b.unstable_mv is None ==> (bisection_candidate(b) is None <==> b.stable_mv <= b.floor_mv),
        b.unstable_mv matches Some(u) ==> (b.stable_mv > u + b.min_step_mv ==> bisection_candidate(b)
            == Some(((u + b.stable_mv) / 2) as u32)),
        b.unstable_mv matches Some(u) ==> (bisection_candidate(b) is None <==> b.stable_mv <= u
            + b.min_step_mv),
{
}

/// What a test result teaches the search: a stable result at the tested voltage makes it the
/// proven-stable voltage when lower; any other result makes it the proven-unstable voltage when
/// higher than the one known (or the first one known); either way the test is consumed and the
/// frequency, floor and steps stay. With no test pending nothing changes.
pub proof fn lemma_bisection_learns(before: VoltageBisection, result: StabilityResult, after: VoltageBisection)
    requires
        VoltageBisection::record_spec(before, result, after),
    ensures
        before.current_mv is None ==> after == before,
        before.current_mv matches Some(v) ==> {
            &&& after.current_mv is None
            &&& after.freq_mhz == before.freq_mhz
            &&& after.floor_mv == before.floor_mv
            &&& after.descent_step_mv == before.descent_step_mv
            &&& after.min_step_mv == before.min_step_mv
            &&& result == StabilityResult::Stable ==> after.unstable_mv == before.unstable_mv
                && after.stable_mv <= before.stable_mv && after.stable_mv <= v
                && (after.stable_mv == v || after.stable_mv == before.stable_mv)
            &&& result != StabilityResult::Stable ==> after.stable_mv == before.stable_mv
                && (after.unstable_mv matches Some(nu) && nu >= v && (before.unstable_mv matches Some(u)
                ==> nu >= u) && (nu == v || before.unstable_mv == Some(nu)))
        },
{
}

} // verus!
