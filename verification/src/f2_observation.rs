//! F2 discovery/learning data: every true-undervolt attempt with its outcome, and the queries
//! that derive the learned search state from it — the lowest validated anchor, the highest
//! failed anchor, the bracket between them, the known-bad region, the resume baseline and the
//! qualification coverage at an exact Apply pair.
//!
//! This is observation data only: nothing here applies, persists or promotes a profile. The
//! records hold the integer, flag and text facts the queries read; power and temperature
//! telemetry in floating point stays with the caller's full record.
use vstd::prelude::*;
use crate::text::{
    compare_text, lemma_text_lt_asymmetric, lemma_text_lt_irreflexive, lemma_text_lt_transitive, same_text,
    text_lt, TextOrder,
};

verus! {

/// The append-only F2 observation log filename.
pub const F2_OBSERVATIONS_FILE: &'static str = "f2_observations.jsonl";

/// Current homogeneous PowerRender discovery contract.
pub const F2_DISCOVERY_CONTRACT_VERSION: u32 = 4;

/// Current FailureSeekingGameLoop qualification contract.
pub const F2_QUALIFICATION_CONTRACT_VERSION: u32 = 11;

/// Crash-proximity margin: a synthesized boundary must sit at least this far above the highest
/// crash/TDR anchor observed for the target.
pub const F2_CRASH_PROXIMITY_MIN_MV: u32 = 12;

/// Sustained-clock tolerance (MHz): an Apply-qualification dwell whose sustained (p5) clock
/// stayed within this margin of target still exercised the hard VF point despite any
/// thermal-slowdown flag.
pub const F2_APPLY_CLOCK_HOLD_TOL_MHZ: u32 = 30;

/// What kind of evidence one observation contributes. Old lines count as `Legacy`: they may
/// guide discovery, but can never satisfy the current qualification gate.
#[derive(Debug, Clone, Copy, PartialEq, Eq)]
pub enum F2EvidenceKind {
    Legacy,
    Discovery,
    Qualification,
    ApplyQualification,
}

impl Default for F2EvidenceKind {
    fn default() -> (r: Self)
        ensures
            r == F2EvidenceKind::Legacy,
    {
        F2EvidenceKind::Legacy
    }
}

/// Whether a stable qualification dwell exercised every required phase strongly enough to count.
#[derive(Debug, Clone, Copy, PartialEq, Eq)]
pub enum F2QualificationVerdict {
    Pass,
    Fail,
    Inconclusive,
}

/// Strength of the qualification evidence; FSGL4 is the current qualifier required for Apply.
#[derive(Debug, Clone, Copy, PartialEq, Eq)]
pub enum F2QualificationStrength {
    Fsgl1,
    Fsgl2,
    Fsgl3,
    Fsgl4,
}

impl Default for F2QualificationStrength {
    fn default() -> (r: Self)
        ensures
            r == F2QualificationStrength::Fsgl1,
    {
        F2QualificationStrength::Fsgl1
    }
}

/// Deterministic workload pattern. A/B remain readable for legacy observations.
#[derive(Debug, Clone, Copy, PartialEq, Eq)]
pub enum F2QualificationPattern {
    A,
    B,
    HighFps,
    Texture,
    Transitions,
    Memory,
}

/// The complete pattern set the current qualification contract requires.
pub const REQUIRED_QUALIFICATION_PATTERNS: [F2QualificationPattern; 4] = [
    F2QualificationPattern::HighFps,
    F2QualificationPattern::Texture,
    F2QualificationPattern::Transitions,
    F2QualificationPattern::Memory,
];

/// Position of a pattern in the required set.
pub open spec fn required_index(p: F2QualificationPattern) -> Option<usize> {
    match p {
        F2QualificationPattern::HighFps => Some(0usize),
        F2QualificationPattern::Texture => Some(1usize),
        F2QualificationPattern::Transitions => Some(2usize),
        F2QualificationPattern::Memory => Some(3usize),
        _ => None,
    }
}

/// Position of a pattern in [`REQUIRED_QUALIFICATION_PATTERNS`], `None` for a legacy pattern.
pub fn required_pattern_index(pattern: F2QualificationPattern) -> (r: Option<usize>)
    ensures
        r == required_index(pattern),
        r matches Some(i) ==> i < 4 && REQUIRED_QUALIFICATION_PATTERNS@[i as int] == pattern,
{
    match pattern {
        F2QualificationPattern::HighFps => Some(0),
        F2QualificationPattern::Texture => Some(1),
        F2QualificationPattern::Transitions => Some(2),
        F2QualificationPattern::Memory => Some(3),
        _ => None,
    }
}

/// The integer and text facts of a qualification coverage summary.
#[derive(Debug, PartialEq, Eq)]
pub struct F2QualificationCoverage {
    pub strength: F2QualificationStrength,
    pub pattern: Option<F2QualificationPattern>,
    pub pass_index: u32,
    pub verdict: F2QualificationVerdict,
    pub phases_completed: u32,
    pub phases_expected: u32,
    pub checksum_count: u32,
    pub sample_count: u32,
    pub compute_check_count: u32,
    pub failure_phase: Option<String>,
    pub retry_count: u32,
    pub reason: Option<String>,
}

impl Clone for F2QualificationCoverage {
    fn clone(&self) -> (r: Self)
        ensures
            r == *self,
    {
        F2QualificationCoverage {
            strength: self.strength,
            pattern: self.pattern,
            pass_index: self.pass_index,
            verdict: self.verdict,
            phases_completed: self.phases_completed,
            phases_expected: self.phases_expected,
            checksum_count: self.checksum_count,
            sample_count: self.sample_count,
            compute_check_count: self.compute_check_count,
            failure_phase: match &self.failure_phase {
                Some(x) => Some(x.clone()),
                None => None,
            },
            retry_count: self.retry_count,
            reason: match &self.reason {
                Some(x) => Some(x.clone()),
                None => None,
            },
        }
    }
}

/// Which F2 path produced an observation.
#[derive(Debug, Clone, Copy, PartialEq, Eq)]
pub enum F2ObsMode {
    /// The official autonomous unknown-GPU path (anchored, conservative offset caps).
    DefaultProgressive,
    /// The explicit operator-provided dev/known-GPU shortcut (larger bounded cap).
    ManualPrior,
    /// A same-target autonomous sweep for the minimum stable voltage.
    TargetSweep,
    /// A multi-target ladder of target sweeps.
    LadderSweep,
    /// Long current-contract qualification of the exact post-margin Apply pair.
    ApplyQualification,
}

/// The verifier result.
#[derive(Debug, Clone, Copy, PartialEq, Eq)]
pub enum F2ObsVerifier {
    RaiseVerified,
    RaiseIncomplete,
    OverRaise,
    Unverifiable,
    /// No verify ran.
    NotRun,
}

/// The dwell result.
#[derive(Debug, Clone, Copy, PartialEq, Eq)]
pub enum F2ObsDwell {
    Stable,
    SilentError,
    Unstable,
    DeviceLost,
    ClockDrop,
    PowerTelemetryInconclusive,
    QualificationInconclusive,
    NotRun,
}

/// Terminal outcome of an F2 attempt.
#[derive(Debug, Clone, Copy, PartialEq, Eq)]
pub enum F2ObsOutcome {
    /// Dwell stable, reset confirmed, boot flag cleared — a good (stable) undervolt point.
    Validated,
    /// The planner refused the candidate.
    RejectedByPlanner,
    /// The post-write verify did not confirm the anchored raise.
    VerifierFailed,
    /// The dwell reported a silent compute error (no device loss).
    SilentError,
    /// The dwell reported instability without a classified silent error.
    Unstable,
    /// The dwell reported a crash / TDR / device loss.
    DeviceLost,
    /// The target did not hold yet, but the GPU was at its power limit.
    PowerBoundClockDrop,
    /// The clock sagged below tolerance under load.
    ClockDrop,
    /// Discovery power telemetry could not be confirmed.
    PowerTelemetryInconclusive,
    /// Qualification coverage too weak to qualify or reject the point.
    QualificationInconclusive,
    /// `reset_to_stock` could not be confirmed — a safety failure.
    ResetFailed,
    /// The candidate intent was blacklisted (known-bad).
    Blacklisted,
    /// A crash/TDR that Safe Loop recovered from.
    CrashOrRecovery,
    /// A safety gate aborted the run.
    AbortedBySafetyGate,
}

/// A real instability/failure at the voltage.
pub open spec fn outcome_is_bad(o: F2ObsOutcome) -> bool {
    o == F2ObsOutcome::VerifierFailed || o == F2ObsOutcome::SilentError || o == F2ObsOutcome::Unstable
        || o == F2ObsOutcome::DeviceLost || o == F2ObsOutcome::ClockDrop || o
        == F2ObsOutcome::ResetFailed || o == F2ObsOutcome::Blacklisted || o
        == F2ObsOutcome::CrashOrRecovery
}

impl F2ObsOutcome {
    /// A good point: the undervolt held stably AND the GPU reset cleanly.
    pub fn is_validated(self) -> (r: bool)
        ensures
            r == (self == F2ObsOutcome::Validated),
    {
        match self {
            F2ObsOutcome::Validated => true,
            _ => false,
        }
    }

    /// A real instability/failure at this voltage (the undervolt did NOT hold) — distinct from a
    /// planner/safety-gate refusal that performed no write.
    pub fn is_bad(self) -> (r: bool)
        ensures
            r == outcome_is_bad(self),
    {
        match self {
            F2ObsOutcome::VerifierFailed | F2ObsOutcome::SilentError | F2ObsOutcome::Unstable
            | F2ObsOutcome::DeviceLost | F2ObsOutcome::ClockDrop | F2ObsOutcome::ResetFailed
            | F2ObsOutcome::Blacklisted | F2ObsOutcome::CrashOrRecovery => true,
            _ => false,
        }
    }

    /// A safety-critical outcome: the run must stop and must not continue to a deeper candidate.
    pub fn is_safety_failure(self) -> (r: bool)
        ensures
            r == (self == F2ObsOutcome::DeviceLost || self == F2ObsOutcome::ResetFailed || self
                == F2ObsOutcome::CrashOrRecovery),
    {
        match self {
            F2ObsOutcome::DeviceLost | F2ObsOutcome::ResetFailed | F2ObsOutcome::CrashOrRecovery => true,
            _ => false,
        }
    }
}

/// Every safety failure is a real failure.
pub proof fn lemma_safety_failures_are_bad(o: F2ObsOutcome)
    ensures
        (o == F2ObsOutcome::DeviceLost || o == F2ObsOutcome::ResetFailed || o
            == F2ObsOutcome::CrashOrRecovery) ==> outcome_is_bad(o),
        o == F2ObsOutcome::Validated ==> !outcome_is_bad(o),
{
}

/// One recorded F2 attempt: the facts the learning queries read.
#[derive(Debug, PartialEq, Eq)]
pub struct F2Observation {
    pub run_id: String,
    pub timestamp: String,
    pub gpu_key: Option<String>,
    pub evidence_kind: F2EvidenceKind,
    pub discovery_contract_version: Option<u32>,
    pub qualification_contract_version: Option<u32>,
    pub qualification_coverage: Option<F2QualificationCoverage>,
    pub mode: F2ObsMode,
    pub target_mhz: u32,
    pub requested_start_mv: Option<u32>,
    pub anchor_mv: u32,
    pub base_mhz: u32,
    pub offset_mhz: i32,
    pub positive_offset_cap_mhz: i32,
    pub higher_bins_capped: u32,
    pub max_flatten_mhz: i32,
    pub lower_bins_elastic: u32,
    pub verifier_result: F2ObsVerifier,
    pub dwell_result: F2ObsDwell,
    pub avg_clock_mhz: Option<u32>,
    pub sustained_clock_mhz: Option<u32>,
    pub sustained_upper_clock_mhz: Option<u32>,
    pub watts: Option<u32>,
    pub max_watts: Option<u32>,
    /// The sustained p99 power reading's IEEE-754 bits, kept only when the reading is a positive
    /// finite number (for such readings the bits order as the watts do).
    pub power_p99_bits: Option<u32>,
    pub power_p99_confirmed: bool,
    pub power_p99_attempts: u32,
    pub measured_voltage_min_mv: Option<u32>,
    pub measured_voltage_avg_mv: Option<u32>,
    pub measured_voltage_max_mv: Option<u32>,
    pub measured_voltage_sample_count: u32,
    pub render_frames: Option<u64>,
    pub thermal_throttled: bool,
    pub dwell_duration_ms: Option<u64>,
    pub sample_count: Option<u32>,
    pub silent_error: bool,
    pub device_lost: bool,
    pub unstable: bool,
    pub clock_drop: bool,
    pub tdr_or_crash: bool,
    pub reset_to_stock_attempted: bool,
    pub reset_to_stock_ok: bool,
    pub boot_flag_cleared: bool,
    pub blacklisted: bool,
    pub outcome: F2ObsOutcome,
    pub notes: Option<String>,
}

impl Clone for F2Observation {
    fn clone(&self) -> (r: Self)
        ensures
            r == *self,
    {
        F2Observation {
            run_id: self.run_id.clone(),
            timestamp: self.timestamp.clone(),
            gpu_key: match &self.gpu_key {
                Some(x) => Some(x.clone()),
                None => None,
            },
            evidence_kind: self.evidence_kind,
            discovery_contract_version: self.discovery_contract_version,
            qualification_contract_version: self.qualification_contract_version,
            qualification_coverage: match &self.qualification_coverage {
                Some(c) => Some(c.clone()),
                None => None,
            },
            mode: self.mode,
            target_mhz: self.target_mhz,
            requested_start_mv: self.requested_start_mv,
            anchor_mv: self.anchor_mv,
            base_mhz: self.base_mhz,
            offset_mhz: self.offset_mhz,
            positive_offset_cap_mhz: self.positive_offset_cap_mhz,
            higher_bins_capped: self.higher_bins_capped,
            max_flatten_mhz: self.max_flatten_mhz,
            lower_bins_elastic: self.lower_bins_elastic,
            verifier_result: self.verifier_result,
            dwell_result: self.dwell_result,
            avg_clock_mhz: self.avg_clock_mhz,
            sustained_clock_mhz: self.sustained_clock_mhz,
            sustained_upper_clock_mhz: self.sustained_upper_clock_mhz,
            watts: self.watts,
            max_watts: self.max_watts,
            power_p99_bits: self.power_p99_bits,
            power_p99_confirmed: self.power_p99_confirmed,
            power_p99_attempts: self.power_p99_attempts,
            measured_voltage_min_mv: self.measured_voltage_min_mv,
            measured_voltage_avg_mv: self.measured_voltage_avg_mv,
            measured_voltage_max_mv: self.measured_voltage_max_mv,
            measured_voltage_sample_count: self.measured_voltage_sample_count,
            render_frames: self.render_frames,
            thermal_throttled: self.thermal_throttled,
            dwell_duration_ms: self.dwell_duration_ms,
            sample_count: self.sample_count,
            silent_error: self.silent_error,
            device_lost: self.device_lost,
            unstable: self.unstable,
            clock_drop: self.clock_drop,
            tdr_or_crash: self.tdr_or_crash,
            reset_to_stock_attempted: self.reset_to_stock_attempted,
            reset_to_stock_ok: self.reset_to_stock_ok,
            boot_flag_cleared: self.boot_flag_cleared,
            blacklisted: self.blacklisted,
            outcome: self.outcome,
            notes: match &self.notes {
                Some(x) => Some(x.clone()),
                None => None,
            },
        }
    }
}

/// The known voltage bracket around the minimum stable voltage `Vmin` for a target:
/// `first_bad_mv < Vmin <= last_good_mv`.
#[derive(Debug, Clone, Copy, PartialEq, Eq)]
pub struct VoltageBracket {
    /// Highest voltage that FAILED (a lower bound below `Vmin`).
    pub first_bad_mv: u32,
    /// Lowest voltage that VALIDATED (an upper bound at/above `Vmin`).
    pub last_good_mv: u32,
    /// `last_good_mv - first_bad_mv`.
    pub width_mv: u32,
}

/// Evidence of the current PowerRender discovery contract: v4 with confirmed p99.
pub open spec fn current_discovery(o: F2Observation) -> bool {
    o.evidence_kind == F2EvidenceKind::Discovery && o.discovery_contract_version == Some(
        F2_DISCOVERY_CONTRACT_VERSION,
    ) && o.power_p99_confirmed
}

/// True when an observation can define the current PowerRender discovery frontier.
pub fn is_current_discovery_evidence(o: &F2Observation) -> (r: bool)
    ensures
        r == current_discovery(*o),
{
    matches!(o.evidence_kind, F2EvidenceKind::Discovery) && match o.discovery_contract_version {
        Some(v) => v == F2_DISCOVERY_CONTRACT_VERSION,
        None => false,
    } && o.power_p99_confirmed
}

/// A fully-covered current-contract FSGL4 pass on a required pattern.
pub open spec fn full_pass_coverage(c: Option<F2QualificationCoverage>) -> bool {
    match c {
        Some(cov) => cov.strength == F2QualificationStrength::Fsgl4 && (match cov.pattern {
            Some(p) => required_index(p) is Some,
            None => false,
        }) && cov.verdict == F2QualificationVerdict::Pass,
        None => false,
    }
}

/// A current-contract validated pass of the given evidence kind.
pub open spec fn current_pass_of(o: F2Observation, kind: F2EvidenceKind) -> bool {
    o.evidence_kind == kind && o.qualification_contract_version == Some(
        F2_QUALIFICATION_CONTRACT_VERSION,
    ) && o.outcome == F2ObsOutcome::Validated && full_pass_coverage(o.qualification_coverage)
}

fn is_full_pass_coverage(c: &Option<F2QualificationCoverage>) -> (r: bool)
    ensures
        r == full_pass_coverage(*c),
{
    match c {
        Some(cov) => matches!(cov.strength, F2QualificationStrength::Fsgl4) && match cov.pattern {
            Some(p) => required_pattern_index(p).is_some(),
            None => false,
        } && matches!(cov.verdict, F2QualificationVerdict::Pass),
        None => false,
    }
}

fn is_current_contract(v: Option<u32>) -> (r: bool)
    ensures
        r == (v == Some(F2_QUALIFICATION_CONTRACT_VERSION)),
{
    match v {
        Some(x) => x == F2_QUALIFICATION_CONTRACT_VERSION,
        None => false,
    }
}

/// True only for a fully-covered pass from the current qualification contract.
pub fn is_current_qualification_pass(o: &F2Observation) -> (r: bool)
    ensures
        r == current_pass_of(*o, F2EvidenceKind::Qualification),
{
    matches!(o.evidence_kind, F2EvidenceKind::Qualification) && is_current_contract(
        o.qualification_contract_version,
    ) && o.outcome.is_validated() && is_full_pass_coverage(&o.qualification_coverage)
}

/// True only for a fully-covered pass at the exact post-margin Apply pair under the current
/// qualification contract.
pub fn is_current_apply_qualification_pass(o: &F2Observation) -> (r: bool)
    ensures
        r == current_pass_of(*o, F2EvidenceKind::ApplyQualification),
{
    matches!(o.evidence_kind, F2EvidenceKind::ApplyQualification) && is_current_contract(
        o.qualification_contract_version,
    ) && o.outcome.is_validated() && is_full_pass_coverage(&o.qualification_coverage)
}

/// An observation that counts as a real failure for the target's frontier (Apply-qualification
/// failures never rewrite the frontier).
pub open spec fn counts_as_bad(o: F2Observation, target_mhz: u32) -> bool {
    o.target_mhz == target_mhz && o.evidence_kind != F2EvidenceKind::ApplyQualification
        && outcome_is_bad(o.outcome)
}

/// Index `i` holds the first bad observation: the highest failed anchor, the last one among
/// equals.
pub open spec fn first_bad_at(obs: Seq<F2Observation>, target_mhz: u32, i: int) -> bool {
    &&& 0 <= i < obs.len()
    &&& counts_as_bad(obs[i], target_mhz)
    &&& forall|j: int|
        0 <= j < obs.len() && counts_as_bad(#[trigger] obs[j], target_mhz) ==> obs[j].anchor_mv
            <= obs[i].anchor_mv && (j > i ==> obs[j].anchor_mv < obs[i].anchor_mv)
}

/// Some observation counts as bad for the target.
pub open spec fn has_bad(obs: Seq<F2Observation>, target_mhz: u32) -> bool {
    exists|i: int| 0 <= i < obs.len() && counts_as_bad(#[trigger] obs[i], target_mhz)
}

/// The first bad anchor for a target, if any failure is recorded.
pub open spec fn first_bad_anchor(obs: Seq<F2Observation>, target_mhz: u32) -> Option<u32> {
    if has_bad(obs, target_mhz) {
        Some(obs[choose|i: int| first_bad_at(obs, target_mhz, i)].anchor_mv)
    } else {
        None
    }
}

proof fn lemma_first_bad_anchor(obs: Seq<F2Observation>, target_mhz: u32, i: int)
    requires
        first_bad_at(obs, target_mhz, i),
    ensures
        first_bad_anchor(obs, target_mhz) == Some(obs[i].anchor_mv),
{
    assert(has_bad(obs, target_mhz));
    let k = choose|k: int| first_bad_at(obs, target_mhz, k);
    assert(first_bad_at(obs, target_mhz, k));
    assert(obs[k].anchor_mv <= obs[i].anchor_mv);
    assert(obs[i].anchor_mv <= obs[k].anchor_mv);
}

/// Index of the first bad observation for a target.
fn first_bad_index(obs: &[F2Observation], target_mhz: u32) -> (r: Option<usize>)
    ensures
        match r {
            Some(i) => first_bad_at(obs@, target_mhz, i as int),
            None => !has_bad(obs@, target_mhz),
        },
        first_bad_anchor(obs@, target_mhz) == match r {
            Some(i) => Some(obs@[i as int].anchor_mv),
            None => None::<u32>,
        },
{
    let mut best: Option<usize> = None;
    let mut i: usize = 0;
    while i < obs.len()
        invariant
            i <= obs@.len(),
            match best {
                Some(b) => b < i && counts_as_bad(obs@[b as int], target_mhz) && forall|j: int|
                    0 <= j < i && counts_as_bad(#[trigger] obs@[j], target_mhz) ==> obs@[j].anchor_mv
                        <= obs@[b as int].anchor_mv && (j > b ==> obs@[j].anchor_mv
                        < obs@[b as int].anchor_mv),
                None => forall|j: int| 0 <= j < i ==> !counts_as_bad(#[trigger] obs@[j], target_mhz),
            },
        decreases obs@.len() - i,
    {
        let o = &obs[i];
        if o.target_mhz == target_mhz && !matches!(o.evidence_kind, F2EvidenceKind::ApplyQualification)
            && o.outcome.is_bad() {
            match best {
                Some(b) => {
                    if o.anchor_mv >= obs[b].anchor_mv {
                        best = Some(i);
                    }
                },
                None => {
                    best = Some(i);
                },
            }
        }
        i = i + 1;
    }
    proof {
        match best {
            Some(b) => lemma_first_bad_anchor(obs@, target_mhz, b as int),
            None => {},
        }
    }
    best
}

/// The first bad observation for a target: the HIGHEST-voltage real failure — the shallowest
/// undervolt that already failed (the last one recorded among equal anchors). `None` if none is
/// bad.
pub fn first_bad_for_target(obs: &[F2Observation], target_mhz: u32) -> (r: Option<&F2Observation>)
    ensures
        match r {
            Some(o) => exists|i: int| first_bad_at(obs@, target_mhz, i) && obs@[i] == *o,
            None => !has_bad(obs@, target_mhz),
        },
        first_bad_anchor(obs@, target_mhz) == match r {
            Some(o) => Some(o.anchor_mv),
            None => None::<u32>,
        },
{
    match first_bad_index(obs, target_mhz) {
        Some(i) => Some(&obs[i]),
        None => None,
    }
}

/// A validated observation strictly above the nearest known failure — the candidates for the
/// last good point.
pub open spec fn good_candidate(obs: Seq<F2Observation>, o: F2Observation, target_mhz: u32) -> bool {
    o.target_mhz == target_mhz && o.outcome == F2ObsOutcome::Validated && match first_bad_anchor(
        obs,
        target_mhz,
    ) {
        Some(bad) => o.anchor_mv > bad,
        None => true,
    }
}

/// A current-discovery validated observation strictly above the nearest known failure.
pub open spec fn discovery_good_candidate(obs: Seq<F2Observation>, o: F2Observation, target_mhz: u32) -> bool {
    good_candidate(obs, o, target_mhz) && current_discovery(o)
}

/// Index `i` holds the lowest-anchor candidate (the first one among equals) for `pred`.
pub open spec fn lowest_at(obs: Seq<F2Observation>, pred: spec_fn(F2Observation) -> bool, i: int) -> bool {
    &&& 0 <= i < obs.len()
    &&& pred(obs[i])
    &&& forall|j: int|
        0 <= j < obs.len() && pred(#[trigger] obs[j]) ==> obs[i].anchor_mv <= obs[j].anchor_mv && (j
            < i ==> obs[i].anchor_mv < obs[j].anchor_mv)
}

/// Some observation satisfies `pred`.
pub open spec fn any_obs(obs: Seq<F2Observation>, pred: spec_fn(F2Observation) -> bool) -> bool {
    exists|i: int| 0 <= i < obs.len() && pred(#[trigger] obs[i])
}

fn lowest_good_index(obs: &[F2Observation], target_mhz: u32, require_discovery: bool) -> (r: Option<
    usize,
>)
    ensures
        ({
            let pred = |o: F2Observation|
                good_candidate(obs@, o, target_mhz) && (require_discovery ==> current_discovery(o));
            match r {
                Some(i) => lowest_at(obs@, pred, i as int),
                None => !any_obs(obs@, pred),
            }
        }),
{
    let ghost pred = |o: F2Observation|
        good_candidate(obs@, o, target_mhz) && (require_discovery ==> current_discovery(o));
    let bad = first_bad_index(obs, target_mhz);
    let bad_mv: Option<u32> = match bad {
        Some(b) => Some(obs[b].anchor_mv),
        None => None,
    };
    let mut best: Option<usize> = None;
    let mut i: usize = 0;
    while i < obs.len()
        invariant
            i <= obs@.len(),
            pred == (|o: F2Observation|
                good_candidate(obs@, o, target_mhz) && (require_discovery ==> current_discovery(o))),
            bad_mv == first_bad_anchor(obs@, target_mhz),
            match best {
                Some(b) => b < i && pred(obs@[b as int]) && forall|j: int|
                    0 <= j < i && pred(#[trigger] obs@[j]) ==> obs@[b as int].anchor_mv
                        <= obs@[j].anchor_mv && (j < b ==> obs@[b as int].anchor_mv < obs@[j].anchor_mv),
                None => forall|j: int| 0 <= j < i ==> !pred(#[trigger] obs@[j]),
            },
        decreases obs@.len() - i,
    {
        let o = &obs[i];
        let above_bad = match bad_mv {
            Some(b) => o.anchor_mv > b,
            None => true,
        };
        let eligible = o.target_mhz == target_mhz && o.outcome.is_validated() && above_bad && (
        !require_discovery || is_current_discovery_evidence(o));
        proof {
            assert(eligible == pred(obs@[i as int]));
        }
        if eligible {
            match best {
                Some(b) => {
                    if o.anchor_mv < obs[b].anchor_mv {
                        best = Some(i);
                    }
                },
                None => {
                    best = Some(i);
                },
            }
        }
        i = i + 1;
    }
    best
}

/// The last good (minimum stable) observation for a target: the LOWEST-voltage validated
/// observation strictly above the highest recorded failure (a later failure at `V` invalidates
/// `V` and every deeper point); the first one among equal anchors. `None` if none remains.
pub fn last_good_for_target(obs: &[F2Observation], target_mhz: u32) -> (r: Option<&F2Observation>)
    ensures
        ({
            let pred = |o: F2Observation| good_candidate(obs@, o, target_mhz);
            match r {
                Some(o) => exists|i: int| lowest_at(obs@, pred, i) && obs@[i] == *o,
                None => !any_obs(obs@, pred),
            }
        }),
{
    let r = lowest_good_index(obs, target_mhz, false);
    proof {
        let p1 = |o: F2Observation| good_candidate(obs@, o, target_mhz) && (false ==> current_discovery(o));
        let p2 = |o: F2Observation| good_candidate(obs@, o, target_mhz);
        assert(p1 =~= p2);
    }
    match r {
        Some(i) => Some(&obs[i]),
        None => None,
    }
}

/// Lowest-voltage stable point proven by the current discovery contract, strictly above the
/// highest recorded failure (failures of any contract count).
pub fn last_discovery_good_for_target(obs: &[F2Observation], target_mhz: u32) -> (r: Option<
    &F2Observation,
>)
    ensures
        ({
            let pred = |o: F2Observation| discovery_good_candidate(obs@, o, target_mhz);
            match r {
                Some(o) => exists|i: int| lowest_at(obs@, pred, i) && obs@[i] == *o,
                None => !any_obs(obs@, pred),
            }
        }),
{
    let r = lowest_good_index(obs, target_mhz, true);
    proof {
        let p1 = |o: F2Observation| good_candidate(obs@, o, target_mhz) && (true ==> current_discovery(o));
        let p2 = |o: F2Observation| discovery_good_candidate(obs@, o, target_mhz);
        assert(p1 =~= p2);
    }
    match r {
        Some(i) => Some(&obs[i]),
        None => None,
    }
}

/// The lowest validated anchor strictly above the highest failure, if any.
pub open spec fn last_good_anchor(obs: Seq<F2Observation>, target_mhz: u32) -> Option<u32> {
    let pred = |o: F2Observation| good_candidate(obs, o, target_mhz);
    if any_obs(obs, pred) {
        Some(obs[choose|i: int| lowest_at(obs, pred, i)].anchor_mv)
    } else {
        None
    }
}

proof fn lemma_lowest_anchor(obs: Seq<F2Observation>, pred: spec_fn(F2Observation) -> bool, i: int)
    requires
        lowest_at(obs, pred, i),
    ensures
        any_obs(obs, pred),
        obs[choose|k: int| lowest_at(obs, pred, k)].anchor_mv == obs[i].anchor_mv,
{
    assert(pred(obs[i]));
    let k = choose|k: int| lowest_at(obs, pred, k);
    assert(lowest_at(obs, pred, k));
    assert(obs[k].anchor_mv <= obs[i].anchor_mv);
    assert(obs[i].anchor_mv <= obs[k].anchor_mv);
}

/// The known voltage bracket for a target: `Vmin` lies in `(first_bad_mv, last_good_mv]`. `None`
/// unless both a last good point and a failure exist.
pub fn bracket_for_target(obs: &[F2Observation], target_mhz: u32) -> (r: Option<VoltageBracket>)
    ensures
        match (last_good_anchor(obs@, target_mhz), first_bad_anchor(obs@, target_mhz)) {
            (Some(good), Some(bad)) => good > bad && r == Some(
                VoltageBracket {
                    first_bad_mv: bad,
                    last_good_mv: good,
                    width_mv: (good - bad) as u32,
                },
            ),
            _ => r is None,
        },
{
    let good = last_good_for_target(obs, target_mhz);
    let ghost pred = |o: F2Observation| good_candidate(obs@, o, target_mhz);
    let last_good_mv = match good {
        Some(o) => {
            proof {
                let i = choose|i: int| lowest_at(obs@, pred, i) && obs@[i] == *o;
                lemma_lowest_anchor(obs@, pred, i);
            }
            o.anchor_mv
        },
        None => {
            return None;
        },
    };
    let first_bad_mv = match first_bad_for_target(obs, target_mhz) {
        Some(o) => o.anchor_mv,
        None => {
            return None;
        },
    };
    if last_good_mv > first_bad_mv {
        Some(VoltageBracket { first_bad_mv, last_good_mv, width_mv: last_good_mv - first_bad_mv })
    } else {
        None
    }
}

/// A prior real failure for the target at `anchor_mv` or any higher voltage.
pub open spec fn known_bad(obs: Seq<F2Observation>, target_mhz: u32, anchor_mv: u32) -> bool {
    exists|i: int|
        0 <= i < obs.len() && counts_as_bad(#[trigger] obs[i], target_mhz) && obs[i].anchor_mv
            >= anchor_mv
}

/// True if `(target, anchor_mv)` is already known bad: a prior real failure at that voltage or
/// any higher voltage for the target.
pub fn is_known_bad(obs: &[F2Observation], target_mhz: u32, anchor_mv: u32) -> (r: bool)
    ensures
        r == known_bad(obs@, target_mhz, anchor_mv),
{
    let mut i: usize = 0;
    while i < obs.len()
        invariant
            i <= obs@.len(),
            forall|j: int|
                0 <= j < i ==> !(counts_as_bad(#[trigger] obs@[j], target_mhz) && obs@[j].anchor_mv
                    >= anchor_mv),
        decreases obs@.len() - i,
    {
        let o = &obs[i];
        if o.target_mhz == target_mhz && !matches!(o.evidence_kind, F2EvidenceKind::ApplyQualification)
            && o.outcome.is_bad() && o.anchor_mv >= anchor_mv {
            return true;
        }
        i = i + 1;
    }
    false
}

/// A validated observation that left the GPU clean, optionally on one exact GPU — a resume
/// baseline candidate.
pub open spec fn clean_baseline(o: F2Observation, target_mhz: u32, gpu_key: Option<Seq<char>>) -> bool {
    &&& o.target_mhz == target_mhz
    &&& o.outcome == F2ObsOutcome::Validated
    &&& o.reset_to_stock_ok && o.boot_flag_cleared
    &&& !o.device_lost && !o.unstable && !o.silent_error && !o.clock_drop
    &&& match gpu_key {
        Some(k) => o.gpu_key matches Some(g) && g@ == k,
        None => true,
    }
}

/// The text of an optional borrowed string.
pub open spec fn opt_str(k: Option<&str>) -> Option<Seq<char>> {
    match k {
        Some(s) => Some(s@),
        None => None,
    }
}

fn key_matches(o: &F2Observation, gpu_key: Option<&str>) -> (r: bool)
    ensures
        r == match opt_str(gpu_key) {
            Some(k) => o.gpu_key matches Some(g) && g@ == k,
            None => true,
        },
{
    match gpu_key {
        Some(k) => match &o.gpu_key {
            Some(g) => same_text(g.as_str(), k),
            None => false,
        },
        None => true,
    }
}

/// The validated descent baseline for chained same-target descent: the DEEPEST (lowest-voltage)
/// prior validated observation for the target that left the GPU clean — reset confirmed, boot
/// flag cleared, no instability/crash flags — optionally scoped to one GPU; the first one among
/// equal anchors.
pub fn validated_descent_baseline<'a>(obs: &'a [F2Observation], target_mhz: u32, gpu_key: Option<&str>) -> (r:
    Option<&'a F2Observation>)
    ensures
        ({
            let pred = |o: F2Observation| clean_baseline(o, target_mhz, opt_str(gpu_key));
            match r {
                Some(o) => exists|i: int| lowest_at(obs@, pred, i) && obs@[i] == *o,
                None => !any_obs(obs@, pred),
            }
        }),
{
    let ghost pred = |o: F2Observation| clean_baseline(o, target_mhz, opt_str(gpu_key));
    let mut best: Option<usize> = None;
    let mut i: usize = 0;
    while i < obs.len()
        invariant
            i <= obs@.len(),
            pred == (|o: F2Observation| clean_baseline(o, target_mhz, opt_str(gpu_key))),
            match best {
                Some(b) => b < i && pred(obs@[b as int]) && forall|j: int|
                    0 <= j < i && pred(#[trigger] obs@[j]) ==> obs@[b as int].anchor_mv
                        <= obs@[j].anchor_mv && (j < b ==> obs@[b as int].anchor_mv < obs@[j].anchor_mv),
                None => forall|j: int| 0 <= j < i ==> !pred(#[trigger] obs@[j]),
            },
        decreases obs@.len() - i,
    {
        let o = &obs[i];
        let eligible = o.target_mhz == target_mhz && o.outcome.is_validated() && o.reset_to_stock_ok
            && o.boot_flag_cleared && !o.device_lost && !o.unstable && !o.silent_error && !o.clock_drop
            && key_matches(o, gpu_key);
        proof {
            assert(eligible == pred(obs@[i as int]));
        }
        if eligible {
            match best {
                Some(b) => {
                    if o.anchor_mv < obs[b].anchor_mv {
                        best = Some(i);
                    }
                },
                None => {
                    best = Some(i);
                },
            }
        }
        i = i + 1;
    }
    match best {
        Some(b) => Some(&obs[b]),
        None => None,
    }
}

/// A crash, TDR or device loss recorded for the target.
pub open spec fn crash_record(o: F2Observation, target_mhz: u32) -> bool {
    o.target_mhz == target_mhz && (o.device_lost || o.outcome == F2ObsOutcome::DeviceLost)
}

/// Highest crash/TDR/device-loss anchor recorded for a target, if any.
pub fn crash_floor_for_target(obs: &[F2Observation], target_mhz: u32) -> (r: Option<u32>)
    ensures
        match r {
            Some(m) => (exists|i: int|
                0 <= i < obs@.len() && crash_record(#[trigger] obs@[i], target_mhz) && obs@[i].anchor_mv
                    == m) && forall|i: int|
                0 <= i < obs@.len() && crash_record(#[trigger] obs@[i], target_mhz) ==> obs@[i].anchor_mv
                    <= m,
            None => forall|i: int| 0 <= i < obs@.len() ==> !crash_record(#[trigger] obs@[i], target_mhz),
        },
{
    let mut best: Option<u32> = None;
    let mut i: usize = 0;
    while i < obs.len()
        invariant
            i <= obs@.len(),
            match best {
                Some(m) => (exists|j: int|
                    0 <= j < i && crash_record(#[trigger] obs@[j], target_mhz) && obs@[j].anchor_mv
                        == m) && forall|j: int|
                    0 <= j < i && crash_record(#[trigger] obs@[j], target_mhz) ==> obs@[j].anchor_mv
                        <= m,
                None => forall|j: int| 0 <= j < i ==> !crash_record(#[trigger] obs@[j], target_mhz),
            },
        decreases obs@.len() - i,
    {
        let o = &obs[i];
        if o.target_mhz == target_mhz && (o.device_lost || matches!(o.outcome, F2ObsOutcome::DeviceLost)) {
            match best {
                Some(m) => {
                    if o.anchor_mv > m {
                        best = Some(o.anchor_mv);
                    }
                },
                None => {
                    best = Some(o.anchor_mv);
                },
            }
        }
        i = i + 1;
    }
    best
}

/// A failure at voltage `V` condemns `V` and everything below it: being known bad is closed
/// downward in voltage.
pub proof fn lemma_known_bad_downward(obs: Seq<F2Observation>, target_mhz: u32, v: u32, w: u32)
    requires
        known_bad(obs, target_mhz, v),
        w <= v,
    ensures
        known_bad(obs, target_mhz, w),
{
    let i = choose|i: int|
        0 <= i < obs.len() && counts_as_bad(#[trigger] obs[i], target_mhz) && obs[i].anchor_mv >= v;
    assert(obs[i].anchor_mv >= w);
}

/// The first bad anchor is itself known bad, and nothing above it is.
pub proof fn lemma_first_bad_is_the_known_bad_edge(obs: Seq<F2Observation>, target_mhz: u32)
    ensures
        match first_bad_anchor(obs, target_mhz) {
            Some(b) => known_bad(obs, target_mhz, b) && (b < u32::MAX ==> !known_bad(
                obs,
                target_mhz,
                (b + 1) as u32,
            )),
            None => forall|v: u32| !known_bad(obs, target_mhz, v),
        },
{
    if has_bad(obs, target_mhz) {
        let k = lemma_first_bad_exists(obs, target_mhz);
        lemma_first_bad_anchor(obs, target_mhz, k);
        let b = obs[k].anchor_mv;
        assert(known_bad(obs, target_mhz, b)) by {
            assert(counts_as_bad(obs[k], target_mhz));
        }
    } else {
        assert forall|v: u32| !known_bad(obs, target_mhz, v) by {
            if known_bad(obs, target_mhz, v) {
                let i = choose|i: int|
                    0 <= i < obs.len() && counts_as_bad(#[trigger] obs[i], target_mhz) && obs[i].anchor_mv >= v;
                assert(has_bad(obs, target_mhz));
            }
        }
    }
}

proof fn lemma_first_bad_exists(obs: Seq<F2Observation>, target_mhz: u32) -> (k: int)
    requires
        has_bad(obs, target_mhz),
    ensures
        first_bad_at(obs, target_mhz, k),
    decreases obs.len(),
{
    let n = obs.len() as int;
    let prefix = obs.drop_last();
    if counts_as_bad(obs[n - 1], target_mhz) {
        if has_bad(prefix, target_mhz) {
            let k0 = lemma_first_bad_exists(prefix, target_mhz);
            if obs[k0].anchor_mv > obs[n - 1].anchor_mv {
                assert forall|j: int|
                    0 <= j < obs.len() && counts_as_bad(#[trigger] obs[j], target_mhz) implies obs[j].anchor_mv
                    <= obs[k0].anchor_mv && (j > k0 ==> obs[j].anchor_mv < obs[k0].anchor_mv) by {
                    if j < n - 1 {
                        assert(prefix[j] == obs[j]);
                    }
                }
                k0
            } else {
                assert forall|j: int|
                    0 <= j < obs.len() && counts_as_bad(#[trigger] obs[j], target_mhz) implies obs[j].anchor_mv
                    <= obs[n - 1].anchor_mv && (j > n - 1 ==> obs[j].anchor_mv < obs[n - 1].anchor_mv) by {
                    if j < n - 1 {
                        assert(prefix[j] == obs[j]);
                        assert(obs[j].anchor_mv <= obs[k0].anchor_mv);
                    }
                }
                n - 1
            }
        } else {
            assert forall|j: int|
                0 <= j < obs.len() && counts_as_bad(#[trigger] obs[j], target_mhz) implies obs[j].anchor_mv
                <= obs[n - 1].anchor_mv && (j > n - 1 ==> obs[j].anchor_mv < obs[n - 1].anchor_mv) by {
                if j < n - 1 {
                    assert(prefix[j] == obs[j]);
                    assert(!counts_as_bad(prefix[j], target_mhz));
                }
            }
            n - 1
        }
    } else {
        assert(has_bad(prefix, target_mhz)) by {
            let i = choose|i: int| 0 <= i < obs.len() && counts_as_bad(#[trigger] obs[i], target_mhz);
            assert(i < n - 1);
            assert(prefix[i] == obs[i]);
        }
        let k0 = lemma_first_bad_exists(prefix, target_mhz);
        assert forall|j: int|
            0 <= j < obs.len() && counts_as_bad(#[trigger] obs[j], target_mhz) implies obs[j].anchor_mv
            <= obs[k0].anchor_mv && (j > k0 ==> obs[j].anchor_mv < obs[k0].anchor_mv) by {
            if j < n - 1 {
                assert(prefix[j] == obs[j]);
            }
        }
        k0
    }
}

/// A later failure at or above a voltage invalidates it: the last good point always lies
/// strictly above every recorded failure, so it is never known bad, and when both exist they
/// bracket the minimum stable voltage (`first_bad < last_good`).
pub proof fn lemma_last_good_is_never_known_bad(obs: Seq<F2Observation>, target_mhz: u32)
    ensures
        match last_good_anchor(obs, target_mhz) {
            Some(g) => !known_bad(obs, target_mhz, g) && match first_bad_anchor(obs, target_mhz) {
                Some(b) => b < g,
                None => true,
            },
            None => true,
        },
{
    let pred = |o: F2Observation| good_candidate(obs, o, target_mhz);
    if any_obs(obs, pred) {
        let k = lemma_lowest_exists(obs, pred);
        lemma_lowest_anchor(obs, pred, k);
        let g = obs[k].anchor_mv;
        assert(pred(obs[k]));
        if known_bad(obs, target_mhz, g) {
            let j = choose|j: int|
                0 <= j < obs.len() && counts_as_bad(#[trigger] obs[j], target_mhz) && obs[j].anchor_mv >= g;
            let b = lemma_first_bad_exists(obs, target_mhz);
            lemma_first_bad_anchor(obs, target_mhz, b);
            assert(obs[j].anchor_mv <= obs[b].anchor_mv);
        }
    }
}

proof fn lemma_lowest_exists(obs: Seq<F2Observation>, pred: spec_fn(F2Observation) -> bool) -> (k: int)
    requires
        any_obs(obs, pred),
    ensures
        lowest_at(obs, pred, k),
    decreases obs.len(),
{
    let n = obs.len() as int;
    let prefix = obs.drop_last();
    if any_obs(prefix, pred) {
        let k0 = lemma_lowest_exists(prefix, pred);
        if pred(obs[n - 1]) && obs[n - 1].anchor_mv < obs[k0].anchor_mv {
            assert forall|j: int| 0 <= j < obs.len() && pred(#[trigger] obs[j]) implies obs[n
                - 1].anchor_mv <= obs[j].anchor_mv && (j < n - 1 ==> obs[n - 1].anchor_mv
                < obs[j].anchor_mv) by {
                if j < n - 1 {
                    assert(prefix[j] == obs[j]);
                }
            }
            n - 1
        } else {
            assert forall|j: int| 0 <= j < obs.len() && pred(#[trigger] obs[j]) implies obs[k0].anchor_mv
                <= obs[j].anchor_mv && (j < k0 ==> obs[k0].anchor_mv < obs[j].anchor_mv) by {
                if j < n - 1 {
                    assert(prefix[j] == obs[j]);
                }
            }
            k0
        }
    } else {
        assert(pred(obs[n - 1])) by {
            let i = choose|i: int| 0 <= i < obs.len() && pred(#[trigger] obs[i]);
            if i < n - 1 {
                assert(prefix[i] == obs[i]);
            }
        }
        assert forall|j: int| 0 <= j < obs.len() && pred(#[trigger] obs[j]) implies obs[n - 1].anchor_mv
            <= obs[j].anchor_mv && (j < n - 1 ==> obs[n - 1].anchor_mv < obs[j].anchor_mv) by {
            if j < n - 1 {
                assert(prefix[j] == obs[j]);
            }
        }
        n - 1
    }
}

/// An Apply-qualification reading is trustworthy unless thermal slowdown backed the card off
/// the qualified point: a throttled dwell counts only when its sustained (p5) clock stayed
/// within the tolerance of the target (unknown sustained clock fails closed).
pub open spec fn reading_trustworthy(o: F2Observation, target_mhz: u32) -> bool {
    !o.thermal_throttled || (o.sustained_clock_mhz matches Some(held) && held
        + F2_APPLY_CLOCK_HOLD_TOL_MHZ >= target_mhz)
}

fn apply_qual_reading_trustworthy(o: &F2Observation, target_mhz: u32) -> (r: bool)
    ensures
        r == reading_trustworthy(*o, target_mhz),
{
    if !o.thermal_throttled {
        return true;
    }
    match o.sustained_clock_mhz {
        Some(held) => held as u64 + F2_APPLY_CLOCK_HOLD_TOL_MHZ as u64 >= target_mhz as u64,
        None => false,
    }
}

/// A reset-clean current-contract Apply-qualification pass of one run at one exact Apply pair
/// on one GPU, with trustworthy telemetry.
pub open spec fn apply_pass_match(
    o: F2Observation,
    run_id: Seq<char>,
    target_mhz: u32,
    anchor_mv: u32,
    gpu_key: Seq<char>,
) -> bool {
    &&& o.run_id@ == run_id
    &&& o.target_mhz == target_mhz
    &&& o.anchor_mv == anchor_mv
    &&& o.gpu_key matches Some(g) && g@ == gpu_key
    &&& current_pass_of(o, F2EvidenceKind::ApplyQualification)
    &&& o.reset_to_stock_ok && o.boot_flag_cleared
    &&& reading_trustworthy(o, target_mhz)
}

/// The pattern index of a matching pass (every matching pass has one).
pub open spec fn pass_pattern_index(o: F2Observation) -> int {
    match o.qualification_coverage {
        Some(c) => match c.pattern {
            Some(p) => match required_index(p) {
                Some(i) => i as int,
                None => -1,
            },
            None => -1,
        },
        None => -1,
    }
}

/// A positive sustained-p95 clock.
pub open spec fn upper_clock(o: F2Observation) -> int {
    match o.sustained_upper_clock_mhz {
        Some(c) => c as int,
        None => 0,
    }
}

/// Some matching pass ran required pattern `p`.
pub open spec fn pattern_covered(
    obs: Seq<F2Observation>,
    run_id: Seq<char>,
    target_mhz: u32,
    anchor_mv: u32,
    gpu_key: Seq<char>,
    p: int,
) -> bool {
    exists|i: int|
        0 <= i < obs.len() && apply_pass_match(#[trigger] obs[i], run_id, target_mhz, anchor_mv, gpu_key)
            && pass_pattern_index(obs[i]) == p
}

/// Index `i` holds a matching pass with the highest p95 clock.
pub open spec fn highest_p95_at(
    obs: Seq<F2Observation>,
    run_id: Seq<char>,
    target_mhz: u32,
    anchor_mv: u32,
    gpu_key: Seq<char>,
    i: int,
) -> bool {
    &&& 0 <= i < obs.len()
    &&& apply_pass_match(obs[i], run_id, target_mhz, anchor_mv, gpu_key)
    &&& forall|j: int|
        0 <= j < obs.len() && apply_pass_match(#[trigger] obs[j], run_id, target_mhz, anchor_mv, gpu_key)
            ==> upper_clock(obs[j]) <= upper_clock(obs[i])
}

/// Highest sustained p95 clock reached by a complete, reset-clean set at one exact Apply pair:
/// `None` when any matching pass lacks a positive p95 clock, or some required pattern has no
/// matching pass; otherwise the highest p95 among the matching passes.
pub open spec fn apply_p95_clock(
    obs: Seq<F2Observation>,
    run_id: Seq<char>,
    target_mhz: u32,
    anchor_mv: u32,
    gpu_key: Seq<char>,
) -> Option<u32> {
    if exists|i: int|
        0 <= i < obs.len() && apply_pass_match(#[trigger] obs[i], run_id, target_mhz, anchor_mv, gpu_key)
            && upper_clock(obs[i]) <= 0 {
        None
    } else if !(pattern_covered(obs, run_id, target_mhz, anchor_mv, gpu_key, 0) && pattern_covered(
        obs,
        run_id,
        target_mhz,
        anchor_mv,
        gpu_key,
        1,
    ) && pattern_covered(obs, run_id, target_mhz, anchor_mv, gpu_key, 2) && pattern_covered(
        obs,
        run_id,
        target_mhz,
        anchor_mv,
        gpu_key,
        3,
    )) {
        None
    } else {
        Some(
            upper_clock(
                obs[choose|i: int| highest_p95_at(obs, run_id, target_mhz, anchor_mv, gpu_key, i)],
            ) as u32,
        )
    }
}

fn is_apply_pass_match(o: &F2Observation, run_id: &str, target_mhz: u32, anchor_mv: u32, gpu_key: &str) -> (r:
    bool)
    ensures
        r == apply_pass_match(*o, run_id@, target_mhz, anchor_mv, gpu_key@),
{
    same_text(o.run_id.as_str(), run_id) && o.target_mhz == target_mhz && o.anchor_mv == anchor_mv
        && match &o.gpu_key {
        Some(g) => same_text(g.as_str(), gpu_key),
        None => false,
    } && is_current_apply_qualification_pass(o) && o.reset_to_stock_ok && o.boot_flag_cleared
        && apply_qual_reading_trustworthy(o, target_mhz)
}

/// Highest sustained p95 clock reached by a complete, reset-clean current-contract set at one
/// exact Apply pair of one run. Missing telemetry in any matching pass fails closed.
pub fn current_apply_qualification_p95_clock_at_anchor(
    obs: &[F2Observation],
    run_id: &str,
    target_mhz: u32,
    anchor_mv: u32,
    gpu_key: &str,
) -> (r: Option<u32>)
    ensures
        r == apply_p95_clock(obs@, run_id@, target_mhz, anchor_mv, gpu_key@),
{
    let ghost m = |o: F2Observation| apply_pass_match(o, run_id@, target_mhz, anchor_mv, gpu_key@);
    let mut seen: Vec<bool> = vec![false, false, false, false];
    let mut highest: u32 = 0;
    let ghost mut best: int = -1;
    let mut i: usize = 0;
    while i < obs.len()
        invariant
            i <= obs@.len(),
            m == (|o: F2Observation| apply_pass_match(o, run_id@, target_mhz, anchor_mv, gpu_key@)),
            seen@.len() == 4,
            forall|p: int|
                0 <= p < 4 ==> #[trigger] seen@[p] == exists|j: int|
                    0 <= j < i && m(#[trigger] obs@[j]) && pass_pattern_index(obs@[j]) == p,
            forall|j: int| 0 <= j < i && m(#[trigger] obs@[j]) ==> upper_clock(obs@[j]) > 0,
            forall|j: int| 0 <= j < i && m(#[trigger] obs@[j]) ==> upper_clock(obs@[j]) <= highest,
            highest > 0 ==> 0 <= best < i && m(obs@[best]) && upper_clock(obs@[best]) == highest,
            highest == 0 ==> forall|j: int| 0 <= j < i ==> !m(#[trigger] obs@[j]),
        decreases obs@.len() - i,
    {
        let o = &obs[i];
        if is_apply_pass_match(o, run_id, target_mhz, anchor_mv, gpu_key) {
            let clock = match o.sustained_upper_clock_mhz {
                Some(c) => c,
                None => 0,
            };
            if clock == 0 {
                proof {
                    assert(m(obs@[i as int]) && upper_clock(obs@[i as int]) <= 0);
                }
                return None;
            }
            let idx = match &o.qualification_coverage {
                Some(c) => match c.pattern {
                    Some(p) => required_pattern_index(p),
                    None => None,
                },
                None => None,
            };
            let idx = match idx {
                Some(x) => x,
                None => {
                    proof {
                        assert(false);
                    }
                    0
                },
            };
            proof {
                assert(pass_pattern_index(obs@[i as int]) == idx);
            }
            seen.set(idx, true);
            if clock > highest {
                highest = clock;
                proof {
                    best = i as int;
                }
            }
        }
        proof {
            assert forall|p: int|
                0 <= p < 4 implies #[trigger] seen@[p] == exists|j: int|
                    0 <= j < i + 1 && m(#[trigger] obs@[j]) && pass_pattern_index(obs@[j]) == p by {
                if exists|j: int| 0 <= j < i + 1 && m(#[trigger] obs@[j]) && pass_pattern_index(obs@[j]) == p {
                    let j = choose|j: int| 0 <= j < i + 1 && m(#[trigger] obs@[j]) && pass_pattern_index(obs@[j]) == p;
                    if j < i {
                        assert(exists|k: int| 0 <= k < i && m(#[trigger] obs@[k]) && pass_pattern_index(obs@[k]) == p);
                    }
                }
            }
        }
        i = i + 1;
    }
    proof {
        assert(!(exists|j: int|
            0 <= j < obs@.len() && apply_pass_match(#[trigger] obs@[j], run_id@, target_mhz, anchor_mv, gpu_key@)
                && upper_clock(obs@[j]) <= 0)) by {
            if exists|j: int|
                0 <= j < obs@.len() && apply_pass_match(#[trigger] obs@[j], run_id@, target_mhz, anchor_mv, gpu_key@)
                    && upper_clock(obs@[j]) <= 0 {
                let j = choose|j: int|
                    0 <= j < obs@.len() && apply_pass_match(#[trigger] obs@[j], run_id@, target_mhz, anchor_mv, gpu_key@)
                        && upper_clock(obs@[j]) <= 0;
                assert(m(obs@[j]));
            }
        }
        assert forall|p: int| 0 <= p < 4 implies #[trigger] seen@[p] == pattern_covered(
            obs@,
            run_id@,
            target_mhz,
            anchor_mv,
            gpu_key@,
            p,
        ) by {
            if seen@[p] {
                let j = choose|j: int| 0 <= j < obs@.len() && m(#[trigger] obs@[j]) && pass_pattern_index(obs@[j]) == p;
                assert(apply_pass_match(obs@[j], run_id@, target_mhz, anchor_mv, gpu_key@));
            }
            if pattern_covered(obs@, run_id@, target_mhz, anchor_mv, gpu_key@, p) {
                let j = choose|j: int|
                    0 <= j < obs@.len() && apply_pass_match(#[trigger] obs@[j], run_id@, target_mhz, anchor_mv, gpu_key@)
                        && pass_pattern_index(obs@[j]) == p;
                assert(m(obs@[j]));
            }
        }
    }
    if seen[0] && seen[1] && seen[2] && seen[3] && highest > 0 {
        proof {
            assert(highest_p95_at(obs@, run_id@, target_mhz, anchor_mv, gpu_key@, best)) by {
                assert forall|j: int|
                    0 <= j < obs@.len() && apply_pass_match(#[trigger] obs@[j], run_id@, target_mhz, anchor_mv, gpu_key@)
                        implies upper_clock(obs@[j]) <= upper_clock(obs@[best]) by {
                    assert(m(obs@[j]));
                }
            }
            let k = choose|k: int| highest_p95_at(obs@, run_id@, target_mhz, anchor_mv, gpu_key@, k);
            assert(highest_p95_at(obs@, run_id@, target_mhz, anchor_mv, gpu_key@, k));
            assert(upper_clock(obs@[k]) <= upper_clock(obs@[best]));
            assert(upper_clock(obs@[best]) <= upper_clock(obs@[k]));
        }
        Some(highest)
    } else {
        proof {
            if seen@[0] && seen@[1] && seen@[2] && seen@[3] {
                let j = choose|j: int| 0 <= j < obs@.len() && m(#[trigger] obs@[j]) && pass_pattern_index(obs@[j]) == 0;
                assert(upper_clock(obs@[j]) > 0);
            }
        }
        None
    }
}

// ── Power at an exact point ─────────────────────────────────────────────────────────────────

/// `b` is the bit pattern of a positive, finite `f32` (sign clear, exponent not all ones, not
/// zero): for such patterns the integer order of the bits is the order of the numbers.
pub open spec fn is_positive_finite_f32_bits(b: u32) -> bool {
    0 < b < 0x7f80_0000
}

/// Every recorded p99 power reading is a positive finite number.
pub open spec fn p99_bits_valid(obs: Seq<F2Observation>) -> bool {
    forall|i: int|
        0 <= i < obs.len() ==> ((#[trigger] obs[i]).power_p99_bits matches Some(b) ==> is_positive_finite_f32_bits(b))
}

/// The p99 reading's bits (0 when no positive finite reading was kept).
pub open spec fn p99_bits(o: F2Observation) -> u32 {
    match o.power_p99_bits {
        Some(b) => b,
        None => 0,
    }
}

/// Current v4, p99-confirmed, reset-clean, thermally valid PowerRender evidence at one exact
/// target/anchor on one GPU, with complete clock and power telemetry. A power-bound clock drop
/// counts as power/clock telemetry for the apply bin.
pub open spec fn discovery_power_candidate(o: F2Observation, target_mhz: u32, anchor_mv: u32, gpu_key: Seq<char>) -> bool {
    &&& o.target_mhz == target_mhz
    &&& o.anchor_mv == anchor_mv
    &&& o.gpu_key matches Some(g) && g@ == gpu_key
    &&& (o.outcome == F2ObsOutcome::Validated || o.outcome == F2ObsOutcome::PowerBoundClockDrop)
    &&& current_discovery(o)
    &&& o.reset_to_stock_ok && o.boot_flag_cleared
    &&& !o.thermal_throttled
    &&& o.avg_clock_mhz is Some && o.sustained_clock_mhz is Some
    &&& o.watts matches Some(w) && w > 0
    &&& o.max_watts matches Some(w) && w > 0
    &&& o.power_p99_bits is Some
}

/// Index `i` holds the highest-p99 observation satisfying `pred`, the last one among equals.
pub open spec fn highest_p99_at(obs: Seq<F2Observation>, pred: spec_fn(F2Observation) -> bool, i: int) -> bool {
    &&& 0 <= i < obs.len()
    &&& pred(obs[i])
    &&& forall|j: int|
        0 <= j < obs.len() && pred(#[trigger] obs[j]) ==> p99_bits(obs[j]) <= p99_bits(obs[i]) && (j > i
            ==> p99_bits(obs[j]) < p99_bits(obs[i]))
}

fn is_discovery_power_candidate(o: &F2Observation, target_mhz: u32, anchor_mv: u32, gpu_key: &str) -> (r: bool)
    ensures
        r == discovery_power_candidate(*o, target_mhz, anchor_mv, gpu_key@),
{
    o.target_mhz == target_mhz && o.anchor_mv == anchor_mv && match &o.gpu_key {
        Some(g) => same_text(g.as_str(), gpu_key),
        None => false,
    } && (matches!(o.outcome, F2ObsOutcome::Validated) || matches!(o.outcome, F2ObsOutcome::PowerBoundClockDrop))
        && is_current_discovery_evidence(o) && o.reset_to_stock_ok && o.boot_flag_cleared
        && !o.thermal_throttled && o.avg_clock_mhz.is_some() && o.sustained_clock_mhz.is_some() && match o.watts {
        Some(w) => w > 0,
        None => false,
    } && match o.max_watts {
        Some(w) => w > 0,
        None => false,
    } && o.power_p99_bits.is_some()
}

/// Highest sustained-p99 discovery observation for one exact target/apply anchor on one GPU
/// (the last one among equal readings): only current, p99-confirmed, reset-clean, thermally
/// valid PowerRender evidence with complete telemetry is eligible; a power-bound clock drop
/// remains valid power/clock telemetry but is never promoted into stability evidence.
pub fn current_discovery_observation_at_anchor<'a>(
    obs: &'a [F2Observation],
    target_mhz: u32,
    anchor_mv: u32,
    gpu_key: &str,
) -> (r: Option<&'a F2Observation>)
    requires
        p99_bits_valid(obs@),
    ensures
        ({
            let pred = |o: F2Observation| discovery_power_candidate(o, target_mhz, anchor_mv, gpu_key@);
            match r {
                Some(o) => exists|i: int| highest_p99_at(obs@, pred, i) && obs@[i] == *o,
                None => !any_obs(obs@, pred),
            }
        }),
{
    let ghost pred = |o: F2Observation| discovery_power_candidate(o, target_mhz, anchor_mv, gpu_key@);
    let mut best: Option<usize> = None;
    let mut i: usize = 0;
    while i < obs.len()
        invariant
            i <= obs@.len(),
            pred == (|o: F2Observation| discovery_power_candidate(o, target_mhz, anchor_mv, gpu_key@)),
            match best {
                Some(b) => b < i && pred(obs@[b as int]) && forall|j: int|
                    0 <= j < i && pred(#[trigger] obs@[j]) ==> p99_bits(obs@[j]) <= p99_bits(obs@[b as int])
                        && (j > b ==> p99_bits(obs@[j]) < p99_bits(obs@[b as int])),
                None => forall|j: int| 0 <= j < i ==> !pred(#[trigger] obs@[j]),
            },
        decreases obs@.len() - i,
    {
        let o = &obs[i];
        if is_discovery_power_candidate(o, target_mhz, anchor_mv, gpu_key) {
            let bits = match o.power_p99_bits {
                Some(b) => b,
                None => 0,
            };
            match best {
                Some(b) => {
                    let best_bits = match obs[b].power_p99_bits {
                        Some(x) => x,
                        None => 0,
                    };
                    if bits >= best_bits {
                        best = Some(i);
                    }
                },
                None => {
                    best = Some(i);
                },
            }
        }
        i = i + 1;
    }
    match best {
        Some(b) => Some(&obs[b]),
        None => None,
    }
}

/// A reset-clean current-contract Apply-qualification pass (of run `run_id` when given) at one
/// exact Apply pair on one GPU, with trustworthy telemetry and a positive finite p99 reading.
pub open spec fn apply_power_pass(
    o: F2Observation,
    run_id: Option<Seq<char>>,
    target_mhz: u32,
    anchor_mv: u32,
    gpu_key: Seq<char>,
) -> bool {
    &&& (run_id matches Some(r) ==> o.run_id@ == r)
    &&& o.target_mhz == target_mhz
    &&& o.anchor_mv == anchor_mv
    &&& o.gpu_key matches Some(g) && g@ == gpu_key
    &&& current_pass_of(o, F2EvidenceKind::ApplyQualification)
    &&& o.reset_to_stock_ok && o.boot_flag_cleared
    &&& reading_trustworthy(o, target_mhz)
    &&& o.power_p99_bits is Some
}

/// Run `rid` passed required pattern `p` at the pair.
pub open spec fn run_has_pattern(
    obs: Seq<F2Observation>,
    run_id: Option<Seq<char>>,
    target_mhz: u32,
    anchor_mv: u32,
    gpu_key: Seq<char>,
    rid: Seq<char>,
    p: int,
) -> bool {
    exists|i: int|
        0 <= i < obs.len() && apply_power_pass(#[trigger] obs[i], run_id, target_mhz, anchor_mv, gpu_key)
            && obs[i].run_id@ == rid && pass_pattern_index(obs[i]) == p
}

/// Run `rid` passed every required pattern at the pair.
pub open spec fn run_complete(
    obs: Seq<F2Observation>,
    run_id: Option<Seq<char>>,
    target_mhz: u32,
    anchor_mv: u32,
    gpu_key: Seq<char>,
    rid: Seq<char>,
) -> bool {
    &&& run_has_pattern(obs, run_id, target_mhz, anchor_mv, gpu_key, rid, 0)
    &&& run_has_pattern(obs, run_id, target_mhz, anchor_mv, gpu_key, rid, 1)
    &&& run_has_pattern(obs, run_id, target_mhz, anchor_mv, gpu_key, rid, 2)
    &&& run_has_pattern(obs, run_id, target_mhz, anchor_mv, gpu_key, rid, 3)
}

/// The passes whose power may be published: those of complete runs.
pub open spec fn published_pass(
    obs: Seq<F2Observation>,
    run_id: Option<Seq<char>>,
    target_mhz: u32,
    anchor_mv: u32,
    gpu_key: Seq<char>,
) -> spec_fn(F2Observation) -> bool {
    |o: F2Observation|
        apply_power_pass(o, run_id, target_mhz, anchor_mv, gpu_key) && run_complete(
            obs,
            run_id,
            target_mhz,
            anchor_mv,
            gpu_key,
            o.run_id@,
        )
}

/// Highest sustained p99 (as its bits) over the complete, reset-clean current-contract runs at
/// one exact Apply pair; `None` when no run completed every required pattern.
pub open spec fn apply_p99_bits(
    obs: Seq<F2Observation>,
    run_id: Option<Seq<char>>,
    target_mhz: u32,
    anchor_mv: u32,
    gpu_key: Seq<char>,
) -> Option<u32> {
    let pred = published_pass(obs, run_id, target_mhz, anchor_mv, gpu_key);
    if any_obs(obs, pred) {
        Some(p99_bits(obs[choose|i: int| highest_p99_at(obs, pred, i)]))
    } else {
        None
    }
}

fn is_apply_power_pass(o: &F2Observation, run_id: Option<&str>, target_mhz: u32, anchor_mv: u32, gpu_key: &str) -> (r:
    bool)
    ensures
        r == apply_power_pass(
            *o,
            match run_id {
                Some(s) => Some(s@),
                None => None,
            },
            target_mhz,
            anchor_mv,
            gpu_key@,
        ),
{
    let run_ok = match run_id {
        Some(expected) => same_text(o.run_id.as_str(), expected),
        None => true,
    };
    run_ok && o.target_mhz == target_mhz && o.anchor_mv == anchor_mv && match &o.gpu_key {
        Some(g) => same_text(g.as_str(), gpu_key),
        None => false,
    } && is_current_apply_qualification_pass(o) && o.reset_to_stock_ok && o.boot_flag_cleared
        && apply_qual_reading_trustworthy(o, target_mhz) && o.power_p99_bits.is_some()
}

fn is_run_complete(obs: &[F2Observation], run_id: Option<&str>, target_mhz: u32, anchor_mv: u32, gpu_key: &str, rid: &str) -> (r: bool)
    ensures
        r == run_complete(
            obs@,
            match run_id {
                Some(s) => Some(s@),
                None => None,
            },
            target_mhz,
            anchor_mv,
            gpu_key@,
            rid@,
        ),
{
    let ghost run = match run_id {
        Some(s) => Some(s@),
        None => None::<Seq<char>>,
    };
    let ghost m = |o: F2Observation| apply_power_pass(o, run, target_mhz, anchor_mv, gpu_key@) && o.run_id@ == rid@;
    let mut seen: Vec<bool> = vec![false, false, false, false];
    let mut i: usize = 0;
    while i < obs.len()
        invariant
            i <= obs@.len(),
            run == match run_id {
                Some(s) => Some(s@),
                None => None::<Seq<char>>,
            },
            m == (|o: F2Observation| apply_power_pass(o, run, target_mhz, anchor_mv, gpu_key@) && o.run_id@ == rid@),
            seen@.len() == 4,
            forall|p: int|
                0 <= p < 4 ==> #[trigger] seen@[p] == exists|j: int|
                    0 <= j < i && m(#[trigger] obs@[j]) && pass_pattern_index(obs@[j]) == p,
        decreases obs@.len() - i,
    {
        let o = &obs[i];
        if is_apply_power_pass(o, run_id, target_mhz, anchor_mv, gpu_key) && same_text(o.run_id.as_str(), rid) {
            let idx = match &o.qualification_coverage {
                Some(c) => match c.pattern {
                    Some(p) => required_pattern_index(p),
                    None => None,
                },
                None => None,
            };
            let idx = match idx {
                Some(x) => x,
                None => {
                    proof {
                        assert(false);
                    }
                    0
                },
            };
            proof {
                assert(pass_pattern_index(obs@[i as int]) == idx);
            }
            seen.set(idx, true);
        }
        proof {
            assert forall|p: int|
                0 <= p < 4 implies #[trigger] seen@[p] == exists|j: int|
                    0 <= j < i + 1 && m(#[trigger] obs@[j]) && pass_pattern_index(obs@[j]) == p by {
                if exists|j: int| 0 <= j < i + 1 && m(#[trigger] obs@[j]) && pass_pattern_index(obs@[j]) == p {
                    let j = choose|j: int| 0 <= j < i + 1 && m(#[trigger] obs@[j]) && pass_pattern_index(obs@[j]) == p;
                    if j < i {
                        assert(exists|k: int| 0 <= k < i && m(#[trigger] obs@[k]) && pass_pattern_index(obs@[k]) == p);
                    }
                }
            }
        }
        i = i + 1;
    }
    proof {
        assert forall|p: int| 0 <= p < 4 implies #[trigger] seen@[p] == run_has_pattern(
            obs@,
            run,
            target_mhz,
            anchor_mv,
            gpu_key@,
            rid@,
            p,
        ) by {
            if seen@[p] {
                let j = choose|j: int| 0 <= j < obs@.len() && m(#[trigger] obs@[j]) && pass_pattern_index(obs@[j]) == p;
                assert(apply_power_pass(obs@[j], run, target_mhz, anchor_mv, gpu_key@));
            }
            if run_has_pattern(obs@, run, target_mhz, anchor_mv, gpu_key@, rid@, p) {
                let j = choose|j: int|
                    0 <= j < obs@.len() && apply_power_pass(#[trigger] obs@[j], run, target_mhz, anchor_mv, gpu_key@)
                        && obs@[j].run_id@ == rid@ && pass_pattern_index(obs@[j]) == p;
                assert(m(obs@[j]));
            }
        }
    }
    seen[0] && seen[1] && seen[2] && seen[3]
}

fn apply_qualification_p99_at_anchor(
    obs: &[F2Observation],
    run_id: Option<&str>,
    target_mhz: u32,
    anchor_mv: u32,
    gpu_key: &str,
) -> (r: Option<u32>)
    ensures
        r == apply_p99_bits(
            obs@,
            match run_id {
                Some(s) => Some(s@),
                None => None,
            },
            target_mhz,
            anchor_mv,
            gpu_key@,
        ),
{
    let ghost run = match run_id {
        Some(s) => Some(s@),
        None => None::<Seq<char>>,
    };
    let ghost pred = published_pass(obs@, run, target_mhz, anchor_mv, gpu_key@);
    let mut best: Option<usize> = None;
    let mut i: usize = 0;
    while i < obs.len()
        invariant
            i <= obs@.len(),
            run == match run_id {
                Some(s) => Some(s@),
                None => None::<Seq<char>>,
            },
            pred == published_pass(obs@, run, target_mhz, anchor_mv, gpu_key@),
            match best {
                Some(b) => b < i && pred(obs@[b as int]) && forall|j: int|
                    0 <= j < i && pred(#[trigger] obs@[j]) ==> p99_bits(obs@[j]) <= p99_bits(obs@[b as int])
                        && (j > b ==> p99_bits(obs@[j]) < p99_bits(obs@[b as int])),
                None => forall|j: int| 0 <= j < i ==> !pred(#[trigger] obs@[j]),
            },
        decreases obs@.len() - i,
    {
        let o = &obs[i];
        if is_apply_power_pass(o, run_id, target_mhz, anchor_mv, gpu_key) && is_run_complete(
            obs,
            run_id,
            target_mhz,
            anchor_mv,
            gpu_key,
            o.run_id.as_str(),
        ) {
            let bits = match o.power_p99_bits {
                Some(b) => b,
                None => 0,
            };
            match best {
                Some(b) => {
                    let best_bits = match obs[b].power_p99_bits {
                        Some(x) => x,
                        None => 0,
                    };
                    if bits >= best_bits {
                        best = Some(i);
                    }
                },
                None => {
                    best = Some(i);
                },
            }
        }
        i = i + 1;
    }
    match best {
        Some(b) => {
            proof {
                assert(highest_p99_at(obs@, pred, b as int));
                let k = choose|k: int| highest_p99_at(obs@, pred, k);
                assert(highest_p99_at(obs@, pred, k));
                assert(p99_bits(obs@[k]) <= p99_bits(obs@[b as int]));
                assert(p99_bits(obs@[b as int]) <= p99_bits(obs@[k]));
            }
            obs[b].power_p99_bits
        },
        None => None,
    }
}

/// Highest sustained p99 (as its IEEE-754 bits) measured by a complete, reset-clean set of
/// current-contract Apply-qualification passes at one exact Apply anchor in one Forge run: every
/// required pattern must have passed; a thermal slowdown that sagged the sustained clock is
/// excluded, one that held the target clock is trusted.
pub fn current_apply_qualification_p99_at_anchor(
    obs: &[F2Observation],
    run_id: &str,
    target_mhz: u32,
    anchor_mv: u32,
    gpu_key: &str,
) -> (r: Option<u32>)
    requires
        p99_bits_valid(obs@),
    ensures
        r == apply_p99_bits(obs@, Some(run_id@), target_mhz, anchor_mv, gpu_key@),
{
    apply_qualification_p99_at_anchor(obs, Some(run_id), target_mhz, anchor_mv, gpu_key)
}

/// Highest sustained p99 (as its IEEE-754 bits) across every complete current-contract run for
/// one exact Apply pair.
pub fn highest_apply_qualification_p99_at_anchor(
    obs: &[F2Observation],
    target_mhz: u32,
    anchor_mv: u32,
    gpu_key: &str,
) -> (r: Option<u32>)
    requires
        p99_bits_valid(obs@),
    ensures
        r == apply_p99_bits(obs@, None, target_mhz, anchor_mv, gpu_key@),
{
    apply_qualification_p99_at_anchor(obs, None, target_mhz, anchor_mv, gpu_key)
}

// ── Learned frontier ────────────────────────────────────────────────────────────────────────

/// `x + d`, saturating at `u32::MAX`.
pub open spec fn sat_add_u32(x: u32, d: u32) -> int {
    if x + d > u32::MAX {
        u32::MAX as int
    } else {
        x + d
    }
}

/// At least the crash-proximity margin above every crash/TDR anchor recorded for the target.
pub open spec fn crash_clear(obs: Seq<F2Observation>, o: F2Observation, target_mhz: u32) -> bool {
    forall|i: int|
        0 <= i < obs.len() && crash_record(#[trigger] obs[i], target_mhz) ==> o.anchor_mv >= sat_add_u32(
            obs[i].anchor_mv,
            F2_CRASH_PROXIMITY_MIN_MV,
        )
}

/// The observations that may define a target's learned frontier point: current-discovery
/// validated points strictly above the highest failure and clear of the crash margin.
pub open spec fn frontier_pred(obs: Seq<F2Observation>, target_mhz: u32) -> spec_fn(F2Observation) -> bool {
    |o: F2Observation| discovery_good_candidate(obs, o, target_mhz) && crash_clear(obs, o, target_mhz)
}

/// Evidence at the frontier point: a validated current-discovery observation or a current
/// qualification pass at the exact target and anchor.
pub open spec fn frontier_evidence(o: F2Observation, target_mhz: u32, anchor_mv: u32) -> bool {
    &&& o.target_mhz == target_mhz
    &&& o.outcome == F2ObsOutcome::Validated
    &&& o.anchor_mv == anchor_mv
    &&& (current_discovery(o) || current_pass_of(o, F2EvidenceKind::Qualification))
}

/// Some current qualification pass at the exact point ran required pattern `p`.
pub open spec fn pattern_qualified(obs: Seq<F2Observation>, target_mhz: u32, anchor_mv: u32, p: int) -> bool {
    exists|j: int|
        0 <= j < obs.len() && frontier_evidence(#[trigger] obs[j], target_mhz, anchor_mv) && current_pass_of(
            obs[j],
            F2EvidenceKind::Qualification,
        ) && pass_pattern_index(obs[j]) == p
}

/// How many distinct required patterns passed current qualification at the exact point.
pub open spec fn qualified_pattern_count(obs: Seq<F2Observation>, target_mhz: u32, anchor_mv: u32) -> nat {
    (if pattern_qualified(obs, target_mhz, anchor_mv, 0) { 1nat } else { 0nat })
        + (if pattern_qualified(obs, target_mhz, anchor_mv, 1) { 1nat } else { 0nat })
        + (if pattern_qualified(obs, target_mhz, anchor_mv, 2) { 1nat } else { 0nat })
        + (if pattern_qualified(obs, target_mhz, anchor_mv, 3) { 1nat } else { 0nat })
}

/// How many observations were recorded for the target.
pub open spec fn count_for_target(obs: Seq<F2Observation>, target_mhz: u32) -> nat
    decreases obs.len(),
{
    if obs.len() == 0 {
        0
    } else {
        count_for_target(obs.drop_last(), target_mhz) + if obs.last().target_mhz == target_mhz {
            1nat
        } else {
            0nat
        }
    }
}

/// Width of the target's voltage bracket, when both ends are known.
pub open spec fn bracket_width(obs: Seq<F2Observation>, target_mhz: u32) -> Option<u32> {
    match (last_good_anchor(obs, target_mhz), first_bad_anchor(obs, target_mhz)) {
        (Some(good), Some(bad)) => if good > bad {
            Some((good - bad) as u32)
        } else {
            None
        },
        _ => None,
    }
}

/// One learned frontier point: the deepest current-discovery validated anchor for a target and
/// the facts around it. The confidence estimate is computed by the caller from the evidence at
/// the point (`evidence_indices`), whose dwell durations and sample counts it weighs.
#[derive(Debug, Clone, PartialEq, Eq)]
pub struct F2FrontierEntry {
    pub target_mhz: u32,
    /// Learned anchor (lowest validated voltage = deepest stable undervolt for this target).
    pub best_anchor_mv: u32,
    pub offset_mhz: i32,
    pub watts: Option<u32>,
    pub max_watts: Option<u32>,
    pub avg_clock_mhz: Option<u32>,
    pub sustained_clock_mhz: Option<u32>,
    pub sustained_upper_clock_mhz: Option<u32>,
    pub dwell_duration_ms: Option<u64>,
    pub sample_count: Option<u32>,
    pub thermal_throttled: bool,
    /// Distinct required qualification patterns passed at this exact target/anchor point.
    pub validation_count: usize,
    pub first_bad_mv: Option<u32>,
    pub bracket_width_mv: Option<u32>,
    pub observation_count: usize,
    /// Timestamp of the best observation (RFC3339).
    pub last_updated: String,
    pub safety_notes: Option<String>,
    /// Position of the selected observation in the input.
    pub best_index: usize,
    /// Positions of the evidence at the selected point, in input order.
    pub evidence_indices: Vec<usize>,
}

/// `e` is the learned frontier entry of `target_mhz`: the first lowest frontier candidate, its
/// telemetry copied, the counts, failure edge and bracket of the target, and exactly the
/// positions of the evidence at that point in increasing order.
pub open spec fn is_frontier_entry(obs: Seq<F2Observation>, target_mhz: u32, e: F2FrontierEntry) -> bool {
    let b = obs[e.best_index as int];
    let ev = e.evidence_indices@;
    &&& lowest_at(obs, frontier_pred(obs, target_mhz), e.best_index as int)
    &&& e.target_mhz == target_mhz
    &&& e.best_anchor_mv == b.anchor_mv
    &&& e.offset_mhz == b.offset_mhz
    &&& e.watts == b.watts
    &&& e.max_watts == b.max_watts
    &&& e.avg_clock_mhz == b.avg_clock_mhz
    &&& e.sustained_clock_mhz == b.sustained_clock_mhz
    &&& e.sustained_upper_clock_mhz == b.sustained_upper_clock_mhz
    &&& e.dwell_duration_ms == b.dwell_duration_ms
    &&& e.sample_count == b.sample_count
    &&& e.thermal_throttled == b.thermal_throttled
    &&& e.last_updated@ == b.timestamp@
    &&& e.safety_notes is None
    &&& e.validation_count == qualified_pattern_count(obs, target_mhz, b.anchor_mv)
    &&& e.first_bad_mv == first_bad_anchor(obs, target_mhz)
    &&& e.bracket_width_mv == bracket_width(obs, target_mhz)
    &&& e.observation_count == count_for_target(obs, target_mhz)
    &&& forall|k: int|
        0 <= k < ev.len() ==> #[trigger] ev[k] < obs.len() && frontier_evidence(obs[ev[k] as int], target_mhz, b.anchor_mv)
    &&& forall|a: int, c: int| 0 <= a < c < ev.len() ==> ev[a] < ev[c]
    &&& forall|j: int|
        0 <= j < obs.len() && frontier_evidence(#[trigger] obs[j], target_mhz, b.anchor_mv) ==> ev.contains(
            j as usize,
        )
}

proof fn lemma_crash_clear(obs: Seq<F2Observation>, o: F2Observation, target_mhz: u32, m: u32)
    requires
        exists|j: int| 0 <= j < obs.len() && crash_record(#[trigger] obs[j], target_mhz) && obs[j].anchor_mv == m,
        forall|i: int| 0 <= i < obs.len() && crash_record(#[trigger] obs[i], target_mhz) ==> obs[i].anchor_mv <= m,
    ensures
        crash_clear(obs, o, target_mhz) == (o.anchor_mv >= sat_add_u32(m, F2_CRASH_PROXIMITY_MIN_MV)),
{
    let j = choose|j: int| 0 <= j < obs.len() && crash_record(#[trigger] obs[j], target_mhz) && obs[j].anchor_mv == m;
    if crash_clear(obs, o, target_mhz) {
        assert(crash_record(obs[j], target_mhz));
    }
    if o.anchor_mv >= sat_add_u32(m, F2_CRASH_PROXIMITY_MIN_MV) {
        assert forall|i: int| 0 <= i < obs.len() && crash_record(#[trigger] obs[i], target_mhz) implies o.anchor_mv
            >= sat_add_u32(obs[i].anchor_mv, F2_CRASH_PROXIMITY_MIN_MV) by {
            assert(obs[i].anchor_mv <= m);
        }
    }
}

/// Position of the target's frontier point: the first lowest frontier candidate.
fn frontier_best_index(obs: &[F2Observation], target_mhz: u32) -> (r: Option<usize>)
    ensures
        match r {
            Some(i) => lowest_at(obs@, frontier_pred(obs@, target_mhz), i as int),
            None => !any_obs(obs@, frontier_pred(obs@, target_mhz)),
        },
{
    let ghost pred = frontier_pred(obs@, target_mhz);
    let bad = first_bad_index(obs, target_mhz);
    let bad_mv: Option<u32> = match bad {
        Some(b) => Some(obs[b].anchor_mv),
        None => None,
    };
    let crash = crash_floor_for_target(obs, target_mhz);
    let floor: u64 = match crash {
        Some(m) => if m as u64 + F2_CRASH_PROXIMITY_MIN_MV as u64 > u32::MAX as u64 {
            u32::MAX as u64
        } else {
            m as u64 + F2_CRASH_PROXIMITY_MIN_MV as u64
        },
        None => 0,
    };
    proof {
        assert forall|o: F2Observation| #[trigger] crash_clear(obs@, o, target_mhz) == (o.anchor_mv >= floor) by {
            match crash {
                Some(m) => lemma_crash_clear(obs@, o, target_mhz, m),
                None => {},
            }
        }
    }
    let mut best: Option<usize> = None;
    let mut i: usize = 0;
    while i < obs.len()
        invariant
            i <= obs@.len(),
            pred == frontier_pred(obs@, target_mhz),
            bad_mv == first_bad_anchor(obs@, target_mhz),
            forall|o: F2Observation| #[trigger] crash_clear(obs@, o, target_mhz) == (o.anchor_mv >= floor),
            match best {
                Some(b) => b < i && pred(obs@[b as int]) && forall|j: int|
                    0 <= j < i && pred(#[trigger] obs@[j]) ==> obs@[b as int].anchor_mv
                        <= obs@[j].anchor_mv && (j < b ==> obs@[b as int].anchor_mv < obs@[j].anchor_mv),
                None => forall|j: int| 0 <= j < i ==> !pred(#[trigger] obs@[j]),
            },
        decreases obs@.len() - i,
    {
        let o = &obs[i];
        let above_bad = match bad_mv {
            Some(b) => o.anchor_mv > b,
            None => true,
        };
        let eligible = o.target_mhz == target_mhz && o.outcome.is_validated() && above_bad
            && is_current_discovery_evidence(o) && o.anchor_mv as u64 >= floor;
        proof {
            assert(crash_clear(obs@, obs@[i as int], target_mhz) == (obs@[i as int].anchor_mv >= floor));
            assert(eligible == pred(obs@[i as int]));
        }
        if eligible {
            match best {
                Some(b) => {
                    if o.anchor_mv < obs[b].anchor_mv {
                        best = Some(i);
                    }
                },
                None => {
                    best = Some(i);
                },
            }
        }
        i = i + 1;
    }
    best
}

proof fn lemma_count_for_target_step(obs: Seq<F2Observation>, target_mhz: u32, i: int)
    requires
        0 <= i < obs.len(),
    ensures
        count_for_target(obs.take(i + 1), target_mhz) == count_for_target(obs.take(i), target_mhz) + if obs[i].target_mhz
            == target_mhz {
            1nat
        } else {
            0nat
        },
{
    assert(obs.take(i + 1).drop_last() =~= obs.take(i));
}

/// Build one learned frontier entry for a target, or `None` if no observation can define it.
/// Chooses the LOWEST-voltage current-discovery validated point strictly above the highest
/// failure and at least [`F2_CRASH_PROXIMITY_MIN_MV`] above every crash anchor (the first one
/// among equals), and annotates it with the failure edge, bracket width, observation count, the
/// distinct required qualification patterns passed there and the positions of its evidence.
pub fn frontier_entry_for_target(obs: &[F2Observation], target_mhz: u32) -> (r: Option<F2FrontierEntry>)
    ensures
        match r {
            Some(e) => is_frontier_entry(obs@, target_mhz, e),
            None => !any_obs(obs@, frontier_pred(obs@, target_mhz)),
        },
{
    let b = match frontier_best_index(obs, target_mhz) {
        Some(b) => b,
        None => {
            return None;
        },
    };
    let best = &obs[b];
    let mv = best.anchor_mv;
    let mut evidence: Vec<usize> = Vec::new();
    let mut seen: Vec<bool> = vec![false, false, false, false];
    let mut observation_count: usize = 0;
    let mut i: usize = 0;
    while i < obs.len()
        invariant
            i <= obs@.len(),
            b < obs@.len(),
            mv == obs@[b as int].anchor_mv,
            observation_count == count_for_target(obs@.take(i as int), target_mhz),
            observation_count <= i,
            seen@.len() == 4,
            forall|p: int|
                0 <= p < 4 ==> #[trigger] seen@[p] == exists|j: int|
                    0 <= j < i && frontier_evidence(#[trigger] obs@[j], target_mhz, mv) && current_pass_of(
                        obs@[j],
                        F2EvidenceKind::Qualification,
                    ) && pass_pattern_index(obs@[j]) == p,
            forall|k: int|
                0 <= k < evidence@.len() ==> #[trigger] evidence@[k] < i && frontier_evidence(
                    obs@[evidence@[k] as int],
                    target_mhz,
                    mv,
                ),
            forall|a: int, c: int| 0 <= a < c < evidence@.len() ==> evidence@[a] < evidence@[c],
            forall|j: int|
                0 <= j < i && frontier_evidence(#[trigger] obs@[j], target_mhz, mv) ==> evidence@.contains(
                    j as usize,
                ),
        decreases obs@.len() - i,
    {
        proof {
            lemma_count_for_target_step(obs@, target_mhz, i as int);
        }
        let o = &obs[i];
        let ghost before = evidence@;
        if o.target_mhz == target_mhz && o.outcome.is_validated() && o.anchor_mv == mv {
            let discovery = is_current_discovery_evidence(o);
            let qualification = is_current_qualification_pass(o);
            if discovery || qualification {
                evidence.push(i);
                if qualification {
                    let idx = match &o.qualification_coverage {
                        Some(c) => match c.pattern {
                            Some(p) => required_pattern_index(p),
                            None => None,
                        },
                        None => None,
                    };
                    let idx = match idx {
                        Some(x) => x,
                        None => {
                            proof {
                                assert(false);
                            }
                            0
                        },
                    };
                    proof {
                        assert(pass_pattern_index(obs@[i as int]) == idx);
                    }
                    seen.set(idx, true);
                }
            }
        }
        if o.target_mhz == target_mhz {
            observation_count = observation_count + 1;
        }
        proof {
            assert forall|j: int|
                0 <= j < i + 1 && frontier_evidence(#[trigger] obs@[j], target_mhz, mv) implies evidence@.contains(
                j as usize,
            ) by {
                if j < i {
                    let k = choose|k: int| 0 <= k < before.len() && before[k] == j as usize;
                    assert(evidence@[k] == j as usize);
                } else {
                    assert(evidence@[evidence@.len() - 1] == i);
                }
            }
            assert forall|p: int|
                0 <= p < 4 implies #[trigger] seen@[p] == exists|j: int|
                    0 <= j < i + 1 && frontier_evidence(#[trigger] obs@[j], target_mhz, mv) && current_pass_of(
                        obs@[j],
                        F2EvidenceKind::Qualification,
                    ) && pass_pattern_index(obs@[j]) == p by {
                if exists|j: int|
                    0 <= j < i + 1 && frontier_evidence(#[trigger] obs@[j], target_mhz, mv) && current_pass_of(
                        obs@[j],
                        F2EvidenceKind::Qualification,
                    ) && pass_pattern_index(obs@[j]) == p {
                    let j = choose|j: int|
                        0 <= j < i + 1 && frontier_evidence(#[trigger] obs@[j], target_mhz, mv) && current_pass_of(
                            obs@[j],
                            F2EvidenceKind::Qualification,
                        ) && pass_pattern_index(obs@[j]) == p;
                    if j < i {
                        assert(exists|k: int|
                            0 <= k < i && frontier_evidence(#[trigger] obs@[k], target_mhz, mv) && current_pass_of(
                                obs@[k],
                                F2EvidenceKind::Qualification,
                            ) && pass_pattern_index(obs@[k]) == p);
                    }
                }
            }
        }
        i = i + 1;
    }
    proof {
        assert(obs@.take(obs@.len() as int) =~= obs@);
        assert forall|p: int| 0 <= p < 4 implies #[trigger] seen@[p] == pattern_qualified(obs@, target_mhz, mv, p) by {
            if pattern_qualified(obs@, target_mhz, mv, p) {
                let j = choose|j: int|
                    0 <= j < obs@.len() && frontier_evidence(#[trigger] obs@[j], target_mhz, mv) && current_pass_of(
                        obs@[j],
                        F2EvidenceKind::Qualification,
                    ) && pass_pattern_index(obs@[j]) == p;
                assert(frontier_evidence(obs@[j], target_mhz, mv));
            }
        }
    }
    let mut validation_count: usize = 0;
    if seen[0] {
        validation_count = validation_count + 1;
    }
    if seen[1] {
        validation_count = validation_count + 1;
    }
    if seen[2] {
        validation_count = validation_count + 1;
    }
    if seen[3] {
        validation_count = validation_count + 1;
    }
    let first_bad_mv = match first_bad_for_target(obs, target_mhz) {
        Some(o) => Some(o.anchor_mv),
        None => None,
    };
    let bracket_width_mv = match bracket_for_target(obs, target_mhz) {
        Some(bracket) => Some(bracket.width_mv),
        None => None,
    };
    Some(
        F2FrontierEntry {
            target_mhz,
            best_anchor_mv: mv,
            offset_mhz: best.offset_mhz,
            watts: best.watts,
            max_watts: best.max_watts,
            avg_clock_mhz: best.avg_clock_mhz,
            sustained_clock_mhz: best.sustained_clock_mhz,
            sustained_upper_clock_mhz: best.sustained_upper_clock_mhz,
            dwell_duration_ms: best.dwell_duration_ms,
            sample_count: best.sample_count,
            thermal_throttled: best.thermal_throttled,
            validation_count,
            first_bad_mv,
            bracket_width_mv,
            observation_count,
            last_updated: best.timestamp.clone(),
            safety_notes: None,
            best_index: b,
            evidence_indices: evidence,
        },
    )
}


/// `t` lies above `prev` (everything lies above `None`).
pub open spec fn target_above(t: u32, prev: Option<u32>) -> bool {
    match prev {
        Some(p) => t > p,
        None => true,
    }
}

/// The smallest recorded target above `prev`.
fn next_target_above(obs: &[F2Observation], prev: Option<u32>) -> (r: Option<u32>)
    ensures
        match r {
            Some(t) => target_above(t, prev) && (exists|i: int| 0 <= i < obs@.len() && #[trigger] obs@[i].target_mhz == t)
                && forall|i: int| 0 <= i < obs@.len() && target_above(#[trigger] obs@[i].target_mhz, prev) ==> t <= obs@[i].target_mhz,
            None => forall|i: int| 0 <= i < obs@.len() ==> !target_above(#[trigger] obs@[i].target_mhz, prev),
        },
{
    let mut best: Option<u32> = None;
    let mut i: usize = 0;
    while i < obs.len()
        invariant
            i <= obs@.len(),
            match best {
                Some(t) => target_above(t, prev) && (exists|j: int| 0 <= j < i && #[trigger] obs@[j].target_mhz == t)
                    && forall|j: int| 0 <= j < i && target_above(#[trigger] obs@[j].target_mhz, prev) ==> t <= obs@[j].target_mhz,
                None => forall|j: int| 0 <= j < i ==> !target_above(#[trigger] obs@[j].target_mhz, prev),
            },
        decreases obs@.len() - i,
    {
        let t = obs[i].target_mhz;
        let above = match prev {
            Some(p) => t > p,
            None => true,
        };
        if above {
            match best {
                Some(m) => {
                    if t < m {
                        best = Some(t);
                    }
                },
                None => {
                    best = Some(t);
                },
            }
        }
        proof {
            match best {
                Some(m) => {
                    if obs@[i as int].target_mhz == m {
                        assert(obs@[i as int].target_mhz == m);
                    }
                },
                None => {},
            }
        }
        i = i + 1;
    }
    best
}

/// Build the full learned F2 frontier: one entry per target that has a frontier point, sorted
/// by target (strictly increasing).
pub fn learned_frontier(obs: &[F2Observation]) -> (r: Vec<F2FrontierEntry>)
    ensures
        forall|a: int, c: int| 0 <= a < c < r@.len() ==> r@[a].target_mhz < r@[c].target_mhz,
        forall|k: int| 0 <= k < r@.len() ==> is_frontier_entry(obs@, #[trigger] r@[k].target_mhz, r@[k]),
        forall|t: u32|
            #[trigger] any_obs(obs@, frontier_pred(obs@, t)) ==> exists|k: int| 0 <= k < r@.len() && r@[k].target_mhz == t,
{
    let mut out: Vec<F2FrontierEntry> = Vec::new();
    let mut prev: Option<u32> = None;
    loop
        invariant
            forall|a: int, c: int| 0 <= a < c < out@.len() ==> out@[a].target_mhz < out@[c].target_mhz,
            forall|k: int| 0 <= k < out@.len() ==> is_frontier_entry(obs@, #[trigger] out@[k].target_mhz, out@[k]),
            forall|k: int| 0 <= k < out@.len() ==> !target_above(#[trigger] out@[k].target_mhz, prev),
            forall|t: u32|
                !target_above(t, prev) && #[trigger] any_obs(obs@, frontier_pred(obs@, t)) ==> exists|k: int|
                    0 <= k < out@.len() && out@[k].target_mhz == t,
        ensures
            forall|i: int| 0 <= i < obs@.len() ==> !target_above(#[trigger] obs@[i].target_mhz, prev),
        decreases match prev {
            Some(p) => u32::MAX - p,
            None => u32::MAX + 1,
        },
    {
        let t = match next_target_above(obs, prev) {
            Some(t) => t,
            None => {
                break;
            },
        };
        let ghost old_out = out@;
        let ghost old_prev = prev;
        match frontier_entry_for_target(obs, t) {
            Some(e) => {
                out.push(e);
            },
            None => {},
        }
        prev = Some(t);
        proof {
            assert forall|k: int| 0 <= k < out@.len() implies is_frontier_entry(obs@, #[trigger] out@[k].target_mhz, out@[k]) by {
                if k < old_out.len() {
                    assert(out@[k] == old_out[k]);
                }
            }
            assert forall|u: u32|
                !target_above(u, prev) && #[trigger] any_obs(obs@, frontier_pred(obs@, u)) implies exists|k: int|
                    0 <= k < out@.len() && out@[k].target_mhz == u by {
                if target_above(u, old_prev) {
                    let i = choose|i: int| 0 <= i < obs@.len() && frontier_pred(obs@, u)(#[trigger] obs@[i]);
                    assert(obs@[i].target_mhz == u);
                    assert(t <= obs@[i].target_mhz);
                    assert(u == t);
                    assert(out@[out@.len() - 1].target_mhz == t);
                } else {
                    let k = choose|k: int| 0 <= k < old_out.len() && old_out[k].target_mhz == u;
                    assert(out@[k] == old_out[k]);
                }
            }
        }
    }
    proof {
        assert forall|u: u32| #[trigger] any_obs(obs@, frontier_pred(obs@, u)) implies exists|k: int|
            0 <= k < out@.len() && out@[k].target_mhz == u by {
            let i = choose|i: int| 0 <= i < obs@.len() && frontier_pred(obs@, u)(#[trigger] obs@[i]);
            assert(obs@[i].target_mhz == u);
            assert(!target_above(obs@[i].target_mhz, prev));
        }
    }
    out
}

/// The observations of one exact GPU, in input order.
pub open spec fn scoped_to_gpu(obs: Seq<F2Observation>, gpu_key: Seq<char>) -> Seq<F2Observation> {
    obs.filter(|o: F2Observation| o.gpu_key matches Some(g) && g@ == gpu_key)
}

/// Build a frontier using observations from one exact physical GPU only: the learned frontier
/// of [`scoped_to_gpu`].
pub fn learned_frontier_for_gpu(obs: &[F2Observation], gpu_key: &str) -> (r: Vec<F2FrontierEntry>)
    ensures
        ({
            let s = scoped_to_gpu(obs@, gpu_key@);
            &&& forall|a: int, c: int| 0 <= a < c < r@.len() ==> r@[a].target_mhz < r@[c].target_mhz
            &&& forall|k: int| 0 <= k < r@.len() ==> is_frontier_entry(s, #[trigger] r@[k].target_mhz, r@[k])
            &&& forall|t: u32|
                #[trigger] any_obs(s, frontier_pred(s, t)) ==> exists|k: int| 0 <= k < r@.len() && r@[k].target_mhz == t
        }),
{
    let ghost f = |o: F2Observation| o.gpu_key matches Some(g) && g@ == gpu_key@;
    let mut scoped: Vec<F2Observation> = Vec::new();
    let mut i: usize = 0;
    while i < obs.len()
        invariant
            i <= obs@.len(),
            f == (|o: F2Observation| o.gpu_key matches Some(g) && g@ == gpu_key@),
            scoped@ == obs@.take(i as int).filter(f),
        decreases obs@.len() - i,
    {
        let keep = match &obs[i].gpu_key {
            Some(g) => same_text(g.as_str(), gpu_key),
            None => false,
        };
        let ghost before = scoped@;
        if keep {
            scoped.push(obs[i].clone());
        }
        proof {
            let o = obs@[i as int];
            assert(keep == f(o));
            assert(obs@.take(i + 1) =~= obs@.take(i as int).push(o));
            obs@.take(i as int).lemma_filter_push(o, f);
            assert(obs@.take(i + 1).filter(f) == if f(o) {
                before.push(o)
            } else {
                before
            });
        }
        i = i + 1;
    }
    proof {
        assert(obs@.take(obs@.len() as int) =~= obs@);
    }
    learned_frontier(scoped.as_slice())
}


/// The learned frontier point is safe to publish: it lies strictly above the highest recorded
/// failure (so it is never known bad), at least the crash-proximity margin above every crash,
/// and never deeper than the last good point of the target.
pub proof fn lemma_frontier_point_is_never_known_bad(obs: Seq<F2Observation>, target_mhz: u32, e: F2FrontierEntry)
    requires
        is_frontier_entry(obs, target_mhz, e),
    ensures
        !known_bad(obs, target_mhz, e.best_anchor_mv),
        e.first_bad_mv matches Some(b) ==> b < e.best_anchor_mv,
        forall|i: int|
            0 <= i < obs.len() && crash_record(#[trigger] obs[i], target_mhz) ==> e.best_anchor_mv >= sat_add_u32(
                obs[i].anchor_mv,
                F2_CRASH_PROXIMITY_MIN_MV,
            ),
        last_good_anchor(obs, target_mhz) matches Some(g) && g <= e.best_anchor_mv,
{
    let k = e.best_index as int;
    let g = e.best_anchor_mv;
    let pred = |o: F2Observation| good_candidate(obs, o, target_mhz);
    assert(frontier_pred(obs, target_mhz)(obs[k]));
    assert(pred(obs[k]));
    if known_bad(obs, target_mhz, g) {
        let j = choose|j: int|
            0 <= j < obs.len() && counts_as_bad(#[trigger] obs[j], target_mhz) && obs[j].anchor_mv >= g;
        let b = lemma_first_bad_exists(obs, target_mhz);
        lemma_first_bad_anchor(obs, target_mhz, b);
        assert(obs[j].anchor_mv <= obs[b].anchor_mv);
    }
    let l = lemma_lowest_exists(obs, pred);
    lemma_lowest_anchor(obs, pred, l);
    assert(obs[l].anchor_mv <= obs[k].anchor_mv);
}

// ── Failure-phase telemetry ─────────────────────────────────────────────────────────────────

/// The label a pattern is counted under (its name; `legacy` when none was recorded).
pub open spec fn pattern_label(p: Option<F2QualificationPattern>) -> Seq<char> {
    match p {
        Some(F2QualificationPattern::A) => "A"@,
        Some(F2QualificationPattern::B) => "B"@,
        Some(F2QualificationPattern::HighFps) => "HighFps"@,
        Some(F2QualificationPattern::Texture) => "Texture"@,
        Some(F2QualificationPattern::Transitions) => "Transitions"@,
        Some(F2QualificationPattern::Memory) => "Memory"@,
        None => "legacy"@,
    }
}

fn pattern_label_text(p: Option<F2QualificationPattern>) -> (r: String)
    ensures
        r@ == pattern_label(p),
{
    match p {
        Some(F2QualificationPattern::A) => String::from_str("A"),
        Some(F2QualificationPattern::B) => String::from_str("B"),
        Some(F2QualificationPattern::HighFps) => String::from_str("HighFps"),
        Some(F2QualificationPattern::Texture) => String::from_str("Texture"),
        Some(F2QualificationPattern::Transitions) => String::from_str("Transitions"),
        Some(F2QualificationPattern::Memory) => String::from_str("Memory"),
        None => String::from_str("legacy"),
    }
}

/// The histogram key of an observation that failed inside a named qualification phase:
/// `(target_mhz, anchor_mv, pattern label, failure phase)`.
pub open spec fn failure_key(o: F2Observation) -> Option<(u32, u32, Seq<char>, Seq<char>)> {
    match o.qualification_coverage {
        Some(c) => match c.failure_phase {
            Some(phase) => Some((o.target_mhz, o.anchor_mv, pattern_label(c.pattern), phase@)),
            None => None,
        },
        None => None,
    }
}

/// How many observations failed under key `k`.
pub open spec fn failure_count(obs: Seq<F2Observation>, k: (u32, u32, Seq<char>, Seq<char>)) -> nat
    decreases obs.len(),
{
    if obs.len() == 0 {
        0
    } else {
        failure_count(obs.drop_last(), k) + if failure_key(obs.last()) == Some(k) {
            1nat
        } else {
            0nat
        }
    }
}

/// Strict order of histogram keys: by target, anchor, pattern label, then phase.
pub open spec fn key_lt(a: (u32, u32, Seq<char>, Seq<char>), b: (u32, u32, Seq<char>, Seq<char>)) -> bool {
    a.0 < b.0 || (a.0 == b.0 && (a.1 < b.1 || (a.1 == b.1 && (text_lt(a.2, b.2) || (a.2 == b.2
        && text_lt(a.3, b.3))))))
}

/// The key of a histogram entry, by value.
pub open spec fn entry_key(e: ((u32, u32, String, String), u32)) -> (u32, u32, Seq<char>, Seq<char>) {
    (e.0.0, e.0.1, e.0.2@, e.0.3@)
}

proof fn lemma_key_lt_transitive(
    a: (u32, u32, Seq<char>, Seq<char>),
    b: (u32, u32, Seq<char>, Seq<char>),
    c: (u32, u32, Seq<char>, Seq<char>),
)
    requires
        key_lt(a, b),
        key_lt(b, c),
    ensures
        key_lt(a, c),
{
    if a.0 == b.0 && b.0 == c.0 && a.1 == b.1 && b.1 == c.1 {
        if text_lt(a.2, b.2) && text_lt(b.2, c.2) {
            lemma_text_lt_transitive(a.2, b.2, c.2);
        }
        if a.2 == b.2 && b.2 == c.2 && text_lt(a.3, b.3) && text_lt(b.3, c.3) {
            lemma_text_lt_transitive(a.3, b.3, c.3);
        }
    }
}

proof fn lemma_key_lt_irreflexive(a: (u32, u32, Seq<char>, Seq<char>))
    ensures
        !key_lt(a, a),
{
    lemma_text_lt_irreflexive(a.2);
    lemma_text_lt_irreflexive(a.3);
}

/// How two keys compare (`Less`, `Equal`, `Greater` as in [`TextOrder`]).
fn compare_key(a: &(u32, u32, String, String), b: &(u32, u32, String, String)) -> (r: TextOrder)
    ensures
        r == TextOrder::Equal <==> (a.0, a.1, a.2@, a.3@) == (b.0, b.1, b.2@, b.3@),
        r == TextOrder::Less <==> key_lt((a.0, a.1, a.2@, a.3@), (b.0, b.1, b.2@, b.3@)),
        r == TextOrder::Greater <==> key_lt((b.0, b.1, b.2@, b.3@), (a.0, a.1, a.2@, a.3@)),
{
    proof {
        lemma_text_lt_irreflexive(a.2@);
        lemma_text_lt_irreflexive(a.3@);
        if text_lt(a.2@, b.2@) {
            lemma_text_lt_asymmetric(a.2@, b.2@);
        }
        if text_lt(a.3@, b.3@) {
            lemma_text_lt_asymmetric(a.3@, b.3@);
        }
    }
    if a.0 < b.0 {
        return TextOrder::Less;
    }
    if a.0 > b.0 {
        return TextOrder::Greater;
    }
    if a.1 < b.1 {
        return TextOrder::Less;
    }
    if a.1 > b.1 {
        return TextOrder::Greater;
    }
    match compare_text(a.2.as_str(), b.2.as_str()) {
        TextOrder::Less => TextOrder::Less,
        TextOrder::Greater => TextOrder::Greater,
        TextOrder::Equal => compare_text(a.3.as_str(), b.3.as_str()),
    }
}

proof fn lemma_failure_count_step(obs: Seq<F2Observation>, k: (u32, u32, Seq<char>, Seq<char>), i: int)
    requires
        0 <= i < obs.len(),
    ensures
        failure_count(obs.take(i + 1), k) == failure_count(obs.take(i), k) + if failure_key(obs[i]) == Some(k) {
            1nat
        } else {
            0nat
        },
{
    assert(obs.take(i + 1).drop_last() =~= obs.take(i));
}

proof fn lemma_failure_count_bound(obs: Seq<F2Observation>, k: (u32, u32, Seq<char>, Seq<char>))
    ensures
        failure_count(obs, k) <= obs.len(),
    decreases obs.len(),
{
    if obs.len() > 0 {
        lemma_failure_count_bound(obs.drop_last(), k);
    }
}

/// Failure-phase telemetry: counts of qualification dwells that failed inside a named phase,
/// keyed by `(target_mhz, anchor_mv, pattern, failure_phase)` and sorted by key (strictly
/// increasing). Every key that occurs appears once, with the number of observations that
/// failed under it; clean passes contribute nothing.
pub fn qualification_failure_histogram(obs: &[F2Observation]) -> (r: Vec<((u32, u32, String, String), u32)>)
    requires
        obs@.len() <= u32::MAX,
    ensures
        forall|a: int, c: int| 0 <= a < c < r@.len() ==> key_lt(entry_key(r@[a]), entry_key(r@[c])),
        forall|k: int| 0 <= k < r@.len() ==> #[trigger] r@[k].1 == failure_count(obs@, entry_key(r@[k])),
        forall|k: int| 0 <= k < r@.len() ==> #[trigger] r@[k].1 >= 1,
        forall|i: int|
            0 <= i < obs@.len() && #[trigger] failure_key(obs@[i]) is Some ==> exists|k: int|
                0 <= k < r@.len() && Some(entry_key(r@[k])) == failure_key(obs@[i]),
{
    let mut histogram: Vec<((u32, u32, String, String), u32)> = Vec::new();
    let mut i: usize = 0;
    while i < obs.len()
        invariant
            i <= obs@.len(),
            obs@.len() <= u32::MAX,
            forall|a: int, c: int|
                0 <= a < c < histogram@.len() ==> key_lt(entry_key(histogram@[a]), entry_key(histogram@[c])),
            forall|k: int|
                0 <= k < histogram@.len() ==> #[trigger] histogram@[k].1 == failure_count(
                    obs@.take(i as int),
                    entry_key(histogram@[k]),
                ),
            forall|k: int| 0 <= k < histogram@.len() ==> #[trigger] histogram@[k].1 >= 1,
            forall|j: int|
                0 <= j < i && #[trigger] failure_key(obs@[j]) is Some ==> exists|k: int|
                    0 <= k < histogram@.len() && Some(entry_key(histogram@[k])) == failure_key(obs@[j]),
            forall|key: (u32, u32, Seq<char>, Seq<char>)|
                #[trigger] failure_count(obs@.take(i as int), key) > 0 ==> exists|k: int|
                    0 <= k < histogram@.len() && entry_key(histogram@[k]) == key,
        decreases obs@.len() - i,
    {
        let o = &obs[i];
        let ghost before = histogram@;
        proof {
            assert forall|key: (u32, u32, Seq<char>, Seq<char>)|
                true implies #[trigger] failure_count(obs@.take(i + 1), key) == failure_count(obs@.take(i as int), key)
                    + if failure_key(obs@[i as int]) == Some(key) { 1nat } else { 0nat } by {
                lemma_failure_count_step(obs@, key, i as int);
            }
        }
        let failed = match &o.qualification_coverage {
            Some(c) => match &c.failure_phase {
                Some(phase) => Some((o.target_mhz, o.anchor_mv, pattern_label_text(c.pattern), phase.clone())),
                None => None,
            },
            None => None,
        };
        match failed {
            None => {
                assert(failure_key(obs@[i as int]) is None);
                proof {
                    assert forall|key2: (u32, u32, Seq<char>, Seq<char>)|
                        #[trigger] failure_count(obs@.take(i + 1), key2) > 0 implies exists|k: int|
                            0 <= k < histogram@.len() && entry_key(histogram@[k]) == key2 by {
                        assert(failure_count(obs@.take(i as int), key2) > 0);
                    }
                }
            },
            Some(key) => {
                let ghost kv = (key.0, key.1, key.2@, key.3@);
                assert(failure_key(obs@[i as int]) == Some(kv));
                let mut p: usize = 0;
                let mut found = false;
                while p < histogram.len()
                    invariant
                        p <= histogram@.len(),
                        histogram@ == before,
                        kv == (key.0, key.1, key.2@, key.3@),
                        forall|q: int| 0 <= q < p ==> key_lt(#[trigger] entry_key(histogram@[q]), kv),
                    ensures
                        p <= histogram@.len(),
                        histogram@ == before,
                        forall|q: int| 0 <= q < p ==> key_lt(#[trigger] entry_key(histogram@[q]), kv),
                        p < histogram@.len() ==> !key_lt(entry_key(histogram@[p as int]), kv),
                    decreases histogram@.len() - p,
                {
                    match compare_key(&histogram[p].0, &key) {
                        TextOrder::Less => {
                            p = p + 1;
                        },
                        _ => {
                            break;
                        },
                    }
                }
                let equal = p < histogram.len() && matches!(compare_key(&histogram[p].0, &key), TextOrder::Equal);
                if equal {
                    assert(entry_key(before[p as int]) == kv);
                    proof {
                        lemma_failure_count_bound(obs@.take(i + 1), kv);
                        lemma_key_lt_irreflexive(kv);
                    }
                    let count = histogram[p].1 + 1;
                    let entry = (
                        (
                            histogram[p].0.0,
                            histogram[p].0.1,
                            histogram[p].0.2.clone(),
                            histogram[p].0.3.clone(),
                        ),
                        count,
                    );
                    histogram.set(p, entry);
                    proof {
                        assert forall|k: int| 0 <= k < histogram@.len() implies #[trigger] entry_key(histogram@[k])
                            == entry_key(before[k]) by {}
                        assert forall|k: int| 0 <= k < histogram@.len() && k != p implies #[trigger] histogram@[k]
                            == before[k] by {}
                        assert forall|k: int| 0 <= k < before.len() && k != p implies entry_key(#[trigger] before[k])
                            != kv by {
                            if k > p {
                                assert(key_lt(entry_key(before[p as int]), entry_key(before[k])));
                            }
                        }
                        assert forall|j: int|
                            0 <= j < i + 1 && #[trigger] failure_key(obs@[j]) is Some implies exists|k: int|
                                0 <= k < histogram@.len() && Some(entry_key(histogram@[k])) == failure_key(obs@[j]) by {
                            if j < i {
                                let k = choose|k: int| 0 <= k < before.len() && Some(entry_key(before[k])) == failure_key(obs@[j]);
                                assert(entry_key(histogram@[k]) == entry_key(before[k]));
                            } else {
                                assert(entry_key(histogram@[p as int]) == kv);
                            }
                        }
                        assert forall|key2: (u32, u32, Seq<char>, Seq<char>)|
                            #[trigger] failure_count(obs@.take(i + 1), key2) > 0 implies exists|k: int|
                                0 <= k < histogram@.len() && entry_key(histogram@[k]) == key2 by {
                            if key2 == kv {
                                assert(entry_key(histogram@[p as int]) == kv);
                            } else {
                                assert(failure_count(obs@.take(i as int), key2) > 0);
                                let k = choose|k: int| 0 <= k < before.len() && entry_key(before[k]) == key2;
                                assert(entry_key(histogram@[k]) == entry_key(before[k]));
                            }
                        }
                    }
                } else {
                    proof {
                        lemma_key_lt_irreflexive(kv);
                        if p < before.len() {
                            assert(key_lt(kv, entry_key(before[p as int])));
                        }
                        assert forall|k: int| 0 <= k < before.len() implies entry_key(#[trigger] before[k]) != kv by {
                            if k > p {
                                assert(key_lt(entry_key(before[p as int]), entry_key(before[k])));
                                lemma_key_lt_transitive(kv, entry_key(before[p as int]), entry_key(before[k]));
                            }
                        }
                        assert(failure_count(obs@.take(i as int), kv) == 0) by {
                            if failure_count(obs@.take(i as int), kv) > 0 {
                                let k = choose|k: int| 0 <= k < before.len() && entry_key(before[k]) == kv;
                                assert(entry_key(before[k]) != kv);
                            }
                        }
                    }
                    histogram.insert(p, (key, 1u32));
                    proof {
                        assert(entry_key(histogram@[p as int]) == kv);
                        assert forall|k: int| 0 <= k < p implies #[trigger] histogram@[k] == before[k] by {}
                        assert forall|k: int| p < k < histogram@.len() implies #[trigger] histogram@[k] == before[k - 1] by {}
                        assert forall|a: int, c: int|
                            0 <= a < c < histogram@.len() implies key_lt(
                            entry_key(histogram@[a]),
                            entry_key(histogram@[c]),
                        ) by {
                            if c < p {
                                assert(histogram@[a] == before[a] && histogram@[c] == before[c]);
                            } else if c == p {
                                assert(histogram@[a] == before[a]);
                            } else if a < p {
                                assert(histogram@[a] == before[a] && histogram@[c] == before[c - 1]);
                            } else if a == p {
                                assert(histogram@[c] == before[c - 1]);
                                if c - 1 > p {
                                    assert(key_lt(entry_key(before[p as int]), entry_key(before[c - 1])));
                                    lemma_key_lt_transitive(kv, entry_key(before[p as int]), entry_key(before[c - 1]));
                                }
                            } else {
                                assert(histogram@[a] == before[a - 1] && histogram@[c] == before[c - 1]);
                            }
                        }
                        assert forall|k: int| 0 <= k < histogram@.len() implies #[trigger] histogram@[k].1
                            == failure_count(obs@.take(i + 1), entry_key(histogram@[k])) by {
                            if k < p {
                                assert(histogram@[k] == before[k]);
                            } else if k > p {
                                assert(histogram@[k] == before[k - 1]);
                            }
                        }
                        assert forall|j: int|
                            0 <= j < i + 1 && #[trigger] failure_key(obs@[j]) is Some implies exists|k: int|
                                0 <= k < histogram@.len() && Some(entry_key(histogram@[k])) == failure_key(obs@[j]) by {
                            if j < i {
                                let k = choose|k: int| 0 <= k < before.len() && Some(entry_key(before[k])) == failure_key(obs@[j]);
                                if k < p {
                                    assert(histogram@[k] == before[k]);
                                } else {
                                    assert(histogram@[k + 1] == before[k]);
                                }
                            }
                        }
                        assert forall|key2: (u32, u32, Seq<char>, Seq<char>)|
                            #[trigger] failure_count(obs@.take(i + 1), key2) > 0 implies exists|k: int|
                                0 <= k < histogram@.len() && entry_key(histogram@[k]) == key2 by {
                            if key2 != kv {
                                assert(failure_count(obs@.take(i as int), key2) > 0);
                                let k = choose|k: int| 0 <= k < before.len() && entry_key(before[k]) == key2;
                                if k < p {
                                    assert(histogram@[k] == before[k]);
                                } else {
                                    assert(histogram@[k + 1] == before[k]);
                                }
                            }
                        }
                    }
                }
            },
        }
        i = i + 1;
    }
    proof {
        assert(obs@.take(obs@.len() as int) =~= obs@);
    }
    histogram
}

} // verus!
