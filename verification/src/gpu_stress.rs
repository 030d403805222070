//! Pure logic of the GPU compute-validation battery: the qualification phase plans and their
//! provenance tokens, the golden-checksum bookkeeping, the stability verdict helpers, and the
//! CPU reference arithmetic (LCG jump-ahead, framebuffer checksum) the GPU results are checked
//! against.
use vstd::prelude::*;
use crate::gpu_sweep::StabilityResult;

verus! {

/// LCG multiplier of the ALU known-answer kernel.
pub const C1: u32 = 1664525;
/// LCG increment of the ALU known-answer kernel.
pub const C2: u32 = 1013904223;
/// Pointer-chase multiplier.
pub const CHAIN_CP: u32 = 2654435761;
/// Pointer-chase increment.
pub const CHAIN_CQ: u32 = 1442695041;
/// Frames a stock golden capture must observe before its checksum is trusted.
pub const GOLDEN_MIN_FRAMES: u64 = 4;
/// Sparse-checksum workloads validate one out of every this many frames.
pub const SPARSE_CHECKSUM_FRAME_INTERVAL: u64 = 16;
/// Sustained TextureStream frame time beyond reference × this factor marks a marginal bin.
pub const STREAM_DEGRADATION_FACTOR: u64 = 2;
/// Sustained BoostEdge frame time beyond reference × this factor marks a marginal bin.
pub const BOOST_EDGE_DEGRADATION_FACTOR: u64 = 2;
/// BoostEdge lobby cadence: the CPU frame-build bubbles (µs) cycled between frames.
pub const BOOST_EDGE_BUBBLE_US: [u64; 6] = [0, 200, 500, 900, 300, 800];

/// Result of one battery stage.
#[derive(Debug, Clone)]
pub struct StageReport {
    pub name: String,
    pub result: StabilityResult,
    pub mismatches: u32,
    pub elapsed_ms: u64,
}

/// Stock native-DX11 checksum and adapter identity.
#[derive(Debug, Clone, Copy, PartialEq, Eq)]
pub struct Dx11Golden {
    pub checksum: u32,
    pub adapter_luid: i64,
    pub frame_reference_us: u32,
}

impl Default for Dx11Golden {
    fn default() -> (r: Self)
        ensures
            r == (Dx11Golden { checksum: 0, adapter_luid: 0, frame_reference_us: 0 }),
    {
        Dx11Golden { checksum: 0, adapter_luid: 0, frame_reference_us: 0 }
    }
}

/// The stock golden checksums of each render workload (captured before any candidate write).
#[derive(Debug, Clone, Copy, PartialEq, Eq)]
pub struct RenderGoldens {
    pub power: u32,
    pub boost: u32,
    pub texrop: u32,
    /// Golden for the FrameCadence workload.
    pub cadence: u32,
    /// Golden for the GeometryDepth workload.
    pub geometry: u32,
    /// Golden for the TextureStream workload.
    pub stream: u32,
    /// Stock average TextureStream frame time (ms), captured with the golden.
    pub stream_frame_reference_ms: u32,
    /// Stock average BoostEdge frame time (µs), captured with the golden.
    pub boost_frame_reference_us: u32,
    /// Stock native-DX11 checksum and adapter identity.
    pub dx11: Dx11Golden,
}

#[derive(Debug, Clone, PartialEq, Eq)]
pub struct Dx11AdapterIdentity {
    pub name: String,
    pub vendor_id: u32,
    pub device_id: u32,
    pub adapter_luid: i64,
}

#[derive(Debug, Clone, PartialEq, Eq)]
pub struct GpuAdapterIdentity {
    pub name: String,
    pub backend: String,
    pub driver: String,
    pub driver_info: String,
}

/// Deterministic failure-seeking phases used by qualification.
#[derive(Debug, Clone, Copy, PartialEq, Eq)]
pub enum VfQualifierPhase {
    PowerOpening,
    BoostEdge,
    HeavySpike,
    TextureRop,
    ComputeBurst,
    IdlePulse,
    MixedGame,
    PowerClosing,
    /// Game-frame-scale heavy burst / short idle gap cycling.
    FrameCadence,
    /// Multi-gigabyte VRAM-resident gather load.
    VramPressure,
    /// Instanced procedural triangles under a depth test.
    GeometryDepth,
    /// Hang-prone heavy memory detector rendered in preemptible bands.
    TextureStream,
    /// True-idle → instant heavy slam, cycling.
    BoostEntry,
    /// Field concurrency: a resident texture stack overlapped by a persistent secondary device.
    CompositeGameLoad,
}

/// One phase report of a qualification dwell.
#[derive(Debug, Clone, Copy, PartialEq, Eq)]
pub struct VfPhaseReport {
    pub phase: VfQualifierPhase,
    pub result: StabilityResult,
    pub frames: u64,
    /// Number of framebuffer outputs reduced and checked.
    pub checksum_count: u32,
    pub elapsed_ms: u64,
}

/// The phase's stable numeric code (its position in declaration order).
pub open spec fn phase_code(p: VfQualifierPhase) -> u8 {
    match p {
        VfQualifierPhase::PowerOpening => 0,
        VfQualifierPhase::BoostEdge => 1,
        VfQualifierPhase::HeavySpike => 2,
        VfQualifierPhase::TextureRop => 3,
        VfQualifierPhase::ComputeBurst => 4,
        VfQualifierPhase::IdlePulse => 5,
        VfQualifierPhase::MixedGame => 6,
        VfQualifierPhase::PowerClosing => 7,
        VfQualifierPhase::FrameCadence => 8,
        VfQualifierPhase::VramPressure => 9,
        VfQualifierPhase::GeometryDepth => 10,
        VfQualifierPhase::TextureStream => 11,
        VfQualifierPhase::BoostEntry => 12,
        VfQualifierPhase::CompositeGameLoad => 13,
    }
}

/// The phase's label.
pub open spec fn phase_label(p: VfQualifierPhase) -> Seq<char> {
    match p {
        VfQualifierPhase::PowerOpening => "power-opening"@,
        VfQualifierPhase::BoostEdge => "boost-edge"@,
        VfQualifierPhase::HeavySpike => "heavy-spike"@,
        VfQualifierPhase::TextureRop => "texture-rop"@,
        VfQualifierPhase::ComputeBurst => "compute-burst"@,
        VfQualifierPhase::IdlePulse => "idle-pulse"@,
        VfQualifierPhase::MixedGame => "mixed-game"@,
        VfQualifierPhase::PowerClosing => "power-closing"@,
        VfQualifierPhase::FrameCadence => "frame-cadence"@,
        VfQualifierPhase::VramPressure => "vram-pressure"@,
        VfQualifierPhase::GeometryDepth => "geometry-depth"@,
        VfQualifierPhase::TextureStream => "texture-stream"@,
        VfQualifierPhase::BoostEntry => "boost-entry"@,
        VfQualifierPhase::CompositeGameLoad => "field-concurrency"@,
    }
}

impl VfQualifierPhase {
    /// Number of phase variants (codes are `0..COUNT`).
    pub const COUNT: usize = 14;

    /// The code that stands for "no phase".
    pub const NONE_CODE: u8 = 255;

    pub fn label(self) -> (r: &'static str)
        ensures
            r@ == phase_label(self),
    {
        match self {
            VfQualifierPhase::PowerOpening => "power-opening",
            VfQualifierPhase::BoostEdge => "boost-edge",
            VfQualifierPhase::HeavySpike => "heavy-spike",
            VfQualifierPhase::TextureRop => "texture-rop",
            VfQualifierPhase::ComputeBurst => "compute-burst",
            VfQualifierPhase::IdlePulse => "idle-pulse",
            VfQualifierPhase::MixedGame => "mixed-game",
            VfQualifierPhase::PowerClosing => "power-closing",
            VfQualifierPhase::FrameCadence => "frame-cadence",
            VfQualifierPhase::VramPressure => "vram-pressure",
            VfQualifierPhase::GeometryDepth => "geometry-depth",
            VfQualifierPhase::TextureStream => "texture-stream",
            VfQualifierPhase::BoostEntry => "boost-entry",
            VfQualifierPhase::CompositeGameLoad => "field-concurrency",
        }
    }

    pub fn code(self) -> (r: u8)
        ensures
            r == phase_code(self),
            r < Self::COUNT,
    {
        match self {
            VfQualifierPhase::PowerOpening => 0,
            VfQualifierPhase::BoostEdge => 1,
            VfQualifierPhase::HeavySpike => 2,
            VfQualifierPhase::TextureRop => 3,
            VfQualifierPhase::ComputeBurst => 4,
            VfQualifierPhase::IdlePulse => 5,
            VfQualifierPhase::MixedGame => 6,
            VfQualifierPhase::PowerClosing => 7,
            VfQualifierPhase::FrameCadence => 8,
            VfQualifierPhase::VramPressure => 9,
            VfQualifierPhase::GeometryDepth => 10,
            VfQualifierPhase::TextureStream => 11,
            VfQualifierPhase::BoostEntry => 12,
            VfQualifierPhase::CompositeGameLoad => 13,
        }
    }

    /// The phase with this code; `None` for a code outside `0..COUNT`. Inverse of [`Self::code`].
    pub fn from_code(code: u8) -> (r: Option<Self>)
        ensures
            (code as int) < Self::COUNT <==> r is Some,
            r matches Some(p) ==> phase_code(p) == code,
    {
        match code {
            0 => Some(Self::PowerOpening),
            1 => Some(Self::BoostEdge),
            2 => Some(Self::HeavySpike),
            3 => Some(Self::TextureRop),
            4 => Some(Self::ComputeBurst),
            5 => Some(Self::IdlePulse),
            6 => Some(Self::MixedGame),
            7 => Some(Self::PowerClosing),
            8 => Some(Self::FrameCadence),
            9 => Some(Self::VramPressure),
            10 => Some(Self::GeometryDepth),
            11 => Some(Self::TextureStream),
            12 => Some(Self::BoostEntry),
            13 => Some(Self::CompositeGameLoad),
            _ => None,
        }
    }
}

/// Every phase's code names it back: decoding the code of `p` gives `p`.
pub proof fn lemma_phase_code_round_trip(p: VfQualifierPhase, q: VfQualifierPhase)
    ensures
        phase_code(p) < VfQualifierPhase::COUNT,
        phase_code(p) == phase_code(q) ==> p == q,
{
}

/// Qualification workload sequence.
#[derive(Debug, Clone, Copy, PartialEq, Eq)]
pub enum VfQualifierPattern {
    Fsgl1,
    Fsgl2A,
    Fsgl2B,
    Fsgl3A,
    Fsgl3B,
    V8HighFps,
    V8Texture,
    V8Transitions,
    V8Memory,
    /// Candidate-only endurance soak.
    Endurance,
    /// Legacy candidate-only transition shock.
    TransitionShock,
    /// Experimental diagnostics recipe, never scheduled by qualification.
    DetectorLabDense,
}

/// The pattern's label.
pub open spec fn pattern_label(p: VfQualifierPattern) -> Seq<char> {
    match p {
        VfQualifierPattern::Fsgl1 => "fsgl1"@,
        VfQualifierPattern::Fsgl2A => "fsgl2-a"@,
        VfQualifierPattern::Fsgl2B => "fsgl2-b"@,
        VfQualifierPattern::Fsgl3A => "fsgl3-a"@,
        VfQualifierPattern::Fsgl3B => "fsgl3-b"@,
        VfQualifierPattern::V8HighFps => "v8-high-fps"@,
        VfQualifierPattern::V8Texture => "v13-texture-hop"@,
        VfQualifierPattern::V8Transitions => "v8-transitions"@,
        VfQualifierPattern::V8Memory => "v8-memory"@,
        VfQualifierPattern::Endurance => "endurance"@,
        VfQualifierPattern::TransitionShock => "transition-shock"@,
        VfQualifierPattern::DetectorLabDense => "detector-lab-v14-dense"@,
    }
}

impl VfQualifierPattern {
    pub fn label(self) -> (r: &'static str)
        ensures
            r@ == pattern_label(self),
    {
        match self {
            Self::Fsgl1 => "fsgl1",
            Self::Fsgl2A => "fsgl2-a",
            Self::Fsgl2B => "fsgl2-b",
            Self::Fsgl3A => "fsgl3-a",
            Self::Fsgl3B => "fsgl3-b",
            Self::V8HighFps => "v8-high-fps",
            Self::V8Texture => "v13-texture-hop",
            Self::V8Transitions => "v8-transitions",
            Self::V8Memory => "v8-memory",
            Self::Endurance => "endurance",
            Self::TransitionShock => "transition-shock",
            Self::DetectorLabDense => "detector-lab-v14-dense",
        }
    }
}

/// The render/compute workload a phase runs.
#[derive(Debug, Clone, Copy, PartialEq, Eq)]
pub enum VfWorkload {
    PowerRender,
    BoostEdge,
    HeavySpike,
    TextureRop,
    ComputeBurst,
    IdlePulse,
    MixedGame,
    FrameCadence,
    VramPressure,
    GeometryDepth,
    TextureStream,
    /// True-idle → instant heavy golden-checked slam.
    BoostEntry,
    /// The texture stack resident on the primary device while a persistent secondary device runs
    /// the live canary.
    CompositeGameLoad,
}

/// The three workloads a MixedGame frame interleaves.
pub const MIXED_GAME_WORKLOADS: [VfWorkload; 3] = [
    VfWorkload::BoostEdge,
    VfWorkload::TextureRop,
    VfWorkload::PowerRender,
];

/// Workloads whose render output is validated only every [`SPARSE_CHECKSUM_FRAME_INTERVAL`]th frame.
pub fn sparse_checksum_workload(workload: VfWorkload) -> (r: bool)
    ensures
        r == (workload == VfWorkload::BoostEdge || workload == VfWorkload::MixedGame || workload
            == VfWorkload::CompositeGameLoad),
{
    match workload {
        VfWorkload::BoostEdge | VfWorkload::MixedGame | VfWorkload::CompositeGameLoad => true,
        _ => false,
    }
}

/// A sparse checksum is due on every [`SPARSE_CHECKSUM_FRAME_INTERVAL`]th frame, starting at 0.
pub fn sparse_checksum_due(frame: u64) -> (r: bool)
    ensures
        r == (frame % SPARSE_CHECKSUM_FRAME_INTERVAL == 0),
{
    frame % SPARSE_CHECKSUM_FRAME_INTERVAL == 0
}

/// Draw order for one MixedGame frame: all three workloads, with the last (checked) output
/// rotating frame by frame.
pub fn mixed_game_draw_order(frame: u64) -> (r: [usize; 3])
    ensures
        r@ == (if frame % 3 == 0 {
            seq![1usize, 2, 0]
        } else if frame % 3 == 1 {
            seq![2usize, 0, 1]
        } else {
            seq![0usize, 1, 2]
        }),
{
    let m = frame % 3;
    let r = if m == 0 {
        [1usize, 2, 0]
    } else if m == 1 {
        [2usize, 0, 1]
    } else {
        [0usize, 1, 2]
    };
    assert(r@ =~= (if m == 0 {
        seq![1usize, 2, 0]
    } else if m == 1 {
        seq![2usize, 0, 1]
    } else {
        seq![0usize, 1, 2]
    }));
    r
}

/// The provenance token of each pattern's workload semantics.
pub open spec fn workload_fingerprint(p: VfQualifierPattern) -> Seq<char> {
    match p {
        VfQualifierPattern::Fsgl1 => "f2q-texhop-v10-r1/fsgl1"@,
        VfQualifierPattern::Fsgl2A => "f2q-texhop-v10-r1/fsgl2-a"@,
        VfQualifierPattern::Fsgl2B => "f2q-texhop-v10-r1/fsgl2-b"@,
        VfQualifierPattern::Fsgl3A => "f2q-texhop-v10-r1/fsgl3-a"@,
        VfQualifierPattern::Fsgl3B => "f2q-texhop-v10-r1/fsgl3-b"@,
        VfQualifierPattern::V8HighFps => "f2q-texhop-v10-r1/v8-high-fps"@,
        VfQualifierPattern::V8Texture => "f2q-texhop-v13-r3/v13-persistent-field-concurrency"@,
        VfQualifierPattern::V8Transitions => "f2q-texhop-v10-r1/v8-transitions"@,
        VfQualifierPattern::V8Memory => "f2q-texhop-v10-r1/v8-memory"@,
        VfQualifierPattern::Endurance => "f2q-texhop-v13-r3/endurance-persistent-field-concurrency"@,
        VfQualifierPattern::TransitionShock => "f2q-texhop-v10-r1/transition-shock"@,
        VfQualifierPattern::DetectorLabDense => "detector-lab-v14-r1/dense-pulse-canary"@,
    }
}

/// Stable provenance token for the exact qualifier workload semantics of a pattern.
pub fn vf_qualifier_workload_fingerprint(pattern: VfQualifierPattern) -> (r: &'static str)
    ensures
        r@ == workload_fingerprint(pattern),
{
    match pattern {
        VfQualifierPattern::Fsgl1 => "f2q-texhop-v10-r1/fsgl1",
        VfQualifierPattern::Fsgl2A => "f2q-texhop-v10-r1/fsgl2-a",
        VfQualifierPattern::Fsgl2B => "f2q-texhop-v10-r1/fsgl2-b",
        VfQualifierPattern::Fsgl3A => "f2q-texhop-v10-r1/fsgl3-a",
        VfQualifierPattern::Fsgl3B => "f2q-texhop-v10-r1/fsgl3-b",
        VfQualifierPattern::V8HighFps => "f2q-texhop-v10-r1/v8-high-fps",
        VfQualifierPattern::V8Texture => "f2q-texhop-v13-r3/v13-persistent-field-concurrency",
        VfQualifierPattern::V8Transitions => "f2q-texhop-v10-r1/v8-transitions",
        VfQualifierPattern::V8Memory => "f2q-texhop-v10-r1/v8-memory",
        VfQualifierPattern::Endurance => "f2q-texhop-v13-r3/endurance-persistent-field-concurrency",
        VfQualifierPattern::TransitionShock => "f2q-texhop-v10-r1/transition-shock",
        VfQualifierPattern::DetectorLabDense => "detector-lab-v14-r1/dense-pulse-canary",
    }
}

/// Stable description of the framebuffer integrity mechanism persisted with qualification evidence.
pub fn vf_qualifier_checksum_method() -> (r: &'static str)
    ensures
        r@ == "reduce3-gpu-compare-r1;dense-default;sparse16=boost-edge,mixed-game,field-concurrency;primary=rotating-final;secondary=persistent-device-texture-selfcheck"@,
{
    "reduce3-gpu-compare-r1;dense-default;sparse16=boost-edge,mixed-game,field-concurrency;primary=rotating-final;secondary=persistent-device-texture-selfcheck"
}

/// The stock golden a workload's render output is compared against (`None` for the compute-path
/// and multi-lane workloads).
pub open spec fn golden_for(g: RenderGoldens, w: VfWorkload) -> Option<u32> {
    match w {
        VfWorkload::PowerRender | VfWorkload::HeavySpike | VfWorkload::IdlePulse
        | VfWorkload::BoostEntry => Some(g.power),
        VfWorkload::BoostEdge => Some(g.boost),
        VfWorkload::TextureRop => Some(g.texrop),
        VfWorkload::FrameCadence => Some(g.cadence),
        VfWorkload::GeometryDepth => Some(g.geometry),
        VfWorkload::TextureStream => Some(g.stream),
        VfWorkload::ComputeBurst | VfWorkload::MixedGame | VfWorkload::VramPressure
        | VfWorkload::CompositeGameLoad => None,
    }
}

pub fn golden_for_workload(goldens: RenderGoldens, workload: VfWorkload) -> (r: Option<u32>)
    ensures
        r == golden_for(goldens, workload),
{
    match workload {
        VfWorkload::PowerRender | VfWorkload::HeavySpike | VfWorkload::IdlePulse
        | VfWorkload::BoostEntry => Some(goldens.power),
        VfWorkload::BoostEdge => Some(goldens.boost),
        VfWorkload::TextureRop => Some(goldens.texrop),
        VfWorkload::FrameCadence => Some(goldens.cadence),
        VfWorkload::GeometryDepth => Some(goldens.geometry),
        VfWorkload::TextureStream => Some(goldens.stream),
        VfWorkload::ComputeBurst | VfWorkload::MixedGame | VfWorkload::VramPressure
        | VfWorkload::CompositeGameLoad => None,
    }
}

/// The goldens a render workload is integrity-checked against.
#[derive(Debug, Clone, Copy, PartialEq, Eq)]
pub enum RenderIntegrityGoldens {
    Single(u32),
    /// Three rotating render lanes.
    Mixed([u32; 3]),
}

/// The integrity goldens of a workload: MixedGame rotates BoostEdge/TextureRop/PowerRender, the
/// composite load rotates TextureRop/TextureStream/PowerRender, every other rendered workload
/// has its single golden.
pub fn integrity_goldens_for_workload(goldens: RenderGoldens, workload: VfWorkload) -> (r: Option<RenderIntegrityGoldens>)
    ensures
        workload == VfWorkload::MixedGame ==> (r matches Some(RenderIntegrityGoldens::Mixed(a)) && a@
            == seq![goldens.boost, goldens.texrop, goldens.power]),
        workload == VfWorkload::CompositeGameLoad ==> (r matches Some(
            RenderIntegrityGoldens::Mixed(a),
        ) && a@ == seq![goldens.texrop, goldens.stream, goldens.power]),
        (workload != VfWorkload::MixedGame && workload != VfWorkload::CompositeGameLoad) ==> r
            == (match golden_for(goldens, workload) {
            Some(g) => Some(RenderIntegrityGoldens::Single(g)),
            None => None,
        }),
{
    match workload {
        VfWorkload::MixedGame => {
            let a = [goldens.boost, goldens.texrop, goldens.power];
            assert(a@ =~= seq![goldens.boost, goldens.texrop, goldens.power]);
            Some(RenderIntegrityGoldens::Mixed(a))
        },
        VfWorkload::CompositeGameLoad => {
            let a = [goldens.texrop, goldens.stream, goldens.power];
            assert(a@ =~= seq![goldens.texrop, goldens.stream, goldens.power]);
            Some(RenderIntegrityGoldens::Mixed(a))
        },
        other => match golden_for_workload(goldens, other) {
            Some(g) => Some(RenderIntegrityGoldens::Single(g)),
            None => None,
        },
    }
}

/// Record one stock golden-capture frame: the first checksum becomes the reference; a later
/// frame must reproduce it exactly.
pub fn observe_golden_checksum(reference: &mut Option<u32>, checksum: u32, frame_count: u64) -> (r: Result<(), String>)
    ensures
        match *old(reference) {
            None => r is Ok && *final(reference) == Some(checksum),
            Some(expected) => *final(reference) == *old(reference) && (r is Ok <==> expected
                == checksum),
        },
{
    match *reference {
        None => {
            *reference = Some(checksum);
            Ok(())
        },
        Some(expected) => {
            if expected == checksum {
                Ok(())
            } else {
                Err(String::from_str("stock render golden diverged between frames"))
            }
        },
    }
}

/// Close a stock golden capture: it needs at least [`GOLDEN_MIN_FRAMES`] frames and a checksum.
pub fn finish_golden_capture(reference: Option<u32>, frame_count: u64) -> (r: Result<u32, String>)
    ensures
        frame_count < GOLDEN_MIN_FRAMES ==> r is Err,
        frame_count >= GOLDEN_MIN_FRAMES ==> match reference {
            Some(g) => r == Ok::<u32, String>(g),
            None => r is Err,
        },
{
    if frame_count < GOLDEN_MIN_FRAMES {
        return Err(String::from_str("stock render golden observed too few frames"));
    }
    match reference {
        Some(g) => Ok(g),
        None => Err(String::from_str("stock render golden produced no checksum")),
    }
}

/// The render result: a crash dominates, then a golden divergence.
pub fn render_integrity_result(crashed: bool, diverged: bool) -> (r: StabilityResult)
    ensures
        r == if crashed {
            StabilityResult::Crash
        } else if diverged {
            StabilityResult::SilentError
        } else {
            StabilityResult::Stable
        },
{
    if crashed {
        StabilityResult::Crash
    } else if diverged {
        StabilityResult::SilentError
    } else {
        StabilityResult::Stable
    }
}

/// Severity order of verdicts: Stable < Unstable < SilentError < Crash.
pub open spec fn severity(r: StabilityResult) -> int {
    match r {
        StabilityResult::Stable => 0,
        StabilityResult::Unstable => 1,
        StabilityResult::SilentError => 2,
        StabilityResult::Crash => 3,
    }
}

fn rank(result: StabilityResult) -> (r: u8)
    ensures
        r == severity(result),
{
    match result {
        StabilityResult::Stable => 0,
        StabilityResult::Unstable => 1,
        StabilityResult::SilentError => 2,
        StabilityResult::Crash => 3,
    }
}

/// The more severe of two verdicts (the first on a tie).
pub fn stronger_stability_failure(a: StabilityResult, b: StabilityResult) -> (r: StabilityResult)
    ensures
        r == if severity(b) > severity(a) { b } else { a },
{
    if rank(b) > rank(a) {
        b
    } else {
        a
    }
}

/// The marginal-silicon frame-time gate's arithmetic fits a `u64`.
pub open spec fn frame_time_arith_ok(
    stream_banded: bool,
    boost_edge: bool,
    stalled: bool,
    frames: u64,
    stream_frame_ms_total: u64,
    reference_us: Option<u64>,
) -> bool {
    match reference_us {
        Some(r) => frames >= GOLDEN_MIN_FRAMES ==> {
            let rr = if r > 1 { r as int } else { 1 };
            &&& (stream_banded && !stalled) ==> stream_frame_ms_total * 1000 <= u64::MAX && rr
                * STREAM_DEGRADATION_FACTOR <= u64::MAX
            &&& (!(stream_banded && !stalled) && boost_edge) ==> rr * BOOST_EDGE_DEGRADATION_FACTOR
                <= u64::MAX
        },
        None => true,
    }
}

/// Marginal-silicon frame-time gate: true when the sustained average frame time exceeds the stock
/// reference by its factor (banded TextureStream totals are in ms, BoostEdge totals in µs, the
/// reference in µs). False with no reference, too few frames, or (stream) when a hard stall
/// already fired.
pub fn frame_time_degraded(
    stream_banded: bool,
    boost_edge: bool,
    stalled: bool,
    frames: u64,
    stream_frame_ms_total: u64,
    boost_frame_us_total: u64,
    reference_us: Option<u64>,
) -> (r: bool)
    requires
        frame_time_arith_ok(stream_banded, boost_edge, stalled, frames, stream_frame_ms_total, reference_us),
    ensures
        r == match reference_us {
            None => false,
            Some(rf) => {
                let rr: int = if rf > 1 { rf as int } else { 1 };
                if frames < GOLDEN_MIN_FRAMES {
                    false
                } else if stream_banded && !stalled {
                    (stream_frame_ms_total * 1000) / (frames as int) > rr * STREAM_DEGRADATION_FACTOR
                } else if boost_edge {
                    boost_frame_us_total / frames > rr * BOOST_EDGE_DEGRADATION_FACTOR
                } else {
                    false
                }
            },
        },
{
    if frames < GOLDEN_MIN_FRAMES {
        return false;
    }
    let reference_us = match reference_us {
        Some(r) => r,
        None => {
            return false;
        },
    };
    let reference_us = if reference_us > 1 { reference_us } else { 1 };
    if stream_banded && !stalled {
        (stream_frame_ms_total * 1000) / frames > reference_us * STREAM_DEGRADATION_FACTOR
    } else if boost_edge {
        boost_frame_us_total / frames > reference_us * BOOST_EDGE_DEGRADATION_FACTOR
    } else {
        false
    }
}

/// The weighted phase sequence of each qualification pattern: `(phase, workload, weight)`.
pub open spec fn qualifier_template(p: VfQualifierPattern) -> Seq<(VfQualifierPhase, VfWorkload, u64)> {
    match p {
        VfQualifierPattern::Fsgl1 => seq![
            (VfQualifierPhase::PowerOpening, VfWorkload::PowerRender, 5u64),
            (VfQualifierPhase::BoostEdge, VfWorkload::BoostEdge, 7u64),
            (VfQualifierPhase::HeavySpike, VfWorkload::HeavySpike, 5u64),
            (VfQualifierPhase::BoostEdge, VfWorkload::BoostEdge, 5u64),
            (VfQualifierPhase::TextureRop, VfWorkload::TextureRop, 7u64),
            (VfQualifierPhase::IdlePulse, VfWorkload::IdlePulse, 5u64),
            (VfQualifierPhase::HeavySpike, VfWorkload::HeavySpike, 5u64),
            (VfQualifierPhase::MixedGame, VfWorkload::MixedGame, 15u64),
            (VfQualifierPhase::ComputeBurst, VfWorkload::ComputeBurst, 4u64),
            (VfQualifierPhase::PowerClosing, VfWorkload::PowerRender, 7u64)
        ],
        VfQualifierPattern::Fsgl2A => seq![
            (VfQualifierPhase::PowerOpening, VfWorkload::PowerRender, 4u64),
            (VfQualifierPhase::BoostEdge, VfWorkload::BoostEdge, 6u64),
            (VfQualifierPhase::HeavySpike, VfWorkload::HeavySpike, 3u64),
            (VfQualifierPhase::BoostEdge, VfWorkload::BoostEdge, 5u64),
            (VfQualifierPhase::HeavySpike, VfWorkload::HeavySpike, 3u64),
            (VfQualifierPhase::TextureRop, VfWorkload::TextureRop, 5u64),
            (VfQualifierPhase::IdlePulse, VfWorkload::IdlePulse, 5u64),
            (VfQualifierPhase::MixedGame, VfWorkload::MixedGame, 8u64),
            (VfQualifierPhase::ComputeBurst, VfWorkload::ComputeBurst, 5u64),
            (VfQualifierPhase::HeavySpike, VfWorkload::HeavySpike, 3u64),
            (VfQualifierPhase::BoostEdge, VfWorkload::BoostEdge, 4u64),
            (VfQualifierPhase::PowerClosing, VfWorkload::PowerRender, 5u64)
        ],
        VfQualifierPattern::Fsgl2B => seq![
            (VfQualifierPhase::PowerOpening, VfWorkload::PowerRender, 4u64),
            (VfQualifierPhase::TextureRop, VfWorkload::TextureRop, 5u64),
            (VfQualifierPhase::HeavySpike, VfWorkload::HeavySpike, 3u64),
            (VfQualifierPhase::BoostEdge, VfWorkload::BoostEdge, 6u64),
            (VfQualifierPhase::IdlePulse, VfWorkload::IdlePulse, 6u64),
            (VfQualifierPhase::TextureRop, VfWorkload::TextureRop, 6u64),
            (VfQualifierPhase::ComputeBurst, VfWorkload::ComputeBurst, 6u64),
            (VfQualifierPhase::MixedGame, VfWorkload::MixedGame, 8u64),
            (VfQualifierPhase::BoostEdge, VfWorkload::BoostEdge, 3u64),
            (VfQualifierPhase::TextureRop, VfWorkload::TextureRop, 3u64),
            (VfQualifierPhase::HeavySpike, VfWorkload::HeavySpike, 4u64),
            (VfQualifierPhase::IdlePulse, VfWorkload::IdlePulse, 5u64),
            (VfQualifierPhase::PowerClosing, VfWorkload::PowerRender, 4u64)
        ],
        VfQualifierPattern::Fsgl3A => seq![
            (VfQualifierPhase::PowerOpening, VfWorkload::PowerRender, 4u64),
            (VfQualifierPhase::IdlePulse, VfWorkload::IdlePulse, 5u64),
            (VfQualifierPhase::HeavySpike, VfWorkload::HeavySpike, 3u64),
            (VfQualifierPhase::TextureRop, VfWorkload::TextureRop, 7u64),
            (VfQualifierPhase::BoostEdge, VfWorkload::BoostEdge, 4u64),
            (VfQualifierPhase::TextureRop, VfWorkload::TextureRop, 7u64),
            (VfQualifierPhase::IdlePulse, VfWorkload::IdlePulse, 5u64),
            (VfQualifierPhase::HeavySpike, VfWorkload::HeavySpike, 3u64),
            (VfQualifierPhase::MixedGame, VfWorkload::MixedGame, 10u64),
            (VfQualifierPhase::TextureRop, VfWorkload::TextureRop, 6u64),
            (VfQualifierPhase::ComputeBurst, VfWorkload::ComputeBurst, 4u64),
            (VfQualifierPhase::PowerClosing, VfWorkload::PowerRender, 5u64)
        ],
        VfQualifierPattern::Fsgl3B => seq![
            (VfQualifierPhase::PowerOpening, VfWorkload::PowerRender, 4u64),
            (VfQualifierPhase::TextureRop, VfWorkload::TextureRop, 7u64),
            (VfQualifierPhase::IdlePulse, VfWorkload::IdlePulse, 5u64),
            (VfQualifierPhase::HeavySpike, VfWorkload::HeavySpike, 3u64),
            (VfQualifierPhase::TextureRop, VfWorkload::TextureRop, 7u64),
            (VfQualifierPhase::MixedGame, VfWorkload::MixedGame, 10u64),
            (VfQualifierPhase::BoostEdge, VfWorkload::BoostEdge, 3u64),
            (VfQualifierPhase::IdlePulse, VfWorkload::IdlePulse, 5u64),
            (VfQualifierPhase::HeavySpike, VfWorkload::HeavySpike, 3u64),
            (VfQualifierPhase::TextureRop, VfWorkload::TextureRop, 6u64),
            (VfQualifierPhase::ComputeBurst, VfWorkload::ComputeBurst, 4u64),
            (VfQualifierPhase::IdlePulse, VfWorkload::IdlePulse, 4u64),
            (VfQualifierPhase::PowerClosing, VfWorkload::PowerRender, 4u64)
        ],
        VfQualifierPattern::V8HighFps => seq![
            (VfQualifierPhase::PowerOpening, VfWorkload::PowerRender, 8u64),
            (VfQualifierPhase::BoostEdge, VfWorkload::BoostEdge, 12u64),
            (VfQualifierPhase::HeavySpike, VfWorkload::HeavySpike, 4u64),
            (VfQualifierPhase::BoostEdge, VfWorkload::BoostEdge, 12u64),
            (VfQualifierPhase::FrameCadence, VfWorkload::FrameCadence, 8u64),
            (VfQualifierPhase::MixedGame, VfWorkload::MixedGame, 8u64),
            (VfQualifierPhase::BoostEdge, VfWorkload::BoostEdge, 12u64),
            (VfQualifierPhase::IdlePulse, VfWorkload::IdlePulse, 3u64),
            (VfQualifierPhase::BoostEdge, VfWorkload::BoostEdge, 12u64),
            (VfQualifierPhase::ComputeBurst, VfWorkload::ComputeBurst, 5u64),
            (VfQualifierPhase::BoostEdge, VfWorkload::BoostEdge, 8u64),
            (VfQualifierPhase::TextureRop, VfWorkload::TextureRop, 6u64),
            (VfQualifierPhase::BoostEdge, VfWorkload::BoostEdge, 8u64),
            (VfQualifierPhase::HeavySpike, VfWorkload::HeavySpike, 4u64),
            (VfQualifierPhase::FrameCadence, VfWorkload::FrameCadence, 8u64),
            (VfQualifierPhase::GeometryDepth, VfWorkload::GeometryDepth, 6u64),
            (VfQualifierPhase::BoostEdge, VfWorkload::BoostEdge, 8u64),
            (VfQualifierPhase::PowerClosing, VfWorkload::PowerRender, 6u64)
        ],
        VfQualifierPattern::V8Texture => seq![
            (VfQualifierPhase::PowerOpening, VfWorkload::PowerRender, 1u64),
            (VfQualifierPhase::TextureRop, VfWorkload::TextureRop, 15u64),
            (VfQualifierPhase::IdlePulse, VfWorkload::IdlePulse, 2u64),
            (VfQualifierPhase::CompositeGameLoad, VfWorkload::CompositeGameLoad, 50u64),
            (VfQualifierPhase::TextureRop, VfWorkload::TextureRop, 9u64),
            (VfQualifierPhase::HeavySpike, VfWorkload::HeavySpike, 3u64),
            (VfQualifierPhase::TextureRop, VfWorkload::TextureRop, 7u64),
            (VfQualifierPhase::MixedGame, VfWorkload::MixedGame, 3u64),
            (VfQualifierPhase::FrameCadence, VfWorkload::FrameCadence, 2u64),
            (VfQualifierPhase::ComputeBurst, VfWorkload::ComputeBurst, 1u64),
            (VfQualifierPhase::BoostEdge, VfWorkload::BoostEdge, 4u64),
            (VfQualifierPhase::VramPressure, VfWorkload::VramPressure, 2u64),
            (VfQualifierPhase::PowerClosing, VfWorkload::PowerRender, 1u64)
        ],
        VfQualifierPattern::V8Transitions => seq![
            (VfQualifierPhase::PowerOpening, VfWorkload::PowerRender, 8u64),
            (VfQualifierPhase::IdlePulse, VfWorkload::IdlePulse, 4u64),
            (VfQualifierPhase::HeavySpike, VfWorkload::HeavySpike, 5u64),
            (VfQualifierPhase::FrameCadence, VfWorkload::FrameCadence, 8u64),
            (VfQualifierPhase::BoostEdge, VfWorkload::BoostEdge, 5u64),
            (VfQualifierPhase::IdlePulse, VfWorkload::IdlePulse, 4u64),
            (VfQualifierPhase::GeometryDepth, VfWorkload::GeometryDepth, 6u64),
            (VfQualifierPhase::TextureRop, VfWorkload::TextureRop, 6u64),
            (VfQualifierPhase::HeavySpike, VfWorkload::HeavySpike, 5u64),
            (VfQualifierPhase::IdlePulse, VfWorkload::IdlePulse, 4u64),
            (VfQualifierPhase::FrameCadence, VfWorkload::FrameCadence, 8u64),
            (VfQualifierPhase::ComputeBurst, VfWorkload::ComputeBurst, 5u64),
            (VfQualifierPhase::MixedGame, VfWorkload::MixedGame, 6u64),
            (VfQualifierPhase::IdlePulse, VfWorkload::IdlePulse, 4u64),
            (VfQualifierPhase::HeavySpike, VfWorkload::HeavySpike, 5u64),
            (VfQualifierPhase::BoostEdge, VfWorkload::BoostEdge, 5u64),
            (VfQualifierPhase::TextureRop, VfWorkload::TextureRop, 6u64),
            (VfQualifierPhase::FrameCadence, VfWorkload::FrameCadence, 8u64),
            (VfQualifierPhase::IdlePulse, VfWorkload::IdlePulse, 4u64),
            (VfQualifierPhase::PowerClosing, VfWorkload::PowerRender, 8u64)
        ],
        VfQualifierPattern::V8Memory => seq![
            (VfQualifierPhase::PowerOpening, VfWorkload::PowerRender, 6u64),
            (VfQualifierPhase::VramPressure, VfWorkload::VramPressure, 12u64),
            (VfQualifierPhase::FrameCadence, VfWorkload::FrameCadence, 6u64),
            (VfQualifierPhase::VramPressure, VfWorkload::VramPressure, 12u64),
            (VfQualifierPhase::TextureRop, VfWorkload::TextureRop, 8u64),
            (VfQualifierPhase::IdlePulse, VfWorkload::IdlePulse, 3u64),
            (VfQualifierPhase::VramPressure, VfWorkload::VramPressure, 12u64),
            (VfQualifierPhase::BoostEdge, VfWorkload::BoostEdge, 5u64),
            (VfQualifierPhase::HeavySpike, VfWorkload::HeavySpike, 5u64),
            (VfQualifierPhase::VramPressure, VfWorkload::VramPressure, 10u64),
            (VfQualifierPhase::MixedGame, VfWorkload::MixedGame, 6u64),
            (VfQualifierPhase::GeometryDepth, VfWorkload::GeometryDepth, 6u64),
            (VfQualifierPhase::VramPressure, VfWorkload::VramPressure, 10u64),
            (VfQualifierPhase::ComputeBurst, VfWorkload::ComputeBurst, 4u64),
            (VfQualifierPhase::TextureStream, VfWorkload::TextureStream, 8u64),
            (VfQualifierPhase::PowerClosing, VfWorkload::PowerRender, 6u64)
        ],
        VfQualifierPattern::Endurance => seq![
            (VfQualifierPhase::PowerOpening, VfWorkload::PowerRender, 2u64),
            (VfQualifierPhase::TextureRop, VfWorkload::TextureRop, 10u64),
            (VfQualifierPhase::CompositeGameLoad, VfWorkload::CompositeGameLoad, 12u64),
            (VfQualifierPhase::TextureRop, VfWorkload::TextureRop, 8u64),
            (VfQualifierPhase::HeavySpike, VfWorkload::HeavySpike, 3u64),
            (VfQualifierPhase::IdlePulse, VfWorkload::IdlePulse, 2u64),
            (VfQualifierPhase::HeavySpike, VfWorkload::HeavySpike, 3u64),
            (VfQualifierPhase::IdlePulse, VfWorkload::IdlePulse, 2u64),
            (VfQualifierPhase::HeavySpike, VfWorkload::HeavySpike, 3u64),
            (VfQualifierPhase::TextureRop, VfWorkload::TextureRop, 8u64),
            (VfQualifierPhase::HeavySpike, VfWorkload::HeavySpike, 14u64),
            (VfQualifierPhase::BoostEdge, VfWorkload::BoostEdge, 10u64),
            (VfQualifierPhase::FrameCadence, VfWorkload::FrameCadence, 8u64),
            (VfQualifierPhase::MixedGame, VfWorkload::MixedGame, 10u64),
            (VfQualifierPhase::TextureRop, VfWorkload::TextureRop, 6u64),
            (VfQualifierPhase::HeavySpike, VfWorkload::HeavySpike, 12u64),
            (VfQualifierPhase::HeavySpike, VfWorkload::HeavySpike, 3u64),
            (VfQualifierPhase::IdlePulse, VfWorkload::IdlePulse, 2u64),
            (VfQualifierPhase::HeavySpike, VfWorkload::HeavySpike, 3u64),
            (VfQualifierPhase::CompositeGameLoad, VfWorkload::CompositeGameLoad, 12u64),
            (VfQualifierPhase::BoostEdge, VfWorkload::BoostEdge, 10u64),
            (VfQualifierPhase::TextureRop, VfWorkload::TextureRop, 6u64),
            (VfQualifierPhase::PowerClosing, VfWorkload::PowerRender, 3u64)
        ],
        VfQualifierPattern::TransitionShock => seq![
            (VfQualifierPhase::BoostEntry, VfWorkload::BoostEntry, 12u64),
            (VfQualifierPhase::TextureRop, VfWorkload::TextureRop, 4u64),
            (VfQualifierPhase::BoostEntry, VfWorkload::BoostEntry, 12u64),
            (VfQualifierPhase::TextureRop, VfWorkload::TextureRop, 4u64),
            (VfQualifierPhase::BoostEntry, VfWorkload::BoostEntry, 12u64)
        ],
        VfQualifierPattern::DetectorLabDense => seq![
            (VfQualifierPhase::PowerOpening, VfWorkload::PowerRender, 2u64),
            (VfQualifierPhase::TextureRop, VfWorkload::TextureRop, 20u64),
            (VfQualifierPhase::HeavySpike, VfWorkload::HeavySpike, 5u64),
            (VfQualifierPhase::TextureRop, VfWorkload::TextureRop, 12u64),
            (VfQualifierPhase::FrameCadence, VfWorkload::FrameCadence, 5u64),
            (VfQualifierPhase::TextureRop, VfWorkload::TextureRop, 12u64),
            (VfQualifierPhase::MixedGame, VfWorkload::MixedGame, 5u64),
            (VfQualifierPhase::TextureRop, VfWorkload::TextureRop, 12u64),
            (VfQualifierPhase::BoostEdge, VfWorkload::BoostEdge, 4u64),
            (VfQualifierPhase::TextureRop, VfWorkload::TextureRop, 9u64),
            (VfQualifierPhase::PowerClosing, VfWorkload::PowerRender, 2u64)
        ],
    }
}

fn template_fsgl1() -> (r: Vec<(VfQualifierPhase, VfWorkload, u64)>)
    ensures
        r@ == qualifier_template(VfQualifierPattern::Fsgl1),
{
    let mut v: Vec<(VfQualifierPhase, VfWorkload, u64)> = Vec::new();
    v.push((VfQualifierPhase::PowerOpening, VfWorkload::PowerRender, 5u64));
    v.push((VfQualifierPhase::BoostEdge, VfWorkload::BoostEdge, 7u64));
    v.push((VfQualifierPhase::HeavySpike, VfWorkload::HeavySpike, 5u64));
    v.push((VfQualifierPhase::BoostEdge, VfWorkload::BoostEdge, 5u64));
    v.push((VfQualifierPhase::TextureRop, VfWorkload::TextureRop, 7u64));
    v.push((VfQualifierPhase::IdlePulse, VfWorkload::IdlePulse, 5u64));
    v.push((VfQualifierPhase::HeavySpike, VfWorkload::HeavySpike, 5u64));
    v.push((VfQualifierPhase::MixedGame, VfWorkload::MixedGame, 15u64));
    v.push((VfQualifierPhase::ComputeBurst, VfWorkload::ComputeBurst, 4u64));
    v.push((VfQualifierPhase::PowerClosing, VfWorkload::PowerRender, 7u64));
    v
}

fn template_fsgl2_a() -> (r: Vec<(VfQualifierPhase, VfWorkload, u64)>)
    ensures
        r@ == qualifier_template(VfQualifierPattern::Fsgl2A),
{
    let mut v: Vec<(VfQualifierPhase, VfWorkload, u64)> = Vec::new();
    v.push((VfQualifierPhase::PowerOpening, VfWorkload::PowerRender, 4u64));
    v.push((VfQualifierPhase::BoostEdge, VfWorkload::BoostEdge, 6u64));
    v.push((VfQualifierPhase::HeavySpike, VfWorkload::HeavySpike, 3u64));
    v.push((VfQualifierPhase::BoostEdge, VfWorkload::BoostEdge, 5u64));
    v.push((VfQualifierPhase::HeavySpike, VfWorkload::HeavySpike, 3u64));
    v.push((VfQualifierPhase::TextureRop, VfWorkload::TextureRop, 5u64));
    v.push((VfQualifierPhase::IdlePulse, VfWorkload::IdlePulse, 5u64));
    v.push((VfQualifierPhase::MixedGame, VfWorkload::MixedGame, 8u64));
    v.push((VfQualifierPhase::ComputeBurst, VfWorkload::ComputeBurst, 5u64));
    v.push((VfQualifierPhase::HeavySpike, VfWorkload::HeavySpike, 3u64));
    v.push((VfQualifierPhase::BoostEdge, VfWorkload::BoostEdge, 4u64));
    v.push((VfQualifierPhase::PowerClosing, VfWorkload::PowerRender, 5u64));
    v
}

fn template_fsgl2_b() -> (r: Vec<(VfQualifierPhase, VfWorkload, u64)>)
    ensures
        r@ == qualifier_template(VfQualifierPattern::Fsgl2B),
{
    let mut v: Vec<(VfQualifierPhase, VfWorkload, u64)> = Vec::new();
    v.push((VfQualifierPhase::PowerOpening, VfWorkload::PowerRender, 4u64));
    v.push((VfQualifierPhase::TextureRop, VfWorkload::TextureRop, 5u64));
    v.push((VfQualifierPhase::HeavySpike, VfWorkload::HeavySpike, 3u64));
    v.push((VfQualifierPhase::BoostEdge, VfWorkload::BoostEdge, 6u64));
    v.push((VfQualifierPhase::IdlePulse, VfWorkload::IdlePulse, 6u64));
    v.push((VfQualifierPhase::TextureRop, VfWorkload::TextureRop, 6u64));
    v.push((VfQualifierPhase::ComputeBurst, VfWorkload::ComputeBurst, 6u64));
    v.push((VfQualifierPhase::MixedGame, VfWorkload::MixedGame, 8u64));
    v.push((VfQualifierPhase::BoostEdge, VfWorkload::BoostEdge, 3u64));
    v.push((VfQualifierPhase::TextureRop, VfWorkload::TextureRop, 3u64));
    v.push((VfQualifierPhase::HeavySpike, VfWorkload::HeavySpike, 4u64));
    v.push((VfQualifierPhase::IdlePulse, VfWorkload::IdlePulse, 5u64));
    v.push((VfQualifierPhase::PowerClosing, VfWorkload::PowerRender, 4u64));
    v
}

fn template_fsgl3_a() -> (r: Vec<(VfQualifierPhase, VfWorkload, u64)>)
    ensures
        r@ == qualifier_template(VfQualifierPattern::Fsgl3A),
{
    let mut v: Vec<(VfQualifierPhase, VfWorkload, u64)> = Vec::new();
    v.push((VfQualifierPhase::PowerOpening, VfWorkload::PowerRender, 4u64));
    v.push((VfQualifierPhase::IdlePulse, VfWorkload::IdlePulse, 5u64));
    v.push((VfQualifierPhase::HeavySpike, VfWorkload::HeavySpike, 3u64));
    v.push((VfQualifierPhase::TextureRop, VfWorkload::TextureRop, 7u64));
    v.push((VfQualifierPhase::BoostEdge, VfWorkload::BoostEdge, 4u64));
    v.push((VfQualifierPhase::TextureRop, VfWorkload::TextureRop, 7u64));
    v.push((VfQualifierPhase::IdlePulse, VfWorkload::IdlePulse, 5u64));
    v.push((VfQualifierPhase::HeavySpike, VfWorkload::HeavySpike, 3u64));
    v.push((VfQualifierPhase::MixedGame, VfWorkload::MixedGame, 10u64));
    v.push((VfQualifierPhase::TextureRop, VfWorkload::TextureRop, 6u64));
    v.push((VfQualifierPhase::ComputeBurst, VfWorkload::ComputeBurst, 4u64));
    v.push((VfQualifierPhase::PowerClosing, VfWorkload::PowerRender, 5u64));
    v
}

fn template_fsgl3_b() -> (r: Vec<(VfQualifierPhase, VfWorkload, u64)>)
    ensures
        r@ == qualifier_template(VfQualifierPattern::Fsgl3B),
{
    let mut v: Vec<(VfQualifierPhase, VfWorkload, u64)> = Vec::new();
    v.push((VfQualifierPhase::PowerOpening, VfWorkload::PowerRender, 4u64));
    v.push((VfQualifierPhase::TextureRop, VfWorkload::TextureRop, 7u64));
    v.push((VfQualifierPhase::IdlePulse, VfWorkload::IdlePulse, 5u64));
    v.push((VfQualifierPhase::HeavySpike, VfWorkload::HeavySpike, 3u64));
    v.push((VfQualifierPhase::TextureRop, VfWorkload::TextureRop, 7u64));
    v.push((VfQualifierPhase::MixedGame, VfWorkload::MixedGame, 10u64));
    v.push((VfQualifierPhase::BoostEdge, VfWorkload::BoostEdge, 3u64));
    v.push((VfQualifierPhase::IdlePulse, VfWorkload::IdlePulse, 5u64));
    v.push((VfQualifierPhase::HeavySpike, VfWorkload::HeavySpike, 3u64));
    v.push((VfQualifierPhase::TextureRop, VfWorkload::TextureRop, 6u64));
    v.push((VfQualifierPhase::ComputeBurst, VfWorkload::ComputeBurst, 4u64));
    v.push((VfQualifierPhase::IdlePulse, VfWorkload::IdlePulse, 4u64));
    v.push((VfQualifierPhase::PowerClosing, VfWorkload::PowerRender, 4u64));
    v
}

fn template_v8_high_fps() -> (r: Vec<(VfQualifierPhase, VfWorkload, u64)>)
    ensures
        r@ == qualifier_template(VfQualifierPattern::V8HighFps),
{
    let mut v: Vec<(VfQualifierPhase, VfWorkload, u64)> = Vec::new();
    v.push((VfQualifierPhase::PowerOpening, VfWorkload::PowerRender, 8u64));
    v.push((VfQualifierPhase::BoostEdge, VfWorkload::BoostEdge, 12u64));
    v.push((VfQualifierPhase::HeavySpike, VfWorkload::HeavySpike, 4u64));
    v.push((VfQualifierPhase::BoostEdge, VfWorkload::BoostEdge, 12u64));
    v.push((VfQualifierPhase::FrameCadence, VfWorkload::FrameCadence, 8u64));
    v.push((VfQualifierPhase::MixedGame, VfWorkload::MixedGame, 8u64));
    v.push((VfQualifierPhase::BoostEdge, VfWorkload::BoostEdge, 12u64));
    v.push((VfQualifierPhase::IdlePulse, VfWorkload::IdlePulse, 3u64));
    v.push((VfQualifierPhase::BoostEdge, VfWorkload::BoostEdge, 12u64));
    v.push((VfQualifierPhase::ComputeBurst, VfWorkload::ComputeBurst, 5u64));
    v.push((VfQualifierPhase::BoostEdge, VfWorkload::BoostEdge, 8u64));
    v.push((VfQualifierPhase::TextureRop, VfWorkload::TextureRop, 6u64));
    v.push((VfQualifierPhase::BoostEdge, VfWorkload::BoostEdge, 8u64));
    v.push((VfQualifierPhase::HeavySpike, VfWorkload::HeavySpike, 4u64));
    v.push((VfQualifierPhase::FrameCadence, VfWorkload::FrameCadence, 8u64));
    v.push((VfQualifierPhase::GeometryDepth, VfWorkload::GeometryDepth, 6u64));
    v.push((VfQualifierPhase::BoostEdge, VfWorkload::BoostEdge, 8u64));
    v.push((VfQualifierPhase::PowerClosing, VfWorkload::PowerRender, 6u64));
    v
}

fn template_v8_texture() -> (r: Vec<(VfQualifierPhase, VfWorkload, u64)>)
    ensures
        r@ == qualifier_template(VfQualifierPattern::V8Texture),
{
    let mut v: Vec<(VfQualifierPhase, VfWorkload, u64)> = Vec::new();
    v.push((VfQualifierPhase::PowerOpening, VfWorkload::PowerRender, 1u64));
    v.push((VfQualifierPhase::TextureRop, VfWorkload::TextureRop, 15u64));
    v.push((VfQualifierPhase::IdlePulse, VfWorkload::IdlePulse, 2u64));
    v.push((VfQualifierPhase::CompositeGameLoad, VfWorkload::CompositeGameLoad, 50u64));
    v.push((VfQualifierPhase::TextureRop, VfWorkload::TextureRop, 9u64));
    v.push((VfQualifierPhase::HeavySpike, VfWorkload::HeavySpike, 3u64));
    v.push((VfQualifierPhase::TextureRop, VfWorkload::TextureRop, 7u64));
    v.push((VfQualifierPhase::MixedGame, VfWorkload::MixedGame, 3u64));
    v.push((VfQualifierPhase::FrameCadence, VfWorkload::FrameCadence, 2u64));
    v.push((VfQualifierPhase::ComputeBurst, VfWorkload::ComputeBurst, 1u64));
    v.push((VfQualifierPhase::BoostEdge, VfWorkload::BoostEdge, 4u64));
    v.push((VfQualifierPhase::VramPressure, VfWorkload::VramPressure, 2u64));
    v.push((VfQualifierPhase::PowerClosing, VfWorkload::PowerRender, 1u64));
    v
}

fn template_v8_transitions() -> (r: Vec<(VfQualifierPhase, VfWorkload, u64)>)
    ensures
        r@ == qualifier_template(VfQualifierPattern::V8Transitions),
{
    let mut v: Vec<(VfQualifierPhase, VfWorkload, u64)> = Vec::new();
    v.push((VfQualifierPhase::PowerOpening, VfWorkload::PowerRender, 8u64));
    v.push((VfQualifierPhase::IdlePulse, VfWorkload::IdlePulse, 4u64));
    v.push((VfQualifierPhase::HeavySpike, VfWorkload::HeavySpike, 5u64));
    v.push((VfQualifierPhase::FrameCadence, VfWorkload::FrameCadence, 8u64));
    v.push((VfQualifierPhase::BoostEdge, VfWorkload::BoostEdge, 5u64));
    v.push((VfQualifierPhase::IdlePulse, VfWorkload::IdlePulse, 4u64));
    v.push((VfQualifierPhase::GeometryDepth, VfWorkload::GeometryDepth, 6u64));
    v.push((VfQualifierPhase::TextureRop, VfWorkload::TextureRop, 6u64));
    v.push((VfQualifierPhase::HeavySpike, VfWorkload::HeavySpike, 5u64));
    v.push((VfQualifierPhase::IdlePulse, VfWorkload::IdlePulse, 4u64));
    v.push((VfQualifierPhase::FrameCadence, VfWorkload::FrameCadence, 8u64));
    v.push((VfQualifierPhase::ComputeBurst, VfWorkload::ComputeBurst, 5u64));
    v.push((VfQualifierPhase::MixedGame, VfWorkload::MixedGame, 6u64));
    v.push((VfQualifierPhase::IdlePulse, VfWorkload::IdlePulse, 4u64));
    v.push((VfQualifierPhase::HeavySpike, VfWorkload::HeavySpike, 5u64));
    v.push((VfQualifierPhase::BoostEdge, VfWorkload::BoostEdge, 5u64));
    v.push((VfQualifierPhase::TextureRop, VfWorkload::TextureRop, 6u64));
    v.push((VfQualifierPhase::FrameCadence, VfWorkload::FrameCadence, 8u64));
    v.push((VfQualifierPhase::IdlePulse, VfWorkload::IdlePulse, 4u64));
    v.push((VfQualifierPhase::PowerClosing, VfWorkload::PowerRender, 8u64));
    v
}

fn template_v8_memory() -> (r: Vec<(VfQualifierPhase, VfWorkload, u64)>)
    ensures
        r@ == qualifier_template(VfQualifierPattern::V8Memory),
{
    let mut v: Vec<(VfQualifierPhase, VfWorkload, u64)> = Vec::new();
    v.push((VfQualifierPhase::PowerOpening, VfWorkload::PowerRender, 6u64));
    v.push((VfQualifierPhase::VramPressure, VfWorkload::VramPressure, 12u64));
    v.push((VfQualifierPhase::FrameCadence, VfWorkload::FrameCadence, 6u64));
    v.push((VfQualifierPhase::VramPressure, VfWorkload::VramPressure, 12u64));
    v.push((VfQualifierPhase::TextureRop, VfWorkload::TextureRop, 8u64));
    v.push((VfQualifierPhase::IdlePulse, VfWorkload::IdlePulse, 3u64));
    v.push((VfQualifierPhase::VramPressure, VfWorkload::VramPressure, 12u64));
    v.push((VfQualifierPhase::BoostEdge, VfWorkload::BoostEdge, 5u64));
    v.push((VfQualifierPhase::HeavySpike, VfWorkload::HeavySpike, 5u64));
    v.push((VfQualifierPhase::VramPressure, VfWorkload::VramPressure, 10u64));
    v.push((VfQualifierPhase::MixedGame, VfWorkload::MixedGame, 6u64));
    v.push((VfQualifierPhase::GeometryDepth, VfWorkload::GeometryDepth, 6u64));
    v.push((VfQualifierPhase::VramPressure, VfWorkload::VramPressure, 10u64));
    v.push((VfQualifierPhase::ComputeBurst, VfWorkload::ComputeBurst, 4u64));
    v.push((VfQualifierPhase::TextureStream, VfWorkload::TextureStream, 8u64));
    v.push((VfQualifierPhase::PowerClosing, VfWorkload::PowerRender, 6u64));
    v
}

fn template_endurance() -> (r: Vec<(VfQualifierPhase, VfWorkload, u64)>)
    ensures
        r@ == qualifier_template(VfQualifierPattern::Endurance),
{
    let mut v: Vec<(VfQualifierPhase, VfWorkload, u64)> = Vec::new();
    v.push((VfQualifierPhase::PowerOpening, VfWorkload::PowerRender, 2u64));
    v.push((VfQualifierPhase::TextureRop, VfWorkload::TextureRop, 10u64));
    v.push((VfQualifierPhase::CompositeGameLoad, VfWorkload::CompositeGameLoad, 12u64));
    v.push((VfQualifierPhase::TextureRop, VfWorkload::TextureRop, 8u64));
    v.push((VfQualifierPhase::HeavySpike, VfWorkload::HeavySpike, 3u64));
    v.push((VfQualifierPhase::IdlePulse, VfWorkload::IdlePulse, 2u64));
    v.push((VfQualifierPhase::HeavySpike, VfWorkload::HeavySpike, 3u64));
    v.push((VfQualifierPhase::IdlePulse, VfWorkload::IdlePulse, 2u64));
    v.push((VfQualifierPhase::HeavySpike, VfWorkload::HeavySpike, 3u64));
    v.push((VfQualifierPhase::TextureRop, VfWorkload::TextureRop, 8u64));
    v.push((VfQualifierPhase::HeavySpike, VfWorkload::HeavySpike, 14u64));
    v.push((VfQualifierPhase::BoostEdge, VfWorkload::BoostEdge, 10u64));
    v.push((VfQualifierPhase::FrameCadence, VfWorkload::FrameCadence, 8u64));
    v.push((VfQualifierPhase::MixedGame, VfWorkload::MixedGame, 10u64));
    v.push((VfQualifierPhase::TextureRop, VfWorkload::TextureRop, 6u64));
    v.push((VfQualifierPhase::HeavySpike, VfWorkload::HeavySpike, 12u64));
    v.push((VfQualifierPhase::HeavySpike, VfWorkload::HeavySpike, 3u64));
    v.push((VfQualifierPhase::IdlePulse, VfWorkload::IdlePulse, 2u64));
    v.push((VfQualifierPhase::HeavySpike, VfWorkload::HeavySpike, 3u64));
    v.push((VfQualifierPhase::CompositeGameLoad, VfWorkload::CompositeGameLoad, 12u64));
    v.push((VfQualifierPhase::BoostEdge, VfWorkload::BoostEdge, 10u64));
    v.push((VfQualifierPhase::TextureRop, VfWorkload::TextureRop, 6u64));
    v.push((VfQualifierPhase::PowerClosing, VfWorkload::PowerRender, 3u64));
    v
}

fn template_transition_shock() -> (r: Vec<(VfQualifierPhase, VfWorkload, u64)>)
    ensures
        r@ == qualifier_template(VfQualifierPattern::TransitionShock),
{
    let mut v: Vec<(VfQualifierPhase, VfWorkload, u64)> = Vec::new();
    v.push((VfQualifierPhase::BoostEntry, VfWorkload::BoostEntry, 12u64));
    v.push((VfQualifierPhase::TextureRop, VfWorkload::TextureRop, 4u64));
    v.push((VfQualifierPhase::BoostEntry, VfWorkload::BoostEntry, 12u64));
    v.push((VfQualifierPhase::TextureRop, VfWorkload::TextureRop, 4u64));
    v.push((VfQualifierPhase::BoostEntry, VfWorkload::BoostEntry, 12u64));
    v
}

fn template_detector_lab_dense() -> (r: Vec<(VfQualifierPhase, VfWorkload, u64)>)
    ensures
        r@ == qualifier_template(VfQualifierPattern::DetectorLabDense),
{
    let mut v: Vec<(VfQualifierPhase, VfWorkload, u64)> = Vec::new();
    v.push((VfQualifierPhase::PowerOpening, VfWorkload::PowerRender, 2u64));
    v.push((VfQualifierPhase::TextureRop, VfWorkload::TextureRop, 20u64));
    v.push((VfQualifierPhase::HeavySpike, VfWorkload::HeavySpike, 5u64));
    v.push((VfQualifierPhase::TextureRop, VfWorkload::TextureRop, 12u64));
    v.push((VfQualifierPhase::FrameCadence, VfWorkload::FrameCadence, 5u64));
    v.push((VfQualifierPhase::TextureRop, VfWorkload::TextureRop, 12u64));
    v.push((VfQualifierPhase::MixedGame, VfWorkload::MixedGame, 5u64));
    v.push((VfQualifierPhase::TextureRop, VfWorkload::TextureRop, 12u64));
    v.push((VfQualifierPhase::BoostEdge, VfWorkload::BoostEdge, 4u64));
    v.push((VfQualifierPhase::TextureRop, VfWorkload::TextureRop, 9u64));
    v.push((VfQualifierPhase::PowerClosing, VfWorkload::PowerRender, 2u64));
    v
}

fn template(p: VfQualifierPattern) -> (r: Vec<(VfQualifierPhase, VfWorkload, u64)>)
    ensures
        r@ == qualifier_template(p),
{
    match p {
        VfQualifierPattern::Fsgl1 => template_fsgl1(),
        VfQualifierPattern::Fsgl2A => template_fsgl2_a(),
        VfQualifierPattern::Fsgl2B => template_fsgl2_b(),
        VfQualifierPattern::Fsgl3A => template_fsgl3_a(),
        VfQualifierPattern::Fsgl3B => template_fsgl3_b(),
        VfQualifierPattern::V8HighFps => template_v8_high_fps(),
        VfQualifierPattern::V8Texture => template_v8_texture(),
        VfQualifierPattern::V8Transitions => template_v8_transitions(),
        VfQualifierPattern::V8Memory => template_v8_memory(),
        VfQualifierPattern::Endurance => template_endurance(),
        VfQualifierPattern::TransitionShock => template_transition_shock(),
        VfQualifierPattern::DetectorLabDense => template_detector_lab_dense(),
    }
}


/// Every template weight lies in `1..=100` (so a template's total weight is positive and small).
pub open spec fn weights_in_range(s: Seq<(VfQualifierPhase, VfWorkload, u64)>) -> bool {
    forall|i: int| 0 <= i < s.len() ==> 1 <= #[trigger] s[i].2 <= 100
}

/// Sum of a template's weights.
pub open spec fn weight_sum(s: Seq<(VfQualifierPhase, VfWorkload, u64)>) -> nat
    decreases s.len(),
{
    if s.len() == 0 {
        0
    } else {
        weight_sum(s.drop_last()) + (s.last().2 as nat)
    }
}

/// The share of `target` that a segment of weight `weight` receives out of `total`: the
/// saturating product, divided down.
pub open spec fn weighted_share(target: u64, weight: u64, total: nat) -> int {
    let scaled: int = if target * weight > u64::MAX {
        u64::MAX as int
    } else {
        target * weight
    };
    scaled / (total as int)
}

/// Milliseconds handed to the first `k` segments of a template.
pub open spec fn shares_before(s: Seq<(VfQualifierPhase, VfWorkload, u64)>, target: u64, k: int) -> int
    decreases k,
{
    if k <= 0 {
        0
    } else {
        shares_before(s, target, k - 1) + weighted_share(target, s[k - 1].2, weight_sum(s))
    }
}

/// Duration of segment `i`: its weighted share, except the last segment, which takes whatever
/// of the target the earlier segments left.
pub open spec fn plan_duration(s: Seq<(VfQualifierPhase, VfWorkload, u64)>, target: u64, i: int) -> int {
    if i + 1 == s.len() {
        let before = shares_before(s, target, i);
        if target >= before {
            target - before
        } else {
            0
        }
    } else {
        weighted_share(target, s[i].2, weight_sum(s))
    }
}

/// The qualification plan of a pattern stretched over `target` milliseconds.
pub open spec fn qualifier_plan(p: VfQualifierPattern, target: u64) -> Seq<VfQualifierSegment> {
    let s = qualifier_template(p);
    Seq::new(
        s.len(),
        |i: int|
            VfQualifierSegment {
                phase: s[i].0,
                workload: s[i].1,
                duration_ms: plan_duration(s, target, i) as u64,
            },
    )
}

/// Total milliseconds of a sequence of segments.
pub open spec fn total_duration(plan: Seq<VfQualifierSegment>) -> int
    decreases plan.len(),
{
    if plan.len() == 0 {
        0
    } else {
        total_duration(plan.drop_last()) + plan.last().duration_ms
    }
}

/// One timed phase of a qualification dwell.
#[derive(Debug, Clone, Copy, PartialEq, Eq)]
pub struct VfQualifierSegment {
    pub phase: VfQualifierPhase,
    pub workload: VfWorkload,
    pub duration_ms: u64,
}

proof fn lemma_templates_well_formed(p: VfQualifierPattern)
    ensures
        weights_in_range(qualifier_template(p)),
        1 <= qualifier_template(p).len() <= 32,
{
    let s = qualifier_template(p);
    assert forall|i: int| 0 <= i < s.len() implies 1 <= #[trigger] s[i].2 <= 100 by {
        match p {
            VfQualifierPattern::Fsgl1 => {},
            VfQualifierPattern::Fsgl2A => {},
            VfQualifierPattern::Fsgl2B => {},
            VfQualifierPattern::Fsgl3A => {},
            VfQualifierPattern::Fsgl3B => {},
            VfQualifierPattern::V8HighFps => {},
            VfQualifierPattern::V8Texture => {},
            VfQualifierPattern::V8Transitions => {},
            VfQualifierPattern::V8Memory => {},
            VfQualifierPattern::Endurance => {},
            VfQualifierPattern::TransitionShock => {},
            VfQualifierPattern::DetectorLabDense => {},
        }
    }
}

proof fn lemma_weight_sum_take(s: Seq<(VfQualifierPhase, VfWorkload, u64)>, k: int)
    requires
        0 < k <= s.len(),
    ensures
        weight_sum(s.take(k)) == weight_sum(s.take(k - 1)) + s[k - 1].2,
{
    assert(s.take(k).drop_last() =~= s.take(k - 1));
}

proof fn lemma_weight_sum_prefix(s: Seq<(VfQualifierPhase, VfWorkload, u64)>, k: int)
    requires
        0 <= k <= s.len(),
    ensures
        weight_sum(s.take(k)) <= weight_sum(s),
    decreases s.len() - k,
{
    if k == s.len() {
        assert(s.take(k) =~= s);
    } else {
        lemma_weight_sum_prefix(s, k + 1);
        lemma_weight_sum_take(s, k + 1);
    }
}

proof fn lemma_weight_sum_at_least_len(s: Seq<(VfQualifierPhase, VfWorkload, u64)>)
    requires
        weights_in_range(s),
    ensures
        weight_sum(s) >= s.len(),
    decreases s.len(),
{
    if s.len() > 0 {
        assert(weights_in_range(s.drop_last())) by {
            assert forall|i: int| 0 <= i < s.drop_last().len() implies 1 <= #[trigger] s.drop_last()[i].2
                <= 100 by {
                assert(s.drop_last()[i] == s[i]);
            }
        }
        lemma_weight_sum_at_least_len(s.drop_last());
        assert(s[s.len() - 1].2 >= 1);
    }
}

/// The shares handed out before segment `k` never exceed what their weights entitle them to.
proof fn lemma_shares_bounded(s: Seq<(VfQualifierPhase, VfWorkload, u64)>, target: u64, k: int)
    requires
        0 <= k <= s.len(),
        weight_sum(s) > 0,
    ensures
        shares_before(s, target, k) * weight_sum(s) <= target * weight_sum(s.take(k)),
        0 <= shares_before(s, target, k) <= target,
    decreases k,
{
    let total = weight_sum(s) as int;
    lemma_shares_nonneg(s, target, k);
    if k == 0 {
        assert(s.take(0) =~= Seq::<(VfQualifierPhase, VfWorkload, u64)>::empty());
    } else {
        lemma_shares_bounded(s, target, k - 1);
        lemma_weight_sum_take(s, k);
        let w = s[k - 1].2 as int;
        let scaled: int = if target * w > u64::MAX {
            u64::MAX as int
        } else {
            target * w
        };
        let share = scaled / total;
        assert(share * total <= scaled && share >= 0) by (nonlinear_arith)
            requires
                total > 0,
                scaled >= 0,
                share == scaled / total,
        ;
        let prev = shares_before(s, target, k - 1);
        let wp = weight_sum(s.take(k - 1)) as int;
        assert((prev + share) * total <= target * (wp + w)) by (nonlinear_arith)
            requires
                prev * total <= target * wp,
                share * total <= scaled,
                scaled <= target * w,
        ;
    }
    lemma_weight_sum_prefix(s, k);
    let sb = shares_before(s, target, k);
    let wk = weight_sum(s.take(k)) as int;
    assert(sb <= target) by (nonlinear_arith)
        requires
            sb * total <= target * wk,
            wk <= total,
            total > 0,
            target >= 0,
    ;
}

proof fn lemma_shares_nonneg(s: Seq<(VfQualifierPhase, VfWorkload, u64)>, target: u64, k: int)
    requires
        weight_sum(s) > 0,
    ensures
        shares_before(s, target, k) >= 0,
    decreases k,
{
    if k > 0 {
        lemma_shares_nonneg(s, target, k - 1);
        let total = weight_sum(s) as int;
        let w = s[k - 1].2 as int;
        let scaled: int = if target * w > u64::MAX {
            u64::MAX as int
        } else {
            target * w
        };
        assert(scaled / total >= 0) by (nonlinear_arith)
            requires
                scaled >= 0,
                total > 0,
        ;
    }
}

/// The plan's segment durations add up to exactly the requested target, for every pattern and
/// every target: the last segment absorbs the rounding of the others.
pub proof fn lemma_plan_preserves_duration(p: VfQualifierPattern, target: u64)
    ensures
        total_duration(qualifier_plan(p, target)) == target,
        qualifier_plan(p, target).len() == qualifier_template(p).len(),
{
    let s = qualifier_template(p);
    let plan = qualifier_plan(p, target);
    let n = s.len() as int;
    lemma_templates_well_formed(p);
    lemma_weight_sum_at_least_len(s);
    assert forall|k: int| 0 <= k < n implies total_duration(#[trigger] plan.take(k)) == shares_before(
        s,
        target,
        k,
    ) by {
        lemma_prefix_durations(p, target, k);
    }
    lemma_shares_bounded(s, target, n - 1);
    assert(plan.take(n - 1) =~= plan.drop_last());
    assert(total_duration(plan.take(n - 1)) == shares_before(s, target, n - 1));
}

proof fn lemma_prefix_durations(p: VfQualifierPattern, target: u64, k: int)
    requires
        0 <= k < qualifier_template(p).len(),
    ensures
        total_duration(qualifier_plan(p, target).take(k)) == shares_before(qualifier_template(p), target, k),
    decreases k,
{
    let s = qualifier_template(p);
    let plan = qualifier_plan(p, target);
    lemma_templates_well_formed(p);
    lemma_weight_sum_at_least_len(s);
    if k == 0 {
        assert(plan.take(0) =~= Seq::<VfQualifierSegment>::empty());
    } else {
        lemma_prefix_durations(p, target, k - 1);
        assert(plan.take(k).drop_last() =~= plan.take(k - 1));
        let total = weight_sum(s) as int;
        let w = s[k - 1].2 as int;
        let scaled: int = if target * w > u64::MAX {
            u64::MAX as int
        } else {
            target * w
        };
        assert(0 <= scaled / total <= scaled) by (nonlinear_arith)
            requires
                scaled >= 0,
                total > 0,
        ;
    }
}

/// One cycle crosses distinct graphics/compute profiles and deliberate idle→heavy transitions;
/// the weights scale to the requested target duration.
pub fn vf_qualifier_plan(target_ms: u64, pattern: VfQualifierPattern) -> (r: Vec<VfQualifierSegment>)
    ensures
        r@ == qualifier_plan(pattern, target_ms),
{
    let t = template(pattern);
    let ghost s = qualifier_template(pattern);
    proof {
        lemma_templates_well_formed(pattern);
    }
    let n = t.len();
    let mut total: u64 = 0;
    let mut i: usize = 0;
    while i < n
        invariant
            t@ == s,
            n == s.len(),
            n <= 32,
            weights_in_range(s),
            i <= n,
            total == weight_sum(s.take(i as int)),
            total <= 100 * i,
        decreases n - i,
    {
        proof {
                        lemma_weight_sum_take(s, i as int + 1);
        }
        total = total + t[i].2;
        i = i + 1;
    }
    proof {
        assert(s.take(n as int) =~= s);
        lemma_weight_sum_at_least_len(s);
    }
    let mut assigned: u64 = 0;
    let mut out: Vec<VfQualifierSegment> = Vec::new();
    let mut i: usize = 0;
    while i < n
        invariant
            t@ == s,
            n == s.len(),
            1 <= n <= 32,
            total == weight_sum(s),
            total >= 1,
            i <= n,
            i < n ==> assigned == shares_before(s, target_ms, i as int),
            out@ == qualifier_plan(pattern, target_ms).take(i as int),
            s == qualifier_template(pattern),
        decreases n - i,
    {
        let (phase, workload, weight) = t[i];
        proof {
            lemma_shares_bounded(s, target_ms, i as int);
        }
        let duration_ms = if i + 1 == n {
            target_ms.saturating_sub(assigned)
        } else {
            let scaled = match target_ms.checked_mul(weight) {
                Some(v) => v,
                None => u64::MAX,
            };
            scaled / total
        };
        proof {
            if i + 1 < n {
                lemma_shares_bounded(s, target_ms, i as int + 1);
            }
        }
        assigned = assigned.saturating_add(duration_ms);
        out.push(VfQualifierSegment { phase, workload, duration_ms });
        proof {
            assert(out@ =~= qualifier_plan(pattern, target_ms).take(i as int + 1));
        }
        i = i + 1;
    }
    proof {
        assert(qualifier_plan(pattern, target_ms).take(n as int) =~= qualifier_plan(pattern, target_ms));
    }
    out
}

/// Whether some segment of `s` runs the phase with code `code`.
pub open spec fn phase_occurs(s: Seq<(VfQualifierPhase, VfWorkload, u64)>, code: int) -> bool {
    exists|i: int| 0 <= i < s.len() && phase_code(#[trigger] s[i].0) == code
}

/// Number of phase codes below `c` that occur in `s`.
pub open spec fn phases_present_below(s: Seq<(VfQualifierPhase, VfWorkload, u64)>, c: int) -> int
    decreases c,
{
    if c <= 0 {
        0
    } else {
        phases_present_below(s, c - 1) + if phase_occurs(s, c - 1) {
            1int
        } else {
            0int
        }
    }
}

/// Number of `true` entries among the first `c` flags.
spec fn flags_set_below(flags: Seq<bool>, c: int) -> int
    decreases c,
{
    if c <= 0 {
        0
    } else {
        flags_set_below(flags, c - 1) + if flags[c - 1] {
            1int
        } else {
            0int
        }
    }
}

proof fn lemma_flags_count(flags: Seq<bool>, s: Seq<(VfQualifierPhase, VfWorkload, u64)>, c: int)
    requires
        0 <= c <= flags.len(),
        forall|j: int| 0 <= j < flags.len() ==> #[trigger] flags[j] == phase_occurs(s, j),
    ensures
        flags_set_below(flags, c) == phases_present_below(s, c),
        0 <= flags_set_below(flags, c) <= c,
    decreases c,
{
    if c > 0 {
        lemma_flags_count(flags, s, c - 1);
    }
}

/// Distinct phases a pattern's plan exercises — the qualification-coverage denominator.
pub fn qualifier_expected_phases(pattern: VfQualifierPattern) -> (r: u32)
    ensures
        r == phases_present_below(qualifier_template(pattern), VfQualifierPhase::COUNT as int),
{
    let plan = vf_qualifier_plan(1_000, pattern);
    let ghost s = qualifier_template(pattern);
    let mut seen: Vec<bool> = Vec::new();
    let mut c: usize = 0;
    while c < VfQualifierPhase::COUNT
        invariant
            c <= VfQualifierPhase::COUNT,
            seen@.len() == c,
            forall|j: int| 0 <= j < c ==> !(#[trigger] seen@[j]),
        decreases VfQualifierPhase::COUNT - c,
    {
        seen.push(false);
        c = c + 1;
    }
    let mut i: usize = 0;
    while i < plan.len()
        invariant
            plan@ == qualifier_plan(pattern, 1_000),
            s == qualifier_template(pattern),
            plan@.len() == s.len(),
            i <= plan@.len(),
            seen@.len() == VfQualifierPhase::COUNT,
            forall|j: int|
                0 <= j < VfQualifierPhase::COUNT ==> #[trigger] seen@[j] == exists|k: int|
                    0 <= k < i && phase_code(#[trigger] s[k].0) == j,
        decreases plan.len() - i,
    {
        let code = plan[i].phase.code();
        seen.set(code as usize, true);
        proof {
            assert forall|j: int| 0 <= j < VfQualifierPhase::COUNT implies #[trigger] seen@[j] == exists|
                k: int,
            |
                0 <= k < i + 1 && phase_code(#[trigger] s[k].0) == j by {
                if j == code {
                    assert(phase_code(s[i as int].0) == j);
                } else {
                    if exists|k: int| 0 <= k < i + 1 && phase_code(#[trigger] s[k].0) == j {
                        let k = choose|k: int| 0 <= k < i + 1 && phase_code(#[trigger] s[k].0) == j;
                        assert(k != i);
                    }
                }
            }
        }
        i = i + 1;
    }
    proof {
        assert forall|j: int| 0 <= j < seen@.len() implies #[trigger] seen@[j] == phase_occurs(s, j) by {
            if phase_occurs(s, j) {
                let k = choose|k: int| 0 <= k < s.len() && phase_code(#[trigger] s[k].0) == j;
                assert(0 <= k < i && phase_code(s[k].0) == j);
            }
        }
    }
    let mut count: u32 = 0;
    let mut c: usize = 0;
    while c < seen.len()
        invariant
            seen@.len() == VfQualifierPhase::COUNT,
            c <= seen@.len(),
            count == flags_set_below(seen@, c as int),
            count <= c,
            forall|j: int| 0 <= j < seen@.len() ==> #[trigger] seen@[j] == phase_occurs(s, j),
            s == qualifier_template(pattern),
        decreases seen.len() - c,
    {
        if seen[c] {
            count = count + 1;
        }
        c = c + 1;
    }
    proof {
        lemma_flags_count(seen@, s, VfQualifierPhase::COUNT as int);
    }
    count
}

/// `x ↦ (a·x + c) mod 2³²`, the affine map `m = (a, c)` applied to `x`.
pub open spec fn affine_apply(m: (u32, u32), x: u32) -> u32 {
    ((m.0 as int * x as int + m.1 as int) % 0x1_0000_0000) as u32
}

/// One step of the ALU kernel's LCG.
pub open spec fn lcg_step(x: u32) -> u32 {
    affine_apply((C1, C2), x)
}

/// The LCG iterated `n` times from `x`.
pub open spec fn lcg_iter(x: u32, n: nat) -> u32
    decreases n,
{
    if n == 0 {
        x
    } else {
        lcg_step(lcg_iter(x, (n - 1) as nat))
    }
}

/// Running the LCG `a` steps and then `b` more is running it `a + b` steps.
pub proof fn lemma_lcg_iter_add(x: u32, a: nat, b: nat)
    ensures
        lcg_iter(lcg_iter(x, a), b) == lcg_iter(x, a + b),
    decreases b,
{
    if b > 0 {
        lemma_lcg_iter_add(x, a, (b - 1) as nat);
    }
}

proof fn lemma_wrapping_affine(a: u32, x: u32, c: u32)
    ensures
        vstd::wrapping::u32_specs::wrapping_add(vstd::wrapping::u32_specs::wrapping_mul(a, x), c)
            == affine_apply((a, c), x),
{
    let m: int = 0x1_0000_0000;
    let p = (a as int * x as int) % m;
    vstd::arithmetic::div_mod::lemma_add_mod_noop(a as int * x as int, c as int, m);
    vstd::arithmetic::div_mod::lemma_small_mod(c as nat, m as nat);
    vstd::arithmetic::div_mod::lemma_mod_bound(a as int * x as int, m);
    if p + c >= m {
        vstd::arithmetic::div_mod::lemma_mod_sub_multiples_vanish(p + c, m);
        vstd::arithmetic::div_mod::lemma_small_mod((p + c - m) as nat, m as nat);
    } else {
        vstd::arithmetic::div_mod::lemma_small_mod((p + c) as nat, m as nat);
    }
}

/// `g ∘ h` for affine maps mod 2³²: apply `h`, then `g`.
fn compose_affine(h: (u32, u32), g: (u32, u32)) -> (r: (u32, u32))
    ensures
        forall|x: u32| #[trigger] affine_apply(r, x) == affine_apply(g, affine_apply(h, x)),
{
    let r = (g.0.wrapping_mul(h.0), g.0.wrapping_mul(h.1).wrapping_add(g.1));
    proof {
        lemma_wrapping_affine(g.0, h.1, g.1);
        assert forall|x: u32| #[trigger] affine_apply(r, x) == affine_apply(g, affine_apply(h, x)) by {
            lemma_affine_compose(h, g, x);
        }
    }
    r
}

proof fn lemma_affine_compose(h: (u32, u32), g: (u32, u32), x: u32)
    ensures
        affine_apply(
            (((g.0 as int * h.0 as int) % 0x1_0000_0000) as u32, affine_apply((g.0, g.1), h.1)),
            x,
        ) == affine_apply(g, affine_apply(h, x)),
{
    let m: int = 0x1_0000_0000;
    let g0 = g.0 as int;
    let g1 = g.1 as int;
    let h0 = h.0 as int;
    let h1 = h.1 as int;
    let xi = x as int;
    let a = (g0 * h0) % m;
    let c = (g0 * h1 + g1) % m;
    vstd::arithmetic::div_mod::lemma_mod_bound(g0 * h0, m);
    vstd::arithmetic::div_mod::lemma_mod_bound(g0 * h1 + g1, m);
    let hx = (h0 * xi + h1) % m;
    vstd::arithmetic::div_mod::lemma_mod_bound(h0 * xi + h1, m);
    // left side: (a·x + c) mod m ≡ g0·h0·x + g0·h1 + g1
    vstd::arithmetic::div_mod::lemma_add_mod_noop(a * xi, c, m);
    vstd::arithmetic::div_mod::lemma_mul_mod_noop_left(g0 * h0, xi, m);
    vstd::arithmetic::div_mod::lemma_mod_mod(g0 * h1 + g1, m, 1);
    vstd::arithmetic::div_mod::lemma_add_mod_noop(g0 * h0 * xi, g0 * h1 + g1, m);
    // right side: (g0·hx + g1) mod m ≡ g0·(h0·x + h1) + g1
    vstd::arithmetic::div_mod::lemma_add_mod_noop(g0 * hx, g1, m);
    vstd::arithmetic::div_mod::lemma_mul_mod_noop_right(g0, h0 * xi + h1, m);
    vstd::arithmetic::div_mod::lemma_add_mod_noop(g0 * (h0 * xi + h1), g1, m);
    assert(g0 * (h0 * xi + h1) + g1 == g0 * h0 * xi + (g0 * h1 + g1)) by (nonlinear_arith);
    assert(((a * xi) % m + c % m) % m == (a * xi + c) % m);
    assert(c % m == c) by {
        vstd::arithmetic::div_mod::lemma_small_mod(c as nat, m as nat);
    }
    assert(g1 % m == g1) by {
        vstd::arithmetic::div_mod::lemma_small_mod(g1 as nat, m as nat);
    }
    assert((a * xi) % m == (g0 * h0 * xi) % m);
    assert(((g0 * h0 * xi) % m + (g0 * h1 + g1) % m) % m == (g0 * h0 * xi + (g0 * h1 + g1)) % m);
    assert((g0 * hx) % m == (g0 * (h0 * xi + h1)) % m);
    assert(((g0 * hx) % m + g1 % m) % m == (g0 * hx + g1) % m);
    assert(((g0 * (h0 * xi + h1)) % m + g1 % m) % m == (g0 * (h0 * xi + h1) + g1) % m);
}

/// The CPU reference of the ALU kernel: `iters` LCG steps from `seed`.
pub fn lcg(seed: u32, iters: u32) -> (r: u32)
    ensures
        r == lcg_iter(seed, iters as nat),
{
    let mut x = seed;
    let mut i: u32 = 0;
    while i < iters
        invariant
            i <= iters,
            x == lcg_iter(seed, i as nat),
        decreases iters - i,
    {
        proof {
            lemma_wrapping_affine(x, C1, C2);
            assert(affine_apply((x, C2), C1) == lcg_step(x)) by {
                assert(x as int * C1 as int == C1 as int * x as int) by (nonlinear_arith);
            }
        }
        x = x.wrapping_mul(C1).wrapping_add(C2);
        i = i + 1;
    }
    x
}

/// `(A, C)` with `A·x + C ≡ lcg_iter(x, n) (mod 2³²)` for every `x`, by fast exponentiation of
/// the step map, so any number of GPU rounds is checked in `O(log n)`.
pub fn lcg_pow(n: u64) -> (r: (u32, u32))
    ensures
        forall|x: u32| #[trigger] affine_apply(r, x) == lcg_iter(x, n as nat),
{
    let mut result: (u32, u32) = (1u32, 0u32);
    let mut base: (u32, u32) = (C1, C2);
    let mut e = n;
    let ghost mut done: nat = 0;
    let ghost mut step: nat = 1;
    proof {
        assert forall|x: u32| #[trigger] affine_apply(result, x) == lcg_iter(x, 0) by {
            assert(1int * x as int == x as int);
            vstd::arithmetic::div_mod::lemma_small_mod(x as nat, 0x1_0000_0000nat);
        }
        assert forall|x: u32| #[trigger] affine_apply(base, x) == lcg_iter(x, 1) by {
            assert(lcg_iter(x, 1) == lcg_step(lcg_iter(x, 0)));
        }
    }
    while e > 0
        invariant
            forall|x: u32| #[trigger] affine_apply(result, x) == lcg_iter(x, done),
            forall|x: u32| #[trigger] affine_apply(base, x) == lcg_iter(x, step),
            n == done + e * step,
        decreases e,
    {
        let odd = e & 1 == 1;
        assert((e & 1 == 1) == (e % 2 == 1)) by (bit_vector);
        if odd {
            let next = compose_affine(result, base);
            proof {
                assert forall|x: u32| #[trigger] affine_apply(next, x) == lcg_iter(x, done + step) by {
                    lemma_lcg_iter_add(x, done, step);
                }
                done = done + step;
            }
            result = next;
        }
        let doubled = compose_affine(base, base);
        proof {
            assert forall|x: u32| #[trigger] affine_apply(doubled, x) == lcg_iter(x, step + step) by {
                lemma_lcg_iter_add(x, step, step);
            }
        }
        base = doubled;
        let ghost e_old = e;
        assert(e >> 1 == e / 2) by (bit_vector);
        e = e >> 1;
        proof {
            let h = e as int;
            let st = step as int;
            if odd {
                assert(e_old * st == st + h * (st + st)) by (nonlinear_arith)
                    requires
                        e_old == 2 * h + 1,
                ;
            } else {
                assert(e_old * st == h * (st + st)) by (nonlinear_arith)
                    requires
                        e_old == 2 * h,
                ;
            }
            step = step + step;
        }
    }
    result
}

/// The LCG after `n` steps from `seed`, computed in `O(log n)`; agrees with [`lcg`].
pub fn lcg_jump(seed: u32, n: u64) -> (r: u32)
    ensures
        r == lcg_iter(seed, n as nat),
{
    let (a, c) = lcg_pow(n);
    proof {
        lemma_wrapping_affine(a, seed, c);
    }
    a.wrapping_mul(seed).wrapping_add(c)
}

/// How many positions of the shorter of the two buffers disagree.
pub open spec fn mismatch_count(output: Seq<u32>, expected: Seq<u32>, n: int) -> nat
    decreases n,
{
    if n <= 0 {
        0
    } else {
        mismatch_count(output, expected, n - 1) + if output[n - 1] != expected[n - 1] {
            1nat
        } else {
            0nat
        }
    }
}

/// The shorter length of two buffers.
pub open spec fn paired_len(output: Seq<u32>, expected: Seq<u32>) -> int {
    if output.len() < expected.len() {
        output.len() as int
    } else {
        expected.len() as int
    }
}

/// The gather kernels' lane hash multiplier.
pub const HASH1: u32 = 2654435761;

/// The multiplier the fill kernel writes every table slot with (`table[j] = j · TABLE_INIT`), and
/// the per-gather stride of the index hash.
pub const TABLE_INIT: u32 = 2246822519;

/// The table slot lane `i` reads on gather `k`: `(i·HASH1 + k·TABLE_INIT) mod 2³²`, reduced
/// modulo the table length.
pub open spec fn gather_index(i: u32, k: u32, table_len: u32) -> u32 {
    (vstd::wrapping::u32_specs::wrapping_add(
        vstd::wrapping::u32_specs::wrapping_mul(i, HASH1),
        vstd::wrapping::u32_specs::wrapping_mul(k, TABLE_INIT),
    ) % table_len) as u32
}

/// The known answer of lane `i` after `n` gathers: the wrapping sum, over `k < n`, of the table
/// value at the gathered slot, `gather_index(i, k) · TABLE_INIT`.
pub open spec fn gather_sum(i: u32, n: nat, table_len: u32) -> u32
    decreases n,
{
    if n == 0 {
        0
    } else {
        vstd::wrapping::u32_specs::wrapping_add(
            gather_sum(i, (n - 1) as nat, table_len),
            vstd::wrapping::u32_specs::wrapping_mul(gather_index(i, (n - 1) as u32, table_len), TABLE_INIT),
        )
    }
}

/// The CPU reference of the memory-gather stages: for each of `lanes` lanes, the wrapping sum of
/// `gathers` hashed reads from a table of `table_len` slots filled with `j · TABLE_INIT`.
pub fn gather_reference(lanes: u32, gathers: u32, table_len: u32) -> (r: Vec<u32>)
    requires
        table_len > 0,
    ensures
        r@.len() == lanes,
        forall|i: int| 0 <= i < lanes ==> r@[i] == gather_sum(i as u32, gathers as nat, table_len),
{
    let mut out: Vec<u32> = Vec::new();
    let mut i: u32 = 0;
    while i < lanes
        invariant
            i <= lanes,
            table_len > 0,
            out@.len() == i,
            forall|j: int| 0 <= j < i ==> out@[j] == gather_sum(j as u32, gathers as nat, table_len),
        decreases lanes - i,
    {
        let mut acc: u32 = 0;
        let mut kk: u32 = 0;
        while kk < gathers
            invariant
                kk <= gathers,
                table_len > 0,
                acc == gather_sum(i, kk as nat, table_len),
            decreases gathers - kk,
        {
            let idx = i.wrapping_mul(HASH1).wrapping_add(kk.wrapping_mul(TABLE_INIT)) % table_len;
            acc = acc.wrapping_add(idx.wrapping_mul(TABLE_INIT));
            kk = kk + 1;
        }
        out.push(acc);
        i = i + 1;
    }
    out
}

/// What the qualification run does after one segment of its plan.
#[derive(Debug, Clone, Copy, PartialEq, Eq)]
pub enum QualifierSegmentStep {
    /// Go on to the next segment, with the frames counted so far.
    Continue { frames: u64 },
    /// End the run: its result, the frames counted, the phase that failed (`None` when the run
    /// stands stable), and whether it ended early as inconclusive.
    Stop { result: StabilityResult, frames: u64, failure_phase: Option<VfQualifierPhase>, inconclusive: bool },
}

/// `a + b`, saturating at `u64::MAX`.
pub open spec fn sat_add_u64(a: u64, b: u64) -> u64 {
    if a + b > u64::MAX { u64::MAX } else { (a + b) as u64 }
}

/// The step of a qualification run after `segment` finished with `result`: its frames are added
/// to the count (saturating); a non-stable result stops the run with that result, blamed on the
/// phase the segment reported or else on the segment's own phase; a stable but inconclusive
/// segment stops the run as stable and inconclusive; otherwise the run goes on.
pub open spec fn segment_step(
    frames: u64,
    segment: VfQualifierSegment,
    result: StabilityResult,
    segment_frames: u64,
    failure_phase: Option<VfQualifierPhase>,
    inconclusive: bool,
) -> QualifierSegmentStep {
    let total = sat_add_u64(frames, segment_frames);
    if result != StabilityResult::Stable {
        QualifierSegmentStep::Stop {
            result,
            frames: total,
            failure_phase: Some(
                match failure_phase {
                    Some(p) => p,
                    None => segment.phase,
                },
            ),
            inconclusive: false,
        }
    } else if inconclusive {
        QualifierSegmentStep::Stop { result, frames: total, failure_phase: None, inconclusive: true }
    } else {
        QualifierSegmentStep::Continue { frames: total }
    }
}

/// Decide the qualification run's next move after one segment (see [`segment_step`]).
pub fn qualifier_segment_step(
    frames: u64,
    segment: VfQualifierSegment,
    result: StabilityResult,
    segment_frames: u64,
    failure_phase: Option<VfQualifierPhase>,
    inconclusive: bool,
) -> (r: QualifierSegmentStep)
    ensures
        r == segment_step(frames, segment, result, segment_frames, failure_phase, inconclusive),
{
    let total = frames.saturating_add(segment_frames);
    match result {
        StabilityResult::Stable => {
            if inconclusive {
                QualifierSegmentStep::Stop { result, frames: total, failure_phase: None, inconclusive: true }
            } else {
                QualifierSegmentStep::Continue { frames: total }
            }
        },
        _ => {
            let phase = match failure_phase {
                Some(p) => p,
                None => segment.phase,
            };
            QualifierSegmentStep::Stop { result, frames: total, failure_phase: Some(phase), inconclusive: false }
        },
    }
}

/// Compare a GPU readback with its known answer, position by position over the shorter of the
/// two: the number of disagreeing words.
pub fn count_mismatches(output: &[u32], expected: &[u32]) -> (r: u32)
    requires
        paired_len(output@, expected@) <= u32::MAX,
    ensures
        r == mismatch_count(output@, expected@, paired_len(output@, expected@)),
{
    let n = if output.len() < expected.len() {
        output.len()
    } else {
        expected.len()
    };
    let mut mismatches: u32 = 0;
    let mut i: usize = 0;
    while i < n
        invariant
            n == paired_len(output@, expected@),
            n <= u32::MAX,
            i <= n,
            mismatches == mismatch_count(output@, expected@, i as int),
            mismatches <= i,
        decreases n - i,
    {
        if output[i] != expected[i] {
            mismatches = mismatches + 1;
        }
        i = i + 1;
    }
    mismatches
}

/// The verdict of a stage checked against its expected output: a failed readback or a device
/// loss is a crash; otherwise any disagreeing word is a silent error.
pub fn stage_verdict(mismatches: u32, mapped_ok: bool, crashed: bool) -> (r: StabilityResult)
    ensures
        r == if !mapped_ok || crashed {
            StabilityResult::Crash
        } else if mismatches == 0 {
            StabilityResult::Stable
        } else {
            StabilityResult::SilentError
        },
{
    if !mapped_ok || crashed {
        StabilityResult::Crash
    } else if mismatches == 0 {
        StabilityResult::Stable
    } else {
        StabilityResult::SilentError
    }
}

/// One pointer-chase hop over a chain of `mask + 1` entries: `((CP·x + CQ) mod 2³²) & mask`.
pub open spec fn chase_step(x: u32, mask: u32) -> u32 {
    affine_apply((CHAIN_CP, CHAIN_CQ), x) & mask
}

/// `n` pointer-chase hops from `x`.
pub open spec fn chase_iter(x: u32, mask: u32, n: nat) -> u32
    decreases n,
{
    if n == 0 {
        x
    } else {
        chase_step(chase_iter(x, mask, (n - 1) as nat), mask)
    }
}

/// The mask keeps the low `k` bits for some `k ≤ 32`: the chain length is a power of two.
pub open spec fn is_low_mask(mask: u32) -> bool {
    exists|k: nat| k <= 32 && mask == vstd::bits::low_bits_mask(k)
}

/// Hopping `a` times and then `b` more is hopping `a + b` times.
pub proof fn lemma_chase_iter_add(x: u32, mask: u32, a: nat, b: nat)
    ensures
        chase_iter(chase_iter(x, mask, a), mask, b) == chase_iter(x, mask, a + b),
    decreases b,
{
    if b > 0 {
        lemma_chase_iter_add(x, mask, a, (b - 1) as nat);
    }
}

/// With a low-bits mask, masking is reduction modulo the chain length `2^k`.
proof fn lemma_low_mask_is_mod(v: u32, mask: u32, k: nat)
    requires
        k <= 32,
        mask == vstd::bits::low_bits_mask(k),
    ensures
        vstd::arithmetic::power2::pow2(k) > 0,
        (v & mask) as int == v as int % (vstd::arithmetic::power2::pow2(k) as int),
{
    vstd::arithmetic::power2::lemma_pow2_pos(k);
    if k < 32 {
        vstd::bits::lemma_u32_low_bits_mask_is_mod(v, k);
        vstd::arithmetic::power2::lemma_pow2_adds(k, (32 - k) as nat);
        vstd::arithmetic::power2::lemma2_to64();
        vstd::arithmetic::power2::lemma_pow2_pos((32 - k) as nat);
        assert(vstd::arithmetic::power2::pow2(k) < 0x1_0000_0000) by (nonlinear_arith)
            requires
                vstd::arithmetic::power2::pow2(k) * vstd::arithmetic::power2::pow2((32 - k) as nat)
                    == 0x1_0000_0000,
                vstd::arithmetic::power2::pow2((32 - k) as nat) >= 2,
        {
        }
    } else {
        vstd::bits::lemma_low_bits_mask_values();
        vstd::arithmetic::power2::lemma2_to64();
        assert(v & 0xffff_ffffu32 == v) by (bit_vector);
        vstd::arithmetic::div_mod::lemma_small_mod(v as nat, 0x1_0000_0000nat);
    }
}

/// Reducing modulo 2³² first does not change a residue modulo `2^k`, `k ≤ 32`.
proof fn lemma_wrap_then_low(y: int, k: nat)
    requires
        k <= 32,
    ensures
        vstd::arithmetic::power2::pow2(k) > 0,
        (y % 0x1_0000_0000) % (vstd::arithmetic::power2::pow2(k) as int) == y % (vstd::arithmetic::power2::pow2(
            k,
        ) as int),
{
    let m = vstd::arithmetic::power2::pow2(k) as int;
    let r = vstd::arithmetic::power2::pow2((32 - k) as nat) as int;
    vstd::arithmetic::power2::lemma_pow2_pos(k);
    vstd::arithmetic::power2::lemma_pow2_pos((32 - k) as nat);
    vstd::arithmetic::power2::lemma_pow2_adds(k, (32 - k) as nat);
    vstd::arithmetic::power2::lemma2_to64();
    assert(m * r == 0x1_0000_0000);
    vstd::arithmetic::div_mod::lemma_mod_mod(y, m, r);
}

/// The map `x ↦ (a·x + c) mod 2^k` agrees with `n` masked hops from `x`, modulo `2^k`.
pub open spec fn chase_represents(m: (u32, u32), mask: u32, k: nat, n: nat) -> bool {
    forall|x: u32|
        #![trigger chase_iter(x, mask, n)]
        (m.0 as int * x as int + m.1 as int) % (vstd::arithmetic::power2::pow2(k) as int) == chase_iter(
            x,
            mask,
            n,
        ) as int % (vstd::arithmetic::power2::pow2(k) as int)
}

proof fn lemma_affine_residue(a: int, b: int, c: int, m: int)
    requires
        m > 0,
    ensures
        ((a % m) * b + c % m) % m == (a * b + c) % m,
        (a * (b % m) + c) % m == (a * b + c) % m,
{
    vstd::arithmetic::div_mod::lemma_mul_mod_noop_left(a, b, m);
    vstd::arithmetic::div_mod::lemma_add_mod_noop((a % m) * b, c % m, m);
    vstd::arithmetic::div_mod::lemma_mod_twice(c, m);
    vstd::arithmetic::div_mod::lemma_add_mod_noop(a * b, c, m);
    vstd::arithmetic::div_mod::lemma_mul_mod_noop_right(a, b, m);
    vstd::arithmetic::div_mod::lemma_add_mod_noop(a * (b % m), c, m);
}

proof fn lemma_chase_compose(h: (u32, u32), g: (u32, u32), r: (u32, u32), mask: u32, k: nat, d1: nat, d2: nat)
    requires
        k <= 32,
        mask == vstd::bits::low_bits_mask(k),
        chase_represents(h, mask, k, d1),
        chase_represents(g, mask, k, d2),
        r.0 as int == ((g.0 as int * h.0 as int) % 0x1_0000_0000) % (vstd::arithmetic::power2::pow2(k) as int),
        r.1 as int == ((g.0 as int * h.1 as int + g.1 as int) % 0x1_0000_0000) % (vstd::arithmetic::power2::pow2(
            k,
        ) as int),
    ensures
        chase_represents(r, mask, k, d1 + d2),
{
    let m = vstd::arithmetic::power2::pow2(k) as int;
    let g0 = g.0 as int;
    let g1 = g.1 as int;
    let h0 = h.0 as int;
    let h1 = h.1 as int;
    lemma_wrap_then_low(g0 * h0, k);
    lemma_wrap_then_low(g0 * h1 + g1, k);
    assert forall|x: u32| #![trigger chase_iter(x, mask, d1 + d2)]
        (r.0 as int * x as int + r.1 as int) % m == chase_iter(x, mask, d1 + d2) as int % m by {
        let xi = x as int;
        let y = chase_iter(x, mask, d1);
        assert((h0 * xi + h1) % m == y as int % m);
        assert((g0 * y as int + g1) % m == chase_iter(y, mask, d2) as int % m);
        lemma_chase_iter_add(x, mask, d1, d2);
        // (r0·x + r1) ≡ g0·h0·x + g0·h1 + g1
        lemma_affine_residue(g0 * h0, xi, g0 * h1 + g1, m);
        assert(g0 * h0 * xi + (g0 * h1 + g1) == g0 * (h0 * xi + h1) + g1) by (nonlinear_arith);
        // ≡ g0·((h0·x + h1) mod m) + g1 ≡ g0·(y mod m) + g1 ≡ g0·y + g1
        lemma_affine_residue(g0, h0 * xi + h1, g1, m);
        lemma_affine_residue(g0, y as int, g1, m);
    }
}

/// `(A, C)` with `(A·x + C) & mask` equal to `steps` masked pointer-chase hops from `x` (for a
/// low-bits mask, a power-of-two chain), by fast exponentiation of the hop map, so any number
/// of hops is checked in `O(log n)`.
pub fn affine_pow_mod(n: u64, mask: u32) -> (r: (u32, u32))
    ensures
        is_low_mask(mask) ==> forall|x: u32|
            #![trigger chase_iter(x, mask, n as nat)]
            (affine_apply(r, x) & mask) == chase_iter(x, mask, n as nat) & mask,
{
    let mut result: (u32, u32) = (1u32 & mask, 0u32);
    let mut base: (u32, u32) = (CHAIN_CP & mask, CHAIN_CQ & mask);
    let mut e = n;
    let ghost mut done: nat = 0;
    let ghost mut step: nat = 1;
    let ghost low = is_low_mask(mask);
    let ghost k: nat = if low {
        choose|k: nat| k <= 32 && mask == vstd::bits::low_bits_mask(k)
    } else {
        0
    };
    proof {
        if low {
            let m = vstd::arithmetic::power2::pow2(k) as int;
            lemma_low_mask_is_mod(1u32, mask, k);
            lemma_low_mask_is_mod(0u32, mask, k);
            lemma_low_mask_is_mod(CHAIN_CP, mask, k);
            lemma_low_mask_is_mod(CHAIN_CQ, mask, k);
            assert(0u32 & mask == 0u32) by (bit_vector);
            assert forall|x: u32| #![trigger chase_iter(x, mask, 0)]
                (result.0 as int * x as int + result.1 as int) % m == chase_iter(x, mask, 0) as int % m by {
                lemma_affine_residue(1, x as int, 0, m);
            }
            assert forall|x: u32| #![trigger chase_iter(x, mask, 1)]
                (base.0 as int * x as int + base.1 as int) % m == chase_iter(x, mask, 1) as int % m by {
                let xi = x as int;
                let s = affine_apply((CHAIN_CP, CHAIN_CQ), x);
                assert(chase_iter(x, mask, 1) == chase_step(chase_iter(x, mask, 0), mask));
                lemma_low_mask_is_mod(s, mask, k);
                lemma_wrap_then_low(CHAIN_CP as int * xi + CHAIN_CQ as int, k);
                lemma_affine_residue(CHAIN_CP as int, xi, CHAIN_CQ as int, m);
                vstd::arithmetic::div_mod::lemma_mod_twice(CHAIN_CP as int * xi + CHAIN_CQ as int, m);
            }
        }
    }
    while e > 0
        invariant
            low == is_low_mask(mask),
            low ==> k <= 32 && mask == vstd::bits::low_bits_mask(k),
            low ==> chase_represents(result, mask, k, done),
            low ==> chase_represents(base, mask, k, step),
            n == done + e * step,
        decreases e,
    {
        let odd = e & 1 == 1;
        assert((e & 1 == 1) == (e % 2 == 1)) by (bit_vector);
        if odd {
            let a = base.0.wrapping_mul(result.0);
            let c = base.0.wrapping_mul(result.1).wrapping_add(base.1);
            let next = (a & mask, c & mask);
            proof {
                if low {
                    lemma_wrapping_affine(base.0, result.1, base.1);
                    lemma_low_mask_is_mod(a, mask, k);
                    lemma_low_mask_is_mod(c, mask, k);
                    lemma_chase_compose(result, base, next, mask, k, done, step);
                }
                done = done + step;
            }
            result = next;
        }
        let a = base.0.wrapping_mul(base.0);
        let c = base.0.wrapping_mul(base.1).wrapping_add(base.1);
        let doubled = (a & mask, c & mask);
        proof {
            if low {
                lemma_wrapping_affine(base.0, base.1, base.1);
                lemma_low_mask_is_mod(a, mask, k);
                lemma_low_mask_is_mod(c, mask, k);
                lemma_chase_compose(base, base, doubled, mask, k, step, step);
            }
        }
        base = doubled;
        let ghost e_old = e;
        assert(e >> 1 == e / 2) by (bit_vector);
        e = e >> 1;
        proof {
            let h = e as int;
            let st = step as int;
            if odd {
                assert(e_old * st == st + h * (st + st)) by (nonlinear_arith)
                    requires
                        e_old == 2 * h + 1,
                ;
            } else {
                assert(e_old * st == h * (st + st)) by (nonlinear_arith)
                    requires
                        e_old == 2 * h,
                ;
            }
            step = step + step;
        }
    }
    proof {
        if low {
            let m = vstd::arithmetic::power2::pow2(k) as int;
            assert forall|x: u32| #![trigger chase_iter(x, mask, n as nat)]
                (affine_apply(result, x) & mask) == chase_iter(x, mask, n as nat) & mask by {
                let v = affine_apply(result, x);
                lemma_low_mask_is_mod(v, mask, k);
                lemma_low_mask_is_mod(chase_iter(x, mask, n as nat), mask, k);
                lemma_wrap_then_low(result.0 as int * x as int + result.1 as int, k);
                assert((result.0 as int * x as int + result.1 as int) % m == chase_iter(x, mask, done) as int % m);
            }
        }
    }
    result
}

/// One FNV-style mixing step of the framebuffer reduction: fold value `v` at index `i` into `h`.
pub open spec fn fnv_mix(h: u32, v: u32, i: int) -> u32 {
    let salt = (((i as u32) as int * 2654435761) % 0x1_0000_0000) as u32;
    ((((h ^ (v ^ salt)) as int) * 16777619) % 0x1_0000_0000) as u32
}

/// The hash of one reduction lane: the elements at `i, i + lanes, i + 2·lanes, …`, folded into
/// `h`.
pub open spec fn lane_hash(buf: Seq<u32>, lanes: nat, i: int, h: u32) -> u32
    decreases (if 0 <= i < buf.len() {
        buf.len() - i
    } else {
        0
    }),
{
    if lanes == 0 || i < 0 || i >= buf.len() {
        h
    } else {
        lane_hash(buf, lanes, i + lanes, fnv_mix(h, buf[i], i))
    }
}

/// The FNV offset basis every lane starts from.
pub open spec fn fnv_basis() -> u32 {
    2166136261
}

/// The wrapping sum of the first `k` lane hashes.
pub open spec fn reduce3_checksum(buf: Seq<u32>, lanes: nat, k: nat) -> u32
    decreases k,
{
    if k == 0 {
        0
    } else {
        ((reduce3_checksum(buf, lanes, (k - 1) as nat) as int + lane_hash(
            buf,
            lanes,
            (k - 1) as int,
            fnv_basis(),
        ) as int) % 0x1_0000_0000) as u32
    }
}

/// CPU reference of the GPU reduce3 framebuffer checksum: each of `lanes` lanes hashes its
/// strided elements, and the lane hashes are summed with wrap-around.
pub fn reduce3_checksum_cpu(buf: &[u32], lanes: u32) -> (r: u32)
    requires
        buf@.len() + lanes <= usize::MAX,
    ensures
        r == reduce3_checksum(buf@, lanes as nat, lanes as nat),
{
    let mut total = 0u32;
    let mut lane: u32 = 0;
    while lane < lanes
        invariant
            lane <= lanes,
            buf@.len() + lanes <= usize::MAX,
            total == reduce3_checksum(buf@, lanes as nat, lane as nat),
        decreases lanes - lane,
    {
        let mut i = lane as usize;
        let mut h = 2166136261u32;
        while i < buf.len()
            invariant
                lane < lanes,
                buf@.len() + lanes <= usize::MAX,
                lane_hash(buf@, lanes as nat, lane as int, fnv_basis()) == lane_hash(
                    buf@,
                    lanes as nat,
                    i as int,
                    h,
                ),
            decreases (if i < buf.len() {
                buf.len() - i
            } else {
                0
            }),
        {
            let salt = (i as u32).wrapping_mul(2654435761);
            h = (h ^ (buf[i] ^ salt)).wrapping_mul(16777619);
            i = i + lanes as usize;
        }
        let ghost prev = total;
        total = total.wrapping_add(h);
        proof {
            let m: int = 0x1_0000_0000;
            if prev as int + h as int >= m {
                vstd::arithmetic::div_mod::lemma_mod_sub_multiples_vanish(prev as int + h as int, m);
                vstd::arithmetic::div_mod::lemma_small_mod((prev as int + h as int - m) as nat, m as nat);
            } else {
                vstd::arithmetic::div_mod::lemma_small_mod((prev as int + h as int) as nat, m as nat);
            }
        }
        lane = lane + 1;
    }
    total
}

/// The float-free part of a render run: its verdict, frame count, failing phase, an
/// environment-level inconclusive reason, and the per-phase reports.
#[derive(Debug, Clone, PartialEq, Eq)]
pub struct RenderOutcome {
    pub result: StabilityResult,
    pub frames: u64,
    /// Present only when the transient VF qualifier failed inside a named phase.
    pub failure_phase: Option<VfQualifierPhase>,
    /// Present when the recipe could not produce candidate-attributable evidence: callers
    /// classify it as environment-level inconclusive, never as VF instability.
    pub inconclusive_reason: Option<String>,
    pub phase_reports: Vec<VfPhaseReport>,
}

/// What the persistent secondary device's live canary reported.
#[derive(Debug, Clone, PartialEq, Eq)]
pub struct FieldCanaryReport {
    pub result: StabilityResult,
    pub cycles: u32,
    pub frames: u64,
    pub checksum_count: u32,
    pub inconclusive_reason: Option<String>,
}

/// The reason recorded when the secondary canary produced too little coverage.
pub open spec fn missing_coverage_reason() -> Seq<char> {
    "field_secondary_coverage_missing"@
}

/// The secondary canary could not vouch for the phase: it reported an environment problem, ran
/// no cycle, or checked fewer than two outputs.
pub open spec fn canary_inconclusive(s: FieldCanaryReport) -> bool {
    s.inconclusive_reason is Some || s.cycles == 0 || s.checksum_count < 2
}

/// Merge the secondary canary into the primary Field Concurrency run. A stable primary with an
/// inconclusive canary becomes inconclusive (never unstable) and keeps no phase report, so the
/// primary queue alone cannot complete the phase. Otherwise the stronger failure wins, frames and
/// checksum counts add up (saturating), and a failing merge is attributed to `phase`.
pub fn merge_field_canary(primary: &mut RenderOutcome, secondary: FieldCanaryReport, phase: VfQualifierPhase)
    ensures
        (old(primary).result == StabilityResult::Stable && canary_inconclusive(secondary)) ==> {
            &&& final(primary).result == StabilityResult::Stable
            &&& final(primary).frames == old(primary).frames
            &&& final(primary).failure_phase is None
            &&& final(primary).phase_reports@.len() == 0
            &&& match secondary.inconclusive_reason {
                Some(reason) => final(primary).inconclusive_reason == Some(reason),
                None => final(primary).inconclusive_reason matches Some(r) && r@
                    == missing_coverage_reason(),
            }
        },
        !(old(primary).result == StabilityResult::Stable && canary_inconclusive(secondary)) ==> {
            let merged = if severity(secondary.result) > severity(old(primary).result) {
                secondary.result
            } else {
                old(primary).result
            };
            &&& final(primary).result == merged
            &&& final(primary).frames == (if old(primary).frames + secondary.frames > u64::MAX {
                u64::MAX as int
            } else {
                old(primary).frames + secondary.frames
            })
            &&& final(primary).inconclusive_reason == old(primary).inconclusive_reason
            &&& final(primary).failure_phase == (if merged != StabilityResult::Stable {
                Some(phase)
            } else {
                old(primary).failure_phase
            })
            &&& final(primary).phase_reports@.len() == old(primary).phase_reports@.len()
            &&& old(primary).phase_reports@.len() > 0 ==> {
                let first = old(primary).phase_reports@[0];
                &&& final(primary).phase_reports@[0] == (VfPhaseReport {
                    result: merged,
                    checksum_count: (if first.checksum_count + secondary.checksum_count > u32::MAX {
                        u32::MAX as int
                    } else {
                        first.checksum_count + secondary.checksum_count
                    }) as u32,
                    ..first
                })
                &&& final(primary).phase_reports@.skip(1) == old(primary).phase_reports@.skip(1)
            }
        },
{
    if matches!(primary.result, StabilityResult::Stable) {
        let missing_secondary = secondary.cycles == 0 || secondary.checksum_count < 2;
        if secondary.inconclusive_reason.is_some() || missing_secondary {
            primary.inconclusive_reason = match secondary.inconclusive_reason {
                Some(reason) => Some(reason),
                None => Some(String::from_str("field_secondary_coverage_missing")),
            };
            primary.phase_reports = Vec::new();
            primary.failure_phase = None;
            return;
        }
    }
    primary.result = stronger_stability_failure(primary.result, secondary.result);
    primary.frames = primary.frames.saturating_add(secondary.frames);
    if primary.phase_reports.len() > 0 {
        let first = primary.phase_reports[0];
        let updated = VfPhaseReport {
            result: primary.result,
            checksum_count: first.checksum_count.saturating_add(secondary.checksum_count),
            ..first
        };
        let ghost before = primary.phase_reports@;
        primary.phase_reports.set(0, updated);
        proof {
            assert(primary.phase_reports@.skip(1) =~= before.skip(1));
        }
    }
    if !matches!(primary.result, StabilityResult::Stable) {
        primary.failure_phase = Some(phase);
    }
}
} // verus!
