//! The durable condemnation ledger's refusal logic: the append-only memory of real failures.
//!
//! Severity model:
//! - **Rigid** — a real-world hard failure. The exact pair and everything at-or-below it at the
//!   same clock is refused (`anchor <= floor`). Manual rehabilitation only.
//! - **Quarantine** — a synthetic gate failure at the exact Apply pair. Everything strictly below
//!   it is refused (`anchor < floor`); the pair itself stays re-attemptable, but publishing it
//!   needs two passes unless the current qualification contract is strictly stronger.
//!
//! A later `rehabilitated` entry cancels every earlier entry at the same exact pair.
use vstd::prelude::*;

verus! {

/// JSONL file name under the data dir. Never part of any reset/cleanup path.
pub const CONDEMNATION_LEDGER_FILE: &'static str = "condemnation_ledger.jsonl";

pub const KIND_FIELD_TDR: &'static str = "field-tdr";
pub const KIND_CANDIDATE_CRASH: &'static str = "candidate-crash";
pub const KIND_DEVICE_LOST: &'static str = "device-lost";
pub const KIND_APPLY_GATE_SILENT: &'static str = "apply-gate-silent-error";
pub const KIND_REHABILITATED: &'static str = "rehabilitated";

#[derive(Debug, Clone, Copy, PartialEq, Eq)]
pub enum CondemnationSeverity {
    Rigid,
    Quarantine,
}

/// One append-only ledger line.
#[derive(Debug, PartialEq)]
pub struct CondemnationEvent {
    pub timestamp: String,
    /// Exact physical GPU. `None` is treated conservatively: it matches every GPU.
    pub gpu_key: Option<String>,
    pub severity: CondemnationSeverity,
    /// What condemned the pair (`KIND_*`).
    pub kind: String,
    pub target_mhz: u32,
    pub vf_bin_mv: u32,
    pub run_id: Option<String>,
    /// Qualification contract in force when the failure happened.
    pub qualification_contract_version: Option<u32>,
    pub note: Option<String>,
    pub rehabilitated: bool,
}

fn clone_opt_string(o: &Option<String>) -> (r: Option<String>)
    ensures
        r == *o,
{
    match o {
        Some(s) => Some(s.clone()),
        None => None,
    }
}

impl Clone for CondemnationEvent {
    fn clone(&self) -> (r: Self)
        ensures
            r == *self,
    {
        CondemnationEvent {
            timestamp: self.timestamp.clone(),
            gpu_key: clone_opt_string(&self.gpu_key),
            severity: self.severity,
            kind: self.kind.clone(),
            target_mhz: self.target_mhz,
            vf_bin_mv: self.vf_bin_mv,
            run_id: clone_opt_string(&self.run_id),
            qualification_contract_version: self.qualification_contract_version,
            note: clone_opt_string(&self.note),
            rehabilitated: self.rehabilitated,
        }
    }
}

/// The text of an optional string.
pub open spec fn opt_text(o: Option<String>) -> Option<Seq<char>> {
    match o {
        Some(s) => Some(s@),
        None => None,
    }
}

/// The event applies to the GPU `key` (an event without a key applies to every GPU).
pub open spec fn applies_to(e: CondemnationEvent, key: Seq<char>) -> bool {
    match e.gpu_key {
        Some(k) => k@ == key,
        None => true,
    }
}

/// The event is visible in the view scoped to `run` (`None` = the production, unscoped view).
pub open spec fn in_scope(e: CondemnationEvent, run: Option<Seq<char>>) -> bool {
    match run {
        None => true,
        Some(r) => opt_text(e.run_id) == Some(r),
    }
}

/// Event `i` is cancelled by a later in-scope rehabilitation at the same pair that applies to `key`.
pub open spec fn cancelled(events: Seq<CondemnationEvent>, key: Seq<char>, run: Option<Seq<char>>, i: int) -> bool {
    exists|j: int|
        i < j < events.len() && in_scope(events[j], run) && events[j].rehabilitated
            && events[j].target_mhz == events[i].target_mhz && events[j].vf_bin_mv
            == events[i].vf_bin_mv && applies_to(#[trigger] events[j], key)
}

/// Event `i` is an effective (non-rehabilitated, non-cancelled) condemnation for `key`.
pub open spec fn effective_for(events: Seq<CondemnationEvent>, key: Seq<char>, run: Option<Seq<char>>, i: int) -> bool {
    &&& in_scope(events[i], run)
    &&& applies_to(events[i], key)
    &&& !events[i].rehabilitated
    &&& !cancelled(events, key, run, i)
}

/// The `(clock, mv)` pairs of the effective events of severity `sev` among the first `n` events,
/// in append order.
pub open spec fn effective_pairs(
    events: Seq<CondemnationEvent>,
    key: Seq<char>,
    run: Option<Seq<char>>,
    sev: CondemnationSeverity,
    n: int,
) -> Seq<(u32, u32)>
    decreases n,
{
    if n <= 0 {
        Seq::empty()
    } else {
        let prev = effective_pairs(events, key, run, sev, n - 1);
        let e = events[n - 1];
        if effective_for(events, key, run, n - 1) && e.severity == sev {
            prev.push((e.target_mhz, e.vf_bin_mv))
        } else {
            prev
        }
    }
}

/// The `(clock, mv, contract)` triples of the effective quarantine events among the first `n`.
pub open spec fn effective_quarantine_contracts(
    events: Seq<CondemnationEvent>,
    key: Seq<char>,
    run: Option<Seq<char>>,
    n: int,
) -> Seq<(u32, u32, Option<u32>)>
    decreases n,
{
    if n <= 0 {
        Seq::empty()
    } else {
        let prev = effective_quarantine_contracts(events, key, run, n - 1);
        let e = events[n - 1];
        if effective_for(events, key, run, n - 1) && e.severity == CondemnationSeverity::Quarantine {
            prev.push((e.target_mhz, e.vf_bin_mv, e.qualification_contract_version))
        } else {
            prev
        }
    }
}

/// The effective (non-rehabilitated) condemned pairs, split by severity, for refusal math.
#[derive(Debug, Clone, PartialEq, Eq)]
pub struct CondemnedPairs {
    /// Refuse `anchor <= floor` over these (clock, mv) pairs.
    pub rigid: Vec<(u32, u32)>,
    /// Refuse `anchor < floor` over these — the exact pair stays re-attemptable under re-proof.
    pub quarantine: Vec<(u32, u32)>,
    /// Condemning contract version per quarantined exact pair (for the re-proof rule).
    pub quarantine_contracts: Vec<(u32, u32, Option<u32>)>,
}

impl CondemnedPairs {
    /// The contract versions recorded with the quarantined pairs.
    pub open spec fn contracts(&self) -> Seq<(u32, u32, Option<u32>)> {
        self.quarantine_contracts@
    }

    /// The rigid pairs.
    pub open spec fn rigid_view(&self) -> Seq<(u32, u32)> {
        self.rigid@
    }

    /// The quarantined pairs.
    pub open spec fn quarantine_view(&self) -> Seq<(u32, u32)> {
        self.quarantine@
    }

    /// No condemned pairs at all.
    pub fn new() -> (r: Self)
        ensures
            r.rigid_view().len() == 0,
            r.quarantine_view().len() == 0,
            r.contracts().len() == 0,
    {
        CondemnedPairs { rigid: Vec::new(), quarantine: Vec::new(), quarantine_contracts: Vec::new() }
    }
}

impl Default for CondemnedPairs {
    fn default() -> (r: Self)
        ensures
            r.rigid_view().len() == 0,
            r.quarantine_view().len() == 0,
            r.contracts().len() == 0,
    {
        CondemnedPairs::new()
    }
}

fn opt_string_matches(o: &Option<String>, key: &String) -> (r: bool)
    ensures
        r == (opt_text(*o) == Some(key@)),
{
    match o {
        Some(k) => *k == *key,
        None => false,
    }
}

fn event_applies(e: &CondemnationEvent, key: &String) -> (r: bool)
    ensures
        r == applies_to(*e, key@),
{
    match &e.gpu_key {
        Some(k) => *k == *key,
        None => true,
    }
}

fn event_in_scope(e: &CondemnationEvent, run: &Option<String>) -> (r: bool)
    ensures
        r == in_scope(*e, opt_text(*run)),
{
    match run {
        None => true,
        Some(r) => opt_string_matches(&e.run_id, r),
    }
}

fn is_cancelled(events: &[CondemnationEvent], key: &String, run: &Option<String>, i: usize) -> (r: bool)
    requires
        i < events@.len(),
    ensures
        r == cancelled(events@, key@, opt_text(*run), i as int),
{
    let n = events.len();
    let mut j: usize = i + 1;
    while j < n
        invariant
            i < j <= events@.len(),
            n == events@.len(),
            forall|m: int|
                i < m < j ==> !(in_scope(events@[m], opt_text(*run)) && events@[m].rehabilitated
                    && events@[m].target_mhz == events@[i as int].target_mhz && events@[m].vf_bin_mv
                    == events@[i as int].vf_bin_mv && applies_to(#[trigger] events@[m], key@)),
        decreases n - j,
    {
        let r = &events[j];
        if event_in_scope(r, run) && r.rehabilitated && r.target_mhz == events[i].target_mhz
            && r.vf_bin_mv == events[i].vf_bin_mv && event_applies(r, key) {
            return true;
        }
        j = j + 1;
    }
    false
}

fn scoped_pairs(events: &[CondemnationEvent], gpu_key: &str, run: &Option<String>) -> (out: CondemnedPairs)
    ensures
        out.rigid_view() == effective_pairs(
            events@,
            gpu_key@,
            opt_text(*run),
            CondemnationSeverity::Rigid,
            events@.len() as int,
        ),
        out.quarantine_view() == effective_pairs(
            events@,
            gpu_key@,
            opt_text(*run),
            CondemnationSeverity::Quarantine,
            events@.len() as int,
        ),
        out.contracts() == effective_quarantine_contracts(
            events@,
            gpu_key@,
            opt_text(*run),
            events@.len() as int,
        ),
{
    let key = String::from_str(gpu_key);
    let ghost run_v = opt_text(*run);
    let mut out = CondemnedPairs::new();
    let mut i: usize = 0;
    while i < events.len()
        invariant
            0 <= i <= events@.len(),
            key@ == gpu_key@,
            run_v == opt_text(*run),
            out.rigid_view() == effective_pairs(events@, key@, run_v, CondemnationSeverity::Rigid, i as int),
            out.quarantine_view() == effective_pairs(
                events@,
                key@,
                run_v,
                CondemnationSeverity::Quarantine,
                i as int,
            ),
            out.quarantine_contracts@ == effective_quarantine_contracts(events@, key@, run_v, i as int),
        decreases events@.len() - i,
    {
        let e = &events[i];
        let effective = event_in_scope(e, run) && event_applies(e, &key) && !e.rehabilitated
            && !is_cancelled(events, &key, run, i);
        if effective {
            match e.severity {
                CondemnationSeverity::Rigid => {
                    out.rigid.push((e.target_mhz, e.vf_bin_mv));
                },
                CondemnationSeverity::Quarantine => {
                    out.quarantine.push((e.target_mhz, e.vf_bin_mv));
                    out.quarantine_contracts.push(
                        (e.target_mhz, e.vf_bin_mv, e.qualification_contract_version),
                    );
                },
            }
        }
        i = i + 1;
    }
    out
}

/// Events that apply to `gpu_key` (entries without a key match conservatively), with later
/// `rehabilitated` entries cancelling every prior entry at the same exact pair; the effective
/// pairs split by severity, in append order.
pub fn condemned_pairs(events: &[CondemnationEvent], gpu_key: &str) -> (out: CondemnedPairs)
    ensures
        out.rigid_view() == effective_pairs(
            events@,
            gpu_key@,
            None,
            CondemnationSeverity::Rigid,
            events@.len() as int,
        ),
        out.quarantine_view() == effective_pairs(
            events@,
            gpu_key@,
            None,
            CondemnationSeverity::Quarantine,
            events@.len() as int,
        ),
        out.contracts() == effective_quarantine_contracts(events@, gpu_key@, None, events@.len() as int),
{
    scoped_pairs(events, gpu_key, &None)
}

/// The clean-run view: only condemnations whose `run_id` is `run_id` are considered (both as
/// condemnations and as rehabilitations).
pub fn condemned_pairs_for_run(events: &[CondemnationEvent], gpu_key: &str, run_id: &str) -> (out: CondemnedPairs)
    ensures
        out.rigid_view() == effective_pairs(
            events@,
            gpu_key@,
            Some(run_id@),
            CondemnationSeverity::Rigid,
            events@.len() as int,
        ),
        out.quarantine_view() == effective_pairs(
            events@,
            gpu_key@,
            Some(run_id@),
            CondemnationSeverity::Quarantine,
            events@.len() as int,
        ),
        out.contracts() == effective_quarantine_contracts(
            events@,
            gpu_key@,
            Some(run_id@),
            events@.len() as int,
        ),
{
    let run = Some(String::from_str(run_id));
    scoped_pairs(events, gpu_key, &run)
}

/// Event `i` is cancelled by a later rehabilitation of the same GPU (exactly the same key) and
/// pair — the audit view's rule.
pub open spec fn audit_cancelled(events: Seq<CondemnationEvent>, i: int) -> bool {
    exists|j: int|
        i < j < events.len() && events[j].rehabilitated && events[j].target_mhz
            == events[i].target_mhz && events[j].vf_bin_mv == events[i].vf_bin_mv && opt_text(
            #[trigger] events[j].gpu_key,
        ) == opt_text(events[i].gpu_key)
}

/// The audit view of the first `n` events: non-rehabilitation entries not cancelled later.
pub open spec fn audit_events(events: Seq<CondemnationEvent>, n: int) -> Seq<CondemnationEvent>
    decreases n,
{
    if n <= 0 {
        Seq::empty()
    } else {
        let prev = audit_events(events, n - 1);
        if !events[n - 1].rehabilitated && !audit_cancelled(events, n - 1) {
            prev.push(events[n - 1])
        } else {
            prev
        }
    }
}

fn opt_string_eq(a: &Option<String>, b: &Option<String>) -> (r: bool)
    ensures
        r == (opt_text(*a) == opt_text(*b)),
{
    match (a, b) {
        (Some(x), Some(y)) => *x == *y,
        (None, None) => true,
        _ => false,
    }
}

fn is_audit_cancelled(events: &[CondemnationEvent], i: usize) -> (r: bool)
    requires
        i < events@.len(),
    ensures
        r == audit_cancelled(events@, i as int),
{
    let n = events.len();
    let mut j: usize = i + 1;
    while j < n
        invariant
            i < j <= events@.len(),
            n == events@.len(),
            forall|m: int|
                i < m < j ==> !(events@[m].rehabilitated && events@[m].target_mhz
                    == events@[i as int].target_mhz && events@[m].vf_bin_mv
                    == events@[i as int].vf_bin_mv && opt_text(#[trigger] events@[m].gpu_key)
                    == opt_text(events@[i as int].gpu_key)),
        decreases n - j,
    {
        let later = &events[j];
        if later.rehabilitated && later.target_mhz == events[i].target_mhz && later.vf_bin_mv
            == events[i].vf_bin_mv && opt_string_eq(&later.gpu_key, &events[i].gpu_key) {
            return true;
        }
        j = j + 1;
    }
    false
}

/// Effective ledger events for read-only audit surfaces: rehabilitation entries are never
/// exposed, and a later rehabilitation cancels every earlier event at the same exact GPU/pair.
/// Append order is kept.
pub fn effective_condemnation_events(events: &[CondemnationEvent]) -> (out: Vec<CondemnationEvent>)
    ensures
        out@ == audit_events(events@, events@.len() as int),
{
    let mut out: Vec<CondemnationEvent> = Vec::new();
    let mut i: usize = 0;
    while i < events.len()
        invariant
            0 <= i <= events@.len(),
            out@ == audit_events(events@, i as int),
        decreases events@.len() - i,
    {
        let e = &events[i];
        if !e.rehabilitated {
            let cancelled = is_audit_cancelled(events, i);
            if !cancelled {
                out.push(e.clone());
            }
        }
        i = i + 1;
    }
    out
}

proof fn lemma_take_last<T>(c: Seq<T>, k: int)
    requires
        0 <= k < c.len(),
    ensures
        c.take(k + 1).drop_last() == c.take(k),
        c.take(k + 1).last() == c[k],
{
    assert(c.take(k + 1).drop_last() =~= c.take(k));
}

/// The highest condemned clock at or below `x` (-1 when there is none).
pub open spec fn max_clock_le(p: Seq<(u32, u32)>, x: int) -> int
    decreases p.len(),
{
    if p.len() == 0 {
        -1
    } else {
        let r = max_clock_le(p.drop_last(), x);
        let c = p.last().0;
        if c <= x && c > r { c as int } else { r }
    }
}

/// The lowest condemned clock strictly above `x` (-1 when there is none).
pub open spec fn min_clock_gt(p: Seq<(u32, u32)>, x: int) -> int
    decreases p.len(),
{
    if p.len() == 0 {
        -1
    } else {
        let r = min_clock_gt(p.drop_last(), x);
        let c = p.last().0;
        if c > x && (r < 0 || c < r) { c as int } else { r }
    }
}

/// The running-max condemned voltage at clock `c`: the highest voltage of a pair whose clock is
/// at or below `c` (-1 when there is none).
pub open spec fn worst_le(p: Seq<(u32, u32)>, c: int) -> int
    decreases p.len(),
{
    if p.len() == 0 {
        -1
    } else {
        let r = worst_le(p.drop_last(), c);
        let q = p.last();
        if q.0 <= c && q.1 > r { q.1 as int } else { r }
    }
}

/// The monotone V/F floor at clock `x`: `None` below the lowest condemned clock; the running-max
/// voltage at a condemned clock or beyond the highest one; and between two consecutive condemned
/// clocks the chord between their running-max voltages, rounded up.
pub open spec fn envelope_floor(p: Seq<(u32, u32)>, x: int) -> Option<int> {
    let lo = max_clock_le(p, x);
    let hi = min_clock_gt(p, x);
    if lo < 0 {
        None
    } else if hi < 0 || lo == x {
        Some(worst_le(p, lo))
    } else {
        let w0 = worst_le(p, lo);
        let w1 = worst_le(p, hi);
        Some(w0 + ((w1 - w0) * (x - lo) + (hi - lo) - 1) / (hi - lo))
    }
}

/// The floor as returned: present only when it fits a `u32`.
pub open spec fn envelope_value(p: Seq<(u32, u32)>, x: u32) -> Option<u32> {
    match envelope_floor(p, x as int) {
        None => None,
        Some(f) => if 0 <= f <= u32::MAX { Some(f as u32) } else { None },
    }
}

/// The chord arithmetic of [`envelope_floor`] fits a signed 64-bit integer at clock `x`.
pub open spec fn envelope_arith_ok(p: Seq<(u32, u32)>, x: u32) -> bool {
    let lo = max_clock_le(p, x as int);
    let hi = min_clock_gt(p, x as int);
    (lo >= 0 && hi >= 0 && lo != x) ==> (worst_le(p, hi) - worst_le(p, lo)) * (x - lo) + (hi - lo)
        <= i64::MAX
}

proof fn lemma_max_clock_le_bounds(p: Seq<(u32, u32)>, x: int)
    ensures
        max_clock_le(p, x) == -1 || (0 <= max_clock_le(p, x) <= x && max_clock_le(p, x) <= u32::MAX),
        max_clock_le(p, x) == -1 <==> forall|i: int| 0 <= i < p.len() ==> p[i].0 > x,
    decreases p.len(),
{
    if p.len() > 0 {
        lemma_max_clock_le_bounds(p.drop_last(), x);
        assert forall|i: int| 0 <= i < p.len() - 1 implies p.drop_last()[i] == p[i] by {}
    }
}

proof fn lemma_min_clock_gt_bounds(p: Seq<(u32, u32)>, x: int)
    ensures
        min_clock_gt(p, x) == -1 || (x < min_clock_gt(p, x) <= u32::MAX),
    decreases p.len(),
{
    if p.len() > 0 {
        lemma_min_clock_gt_bounds(p.drop_last(), x);
    }
}

proof fn lemma_worst_le_bounds(p: Seq<(u32, u32)>, c: int)
    ensures
        -1 <= worst_le(p, c) <= u32::MAX,
    decreases p.len(),
{
    if p.len() > 0 {
        lemma_worst_le_bounds(p.drop_last(), c);
    }
}

proof fn lemma_worst_le_monotone(p: Seq<(u32, u32)>, c0: int, c1: int)
    requires
        c0 <= c1,
    ensures
        worst_le(p, c0) <= worst_le(p, c1),
    decreases p.len(),
{
    if p.len() > 0 {
        lemma_worst_le_monotone(p.drop_last(), c0, c1);
    }
}

proof fn lemma_ceil_chord_bound(d: int, t: int, dd: int)
    requires
        d >= 0,
        0 < t < dd,
    ensures
        0 <= d * t,
        0 <= (d * t + dd - 1) / dd <= d,
{
    assert(0 <= d * t) by (nonlinear_arith)
        requires
            d >= 0,
            t > 0,
    ;
    assert(d * t <= d * (dd - 1)) by (nonlinear_arith)
        requires
            d >= 0,
            t <= dd - 1,
    ;
    assert(d * (dd - 1) == d * dd - d) by (nonlinear_arith);
    assert((d + 1) * dd == d * dd + dd) by (nonlinear_arith);
    assert((d * t + dd - 1) / dd <= d) by (nonlinear_arith)
        requires
            0 <= d * t + dd - 1 < (d + 1) * dd,
            dd > 0,
    ;
    assert(0 <= (d * t + dd - 1) / dd) by (nonlinear_arith)
        requires
            0 <= d * t + dd - 1,
            dd > 0,
    ;
}

fn max_clock_at_or_below(pairs: &[(u32, u32)], x: u32) -> (r: i64)
    ensures
        r == max_clock_le(pairs@, x as int),
{
    let mut r: i64 = -1;
    let mut i: usize = 0;
    while i < pairs.len()
        invariant
            0 <= i <= pairs@.len(),
            r == max_clock_le(pairs@.take(i as int), x as int),
            -1 <= r <= u32::MAX,
        decreases pairs@.len() - i,
    {
        proof {
            lemma_take_last(pairs@, i as int);
        }
        let c = pairs[i].0;
        if c <= x && (c as i64) > r {
            r = c as i64;
        }
        i = i + 1;
    }
    assert(pairs@.take(pairs@.len() as int) =~= pairs@);
    r
}

fn min_clock_above(pairs: &[(u32, u32)], x: u32) -> (r: i64)
    ensures
        r == min_clock_gt(pairs@, x as int),
{
    let mut r: i64 = -1;
    let mut i: usize = 0;
    while i < pairs.len()
        invariant
            0 <= i <= pairs@.len(),
            r == min_clock_gt(pairs@.take(i as int), x as int),
            -1 <= r <= u32::MAX,
        decreases pairs@.len() - i,
    {
        proof {
            lemma_take_last(pairs@, i as int);
        }
        let c = pairs[i].0;
        if c > x && (r < 0 || (c as i64) < r) {
            r = c as i64;
        }
        i = i + 1;
    }
    assert(pairs@.take(pairs@.len() as int) =~= pairs@);
    r
}

fn worst_at_or_below(pairs: &[(u32, u32)], c: i64) -> (r: i64)
    ensures
        r == worst_le(pairs@, c as int),
{
    let mut r: i64 = -1;
    let mut i: usize = 0;
    while i < pairs.len()
        invariant
            0 <= i <= pairs@.len(),
            r == worst_le(pairs@.take(i as int), c as int),
            -1 <= r <= u32::MAX,
        decreases pairs@.len() - i,
    {
        proof {
            lemma_take_last(pairs@, i as int);
        }
        let q = pairs[i];
        if (q.0 as i64) <= c && (q.1 as i64) > r {
            r = q.1 as i64;
        }
        i = i + 1;
    }
    assert(pairs@.take(pairs@.len() as int) =~= pairs@);
    r
}

/// Monotone V/F floor envelope over condemned (clock, mv) pairs: running-max condemned voltage by
/// clock, ceil-interpolated between condemned clocks (the conservative chord), held flat beyond
/// the highest clock. `None` below the lowest condemned clock or with no pairs.
pub fn vf_floor_envelope(pairs: &[(u32, u32)], clock_mhz: u32) -> (r: Option<u32>)
    requires
        envelope_arith_ok(pairs@, clock_mhz),
    ensures
        r == envelope_value(pairs@, clock_mhz),
{
    let lo = max_clock_at_or_below(pairs, clock_mhz);
    if lo < 0 {
        return None;
    }
    proof {
        lemma_max_clock_le_bounds(pairs@, clock_mhz as int);
        lemma_min_clock_gt_bounds(pairs@, clock_mhz as int);
    }
    let hi = min_clock_above(pairs, clock_mhz);
    let w0 = worst_at_or_below(pairs, lo);
    let floor: i64 = if hi < 0 || lo == clock_mhz as i64 {
        w0
    } else {
        let w1 = worst_at_or_below(pairs, hi);
        proof {
            lemma_worst_le_monotone(pairs@, lo as int, hi as int);
            lemma_worst_le_bounds(pairs@, lo as int);
            lemma_worst_le_bounds(pairs@, hi as int);
            assert(0 <= (w1 - w0) * (clock_mhz - lo)) by (nonlinear_arith)
                requires
                    w1 - w0 >= 0,
                    clock_mhz - lo >= 0,
            ;
        }
        let clock = clock_mhz as i64;
        proof {
            let d = w1 - w0;
            let t = clock - lo;
            let dd = hi - lo;
            assert(0 < t < dd);
            assert(d * t + dd <= i64::MAX);
            lemma_ceil_chord_bound(d as int, t as int, dd as int);
        }
        let num = (w1 - w0) * (clock - lo) + (hi - lo) - 1;
        w0 + num / (hi - lo)
    };
    if 0 <= floor && floor <= u32::MAX as i64 {
        Some(floor as u32)
    } else {
        None
    }
}


/// The ledger is append-only memory: appending an event that is not a rehabilitation never lifts
/// an existing condemnation. Every event effective before the append stays effective, and the
/// condemned pairs of each severity only grow (the old list is a prefix of the new one).
pub proof fn lemma_append_never_lifts(
    events: Seq<CondemnationEvent>,
    e: CondemnationEvent,
    key: Seq<char>,
    run: Option<Seq<char>>,
    sev: CondemnationSeverity,
)
    requires
        !e.rehabilitated,
    ensures
        forall|i: int|
            0 <= i < events.len() ==> (effective_for(events.push(e), key, run, i) <==> effective_for(
                events,
                key,
                run,
                i,
            )),
        effective_pairs(events, key, run, sev, events.len() as int).is_prefix_of(
            effective_pairs(events.push(e), key, run, sev, (events.len() + 1) as int),
        ),
{
    let pushed = events.push(e);
    assert forall|i: int| 0 <= i < events.len() implies (effective_for(pushed, key, run, i) <==> effective_for(
        events,
        key,
        run,
        i,
    )) by {
        assert(pushed[i] == events[i]);
        if cancelled(pushed, key, run, i) {
            let j = choose|j: int|
                i < j < pushed.len() && in_scope(pushed[j], run) && pushed[j].rehabilitated
                    && pushed[j].target_mhz == pushed[i].target_mhz && pushed[j].vf_bin_mv
                    == pushed[i].vf_bin_mv && applies_to(#[trigger] pushed[j], key);
            assert(j < events.len());
            assert(pushed[j] == events[j]);
        }
        if cancelled(events, key, run, i) {
            let j = choose|j: int|
                i < j < events.len() && in_scope(events[j], run) && events[j].rehabilitated
                    && events[j].target_mhz == events[i].target_mhz && events[j].vf_bin_mv
                    == events[i].vf_bin_mv && applies_to(#[trigger] events[j], key);
            assert(pushed[j] == events[j]);
        }
    }
    lemma_pairs_unchanged_prefix(events, e, key, run, sev, events.len() as int);
}

proof fn lemma_pairs_unchanged_prefix(
    events: Seq<CondemnationEvent>,
    e: CondemnationEvent,
    key: Seq<char>,
    run: Option<Seq<char>>,
    sev: CondemnationSeverity,
    n: int,
)
    requires
        0 <= n <= events.len(),
        forall|i: int|
            0 <= i < events.len() ==> (effective_for(events.push(e), key, run, i) <==> effective_for(
                events,
                key,
                run,
                i,
            )),
    ensures
        effective_pairs(events.push(e), key, run, sev, n) == effective_pairs(events, key, run, sev, n),
    decreases n,
{
    if n > 0 {
        lemma_pairs_unchanged_prefix(events, e, key, run, sev, n - 1);
        assert(events.push(e)[n - 1] == events[n - 1]);
    }
}

/// A rehabilitation lifts exactly what it names: appending one for a pair cancels every earlier
/// in-scope event at that exact clock and voltage that the rehabilitation applies to.
pub proof fn lemma_rehabilitation_lifts_the_pair(
    events: Seq<CondemnationEvent>,
    rehab: CondemnationEvent,
    key: Seq<char>,
    run: Option<Seq<char>>,
)
    requires
        rehab.rehabilitated,
        in_scope(rehab, run),
        applies_to(rehab, key),
    ensures
        forall|i: int|
            0 <= i < events.len() && events[i].target_mhz == rehab.target_mhz && events[i].vf_bin_mv
                == rehab.vf_bin_mv ==> !effective_for(#[trigger] events.push(rehab), key, run, i),
{
    let pushed = events.push(rehab);
    assert forall|i: int|
        0 <= i < events.len() && events[i].target_mhz == rehab.target_mhz && events[i].vf_bin_mv
            == rehab.vf_bin_mv implies !effective_for(#[trigger] events.push(rehab), key, run, i) by {
        let j = events.len() as int;
        assert(pushed[j] == rehab);
        assert(pushed[i] == events[i]);
        assert(cancelled(pushed, key, run, i));
    }
}

proof fn lemma_max_clock_le_props(p: Seq<(u32, u32)>, x: int)
    ensures
        max_clock_le(p, x) >= 0 ==> max_clock_le(p, x) <= x && exists|i: int|
            0 <= i < p.len() && #[trigger] p[i].0 == max_clock_le(p, x),
        forall|i: int| 0 <= i < p.len() && #[trigger] p[i].0 <= x ==> p[i].0 <= max_clock_le(p, x),
    decreases p.len(),
{
    if p.len() > 0 {
        let d = p.drop_last();
        lemma_max_clock_le_props(d, x);
        assert forall|i: int| 0 <= i < p.len() && #[trigger] p[i].0 <= x implies p[i].0 <= max_clock_le(p, x) by {
            if i < p.len() - 1 {
                assert(d[i] == p[i]);
            }
        }
        if max_clock_le(p, x) >= 0 && max_clock_le(p, x) == max_clock_le(d, x) {
            let i = choose|i: int| 0 <= i < d.len() && #[trigger] d[i].0 == max_clock_le(d, x);
            assert(p[i] == d[i]);
        }
    }
}

proof fn lemma_min_clock_gt_props(p: Seq<(u32, u32)>, x: int)
    ensures
        min_clock_gt(p, x) >= 0 ==> min_clock_gt(p, x) > x && exists|i: int|
            0 <= i < p.len() && #[trigger] p[i].0 == min_clock_gt(p, x),
        min_clock_gt(p, x) < 0 ==> min_clock_gt(p, x) == -1,
        forall|i: int| 0 <= i < p.len() && #[trigger] p[i].0 > x ==> min_clock_gt(p, x) >= 0 && p[i].0
            >= min_clock_gt(p, x),
    decreases p.len(),
{
    if p.len() > 0 {
        let d = p.drop_last();
        lemma_min_clock_gt_props(d, x);
        assert forall|i: int| 0 <= i < p.len() && #[trigger] p[i].0 > x implies min_clock_gt(p, x) >= 0
            && p[i].0 >= min_clock_gt(p, x) by {
            if i < p.len() - 1 {
                assert(d[i] == p[i]);
            }
        }
        if min_clock_gt(p, x) >= 0 && min_clock_gt(p, x) == min_clock_gt(d, x) {
            let i = choose|i: int| 0 <= i < d.len() && #[trigger] d[i].0 == min_clock_gt(d, x);
            assert(p[i] == d[i]);
        }
    }
}

proof fn lemma_ceil_div_monotone(d: int, t0: int, t1: int, dd: int)
    requires
        d >= 0,
        0 <= t0 <= t1,
        dd > 0,
    ensures
        (d * t0 + dd - 1) / dd <= (d * t1 + dd - 1) / dd,
{
    assert(d * t0 <= d * t1) by (nonlinear_arith)
        requires
            d >= 0,
            t0 <= t1,
    ;
    vstd::arithmetic::div_mod::lemma_div_is_ordered(d * t0 + dd - 1, d * t1 + dd - 1, dd);
}

/// The floor envelope is monotone in the clock: at a higher clock the condemned floor is never
/// lower (wherever both clocks have a floor).
pub proof fn lemma_envelope_monotone(p: Seq<(u32, u32)>, x: int, y: int)
    requires
        x <= y,
        envelope_floor(p, x) is Some,
        envelope_floor(p, y) is Some,
    ensures
        envelope_floor(p, x)->0 <= envelope_floor(p, y)->0,
{
    let lx = max_clock_le(p, x);
    let hx = min_clock_gt(p, x);
    let ly = max_clock_le(p, y);
    let hy = min_clock_gt(p, y);
    lemma_max_clock_le_props(p, x);
    lemma_max_clock_le_props(p, y);
    lemma_min_clock_gt_props(p, x);
    lemma_min_clock_gt_props(p, y);
    let fx = envelope_floor(p, x)->0;
    let fy = envelope_floor(p, y)->0;
    // lx is a clock at or below y, so it is at or below ly.
    let ix = choose|i: int| 0 <= i < p.len() && #[trigger] p[i].0 == lx;
    assert(p[ix].0 <= y);
    assert(lx <= ly);
    lemma_worst_le_monotone(p, lx, ly);
    // At y the floor is at least the running maximum at ly.
    if hy >= 0 && ly != y {
        let w0 = worst_le(p, ly);
        let w1 = worst_le(p, hy);
        lemma_worst_le_monotone(p, ly, hy);
        lemma_ceil_chord_bound(w1 - w0, y - ly, hy - ly);
        assert(fy >= w0);
    } else {
        assert(fy == worst_le(p, ly));
    }
    if hx >= 0 && lx != x {
        let w0 = worst_le(p, lx);
        let w1 = worst_le(p, hx);
        lemma_worst_le_monotone(p, lx, hx);
        lemma_ceil_chord_bound(w1 - w0, x - lx, hx - lx);
        let jx = choose|i: int| 0 <= i < p.len() && #[trigger] p[i].0 == hx;
        if y >= hx {
            assert(p[jx].0 <= y);
            assert(hx <= ly);
            lemma_worst_le_monotone(p, hx, ly);
        } else {
            // No condemned clock lies in (x, y]: the same chord covers y.
            let iy = choose|i: int| 0 <= i < p.len() && #[trigger] p[i].0 == ly;
            if ly > x {
                assert(p[iy].0 > x);
                assert(false);
            }
            assert(ly <= lx) by {
                assert(p[iy].0 <= x);
            }
            assert(ly == lx);
            assert(p[jx].0 > y);
            assert(hy >= 0 && hy <= hx);
            let jy = choose|i: int| 0 <= i < p.len() && #[trigger] p[i].0 == hy;
            assert(p[jy].0 > x);
            assert(hy >= hx);
            assert(hy == hx);
            lemma_ceil_div_monotone(w1 - w0, x - lx, y - lx, hx - lx);
        }
    }
}

/// What the refusal rule decides for a candidate, over the rigid and quarantined pairs.
pub open spec fn refusal(rigid: Seq<(u32, u32)>, quarantine: Seq<(u32, u32)>, clock_mhz: u32, anchor_mv: u32) -> bool {
    (envelope_value(rigid, clock_mhz) matches Some(f) && anchor_mv <= f) || (envelope_value(
        quarantine,
        clock_mhz,
    ) matches Some(f) && anchor_mv < f)
}

/// A refused anchor condemns everything at or below it at the same clock.
pub proof fn lemma_refusal_closed_downward(
    rigid: Seq<(u32, u32)>,
    quarantine: Seq<(u32, u32)>,
    clock_mhz: u32,
    a: u32,
    b: u32,
)
    requires
        refusal(rigid, quarantine, clock_mhz, a),
        b <= a,
    ensures
        refusal(rigid, quarantine, clock_mhz, b),
{
}

impl CondemnedPairs {
    /// True when the ledger refuses this candidate outright: at-or-below the rigid floor, or
    /// strictly below the quarantine floor (the quarantined pair itself stays attemptable).
    pub fn refuses(&self, clock_mhz: u32, anchor_mv: u32) -> (r: bool)
        requires
            envelope_arith_ok(self.rigid_view(), clock_mhz),
            envelope_arith_ok(self.quarantine_view(), clock_mhz),
        ensures
            r == ((envelope_value(self.rigid_view(), clock_mhz) matches Some(f) && anchor_mv <= f)
                || (envelope_value(self.quarantine_view(), clock_mhz) matches Some(f) && anchor_mv
                < f)),
    {
        let rigid_refuses = match vf_floor_envelope(self.rigid.as_slice(), clock_mhz) {
            Some(floor) => anchor_mv <= floor,
            None => false,
        };
        if rigid_refuses {
            return true;
        }
        match vf_floor_envelope(self.quarantine.as_slice(), clock_mhz) {
            Some(floor) => anchor_mv < floor,
            None => false,
        }
    }

    /// Full-gate passes required to publish this exact pair: 2 when an effective quarantine
    /// condemned it under the current-or-stronger contract (or under an unknown contract); 1 when
    /// clean or when the current contract is strictly stronger than the condemning one.
    pub fn required_apply_passes(&self, clock_mhz: u32, anchor_mv: u32, current_contract: u32) -> (r: u32)
        ensures
            r == if exists|i: int|
                0 <= i < self.contracts().len() && #[trigger] self.contracts()[i].0 == clock_mhz
                    && self.contracts()[i].1 == anchor_mv && match self.contracts()[i].2 {
                    None => true,
                    Some(v) => v >= current_contract,
                } {
                2u32
            } else {
                1u32
            },
    {
        let mut i: usize = 0;
        while i < self.quarantine_contracts.len()
            invariant
                0 <= i <= self.quarantine_contracts@.len(),
                forall|j: int|
                    0 <= j < i ==> !(#[trigger] self.quarantine_contracts@[j].0 == clock_mhz
                        && self.quarantine_contracts@[j].1 == anchor_mv
                        && match self.quarantine_contracts@[j].2 {
                        None => true,
                        Some(v) => v >= current_contract,
                    }),
            decreases self.quarantine_contracts@.len() - i,
        {
            let (c, v, contract) = self.quarantine_contracts[i];
            let stronger_or_same = match contract {
                None => true,
                Some(condemned_under) => condemned_under >= current_contract,
            };
            if c == clock_mhz && v == anchor_mv && stronger_or_same {
                return 2;
            }
            i = i + 1;
        }
        1
    }
}

proof fn lemma_effective_pairs_contains(
    events: Seq<CondemnationEvent>,
    key: Seq<char>,
    run: Option<Seq<char>>,
    sev: CondemnationSeverity,
    n: int,
    i: int,
)
    requires
        0 <= i < n <= events.len(),
        effective_for(events, key, run, i),
        events[i].severity == sev,
    ensures
        effective_pairs(events, key, run, sev, n).contains((events[i].target_mhz, events[i].vf_bin_mv)),
    decreases n,
{
    let prev = effective_pairs(events, key, run, sev, n - 1);
    if n - 1 == i {
        let p = prev.push((events[i].target_mhz, events[i].vf_bin_mv));
        assert(p[prev.len() as int] == (events[i].target_mhz, events[i].vf_bin_mv));
    } else {
        lemma_effective_pairs_contains(events, key, run, sev, n - 1, i);
        let k = choose|k: int| 0 <= k < prev.len() && prev[k] == (events[i].target_mhz, events[i].vf_bin_mv);
        let e = events[n - 1];
        if effective_for(events, key, run, n - 1) && e.severity == sev {
            assert(prev.push((e.target_mhz, e.vf_bin_mv))[k] == prev[k]);
        }
    }
}

/// A rehabilitation lifts only what it names: a condemnation that applies to the GPU and is not
/// itself a rehabilitation stays in force (its exact `(clock, mv)` pair is among the condemned
/// pairs of its severity) unless a later rehabilitation for that GPU names the same clock *and*
/// the same voltage. Rehabilitations of other pairs, even at the same clock, leave it alone.
pub proof fn lemma_other_rehabilitations_leave_the_pair(
    events: Seq<CondemnationEvent>,
    key: Seq<char>,
    run: Option<Seq<char>>,
    i: int,
)
    requires
        0 <= i < events.len(),
        in_scope(events[i], run),
        applies_to(events[i], key),
        !events[i].rehabilitated,
        forall|j: int|
            i < j < events.len() && in_scope(events[j], run) && events[j].rehabilitated && applies_to(
                #[trigger] events[j],
                key,
            ) ==> !(events[j].target_mhz == events[i].target_mhz && events[j].vf_bin_mv == events[i].vf_bin_mv),
    ensures
        effective_pairs(events, key, run, events[i].severity, events.len() as int).contains(
            (events[i].target_mhz, events[i].vf_bin_mv),
        ),
{
    assert(!cancelled(events, key, run, i));
    lemma_effective_pairs_contains(events, key, run, events[i].severity, events.len() as int, i);
}

} // verus!
