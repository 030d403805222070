//! The capability report: which tuning levers this machine offers automatically, which need a
//! user action first, and which are blocked.
use vstd::prelude::*;
use crate::detector::HardwareInfo;
use crate::fingerprint::{compute_fingerprint, fingerprint_payload, hex_lower, sha256, MachineFingerprint};
use crate::text::{decimal, decimal_text, same_text};

verus! {

/// Where a capability falls.
#[derive(Debug, Clone, Copy, PartialEq, Eq)]
pub enum CapabilityBucket {
    Automatic,
    NeedsAction,
    Blocked,
}

/// One capability line of the report.
#[derive(Debug, Clone, PartialEq, Eq)]
pub struct CapabilityItem {
    pub id: String,
    pub title: String,
    pub description: String,
    pub bucket: CapabilityBucket,
    pub estimated_gain: Option<String>,
}

/// Progress of the second (driver-backed) probe pass.
#[derive(Debug, Clone, Copy, PartialEq, Eq)]
pub enum ProbePass2Status {
    PendingDriver,
    Ready,
    Completed,
}

/// The full report.
#[derive(Debug, Clone, PartialEq, Eq)]
pub struct CapabilityReport {
    pub fingerprint: MachineFingerprint,
    pub automatic: Vec<CapabilityItem>,
    pub needs_action: Vec<CapabilityItem>,
    pub blocked: Vec<CapabilityItem>,
    pub probe_pass2_status: ProbePass2Status,
}

/// The catalogued capabilities.
#[derive(Debug, Clone, Copy, PartialEq, Eq)]
pub enum Capability {
    GpuTuning,
    CpuPowerLimits,
    CpuTurboCstates,
    EnableXmp,
    CpuUndervoltBlocked,
    CpuUndervoltAmd,
    CpuUndervoltAvailable,
    RamTimingsRuntime,
}

/// A capability item as plain values: id, title, description, bucket, estimated gain.
pub type ItemView = (Seq<char>, Seq<char>, Seq<char>, CapabilityBucket, Option<Seq<char>>);

/// The plain values of an item.
pub open spec fn item_view(item: CapabilityItem) -> ItemView {
    (
        item.id@,
        item.title@,
        item.description@,
        item.bucket,
        match item.estimated_gain {
            Some(g) => Some(g@),
            None => None,
        },
    )
}

/// The plain values of a list of items.
pub open spec fn items_view(items: Seq<CapabilityItem>) -> Seq<ItemView> {
    items.map_values(|i: CapabilityItem| item_view(i))
}

/// The description of the XMP advice for a configured speed.
pub open spec fn xmp_description(speed_mts: u32) -> Seq<char> {
    "RAM is running at "@ + decimal(speed_mts as nat)
        + " MT/s — likely below module rating. Enable XMP in BIOS."@
}

/// The catalogue entry of a capability (the XMP advice carries the configured RAM speed).
pub open spec fn catalog_entry(c: Capability, speed_mts: u32) -> ItemView {
    match c {
        Capability::GpuTuning => (
            "gpu_tuning"@,
            "GPU undervolt & power tuning"@,
            "Adjustable via NVAPI/ADLX entirely from Windows — reversible, no reboot."@,
            CapabilityBucket::Automatic,
            Some("Lower temps and noise at same or better sustained clock"@),
        ),
        Capability::CpuPowerLimits => (
            "cpu_power_limits"@,
            "CPU power limits (PL1/PL2)"@,
            "Package power limits via MSR on most Intel/AMD platforms."@,
            CapabilityBucket::Automatic,
            Some("Sustained boost under power-limited workloads"@),
        ),
        Capability::CpuTurboCstates => (
            "cpu_turbo_cstates"@,
            "Turbo ratios & C-states"@,
            "MSR-accessible on supported platforms when driver is loaded."@,
            CapabilityBucket::Automatic,
            None,
        ),
        Capability::EnableXmp => (
            "enable_xmp"@,
            "Enable XMP / EXPO profile"@,
            xmp_description(speed_mts),
            CapabilityBucket::NeedsAction,
            Some("Recover rated RAM frequency (often 2× JEDEC speed)"@),
        ),
        Capability::CpuUndervoltBlocked => (
            "cpu_undervolt"@,
            "CPU undervolt (OC Mailbox)"@,
            "Intel 11th gen+ blocks runtime undervolt after Plundervolt mitigations. BIOS/UEFI path only."@,
            CapabilityBucket::Blocked,
            None,
        ),
        Capability::CpuUndervoltAmd => (
            "cpu_undervolt_amd"@,
            "CPU Curve Optimizer (runtime)"@,
            "AMD Curve Optimizer is safest via BIOS PBO2. Runtime SMU access is risky and often locked."@,
            CapabilityBucket::Blocked,
            None,
        ),
        Capability::CpuUndervoltAvailable => (
            "cpu_undervolt"@,
            "CPU undervolt (OC Mailbox)"@,
            "May be available on pre-11th gen Intel when BIOS does not lock the mailbox."@,
            CapabilityBucket::Automatic,
            Some("Lower CPU temps — pass 2 probe confirms unlock"@),
        ),
        Capability::RamTimingsRuntime => (
            "ram_timings_runtime"@,
            "RAM primary timings at runtime"@,
            "Memory controller is trained at POST. Runtime timing changes are not stable — use BIOS/NVRAM."@,
            CapabilityBucket::Blocked,
            None,
        ),
    }
}

fn catalog_item(c: Capability, speed_mts: u32) -> (r: CapabilityItem)
    ensures
        item_view(r) == catalog_entry(c, speed_mts),
{
    match c {
        Capability::GpuTuning => CapabilityItem {
            id: String::from_str("gpu_tuning"),
            title: String::from_str("GPU undervolt & power tuning"),
            description: String::from_str(
                "Adjustable via NVAPI/ADLX entirely from Windows — reversible, no reboot.",
            ),
            bucket: CapabilityBucket::Automatic,
            estimated_gain: Some(String::from_str("Lower temps and noise at same or better sustained clock")),
        },
        Capability::CpuPowerLimits => CapabilityItem {
            id: String::from_str("cpu_power_limits"),
            title: String::from_str("CPU power limits (PL1/PL2)"),
            description: String::from_str("Package power limits via MSR on most Intel/AMD platforms."),
            bucket: CapabilityBucket::Automatic,
            estimated_gain: Some(String::from_str("Sustained boost under power-limited workloads")),
        },
        Capability::CpuTurboCstates => CapabilityItem {
            id: String::from_str("cpu_turbo_cstates"),
            title: String::from_str("Turbo ratios & C-states"),
            description: String::from_str("MSR-accessible on supported platforms when driver is loaded."),
            bucket: CapabilityBucket::Automatic,
            estimated_gain: None,
        },
        Capability::EnableXmp => {
            let mut description = String::from_str("RAM is running at ");
            let speed = decimal_text(speed_mts as u64);
            description.append(speed.as_str());
            description.append(" MT/s — likely below module rating. Enable XMP in BIOS.");
            CapabilityItem {
                id: String::from_str("enable_xmp"),
                title: String::from_str("Enable XMP / EXPO profile"),
                description,
                bucket: CapabilityBucket::NeedsAction,
                estimated_gain: Some(String::from_str("Recover rated RAM frequency (often 2× JEDEC speed)")),
            }
        },
        Capability::CpuUndervoltBlocked => CapabilityItem {
            id: String::from_str("cpu_undervolt"),
            title: String::from_str("CPU undervolt (OC Mailbox)"),
            description: String::from_str(
                "Intel 11th gen+ blocks runtime undervolt after Plundervolt mitigations. BIOS/UEFI path only.",
            ),
            bucket: CapabilityBucket::Blocked,
            estimated_gain: None,
        },
        Capability::CpuUndervoltAmd => CapabilityItem {
            id: String::from_str("cpu_undervolt_amd"),
            title: String::from_str("CPU Curve Optimizer (runtime)"),
            description: String::from_str(
                "AMD Curve Optimizer is safest via BIOS PBO2. Runtime SMU access is risky and often locked.",
            ),
            bucket: CapabilityBucket::Blocked,
            estimated_gain: None,
        },
        Capability::CpuUndervoltAvailable => CapabilityItem {
            id: String::from_str("cpu_undervolt"),
            title: String::from_str("CPU undervolt (OC Mailbox)"),
            description: String::from_str(
                "May be available on pre-11th gen Intel when BIOS does not lock the mailbox.",
            ),
            bucket: CapabilityBucket::Automatic,
            estimated_gain: Some(String::from_str("Lower CPU temps — pass 2 probe confirms unlock")),
        },
        Capability::RamTimingsRuntime => CapabilityItem {
            id: String::from_str("ram_timings_runtime"),
            title: String::from_str("RAM primary timings at runtime"),
            description: String::from_str(
                "Memory controller is trained at POST. Runtime timing changes are not stable — use BIOS/NVRAM.",
            ),
            bucket: CapabilityBucket::Blocked,
            estimated_gain: None,
        },
    }
}

/// Some GPU is an NVIDIA or AMD part.
pub open spec fn has_tunable_gpu(hw: HardwareInfo) -> bool {
    exists|i: int|
        0 <= i < hw.gpu@.len() && ((#[trigger] hw.gpu@[i]).vendor@ == "NVIDIA"@ || hw.gpu@[i].vendor@
            == "AMD"@)
}

/// RAM runs without XMP at a JEDEC-like speed.
pub open spec fn needs_xmp(hw: HardwareInfo) -> bool {
    !hw.ram.xmp_enabled && hw.ram.configured_speed_mts <= 2400
}

/// An Intel CPU of the 11th generation or later.
pub open spec fn intel_locked_mailbox(hw: HardwareInfo) -> bool {
    (match hw.cpu.generation {
        Some(g) => g >= 11,
        None => false,
    }) && hw.cpu.vendor@ == "Intel"@
}

/// The capabilities the report offers automatically, in order.
pub open spec fn automatic_capabilities(hw: HardwareInfo) -> Seq<Capability> {
    (if has_tunable_gpu(hw) {
        seq![Capability::GpuTuning]
    } else {
        Seq::empty()
    }) + seq![Capability::CpuPowerLimits, Capability::CpuTurboCstates] + if !intel_locked_mailbox(hw)
        && hw.cpu.vendor@ != "AMD"@ && hw.cpu.vendor@ == "Intel"@ {
        seq![Capability::CpuUndervoltAvailable]
    } else {
        Seq::empty()
    }
}

/// The capabilities that need a user action first.
pub open spec fn needs_action_capabilities(hw: HardwareInfo) -> Seq<Capability> {
    if needs_xmp(hw) {
        seq![Capability::EnableXmp]
    } else {
        Seq::empty()
    }
}

/// The blocked capabilities, in order.
pub open spec fn blocked_capabilities(hw: HardwareInfo) -> Seq<Capability> {
    (if intel_locked_mailbox(hw) {
        seq![Capability::CpuUndervoltBlocked]
    } else if hw.cpu.vendor@ == "AMD"@ {
        seq![Capability::CpuUndervoltAmd]
    } else {
        Seq::empty()
    }) + seq![Capability::RamTimingsRuntime]
}

/// The catalogue entries of a list of capabilities.
pub open spec fn entries(cs: Seq<Capability>, speed_mts: u32) -> Seq<ItemView> {
    cs.map_values(|c: Capability| catalog_entry(c, speed_mts))
}

fn push_item(items: &mut Vec<CapabilityItem>, c: Capability, speed_mts: u32)
    ensures
        items_view(final(items)@) == items_view(old(items)@).push(catalog_entry(c, speed_mts)),
{
    let item = catalog_item(c, speed_mts);
    items.push(item);
    proof {
        assert(items_view(final(items)@) =~= items_view(old(items)@).push(catalog_entry(c, speed_mts)));
    }
}

fn any_tunable_gpu(hw: &HardwareInfo) -> (r: bool)
    ensures
        r == has_tunable_gpu(*hw),
{
    let mut i: usize = 0;
    while i < hw.gpu.len()
        invariant
            i <= hw.gpu@.len(),
            forall|j: int|
                0 <= j < i ==> !((#[trigger] hw.gpu@[j]).vendor@ == "NVIDIA"@ || hw.gpu@[j].vendor@
                    == "AMD"@),
        decreases hw.gpu@.len() - i,
    {
        let vendor = hw.gpu[i].vendor.as_str();
        if same_text(vendor, "NVIDIA") || same_text(vendor, "AMD") {
            return true;
        }
        i = i + 1;
    }
    false
}

/// Build the capability report for the detected hardware.
pub fn build_capability_report(hw: &HardwareInfo) -> (r: CapabilityReport)
    ensures
        r.fingerprint.hash@ == hex_lower(sha256(vstd::utf8::encode_utf8(fingerprint_payload(*hw)))),
        r.fingerprint.cpu_model@ == hw.cpu.model@,
        items_view(r.automatic@) == entries(automatic_capabilities(*hw), hw.ram.configured_speed_mts),
        items_view(r.needs_action@) == entries(
            needs_action_capabilities(*hw),
            hw.ram.configured_speed_mts,
        ),
        items_view(r.blocked@) == entries(blocked_capabilities(*hw), hw.ram.configured_speed_mts),
        r.probe_pass2_status == ProbePass2Status::PendingDriver,
{
    let fingerprint = compute_fingerprint(hw);
    let speed = hw.ram.configured_speed_mts;
    let mut automatic: Vec<CapabilityItem> = Vec::new();
    let mut needs_action: Vec<CapabilityItem> = Vec::new();
    let mut blocked: Vec<CapabilityItem> = Vec::new();
    if any_tunable_gpu(hw) {
        push_item(&mut automatic, Capability::GpuTuning, speed);
    }
    push_item(&mut automatic, Capability::CpuPowerLimits, speed);
    push_item(&mut automatic, Capability::CpuTurboCstates, speed);
    if !hw.ram.xmp_enabled && hw.ram.configured_speed_mts <= 2400 {
        push_item(&mut needs_action, Capability::EnableXmp, speed);
    }
    let vendor = hw.cpu.vendor.as_str();
    let new_intel = match hw.cpu.generation {
        Some(g) => g >= 11,
        None => false,
    };
    if new_intel && same_text(vendor, "Intel") {
        push_item(&mut blocked, Capability::CpuUndervoltBlocked, speed);
    } else if same_text(vendor, "AMD") {
        push_item(&mut blocked, Capability::CpuUndervoltAmd, speed);
    } else if same_text(vendor, "Intel") {
        push_item(&mut automatic, Capability::CpuUndervoltAvailable, speed);
    }
    push_item(&mut blocked, Capability::RamTimingsRuntime, speed);
    proof {
        assert(items_view(automatic@) =~= entries(automatic_capabilities(*hw), speed));
        assert(items_view(needs_action@) =~= entries(needs_action_capabilities(*hw), speed));
        assert(items_view(blocked@) =~= entries(blocked_capabilities(*hw), speed));
    }
    CapabilityReport {
        fingerprint,
        automatic,
        needs_action,
        blocked,
        probe_pass2_status: ProbePass2Status::PendingDriver,
    }
}

/// Which CPU undervolt line the report carries: an Intel CPU of the 11th generation or later
/// (Plundervolt mitigations lock the voltage mailbox) gets the blocked line and never the
/// automatic one; an Intel CPU of an earlier or unknown generation gets the automatic line and
/// never the blocked one; an AMD CPU gets its own blocked line; any other vendor gets none.
pub proof fn lemma_cpu_undervolt_gate(hw: HardwareInfo)
    ensures
        hw.cpu.vendor@ == "Intel"@ && (hw.cpu.generation matches Some(g) && g >= 11) ==> {
            &&& blocked_capabilities(hw).contains(Capability::CpuUndervoltBlocked)
            &&& !automatic_capabilities(hw).contains(Capability::CpuUndervoltAvailable)
        },
        hw.cpu.vendor@ == "Intel"@ && !(hw.cpu.generation matches Some(g) && g >= 11) ==> {
            &&& automatic_capabilities(hw).contains(Capability::CpuUndervoltAvailable)
            &&& !blocked_capabilities(hw).contains(Capability::CpuUndervoltBlocked)
        },
        hw.cpu.vendor@ == "AMD"@ ==> {
            &&& blocked_capabilities(hw).contains(Capability::CpuUndervoltAmd)
            &&& !blocked_capabilities(hw).contains(Capability::CpuUndervoltBlocked)
            &&& !automatic_capabilities(hw).contains(Capability::CpuUndervoltAvailable)
        },
        hw.cpu.vendor@ != "Intel"@ && hw.cpu.vendor@ != "AMD"@ ==> {
            &&& !blocked_capabilities(hw).contains(Capability::CpuUndervoltBlocked)
            &&& !blocked_capabilities(hw).contains(Capability::CpuUndervoltAmd)
            &&& !automatic_capabilities(hw).contains(Capability::CpuUndervoltAvailable)
        },
{
    let a = automatic_capabilities(hw);
    let b = blocked_capabilities(hw);
    let gpu_part: Seq<Capability> = if has_tunable_gpu(hw) { seq![Capability::GpuTuning] } else { Seq::empty() };
    let base = gpu_part + seq![Capability::CpuPowerLimits, Capability::CpuTurboCstates];
    assert(!base.contains(Capability::CpuUndervoltAvailable)) by {
        if base.contains(Capability::CpuUndervoltAvailable) {
            let k = choose|k: int| 0 <= k < base.len() && base[k] == Capability::CpuUndervoltAvailable;
            if k < gpu_part.len() {
                assert(base[k] == gpu_part[k]);
            } else {
                assert(base[k] == seq![Capability::CpuPowerLimits, Capability::CpuTurboCstates][k - gpu_part.len()]);
            }
        }
    }
    let tail: Seq<Capability> = seq![Capability::RamTimingsRuntime];
    let head: Seq<Capability> = if intel_locked_mailbox(hw) {
        seq![Capability::CpuUndervoltBlocked]
    } else if hw.cpu.vendor@ == "AMD"@ {
        seq![Capability::CpuUndervoltAmd]
    } else {
        Seq::empty()
    };
    assert(b == head + tail);
    assert forall|c: Capability| b.contains(c) <==> (head.contains(c) || c == Capability::RamTimingsRuntime) by {
        if b.contains(c) {
            let k = choose|k: int| 0 <= k < b.len() && b[k] == c;
            if k < head.len() {
                assert(b[k] == head[k]);
            } else {
                assert(b[k] == tail[k - head.len()]);
            }
        }
        if head.contains(c) {
            let k = choose|k: int| 0 <= k < head.len() && head[k] == c;
            assert(b[k] == head[k]);
        }
        if c == Capability::RamTimingsRuntime {
            assert(b[head.len() as int] == c);
        }
    }
    let und: Seq<Capability> = if !intel_locked_mailbox(hw) && hw.cpu.vendor@ != "AMD"@ && hw.cpu.vendor@
        == "Intel"@ {
        seq![Capability::CpuUndervoltAvailable]
    } else {
        Seq::empty()
    };
    assert(a == base + und);
    if und.len() > 0 {
        assert(a[base.len() as int] == Capability::CpuUndervoltAvailable);
    } else {
        assert(a =~= base);
    }
    if head.len() > 0 {
        assert(head[0] == head[0]);
        assert(head.contains(head[0]));
    }
    assert(!("Intel"@ =~= "AMD"@)) by {
        reveal_strlit("Intel");
        reveal_strlit("AMD");
        assert("Intel"@[0] != "AMD"@[0]);
    }
}

/// The other levers: GPU tuning is offered exactly when some GPU is an NVIDIA or AMD part; the
/// CPU power limits and turbo/C-states are always offered; enabling XMP is asked for exactly
/// when XMP is off and the memory runs at 2400 MT/s or less; runtime RAM timings are always
/// blocked.
pub proof fn lemma_other_levers(hw: HardwareInfo)
    ensures
        automatic_capabilities(hw).contains(Capability::GpuTuning) <==> exists|i: int|
            0 <= i < hw.gpu@.len() && ((#[trigger] hw.gpu@[i]).vendor@ == "NVIDIA"@ || hw.gpu@[i].vendor@
                == "AMD"@),
        automatic_capabilities(hw).contains(Capability::CpuPowerLimits),
        automatic_capabilities(hw).contains(Capability::CpuTurboCstates),
        needs_action_capabilities(hw).contains(Capability::EnableXmp) <==> (!hw.ram.xmp_enabled
            && hw.ram.configured_speed_mts <= 2400),
        blocked_capabilities(hw).contains(Capability::RamTimingsRuntime),
{
    let a = automatic_capabilities(hw);
    let gpu_part: Seq<Capability> = if has_tunable_gpu(hw) { seq![Capability::GpuTuning] } else { Seq::empty() };
    let mid: Seq<Capability> = seq![Capability::CpuPowerLimits, Capability::CpuTurboCstates];
    let und: Seq<Capability> = if !intel_locked_mailbox(hw) && hw.cpu.vendor@ != "AMD"@ && hw.cpu.vendor@
        == "Intel"@ {
        seq![Capability::CpuUndervoltAvailable]
    } else {
        Seq::empty()
    };
    assert(a == gpu_part + mid + und);
    let g = gpu_part.len() as int;
    assert(a[g] == Capability::CpuPowerLimits);
    assert(a[g + 1] == Capability::CpuTurboCstates);
    if a.contains(Capability::GpuTuning) {
        let k = choose|k: int| 0 <= k < a.len() && a[k] == Capability::GpuTuning;
        if k >= g {
            if k < g + 2 {
                assert(a[k] == mid[k - g]);
            } else {
                assert(a[k] == und[k - g - 2]);
            }
        }
    }
    if has_tunable_gpu(hw) {
        assert(a[0] == Capability::GpuTuning);
    }
    let n = needs_action_capabilities(hw);
    if needs_xmp(hw) {
        assert(n[0] == Capability::EnableXmp);
    }
    let b = blocked_capabilities(hw);
    assert(b[b.len() - 1] == Capability::RamTimingsRuntime);
}

} // verus!
