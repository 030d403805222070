//! Super I/O voltage-input mapping: the probed chip, the rail roles and their plausible ranges,
//! and the board/chip matching rules used to pick a VIN profile.
use vstd::prelude::*;
use crate::safe_loop::{hex_digit_value, hex_number, is_hex_digit};
use crate::detector::MotherboardInfo;
use crate::sensor_meta::{quality_name, source_name, SensorQuality, SensorSource};
use crate::text::{
    compare_text, hex4_upper, hex4_upper_text, lemma_text_lt_irreflexive, same_text, text_chars, text_lt, trim_chars, trim_range, TextOrder,
};

verus! {

/// Super I/O chip vendor.
#[derive(Debug, Clone, Copy, PartialEq, Eq)]
pub enum SuperIoVendor {
    Ite,
    Nuvoton,
}

/// What a voltage input measures.
#[derive(Debug, Clone, Copy, PartialEq, Eq)]
pub enum RailRole {
    CpuVcore,
    Dram,
    TwelveVolt,
    FiveVolt,
    CpuSa,
    CpuVio,
    Vsb,
    V33,
    Avcc,
    Unknown,
}

/// The profile-file name of a rail role.
pub open spec fn role_name(r: RailRole) -> Seq<char> {
    match r {
        RailRole::CpuVcore => "cpu_vcore"@,
        RailRole::Dram => "dram"@,
        RailRole::TwelveVolt => "12v"@,
        RailRole::FiveVolt => "5v"@,
        RailRole::CpuSa => "cpu_sa"@,
        RailRole::CpuVio => "cpu_vio"@,
        RailRole::Vsb => "vsb"@,
        RailRole::V33 => "3v3"@,
        RailRole::Avcc => "avcc"@,
        RailRole::Unknown => "unknown"@,
    }
}

/// Distinct roles have distinct names, so reading back a role's own name gives the role: for
/// every `r`, `RailRole::from_json(r.as_str())` is `r` (by the contracts of both).
pub proof fn lemma_role_names_distinct(a: RailRole, b: RailRole)
    ensures
        role_name(a) == role_name(b) ==> a == b,
{
    reveal_strlit("cpu_vcore");
    reveal_strlit("dram");
    reveal_strlit("12v");
    reveal_strlit("5v");
    reveal_strlit("cpu_sa");
    reveal_strlit("cpu_vio");
    reveal_strlit("vsb");
    reveal_strlit("3v3");
    reveal_strlit("avcc");
    reveal_strlit("unknown");
    if role_name(a) == role_name(b) && a != b {
        let na = role_name(a);
        let nb = role_name(b);
        assert(na.len() == nb.len());
        assert(na[0] == nb[0]);
        assert(na[na.len() - 1] == nb[nb.len() - 1]);
        if na.len() > 3 {
            assert(na[3] == nb[3]);
        }
        if na.len() > 4 {
            assert(na[4] == nb[4]);
        }
    }
}

impl RailRole {
    pub fn as_str(self) -> (r: &'static str)
        ensures
            r@ == role_name(self),
    {
        match self {
            Self::CpuVcore => "cpu_vcore",
            Self::Dram => "dram",
            Self::TwelveVolt => "12v",
            Self::FiveVolt => "5v",
            Self::CpuSa => "cpu_sa",
            Self::CpuVio => "cpu_vio",
            Self::Vsb => "vsb",
            Self::V33 => "3v3",
            Self::Avcc => "avcc",
            Self::Unknown => "unknown",
        }
    }

    /// The role a profile file names; any unrecognised name is `Unknown`.
    pub fn from_json(s: &str) -> (r: Self)
        ensures
            (exists|k: RailRole| k != RailRole::Unknown && role_name(k) == s@) ==> role_name(r) == s@,
            (forall|k: RailRole| k != RailRole::Unknown ==> role_name(k) != s@) ==> r == RailRole::Unknown,
    {
        let candidates = [
            RailRole::CpuVcore,
            RailRole::Dram,
            RailRole::TwelveVolt,
            RailRole::FiveVolt,
            RailRole::CpuSa,
            RailRole::CpuVio,
            RailRole::Vsb,
            RailRole::V33,
            RailRole::Avcc,
        ];
        let mut i: usize = 0;
        while i < 9
            invariant
                i <= 9,
                candidates@ == seq![
                    RailRole::CpuVcore,
                    RailRole::Dram,
                    RailRole::TwelveVolt,
                    RailRole::FiveVolt,
                    RailRole::CpuSa,
                    RailRole::CpuVio,
                    RailRole::Vsb,
                    RailRole::V33,
                    RailRole::Avcc,
                ],
                forall|j: int| 0 <= j < i ==> role_name(#[trigger] candidates@[j]) != s@,
            decreases 9 - i,
        {
            let role = candidates[i];
            match compare_text(role.as_str(), s) {
                TextOrder::Equal => {
                    return role;
                },
                _ => {},
            }
            i = i + 1;
        }
        proof {
            assert forall|k: RailRole| k != RailRole::Unknown implies role_name(k) != s@ by {
                match k {
                    RailRole::CpuVcore => assert(candidates@[0] == k),
                    RailRole::Dram => assert(candidates@[1] == k),
                    RailRole::TwelveVolt => assert(candidates@[2] == k),
                    RailRole::FiveVolt => assert(candidates@[3] == k),
                    RailRole::CpuSa => assert(candidates@[4] == k),
                    RailRole::CpuVio => assert(candidates@[5] == k),
                    RailRole::Vsb => assert(candidates@[6] == k),
                    RailRole::V33 => assert(candidates@[7] == k),
                    RailRole::Avcc => assert(candidates@[8] == k),
                    RailRole::Unknown => {},
                }
            }
        }
        RailRole::Unknown
    }
}

/// Max VIN channels (NCT6798D exposes 15; ITE boards use the first 9).
pub const VIN_RAW_LEN: usize = 18;

/// What the Super I/O probe found.
#[derive(Debug, Clone)]
pub struct SuperIoProbe {
    pub chip_id: u16,
    pub vendor: SuperIoVendor,
    pub lpc_slot: u8,
    pub io_base: u16,
    pub vin_raw: [u8; 18],
}

/// One labelled motherboard rail reading.
#[derive(Debug, Clone, PartialEq, Eq)]
pub struct MotherboardRail {
    pub label: String,
    pub role: String,
    pub channel: u8,
    pub voltage_mv: u32,
    pub source: String,
    pub quality: String,
}

/// The resolved Super I/O identity and its rails.
#[derive(Debug, Clone, PartialEq, Eq)]
pub struct ResolvedSuperIo {
    pub chip_id_hex: String,
    pub profile_id: String,
    pub profile_source: String,
    pub board_vendor: String,
    pub board_model: String,
    pub rails: Vec<MotherboardRail>,
}

/// The resolved rails with the CPU core and DRAM voltages picked out.
#[derive(Debug, Clone, PartialEq, Eq)]
pub struct ResolvedRails {
    pub meta: ResolvedSuperIo,
    pub cpu_vcore_mv: Option<u32>,
    pub dram_mv: Option<u32>,
}

/// A probed chip id that can belong to a real chip (the bus reads all zeros or all ones when
/// nothing answers).
pub fn chip_id_is_plausible(chip_id: u16) -> (r: bool)
    ensures
        r == (chip_id != 0 && chip_id != 0xFFFF),
{
    chip_id != 0 && chip_id != 0xFFFF
}

/// The millivolt range a reading must fall in to be trusted for its role.
pub open spec fn plausible_range(role: RailRole) -> (int, int) {
    match role {
        RailRole::CpuVcore | RailRole::CpuSa | RailRole::CpuVio => (400, 2200),
        RailRole::Dram => (900, 2200),
        RailRole::TwelveVolt => (10_000, 14_000),
        RailRole::FiveVolt => (4_000, 6_000),
        RailRole::V33 | RailRole::Avcc => (2_800, 3_600),
        RailRole::Vsb => (2_800, 4_000),
        RailRole::Unknown => (100, 15_000),
    }
}

/// Whether a reading is plausible for its role.
pub fn is_plausible_for_role(role: RailRole, mv: u32) -> (r: bool)
    ensures
        r == (plausible_range(role).0 <= mv <= plausible_range(role).1),
{
    match role {
        RailRole::CpuVcore | RailRole::CpuSa | RailRole::CpuVio => 400 <= mv && mv <= 2200,
        RailRole::Dram => 900 <= mv && mv <= 2200,
        RailRole::TwelveVolt => 10_000 <= mv && mv <= 14_000,
        RailRole::FiveVolt => 4_000 <= mv && mv <= 6_000,
        RailRole::V33 | RailRole::Avcc => 2_800 <= mv && mv <= 3_600,
        RailRole::Vsb => 2_800 <= mv && mv <= 4_000,
        RailRole::Unknown => 100 <= mv && mv <= 15_000,
    }
}

/// Nuvoton channel voltage before any resistor divider: `raw · scale / 100` mV, with a scale of
/// 0 standing for the default 800 (8 mV per LSB).
pub fn nuvoton_base_mv(raw: u8, scale: u16) -> (r: u32)
    ensures
        r == raw as int * (if scale > 0 {
            scale as int
        } else {
            800
        }) / 100,
{
    let s: u32 = if scale > 0 {
        scale as u32
    } else {
        800
    };
    assert(raw as u32 * s <= 255 * 65535) by (nonlinear_arith)
        requires
            s <= 65535,
    ;
    (raw as u32 * s) / 100
}

/// An ASCII letter or digit.
pub open spec fn is_ascii_alnum(c: char) -> bool {
    ('0' <= c && c <= '9') || ('a' <= c && c <= 'z') || ('A' <= c && c <= 'Z')
}

/// ASCII lower case of a letter or digit.
pub open spec fn ascii_lower(c: char) -> char {
    if 'A' <= c && c <= 'Z' {
        ((c as int) + 32) as char
    } else {
        c
    }
}

/// An identity with everything but ASCII letters and digits removed, lower-cased.
pub open spec fn normalized(s: Seq<char>) -> Seq<char>
    decreases s.len(),
{
    if s.len() == 0 {
        Seq::empty()
    } else if is_ascii_alnum(s.last()) {
        normalized(s.drop_last()).push(ascii_lower(s.last()))
    } else {
        normalized(s.drop_last())
    }
}

/// Normalise a board/vendor identity for matching.
pub fn normalize_id(s: &str) -> (r: Vec<char>)
    ensures
        r@ == normalized(s@),
{
    let chars = text_chars(s);
    let mut out: Vec<char> = Vec::new();
    let mut i: usize = 0;
    while i < chars.len()
        invariant
            chars@ == s@,
            i <= chars@.len(),
            out@ == normalized(s@.take(i as int)),
        decreases chars@.len() - i,
    {
        let c = chars[i];
        proof {
            assert(s@.take(i as int + 1).drop_last() =~= s@.take(i as int));
        }
        if ('0' <= c && c <= '9') || ('a' <= c && c <= 'z') {
            out.push(c);
        } else if 'A' <= c && c <= 'Z' {
            out.push(((c as u32) + 32) as u8 as char);
        }
        i = i + 1;
    }
    proof {
        assert(s@.take(chars@.len() as int) =~= s@);
    }
    out
}

/// `needle` occurs in `hay` at position `i`.
pub open spec fn occurs_at(hay: Seq<char>, needle: Seq<char>, i: int) -> bool {
    0 <= i && i + needle.len() <= hay.len() && hay.subrange(i, i + needle.len()) == needle
}

/// `needle` occurs somewhere in `hay` (the empty needle occurs everywhere).
pub open spec fn contains_text(hay: Seq<char>, needle: Seq<char>) -> bool {
    exists|i: int| occurs_at(hay, needle, i)
}

/// Whether `needle` occurs in `hay`.
pub fn contains_chars(hay: &Vec<char>, needle: &Vec<char>) -> (r: bool)
    ensures
        r == contains_text(hay@, needle@),
{
    let n = hay.len();
    let m = needle.len();
    if m > n {
        proof {
            assert forall|i: int| !occurs_at(hay@, needle@, i) by {}
        }
        return false;
    }
    let mut i: usize = 0;
    while i <= n - m
        invariant
            n == hay@.len(),
            m == needle@.len(),
            m <= n,
            i <= n - m + 1,
            forall|k: int| 0 <= k < i ==> !occurs_at(hay@, needle@, k),
        decreases n - m + 1 - i,
    {
        let mut j: usize = 0;
        let mut same = true;
        while j < m
            invariant
                n == hay@.len(),
                m == needle@.len(),
                i + m <= n,
                j <= m,
                same == (forall|k: int| 0 <= k < j ==> hay@[i + k] == needle@[k]),
            decreases m - j,
        {
            if hay[i + j] != needle[j] {
                same = false;
            }
            j = j + 1;
        }
        if same {
            proof {
                assert(hay@.subrange(i as int, i + m) =~= needle@);
                assert(occurs_at(hay@, needle@, i as int));
            }
            return true;
        }
        proof {
            assert(!occurs_at(hay@, needle@, i as int)) by {
                if occurs_at(hay@, needle@, i as int) {
                    assert forall|k: int| 0 <= k < m implies hay@[i + k] == needle@[k] by {
                        assert(hay@.subrange(i as int, i + m)[k] == hay@[i + k]);
                    }
                }
            }
        }
        i = i + 1;
    }
    proof {
        assert forall|k: int| !occurs_at(hay@, needle@, k) by {
            if 0 <= k && k + m <= n {
                assert(k < i);
            }
        }
    }
    false
}

/// Board-specific profile ids are picked only by a board rule, never by chip family.
pub fn is_board_specific_profile_id(id: &str) -> (r: bool)
    ensures
        r == (contains_text(id@, "asus"@) || contains_text(id@, "msi_"@) || contains_text(
            id@,
            "gigabyte"@,
        )),
{
    let hay = text_chars(id);
    contains_chars(&hay, &text_chars("asus")) || contains_chars(&hay, &text_chars("msi_"))
        || contains_chars(&hay, &text_chars("gigabyte"))
}

/// Some listed fragment, normalised, occurs in the normalised identity.
pub open spec fn any_fragment_occurs(identity: Seq<char>, fragments: Seq<String>) -> bool {
    exists|i: int|
        0 <= i < fragments.len() && contains_text(identity, normalized((#[trigger] fragments[i])@))
}

/// Whether some fragment, normalised, occurs in the (already normalised) identity.
pub fn any_fragment_matches(identity: &Vec<char>, fragments: &Vec<String>) -> (r: bool)
    ensures
        r == any_fragment_occurs(identity@, fragments@),
{
    let mut i: usize = 0;
    while i < fragments.len()
        invariant
            i <= fragments@.len(),
            forall|j: int|
                0 <= j < i ==> !contains_text(identity@, normalized((#[trigger] fragments@[j])@)),
        decreases fragments@.len() - i,
    {
        let frag = normalize_id(fragments[i].as_str());
        if contains_chars(identity, &frag) {
            return true;
        }
        i = i + 1;
    }
    false
}

/// The value of the hexadecimal text `s[lo..hi]` after an optional leading `+`, as the radix-16
/// integer parser reads it: `None` for no digits, any non-hex character, or a value above
/// `max`.
pub open spec fn radix16_value(s: Seq<char>, lo: int, hi: int, max: int) -> Option<int> {
    let start = if lo < hi && s[lo] == '+' {
        lo + 1
    } else {
        lo
    };
    if start >= hi || exists|k: int| start <= k < hi && !is_hex_digit(#[trigger] s[k]) {
        None
    } else if hex_number(s, start, (hi - start) as nat) > max {
        None
    } else {
        Some(hex_number(s, start, (hi - start) as nat))
    }
}

proof fn lemma_hex_number_monotone(s: Seq<char>, start: int, n: nat, m: nat)
    requires
        n <= m,
        forall|k: int| start <= k < start + m ==> is_hex_digit(#[trigger] s[k]),
    ensures
        0 <= hex_number(s, start, n) <= hex_number(s, start, m),
    decreases m,
{
    if n < m {
        lemma_hex_number_monotone(s, start, n, (m - 1) as nat);
        assert(0 <= hex_digit_value(s[start + m - 1]));
    } else if n > 0 {
        lemma_hex_number_monotone(s, start, (n - 1) as nat, (n - 1) as nat);
        assert(0 <= hex_digit_value(s[start + n - 1]));
    }
}

fn parse_radix16(s: &Vec<char>, lo: usize, hi: usize, max: u64) -> (r: Option<u64>)
    requires
        lo <= hi <= s@.len(),
    ensures
        r matches Some(v) ==> v <= max,
        radix16_value(s@, lo as int, hi as int, max as int) matches Some(v) ==> 0 <= v <= max,
        match radix16_value(s@, lo as int, hi as int, max as int) {
            Some(v) => r == Some(v as u64),
            None => r is None,
        },
{
    let start = if lo < hi && s[lo] == '+' {
        lo + 1
    } else {
        lo
    };
    if start >= hi {
        return None;
    }
    proof {
        if radix16_value(s@, lo as int, hi as int, max as int) is Some {
            lemma_hex_number_monotone(s@, start as int, 0, (hi - start) as nat);
        }
    }
    let mut value: u64 = 0;
    let mut i: usize = start;
    while i < hi
        invariant
            lo <= start < hi <= s@.len(),
            start <= i <= hi,
            forall|k: int| start <= k < i ==> is_hex_digit(#[trigger] s@[k]),
            value == hex_number(s@, start as int, (i - start) as nat),
            value <= max,
            start == (if lo < hi && s@[lo as int] == '+' {
                lo + 1
            } else {
                lo as int
            }),
        decreases hi - i,
    {
        let c = s[i];
        let d: u64 = if '0' <= c && c <= '9' {
            (c as u32 - '0' as u32) as u64
        } else if 'a' <= c && c <= 'f' {
            (c as u32 - 'a' as u32 + 10) as u64
        } else if 'A' <= c && c <= 'F' {
            (c as u32 - 'A' as u32 + 10) as u64
        } else {
            proof {
                assert(!is_hex_digit(s@[i as int]));
            }
            return None;
        };
        proof {
            assert(hex_number(s@, start as int, (i + 1 - start) as nat) == value * 16 + d);
        }
        if d > max || value > (max - d) / 16 {
            proof {
                assert(value * 16 + d > max) by (nonlinear_arith)
                    requires
                        d > max || value > (max - d) / 16,
                        d < 16,
                        value >= 0,
                ;
                let all = (hi - start) as nat;
                if exists|k: int| start <= k < hi && !is_hex_digit(#[trigger] s@[k]) {
                } else {
                    lemma_hex_number_monotone(s@, start as int, (i + 1 - start) as nat, all);
                }
            }
            return None;
        }
        value = value * 16 + d;
        i = i + 1;
    }
    proof {
        lemma_hex_number_monotone(s@, start as int, 0, (hi - start) as nat);
    }
    Some(value)
}

/// The chip id written in a profile file: surrounding white space trimmed and a `0x` prefix
/// removed, then read as a radix-16 `u16`. Without the prefix the text is read as given,
/// untrimmed.
pub open spec fn chip_id_text_value(hex: Seq<char>) -> Option<int> {
    let (a, b) = trim_range(hex, 0, hex.len() as int);
    if b - a >= 2 && hex[a] == '0' && hex[a + 1] == 'x' {
        radix16_value(hex, a + 2, b, 0xFFFF)
    } else {
        radix16_value(hex, 0, hex.len() as int, 0xFFFF)
    }
}

/// Parse a chip id from a profile file.
pub fn parse_chip_id(hex: &str) -> (r: Option<u16>)
    ensures
        match chip_id_text_value(hex@) {
            Some(v) => r == Some(v as u16) && 0 <= v <= 0xFFFF,
            None => r is None,
        },
{
    let chars = text_chars(hex);
    let (a, b) = trim_chars(&chars, 0, chars.len());
    let parsed = if b - a >= 2 && chars[a] == '0' && chars[a + 1] == 'x' {
        parse_radix16(&chars, a + 2, b, 0xFFFF)
    } else {
        parse_radix16(&chars, 0, chars.len(), 0xFFFF)
    };
    match parsed {
        Some(v) => Some(v as u16),
        None => None,
    }
}

/// A board rule of the profile database: it applies when some vendor fragment and some product
/// fragment occur in the normalised board identity and, if it lists chip ids, one of them is the
/// probed chip.
#[derive(Debug, Clone, PartialEq, Eq)]
pub struct BoardRule {
    pub profile_id: String,
    pub vendor_contains: Vec<String>,
    pub product_contains: Vec<String>,
    pub chip_ids: Vec<String>,
}

/// Some listed chip id parses to `chip_id`.
pub open spec fn lists_chip(ids: Seq<String>, chip_id: u16) -> bool {
    exists|i: int| 0 <= i < ids.len() && chip_id_text_value((#[trigger] ids[i])@) == Some(chip_id as int)
}

/// Whether a board rule applies to a board (vendor and product already normalised) carrying
/// chip `chip_id`.
pub fn board_rule_matches(rule: &BoardRule, vendor_norm: &Vec<char>, product_norm: &Vec<char>, chip_id: u16) -> (r: bool)
    ensures
        r == (any_fragment_occurs(vendor_norm@, rule.vendor_contains@) && any_fragment_occurs(
            product_norm@,
            rule.product_contains@,
        ) && (rule.chip_ids@.len() == 0 || lists_chip(rule.chip_ids@, chip_id))),
{
    if !any_fragment_matches(vendor_norm, &rule.vendor_contains) {
        return false;
    }
    if !any_fragment_matches(product_norm, &rule.product_contains) {
        return false;
    }
    if rule.chip_ids.len() == 0 {
        return true;
    }
    let mut i: usize = 0;
    while i < rule.chip_ids.len()
        invariant
            i <= rule.chip_ids@.len(),
            any_fragment_occurs(vendor_norm@, rule.vendor_contains@),
            any_fragment_occurs(product_norm@, rule.product_contains@),
            forall|j: int|
                0 <= j < i ==> chip_id_text_value((#[trigger] rule.chip_ids@[j])@) != Some(chip_id as int),
        decreases rule.chip_ids@.len() - i,
    {
        match parse_chip_id(rule.chip_ids[i].as_str()) {
            Some(id) => {
                if id == chip_id {
                    proof {
                        assert(chip_id_text_value(rule.chip_ids@[i as int]@) == Some(chip_id as int));
                        assert(lists_chip(rule.chip_ids@, chip_id));
                    }
                    return true;
                }
            },
            None => {},
        }
        i = i + 1;
    }
    false
}


/// Some listed chip id parses to `chip_id`.
fn lists_chip_exec(ids: &Vec<String>, chip_id: u16) -> (r: bool)
    ensures
        r == lists_chip(ids@, chip_id),
{
    let mut i: usize = 0;
    while i < ids.len()
        invariant
            i <= ids@.len(),
            forall|j: int| 0 <= j < i ==> chip_id_text_value((#[trigger] ids@[j])@) != Some(chip_id as int),
        decreases ids@.len() - i,
    {
        match parse_chip_id(ids[i].as_str()) {
            Some(id) => {
                if id == chip_id {
                    proof {
                        assert(chip_id_text_value(ids@[i as int]@) == Some(chip_id as int));
                    }
                    return true;
                }
            },
            None => {},
        }
        i = i + 1;
    }
    false
}

/// The facts of a VIN profile that selection reads: its id, its chip vendor (`ite` or
/// `nuvoton`) and the chip ids it serves.
#[derive(Debug, Clone, PartialEq, Eq)]
pub struct ProfileEntry {
    pub id: String,
    pub vendor: String,
    pub chip_ids: Vec<String>,
}

/// How a VIN profile was picked.
#[derive(Debug, Clone, Copy, PartialEq, Eq)]
pub enum ProfileOrigin {
    BoardMatch,
    ChipFamily,
    GenericIte,
}

/// A board rule applies to a board (normalised vendor `v` and product `p`) carrying `chip_id`.
pub open spec fn board_rule_applies(rule: BoardRule, v: Seq<char>, p: Seq<char>, chip_id: u16) -> bool {
    any_fragment_occurs(v, rule.vendor_contains@) && any_fragment_occurs(p, rule.product_contains@) && (
    rule.chip_ids@.len() == 0 || lists_chip(rule.chip_ids@, chip_id))
}

/// The profile serves the probed chip's vendor.
pub open spec fn profile_vendor_ok(vendor: SuperIoVendor, p: ProfileEntry) -> bool {
    match vendor {
        SuperIoVendor::Ite => p.vendor@ == "ite"@,
        SuperIoVendor::Nuvoton => p.vendor@ == "nuvoton"@,
    }
}

/// Profiles listed in strictly increasing id order (each id once), as the database keeps them.
pub open spec fn profiles_in_id_order(profiles: Seq<ProfileEntry>) -> bool {
    forall|a: int, b: int| 0 <= a < b < profiles.len() ==> text_lt(profiles[a].id@, profiles[b].id@)
}

/// Position of the profile with id `id`.
pub open spec fn profile_at(profiles: Seq<ProfileEntry>, id: Seq<char>, k: int) -> bool {
    0 <= k < profiles.len() && profiles[k].id@ == id
}

/// Rule `i` picks its profile: it applies, and its profile exists and serves the chip vendor.
pub open spec fn rule_picks(
    rules: Seq<BoardRule>,
    profiles: Seq<ProfileEntry>,
    v: Seq<char>,
    p: Seq<char>,
    vendor: SuperIoVendor,
    chip_id: u16,
    i: int,
) -> bool {
    &&& 0 <= i < rules.len()
    &&& board_rule_applies(rules[i], v, p, chip_id)
    &&& exists|k: int| profile_at(profiles, rules[i].profile_id@, k) && profile_vendor_ok(vendor, #[trigger] profiles[k])
}

/// Profile `k` is picked by chip family: not board-specific, serves the vendor and lists the
/// chip.
pub open spec fn family_picks(profiles: Seq<ProfileEntry>, vendor: SuperIoVendor, chip_id: u16, k: int) -> bool {
    &&& 0 <= k < profiles.len()
    &&& !(contains_text(profiles[k].id@, "asus"@) || contains_text(profiles[k].id@, "msi_"@) || contains_text(
        profiles[k].id@,
        "gigabyte"@,
    ))
    &&& profile_vendor_ok(vendor, profiles[k])
    &&& lists_chip(profiles[k].chip_ids@, chip_id)
}

/// The profile selection: the first board rule that picks its profile; else the first
/// profile (in id order) picked by chip family; else the generic NCT6798D profile for a
/// Nuvoton chip when the database has it; else the generic 9-input ITE layout.
pub open spec fn selected_profile(
    rules: Seq<BoardRule>,
    profiles: Seq<ProfileEntry>,
    board_vendor: Seq<char>,
    board_product: Seq<char>,
    vendor: SuperIoVendor,
    chip_id: u16,
) -> (Seq<char>, ProfileOrigin) {
    let v = normalized(board_vendor);
    let p = normalized(board_product);
    if exists|i: int| rule_picks(rules, profiles, v, p, vendor, chip_id, i) {
        let i = choose|i: int|
            rule_picks(rules, profiles, v, p, vendor, chip_id, i) && forall|j: int|
                0 <= j < i ==> !rule_picks(rules, profiles, v, p, vendor, chip_id, j);
        (rules[i].profile_id@, ProfileOrigin::BoardMatch)
    } else if exists|k: int| family_picks(profiles, vendor, chip_id, k) {
        let k = choose|k: int|
            family_picks(profiles, vendor, chip_id, k) && forall|j: int|
                0 <= j < k ==> !family_picks(profiles, vendor, chip_id, j);
        (profiles[k].id@, ProfileOrigin::ChipFamily)
    } else if vendor == SuperIoVendor::Nuvoton && exists|k: int| profile_at(profiles, "nct6798d_generic"@, k) {
        ("nct6798d_generic"@, ProfileOrigin::ChipFamily)
    } else {
        ("generic_ite_9vin"@, ProfileOrigin::GenericIte)
    }
}

/// Position of the profile with id `id`, if any.
fn find_profile(profiles: &Vec<ProfileEntry>, id: &str) -> (r: Option<usize>)
    ensures
        match r {
            Some(k) => profile_at(profiles@, id@, k as int),
            None => forall|k: int| !profile_at(profiles@, id@, k),
        },
{
    let mut k: usize = 0;
    while k < profiles.len()
        invariant
            k <= profiles@.len(),
            forall|j: int| 0 <= j < k ==> !profile_at(profiles@, id@, j),
        decreases profiles@.len() - k,
    {
        if same_text(profiles[k].id.as_str(), id) {
            return Some(k);
        }
        k = k + 1;
    }
    None
}

fn profile_vendor_matches(vendor: SuperIoVendor, p: &ProfileEntry) -> (r: bool)
    ensures
        r == profile_vendor_ok(vendor, *p),
{
    match vendor {
        SuperIoVendor::Ite => same_text(p.vendor.as_str(), "ite"),
        SuperIoVendor::Nuvoton => same_text(p.vendor.as_str(), "nuvoton"),
    }
}

proof fn lemma_profile_ids_distinct(profiles: Seq<ProfileEntry>, a: int, b: int)
    requires
        profiles_in_id_order(profiles),
        0 <= a < profiles.len(),
        0 <= b < profiles.len(),
        profiles[a].id@ == profiles[b].id@,
    ensures
        a == b,
{
    if a < b {
        lemma_text_lt_irreflexive(profiles[a].id@);
    }
    if b < a {
        lemma_text_lt_irreflexive(profiles[a].id@);
    }
}

/// Pick the VIN profile for a board: see [`selected_profile`]. Returns the profile id and how it
/// was picked; the profiles come in id order, as the database keeps them.
pub fn select_profile(
    rules: &Vec<BoardRule>,
    profiles: &Vec<ProfileEntry>,
    board_vendor: &str,
    board_product: &str,
    vendor: SuperIoVendor,
    chip_id: u16,
) -> (r: (String, ProfileOrigin))
    requires
        profiles_in_id_order(profiles@),
    ensures
        (r.0@, r.1) == selected_profile(rules@, profiles@, board_vendor@, board_product@, vendor, chip_id),
{
    let v = normalize_id(board_vendor);
    let p = normalize_id(board_product);
    let ghost gv = v@;
    let ghost gp = p@;
    let mut i: usize = 0;
    while i < rules.len()
        invariant
            i <= rules@.len(),
            v@ == normalized(board_vendor@),
            p@ == normalized(board_product@),
            profiles_in_id_order(profiles@),
            forall|j: int| 0 <= j < i ==> !rule_picks(rules@, profiles@, v@, p@, vendor, chip_id, j),
        decreases rules@.len() - i,
    {
        let rule = &rules[i];
        if board_rule_matches(rule, &v, &p, chip_id) {
            match find_profile(profiles, rule.profile_id.as_str()) {
                Some(k) => {
                    if profile_vendor_matches(vendor, &profiles[k]) {
                        proof {
                            assert(rule_picks(rules@, profiles@, v@, p@, vendor, chip_id, i as int));
                            let c = choose|c: int|
                                rule_picks(rules@, profiles@, v@, p@, vendor, chip_id, c) && forall|j: int|
                                    0 <= j < c ==> !rule_picks(rules@, profiles@, v@, p@, vendor, chip_id, j);
                            if c < i {
                            } else if c > i {
                            }
                        }
                        return (rule.profile_id.clone(), ProfileOrigin::BoardMatch);
                    } else {
                        proof {
                            assert forall|k2: int|
                                profile_at(profiles@, rules@[i as int].profile_id@, k2) implies !profile_vendor_ok(
                                vendor,
                                #[trigger] profiles@[k2],
                            ) by {
                                lemma_profile_ids_distinct(profiles@, k as int, k2);
                            }
                        }
                    }
                },
                None => {},
            }
        }
        i = i + 1;
    }
    let mut k: usize = 0;
    while k < profiles.len()
        invariant
            k <= profiles@.len(),
            v@ == normalized(board_vendor@),
            p@ == normalized(board_product@),
            forall|j: int| 0 <= j < rules@.len() ==> !rule_picks(rules@, profiles@, v@, p@, vendor, chip_id, j),
            forall|j: int| 0 <= j < k ==> !family_picks(profiles@, vendor, chip_id, j),
        decreases profiles@.len() - k,
    {
        let pr = &profiles[k];
        if !is_board_specific_profile_id(pr.id.as_str()) && profile_vendor_matches(vendor, pr) && lists_chip_exec(
            &pr.chip_ids,
            chip_id,
        ) {
            proof {
                assert(family_picks(profiles@, vendor, chip_id, k as int));
                let c = choose|c: int|
                    family_picks(profiles@, vendor, chip_id, c) && forall|j: int|
                        0 <= j < c ==> !family_picks(profiles@, vendor, chip_id, j);
                if c < k {
                } else if c > k {
                }
            }
            return (pr.id.clone(), ProfileOrigin::ChipFamily);
        }
        k = k + 1;
    }
    if matches!(vendor, SuperIoVendor::Nuvoton) {
        match find_profile(profiles, "nct6798d_generic") {
            Some(_) => {
                return (String::from_str("nct6798d_generic"), ProfileOrigin::ChipFamily);
            },
            None => {},
        }
    }
    (String::from_str("generic_ite_9vin"), ProfileOrigin::GenericIte)
}


/// One profile channel as the host read it: its VIN index, label and role, and the millivolts the
/// host converted the channel's raw register to (the ITE scaling and the resistor dividers are
/// floating point and stay with the host).
#[derive(Debug, Clone, PartialEq, Eq)]
pub struct ChannelReading {
    pub index: u8,
    pub label: String,
    pub role: RailRole,
    pub voltage_mv: u32,
}

/// A channel yields a rail when it is a real VIN input of the probe whose register neither reads
/// empty (`0x00`) nor floating (`0xFF`), and its converted voltage is nonzero.
pub open spec fn channel_kept(vin_raw: Seq<u8>, ch: ChannelReading) -> bool {
    &&& (ch.index as int) < vin_raw.len()
    &&& vin_raw[ch.index as int] != 0 && vin_raw[ch.index as int] != 0xFF
    &&& ch.voltage_mv != 0
}

/// The channels that yield rails, in profile order.
pub open spec fn kept_channels(vin_raw: Seq<u8>, chans: Seq<ChannelReading>) -> Seq<ChannelReading> {
    chans.filter(|ch: ChannelReading| channel_kept(vin_raw, ch))
}

/// A reading is live when plausible for its role, else unavailable.
pub open spec fn reading_quality(ch: ChannelReading) -> SensorQuality {
    if plausible_range(ch.role).0 <= ch.voltage_mv <= plausible_range(ch.role).1 {
        SensorQuality::Live
    } else {
        SensorQuality::Unavailable
    }
}

/// The rail reported for a kept channel.
pub open spec fn rail_for(rail: MotherboardRail, ch: ChannelReading) -> bool {
    &&& rail.label@ == ch.label@
    &&& rail.role@ == role_name(ch.role)
    &&& rail.channel == ch.index
    &&& rail.voltage_mv == ch.voltage_mv
    &&& rail.source@ == source_name(SensorSource::SuperIo)
    &&& rail.quality@ == quality_name(reading_quality(ch))
}

/// The voltage of the first live channel with `role`, if any.
pub open spec fn first_live(chans: Seq<ChannelReading>, role: RailRole) -> Option<u32>
    decreases chans.len(),
{
    if chans.len() == 0 {
        None
    } else if chans[0].role == role && reading_quality(chans[0]) == SensorQuality::Live {
        Some(chans[0].voltage_mv)
    } else {
        first_live(chans.drop_first(), role)
    }
}

/// How the profile was picked, as reported.
pub open spec fn origin_name(o: ProfileOrigin) -> Seq<char> {
    match o {
        ProfileOrigin::BoardMatch => "board_match"@,
        ProfileOrigin::ChipFamily => "chip_family"@,
        ProfileOrigin::GenericIte => "generic_ite"@,
    }
}

proof fn lemma_first_live_push(chans: Seq<ChannelReading>, ch: ChannelReading, role: RailRole)
    ensures
        first_live(chans.push(ch), role) == match first_live(chans, role) {
            Some(v) => Some(v),
            None => if ch.role == role && reading_quality(ch) == SensorQuality::Live {
                Some(ch.voltage_mv)
            } else {
                None
            },
        },
    decreases chans.len(),
{
    if chans.len() > 0 {
        assert(chans.push(ch)[0] == chans[0]);
        assert(chans.push(ch).drop_first() =~= chans.drop_first().push(ch));
        lemma_first_live_push(chans.drop_first(), ch, role);
    } else {
        assert(chans.push(ch)[0] == ch);
        assert(chans.push(ch).drop_first() =~= Seq::<ChannelReading>::empty());
        assert(first_live(Seq::<ChannelReading>::empty(), role) is None);
    }
}

/// Map a probed Super I/O and its picked profile's channel readings to labelled rails: `None`
/// without a probe, for an implausible chip id (`0x0000`/`0xFFFF`), or when no channel yields a
/// rail; otherwise the rails of the kept channels in profile order, each live when plausible for
/// its role, with the first live CPU core and DRAM voltages picked out.
pub fn resolve_superio_rails(
    motherboard: &MotherboardInfo,
    probe: Option<&SuperIoProbe>,
    profile_id: &str,
    origin: ProfileOrigin,
    channels: &[ChannelReading],
) -> (r: Option<ResolvedRails>)
    ensures
        match probe {
            None => r is None,
            Some(p) => if p.chip_id == 0 || p.chip_id == 0xFFFF || kept_channels(p.vin_raw@, channels@).len() == 0 {
                r is None
            } else {
                r matches Some(res) && {
                    let kept = kept_channels(p.vin_raw@, channels@);
                    &&& res.meta.chip_id_hex@ == "0x"@ + hex4_upper(p.chip_id as nat)
                    &&& res.meta.profile_id@ == profile_id@
                    &&& res.meta.profile_source@ == origin_name(origin)
                    &&& res.meta.board_vendor@ == motherboard.vendor@
                    &&& res.meta.board_model@ == motherboard.model@
                    &&& res.meta.rails@.len() == kept.len()
                    &&& forall|j: int| 0 <= j < kept.len() ==> rail_for(#[trigger] res.meta.rails@[j], kept[j])
                    &&& res.cpu_vcore_mv == first_live(kept, RailRole::CpuVcore)
                    &&& res.dram_mv == first_live(kept, RailRole::Dram)
                }
            },
        },
{
    let p = match probe {
        Some(p) => p,
        None => {
            return None;
        },
    };
    if p.chip_id == 0 || p.chip_id == 0xFFFF {
        return None;
    }
    let ghost f = |ch: ChannelReading| channel_kept(p.vin_raw@, ch);
    let ghost mut kept: Seq<ChannelReading> = Seq::empty();
    let mut rails: Vec<MotherboardRail> = Vec::new();
    let mut cpu_vcore_mv: Option<u32> = None;
    let mut dram_mv: Option<u32> = None;
    let mut i: usize = 0;
    while i < channels.len()
        invariant
            i <= channels@.len(),
            f == (|ch: ChannelReading| channel_kept(p.vin_raw@, ch)),
            kept == channels@.take(i as int).filter(f),
            rails@.len() == kept.len(),
            forall|j: int| 0 <= j < kept.len() ==> rail_for(#[trigger] rails@[j], kept[j]),
            cpu_vcore_mv == first_live(kept, RailRole::CpuVcore),
            dram_mv == first_live(kept, RailRole::Dram),
        decreases channels@.len() - i,
    {
        let ch = &channels[i];
        let idx = ch.index as usize;
        let keep = if idx >= VIN_RAW_LEN {
            false
        } else {
            let raw = p.vin_raw[idx];
            raw != 0 && raw != 0xFF && ch.voltage_mv != 0
        };
        proof {
            assert(keep == f(channels@[i as int]));
            assert(channels@.take(i + 1) =~= channels@.take(i as int).push(channels@[i as int]));
            channels@.take(i as int).lemma_filter_push(channels@[i as int], f);
        }
        if keep {
            let live = is_plausible_for_role(ch.role, ch.voltage_mv);
            let quality = if live {
                SensorQuality::Live
            } else {
                SensorQuality::Unavailable
            };
            let rail = MotherboardRail {
                label: ch.label.clone(),
                role: String::from_str(ch.role.as_str()),
                channel: ch.index,
                voltage_mv: ch.voltage_mv,
                source: String::from_str(SensorSource::SuperIo.as_str()),
                quality: String::from_str(quality.as_str()),
            };
            proof {
                lemma_first_live_push(kept, channels@[i as int], RailRole::CpuVcore);
                lemma_first_live_push(kept, channels@[i as int], RailRole::Dram);
            }
            if cpu_vcore_mv.is_none() && live && matches!(ch.role, RailRole::CpuVcore) {
                cpu_vcore_mv = Some(ch.voltage_mv);
            }
            if dram_mv.is_none() && live && matches!(ch.role, RailRole::Dram) {
                dram_mv = Some(ch.voltage_mv);
            }
            rails.push(rail);
            proof {
                kept = kept.push(channels@[i as int]);
            }
        }
        i = i + 1;
    }
    proof {
        assert(channels@.take(channels@.len() as int) =~= channels@);
    }
    if rails.len() == 0 {
        return None;
    }
    let mut chip_id_hex = String::from_str("0x");
    chip_id_hex.append(hex4_upper_text(p.chip_id).as_str());
    let profile_source = match origin {
        ProfileOrigin::BoardMatch => String::from_str("board_match"),
        ProfileOrigin::ChipFamily => String::from_str("chip_family"),
        ProfileOrigin::GenericIte => String::from_str("generic_ite"),
    };
    Some(
        ResolvedRails {
            meta: ResolvedSuperIo {
                chip_id_hex,
                profile_id: String::from_str(profile_id),
                profile_source,
                board_vendor: motherboard.vendor.clone(),
                board_model: motherboard.model.clone(),
                rails,
            },
            cpu_vcore_mv,
            dram_mv,
        },
    )
}

/// The plausibility bands of the rail roles, in mV: CPU core, SA and IO 400–2200, DRAM 900–2200,
/// 12 V 10000–14000, 5 V 4000–6000, 3.3 V and AVCC 2800–3600, standby 2800–4000, unknown
/// 100–15000. In particular a healthy rail (within 5% of its nominal 12 V, 5 V or 3.3 V) is
/// reported live.
pub proof fn lemma_plausible_bands(ch: ChannelReading)
    ensures
        (ch.role == RailRole::CpuVcore || ch.role == RailRole::CpuSa || ch.role == RailRole::CpuVio)
            ==> (reading_quality(ch) == SensorQuality::Live <==> 400 <= ch.voltage_mv <= 2200),
        ch.role == RailRole::Dram ==> (reading_quality(ch) == SensorQuality::Live <==> 900 <= ch.voltage_mv
            <= 2200),
        ch.role == RailRole::TwelveVolt ==> (reading_quality(ch) == SensorQuality::Live <==> 10_000
            <= ch.voltage_mv <= 14_000),
        ch.role == RailRole::FiveVolt ==> (reading_quality(ch) == SensorQuality::Live <==> 4_000
            <= ch.voltage_mv <= 6_000),
        (ch.role == RailRole::V33 || ch.role == RailRole::Avcc) ==> (reading_quality(ch)
            == SensorQuality::Live <==> 2_800 <= ch.voltage_mv <= 3_600),
        ch.role == RailRole::Vsb ==> (reading_quality(ch) == SensorQuality::Live <==> 2_800 <= ch.voltage_mv
            <= 4_000),
        ch.role == RailRole::Unknown ==> (reading_quality(ch) == SensorQuality::Live <==> 100
            <= ch.voltage_mv <= 15_000),
        ch.role == RailRole::TwelveVolt && 11_400 <= ch.voltage_mv <= 12_600 ==> reading_quality(ch)
            == SensorQuality::Live,
        ch.role == RailRole::FiveVolt && 4_750 <= ch.voltage_mv <= 5_250 ==> reading_quality(ch)
            == SensorQuality::Live,
        (ch.role == RailRole::V33 || ch.role == RailRole::Avcc || ch.role == RailRole::Vsb) && 3_135
            <= ch.voltage_mv <= 3_465 ==> reading_quality(ch) == SensorQuality::Live,
{
}

} // verus!
