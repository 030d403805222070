//! A stable identity of the machine: the SHA-256 of its CPU, GPU, board and BIOS identity,
//! hex-encoded.
use vstd::prelude::*;
use sha2::Digest;
use crate::detector::{GpuInfo, HardwareInfo};

verus! {

/// What SHA-256 gives for `data` (32 bytes).
pub uninterp spec fn sha256(data: Seq<u8>) -> Seq<u8>;

/// SHA-256 of `data`.
///
/// Calls `sha2::Sha256::digest` and copies the 32-byte output into a vector. The contract
/// names the digest (`sha256`) and states only its length, 32 bytes, which `Sha256`'s output
/// type fixes.
#[verifier::external_body]
fn sha256_digest(data: &[u8]) -> (r: Vec<u8>)
    ensures
        r@ == sha256(data@),
        r@.len() == 32,
{
    sha2::Sha256::digest(data).to_vec()
}

/// The lowercase hexadecimal digit of a nibble.
pub open spec fn hex_char(v: int) -> char {
    if v < 10 {
        ('0' as int + v) as char
    } else {
        ('a' as int + v - 10) as char
    }
}

/// Lowercase hexadecimal text of bytes: two digits per byte, high nibble first.
pub open spec fn hex_lower(bytes: Seq<u8>) -> Seq<char>
    decreases bytes.len(),
{
    if bytes.len() == 0 {
        Seq::empty()
    } else {
        hex_lower(bytes.drop_last()) + seq![
            hex_char(bytes.last() as int / 16),
            hex_char(bytes.last() as int % 16),
        ]
    }
}

proof fn lemma_hex_lower_len(bytes: Seq<u8>)
    ensures
        hex_lower(bytes).len() == 2 * bytes.len(),
    decreases bytes.len(),
{
    if bytes.len() > 0 {
        lemma_hex_lower_len(bytes.drop_last());
    }
}

/// Lowercase hex encoding of bytes.
///
/// Calls `hex::encode`, which (per its source and documentation) writes each byte as two
/// lowercase hexadecimal digits, high nibble first; the contract states exactly that.
#[verifier::external_body]
fn hex_encode(bytes: &[u8]) -> (r: String)
    ensures
        r@ == hex_lower(bytes@),
{
    hex::encode(bytes)
}

/// The machine identity.
#[derive(Debug, Clone, PartialEq, Eq)]
pub struct MachineFingerprint {
    pub hash: String,
    pub cpu_model: String,
    pub gpu_models: Vec<String>,
    pub board: String,
    pub bios_version: String,
}

/// GPU model names joined by `,`.
pub open spec fn joined_models(gpus: Seq<GpuInfo>) -> Seq<char>
    decreases gpus.len(),
{
    if gpus.len() == 0 {
        Seq::empty()
    } else if gpus.len() == 1 {
        gpus[0].model@
    } else {
        joined_models(gpus.drop_last()) + ","@ + gpus.last().model@
    }
}

/// The board identity: vendor, a space, model.
pub open spec fn board_text(hw: HardwareInfo) -> Seq<char> {
    hw.motherboard.vendor@ + " "@ + hw.motherboard.model@
}

/// The hashed payload: `cpu|gpus|board|bios`.
pub open spec fn fingerprint_payload(hw: HardwareInfo) -> Seq<char> {
    hw.cpu.model@ + "|"@ + joined_models(hw.gpu@) + "|"@ + board_text(hw) + "|"@
        + hw.motherboard.bios_version@
}

/// Compute the machine fingerprint.
pub fn compute_fingerprint(hw: &HardwareInfo) -> (r: MachineFingerprint)
    ensures
        r.hash@ == hex_lower(sha256(vstd::utf8::encode_utf8(fingerprint_payload(*hw)))),
        r.hash@.len() == 64,
        r.cpu_model@ == hw.cpu.model@,
        r.gpu_models@.len() == hw.gpu@.len(),
        forall|i: int| 0 <= i < hw.gpu@.len() ==> #[trigger] r.gpu_models@[i]@ == hw.gpu@[i].model@,
        r.board@ == board_text(*hw),
        r.bios_version@ == hw.motherboard.bios_version@,
{
    let mut gpu_models: Vec<String> = Vec::new();
    let mut joined = String::new();
    let mut i: usize = 0;
    while i < hw.gpu.len()
        invariant
            i <= hw.gpu@.len(),
            gpu_models@.len() == i,
            forall|j: int| 0 <= j < i ==> #[trigger] gpu_models@[j]@ == hw.gpu@[j].model@,
            joined@ == joined_models(hw.gpu@.take(i as int)),
        decreases hw.gpu@.len() - i,
    {
        proof {
            assert(hw.gpu@.take(i as int + 1).drop_last() =~= hw.gpu@.take(i as int));
        }
        if i > 0 {
            joined.append(",");
        }
        joined.append(hw.gpu[i].model.as_str());
        gpu_models.push(hw.gpu[i].model.clone());
        proof {
            if i == 0 {
                assert(joined@ =~= hw.gpu@.take(1)[0].model@);
            }
        }
        i = i + 1;
    }
    proof {
        assert(hw.gpu@.take(hw.gpu@.len() as int) =~= hw.gpu@);
    }
    let mut board = hw.motherboard.vendor.clone();
    board.append(" ");
    board.append(hw.motherboard.model.as_str());
    let mut payload = hw.cpu.model.clone();
    payload.append("|");
    payload.append(joined.as_str());
    payload.append("|");
    payload.append(board.as_str());
    payload.append("|");
    payload.append(hw.motherboard.bios_version.as_str());
    let digest = sha256_digest(payload.as_str().as_bytes());
    let hash = hex_encode(digest.as_slice());
    proof {
        lemma_hex_lower_len(digest@);
        assert(payload@ =~= fingerprint_payload(*hw));
    }
    MachineFingerprint {
        hash,
        cpu_model: hw.cpu.model.clone(),
        gpu_models,
        board,
        bios_version: hw.motherboard.bios_version.clone(),
    }
}

} // verus!
