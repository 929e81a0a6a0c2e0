//! GGUF validation, model inventory, and memory fit recommendations.
use vstd::prelude::*;

use crate::hardware::GIB;
use crate::text::{chars_of, string_from_chars};

verus! {

/// A validated local GGUF model. `path` is the model file's path as text.
#[derive(Debug, Clone, PartialEq, Eq)]
pub struct ModelInfo {
    pub path: String,
    pub name: String,
    pub gguf_version: u32,
    pub file_size_bytes: u64,
    pub estimated_memory_bytes: u64,
}

#[derive(Debug, Clone, Copy, PartialEq, Eq, Structural)]
pub enum RunRecommendation {
    Local,
    Cluster,
    InsufficientMemory,
}

#[derive(Debug, Clone, PartialEq, Eq)]
pub struct FitReport {
    pub model_required_bytes: u64,
    pub local_available_bytes: u64,
    pub cluster_available_bytes: u64,
    pub recommendation: RunRecommendation,
}

/// Why a file was not accepted as a GGUF model.
#[derive(Debug, Clone, Copy, PartialEq, Eq, Structural)]
pub enum ModelError {
    /// The file name does not end in `.gguf`.
    NotGgufExtension,
    /// The file is shorter than the eight header bytes.
    TooSmall,
    /// The first four bytes are not `GGUF`.
    BadMagic,
    /// The header names a GGUF version other than 2 or 3.
    UnsupportedVersion(u32),
}

impl ModelError {
    /// The message shown for this error.
    pub fn message(&self) -> (text: &'static str)
        ensures
            text@ == (match *self {
                ModelError::NotGgufExtension => "the selected file is not a .gguf model"@,
                ModelError::TooSmall => "model is too small to contain a GGUF header"@,
                ModelError::BadMagic => "the selected file does not have a GGUF header"@,
                ModelError::UnsupportedVersion(_) => "GGUF version is not supported"@,
            }),
    {
        match self {
            ModelError::NotGgufExtension => "the selected file is not a .gguf model",
            ModelError::TooSmall => "model is too small to contain a GGUF header",
            ModelError::BadMagic => "the selected file does not have a GGUF header",
            ModelError::UnsupportedVersion(_) => "GGUF version is not supported",
        }
    }
}

pub open spec fn sat_add(a: int, b: int) -> int {
    if a + b > u64::MAX { u64::MAX as int } else { a + b }
}

pub open spec fn sat_mul(a: int, b: int) -> int {
    if a * b > u64::MAX { u64::MAX as int } else { a * b }
}

/// File size plus 13 % for runtime tensors and alignment plus one GiB of
/// KV cache, every step saturating at `u64::MAX`.
pub open spec fn estimate_spec(file_size: u64) -> int {
    sat_add(sat_add(file_size as int, sat_mul(file_size as int, 13) / 100), GIB as int)
}

/// Accounts for runtime tensors, allocator alignment, and a modest KV cache.
pub fn estimate_memory(file_size: u64) -> (bytes: u64)
    ensures
        bytes == estimate_spec(file_size),
{
    let thirteen = match file_size.checked_mul(13) {
        Some(v) => v,
        None => u64::MAX,
    };
    file_size.saturating_add(thirteen / 100).saturating_add(GIB)
}

/// The little-endian 32-bit value of four bytes.
pub open spec fn le_u32(b0: u8, b1: u8, b2: u8, b3: u8) -> int {
    b0 + b1 * 256 + b2 * 65536 + b3 * 16777216
}

/// What the eight-byte GGUF header says: its version when the magic is
/// `GGUF` and the version is 2 or 3.
pub open spec fn header_spec(header: Seq<u8>) -> Result<u32, ModelError> {
    if header.len() < 8 {
        Err(ModelError::TooSmall)
    } else if header[0] != 0x47 || header[1] != 0x47 || header[2] != 0x55 || header[3] != 0x46 {
        Err(ModelError::BadMagic)
    } else {
        let version = le_u32(header[4], header[5], header[6], header[7]) as u32;
        if version == 2 || version == 3 {
            Ok(version)
        } else {
            Err(ModelError::UnsupportedVersion(version))
        }
    }
}

/// Checks the leading bytes of a model file.
pub fn parse_gguf_header(header: &[u8]) -> (r: Result<u32, ModelError>)
    ensures
        r == header_spec(header@),
{
    if header.len() < 8 {
        return Err(ModelError::TooSmall);
    }
    if header[0] != 0x47 || header[1] != 0x47 || header[2] != 0x55 || header[3] != 0x46 {
        return Err(ModelError::BadMagic);
    }
    let version: u32 = (header[4] as u32) + (header[5] as u32) * 256 + (header[6] as u32) * 65536
        + (header[7] as u32) * 16777216;
    if version == 2 || version == 3 {
        Ok(version)
    } else {
        Err(ModelError::UnsupportedVersion(version))
    }
}

/// The model name shown to the user: the file stem with `_` and `-` as spaces.
pub open spec fn display_name_spec(stem: Seq<char>) -> Seq<char> {
    stem.map_values(|c: char| if c == '_' || c == '-' { ' ' } else { c })
}

pub fn display_name(stem: Option<&str>) -> (name: String)
    ensures
        name@ == display_name_spec(
            match stem {
                Some(s) => s@,
                None => "GGUF model"@,
            },
        ),
{
    let chars = match stem {
        Some(s) => chars_of(s),
        None => chars_of("GGUF model"),
    };
    let mut out: Vec<char> = Vec::new();
    for i in 0..chars.len()
        invariant
            out@ == display_name_spec(chars@.take(i as int)),
    {
        let c = chars[i];
        out.push(if c == '_' || c == '-' { ' ' } else { c });
        proof {
            assert(chars@.take(i + 1) == chars@.take(i as int).push(c));
            assert(display_name_spec(chars@.take(i + 1)) =~= display_name_spec(chars@.take(i as int)).push(
                if c == '_' || c == '-' { ' ' } else { c },
            ));
        }
    }
    proof {
        assert(chars@.take(chars@.len() as int) == chars@);
    }
    string_from_chars(&out)
}

/// The sum of `values` onto `start`, saturating at `u64::MAX`.
pub open spec fn saturating_sum(start: int, values: Seq<u64>) -> int
    decreases values.len(),
{
    if values.len() == 0 {
        start
    } else {
        sat_add(saturating_sum(start, values.drop_last()), values.last() as int)
    }
}

impl ModelInfo {
    /// Builds the model record from what was read of the file: the path,
    /// its stem, whether it ends in `.gguf`, its leading bytes and its size.
    pub fn from_header(path: String, stem: Option<&str>, gguf_extension: bool, header: &[u8], file_size: u64) -> (r: Result<ModelInfo, ModelError>)
        ensures
            !gguf_extension ==> r == Err::<ModelInfo, ModelError>(ModelError::NotGgufExtension),
            gguf_extension ==> match header_spec(header@) {
                Err(e) => r == Err::<ModelInfo, ModelError>(e),
                Ok(version) => r matches Ok(m) && m.path == path && m.gguf_version == version
                    && m.file_size_bytes == file_size && m.estimated_memory_bytes == estimate_spec(file_size)
                    && m.name@ == display_name_spec(match stem { Some(s) => s@, None => "GGUF model"@ }),
            },
    {
        if !gguf_extension {
            return Err(ModelError::NotGgufExtension);
        }
        let version = match parse_gguf_header(header) {
            Ok(v) => v,
            Err(e) => return Err(e),
        };
        Ok(ModelInfo {
            path,
            name: display_name(stem),
            gguf_version: version,
            file_size_bytes: file_size,
            estimated_memory_bytes: estimate_memory(file_size),
        })
    }

    /// Where the model can run: locally when its estimate fits the local
    /// budget, on the cluster when it fits the saturating sum of all budgets.
    pub fn fit_report(&self, local_available: u64, worker_available: &[u64]) -> (report: FitReport)
        ensures
            report.model_required_bytes == self.estimated_memory_bytes,
            report.local_available_bytes == local_available,
            report.cluster_available_bytes == saturating_sum(local_available as int, worker_available@),
            report.recommendation == (if self.estimated_memory_bytes <= local_available {
                RunRecommendation::Local
            } else if self.estimated_memory_bytes <= report.cluster_available_bytes {
                RunRecommendation::Cluster
            } else {
                RunRecommendation::InsufficientMemory
            }),
    {
        let mut cluster_available = local_available;
        for i in 0..worker_available.len()
            invariant
                cluster_available == saturating_sum(local_available as int, worker_available@.take(i as int)),
        {
            proof {
                assert(worker_available@.take(i + 1).drop_last() == worker_available@.take(i as int));
            }
            cluster_available = cluster_available.saturating_add(worker_available[i]);
        }
        proof {
            assert(worker_available@.take(worker_available@.len() as int) == worker_available@);
        }
        let recommendation = if self.estimated_memory_bytes <= local_available {
            RunRecommendation::Local
        } else if self.estimated_memory_bytes <= cluster_available {
            RunRecommendation::Cluster
        } else {
            RunRecommendation::InsufficientMemory
        };
        FitReport {
            model_required_bytes: self.estimated_memory_bytes,
            local_available_bytes: local_available,
            cluster_available_bytes: cluster_available,
            recommendation,
        }
    }
}

} // verus!
