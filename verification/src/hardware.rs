//! Hardware inventory and safe memory budgeting.
use vstd::prelude::*;

verus! {

/// One gibibyte.
pub const GIB: u64 = 1073741824;

/// The memory kept back for the operating system: the larger of 2 GiB and
/// 15 % of physical memory (the 15 % is computed with a saturating product).
pub open spec fn os_reserve(total: u64) -> int {
    let fifteen = if total * 15 > u64::MAX { u64::MAX as int } else { total * 15 };
    let share = fifteen / 100;
    if share > 2 * GIB { share } else { 2 * GIB as int }
}

/// The budget that AI work may use after the reserve.
pub open spec fn safe_budget(total: u64) -> int {
    if total >= os_reserve(total) { total - os_reserve(total) } else { 0 }
}

/// Keeps the larger of 2 GiB or 15% of physical memory for the OS.
/// On unified memory the whole safe budget is usable; otherwise the memory
/// currently free caps it, unless the platform reported none.
pub fn available_for_ai(total: u64, currently_available: u64, unified_memory: bool) -> (budget: u64)
    ensures
        budget == (if unified_memory || currently_available == 0 {
            safe_budget(total)
        } else if currently_available < safe_budget(total) {
            currently_available as int
        } else {
            safe_budget(total)
        }),
{
    let fifteen = match total.checked_mul(15) {
        Some(product) => product,
        None => u64::MAX,
    };
    let share = fifteen / 100;
    let reserve = if share > 2 * GIB { share } else { 2 * GIB };
    let safe = total.saturating_sub(reserve);
    if unified_memory {
        safe
    } else if currently_available > 0 {
        if currently_available < safe { currently_available } else { safe }
    } else {
        safe
    }
}

} // verus!

verus! {

#[derive(Debug, Clone, Copy, PartialEq, Eq, Structural)]
pub enum ComputeBackend {
    Metal,
    Cuda,
    Vulkan,
    Cpu,
}

impl ComputeBackend {
    /// The display name of the backend.
    pub fn label(self) -> (s: &'static str)
        ensures
            s@ == (match self {
                ComputeBackend::Metal => "Metal"@,
                ComputeBackend::Cuda => "CUDA"@,
                ComputeBackend::Vulkan => "Vulkan"@,
                ComputeBackend::Cpu => "CPU"@,
            }),
    {
        match self {
            ComputeBackend::Metal => "Metal",
            ComputeBackend::Cuda => "CUDA",
            ComputeBackend::Vulkan => "Vulkan",
            ComputeBackend::Cpu => "CPU",
        }
    }
}

/// The inventory of the local machine.
#[derive(Debug, PartialEq, Eq)]
pub struct HardwareProfile {
    pub os: String,
    pub os_version: String,
    pub architecture: String,
    pub cpu: String,
    pub physical_cores: usize,
    pub logical_cores: usize,
    pub total_memory_bytes: u64,
    pub currently_available_bytes: u64,
    pub ai_memory_bytes: u64,
    pub backend: ComputeBackend,
    pub unified_memory: bool,
}

impl Clone for HardwareProfile {
    fn clone(&self) -> (copy: Self)
        ensures
            copy == *self,
    {
        HardwareProfile {
            os: self.os.clone(),
            os_version: self.os_version.clone(),
            architecture: self.architecture.clone(),
            cpu: self.cpu.clone(),
            physical_cores: self.physical_cores,
            logical_cores: self.logical_cores,
            total_memory_bytes: self.total_memory_bytes,
            currently_available_bytes: self.currently_available_bytes,
            ai_memory_bytes: self.ai_memory_bytes,
            backend: self.backend,
            unified_memory: self.unified_memory,
        }
    }
}

/// Apple unified memory runs on Metal; otherwise CUDA when `nvidia-smi` is
/// installed, Vulkan when `vulkaninfo` is, and the CPU when neither is.
pub fn detect_backend(unified_memory: bool, nvidia_smi_found: bool, vulkaninfo_found: bool) -> (backend: ComputeBackend)
    ensures
        backend == (if unified_memory {
            ComputeBackend::Metal
        } else if nvidia_smi_found {
            ComputeBackend::Cuda
        } else if vulkaninfo_found {
            ComputeBackend::Vulkan
        } else {
            ComputeBackend::Cpu
        }),
{
    if unified_memory {
        ComputeBackend::Metal
    } else if nvidia_smi_found {
        ComputeBackend::Cuda
    } else if vulkaninfo_found {
        ComputeBackend::Vulkan
    } else {
        ComputeBackend::Cpu
    }
}

} // verus!
