use bution::hardware::{available_for_ai, detect_backend, ComputeBackend, GIB};

#[test]
fn reserves_two_gib_on_small_machine() {
    assert_eq!(available_for_ai(8 * GIB, 7 * GIB, false), 6 * GIB);
}

#[test]
fn reserves_fifteen_percent_on_large_machine() {
    assert_eq!(available_for_ai(32 * GIB, 32 * GIB, false), 29_205_777_613);
}

#[test]
fn current_pressure_reduces_ai_budget() {
    assert_eq!(available_for_ai(32 * GIB, 4 * GIB, false), 4 * GIB);
}

#[test]
fn unified_memory_uses_full_safe_budget() {
    assert_eq!(available_for_ai(16 * GIB, 1 * GIB, true), 14_602_888_807);
    assert_eq!(available_for_ai(8 * GIB, 500 * 1024 * 1024, true), 6 * GIB);
}

#[test]
fn unknown_availability_uses_safe_budget() {
    assert_eq!(available_for_ai(8 * GIB, 0, false), 6 * GIB);
}

#[test]
fn budget_never_exceeds_total_memory() {
    for total in [0, GIB, 2 * GIB, 3 * GIB, 64 * GIB] {
        assert!(available_for_ai(total, total, false) <= total);
    }
}

#[test]
fn backend_prefers_unified_memory_then_cuda_then_vulkan() {
    assert_eq!(detect_backend(true, true, true), ComputeBackend::Metal);
    assert_eq!(detect_backend(false, true, true), ComputeBackend::Cuda);
    assert_eq!(detect_backend(false, false, true), ComputeBackend::Vulkan);
    assert_eq!(detect_backend(false, false, false), ComputeBackend::Cpu);
}
