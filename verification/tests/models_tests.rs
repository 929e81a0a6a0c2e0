use bution::hardware::GIB;
use bution::models::{estimate_memory, ModelError, ModelInfo, RunRecommendation};

fn header() -> Vec<u8> {
    b"GGUF\x03\x00\x00\x00".to_vec()
}

#[test]
fn validates_gguf_and_estimates_memory() {
    let model = ModelInfo::from_header("Qwen-32B-Q4_K_M.gguf".into(), Some("Qwen-32B-Q4_K_M"), true, &header(), 20 * GIB)
        .unwrap();
    assert_eq!(model.gguf_version, 3);
    assert_eq!(model.estimated_memory_bytes, 23 * GIB + (GIB * 6 / 10));
}

#[test]
fn recommends_cluster_only_when_local_memory_is_insufficient() {
    let model = ModelInfo::from_header("m.gguf".into(), Some("m"), true, &header(), 18 * GIB).unwrap();
    let report = model.fit_report(13 * GIB, &[13 * GIB]);
    assert_eq!(report.recommendation, RunRecommendation::Cluster);
}

#[test]
fn rejects_wrong_magic() {
    let result = ModelInfo::from_header("bad.gguf".into(), Some("bad"), true, b"NOPE\x03\x00\x00\x00", 8);
    assert_eq!(result.unwrap_err(), ModelError::BadMagic);
}

#[test]
fn rejects_short_files_other_versions_and_extensions() {
    assert_eq!(ModelInfo::from_header("a.gguf".into(), None, true, b"GGUF", 4).unwrap_err(), ModelError::TooSmall);
    assert_eq!(
        ModelInfo::from_header("a.gguf".into(), None, true, b"GGUF\x01\x00\x00\x00", 8).unwrap_err(),
        ModelError::UnsupportedVersion(1)
    );
    assert_eq!(ModelInfo::from_header("a.bin".into(), None, false, &header(), 8).unwrap_err(), ModelError::NotGgufExtension);
}

#[test]
fn fit_report_covers_local_and_insufficient_memory() {
    let model = ModelInfo::from_header("m.gguf".into(), Some("m"), true, &header(), 4 * GIB).unwrap();
    assert_eq!(model.fit_report(16 * GIB, &[]).recommendation, RunRecommendation::Local);
    assert_eq!(model.fit_report(GIB, &[GIB]).recommendation, RunRecommendation::InsufficientMemory);
    assert_eq!(estimate_memory(u64::MAX), u64::MAX);
    assert_eq!(estimate_memory(0), GIB);
}
