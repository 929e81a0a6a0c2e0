use bution::hub::download::PathStyle;
use bution::optimizer::{cache_key, OptimizationCache};

#[test]
fn cache_key_is_the_hex_sha256_of_the_fingerprint() {
    assert_eq!(cache_key(b""), "e3b0c44298fc1c149afbf4c8996fb92427ae41e4649b934ca495991b7852b855");
    assert_eq!(cache_key(b"abc"), "ba7816bf8f01cfea414140de5dae2223b00361a396177a9cb410ff61f20015ad");
}

#[test]
fn cache_files_live_in_the_cache_directory() {
    let cache = OptimizationCache::new("/cache".into());
    assert_eq!(cache.path("k", PathStyle::Unix), "/cache/k.json");
    assert_eq!(cache.temporary_path("k", PathStyle::Unix), "/cache/k.tmp");
}

#[test]
fn windows_cache_files_are_joined_with_backslash() {
    let cache = OptimizationCache::new("C:\\cache".to_string());
    assert_eq!(cache.path("k", PathStyle::Windows), "C:\\cache\\k.json");
    assert_eq!(cache.temporary_path("k", PathStyle::Windows), "C:\\cache\\k.tmp");
}
