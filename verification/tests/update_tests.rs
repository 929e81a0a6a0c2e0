use std::io::Write;

use bution::update::{
    archive_kind, extract_binary, is_newer, parse_semver, release_update, restart_arguments, target_asset_name,
    ArchiveError, ArchiveKind, GitHubAsset, GitHubRelease,
};

#[test]
fn parses_various_semver_strings() {
    assert_eq!(parse_semver("0.1.0"), Some((0, 1, 0)));
    assert_eq!(parse_semver("v0.1.2"), Some((0, 1, 2)));
    assert_eq!(parse_semver("V1.20.3-beta"), Some((1, 20, 3)));
    assert_eq!(parse_semver("invalid"), None);
    assert_eq!(parse_semver("1.0"), None);
}

#[test]
fn correctly_identifies_newer_versions() {
    assert!(is_newer("v0.1.1", "0.1.0"));
    assert!(is_newer("v0.2.0", "0.1.9"));
    assert!(is_newer("v1.0.0", "0.9.9"));
    assert!(!is_newer("v0.1.0", "0.1.0"));
    assert!(!is_newer("v0.1.0", "0.1.1"));
    assert!(!is_newer("invalid", "0.1.0"));
}

#[test]
fn target_asset_name_is_non_empty() {
    assert!(!target_asset_name("linux", "x86_64").is_empty());
}

#[test]
fn asset_names_per_platform() {
    assert_eq!(target_asset_name("macos", "aarch64"), "bution-macos-arm64");
    assert_eq!(target_asset_name("macos", "x86_64"), "bution-macos-x64");
    assert_eq!(target_asset_name("windows", "x86_64"), "bution-windows-x64");
    assert_eq!(target_asset_name("linux", "aarch64"), "bution");
}

#[test]
fn semver_edge_cases() {
    assert_eq!(parse_semver("  vv2.3.4.5 "), Some((2, 3, 4)));
    assert_eq!(parse_semver("1.2.x"), None);
    assert_eq!(parse_semver("1.-2.3"), None);
    assert_eq!(parse_semver("18446744073709551616.0.0"), None);
}

fn asset(name: &str) -> GitHubAsset {
    GitHubAsset { name: name.into(), browser_download_url: format!("https://example.invalid/{name}") }
}

#[test]
fn newer_release_offers_the_platform_asset() {
    let release = GitHubRelease {
        tag_name: "v0.3.0".into(),
        html_url: "https://example.invalid/release".into(),
        assets: vec![asset("bution-windows-x64.zip"), asset("bution-macos-arm64.tar.gz")],
    };
    let info = release_update(release, "0.2.9", "bution-macos-arm64").unwrap();
    assert_eq!(info.latest_version, "v0.3.0");
    assert_eq!(info.current_version, "0.2.9");
    assert_eq!(info.download_url.as_deref(), Some("https://example.invalid/bution-macos-arm64.tar.gz"));
    let same = GitHubRelease { tag_name: "v0.2.9".into(), html_url: String::new(), assets: Vec::new() };
    assert!(release_update(same, "0.2.9", "bution").is_none());
}

#[test]
fn restart_adds_the_no_update_flag_once() {
    let args = restart_arguments(vec!["--model".into(), "m.gguf".into()]);
    assert_eq!(args, ["--model", "m.gguf", "--no-update-check"]);
    assert_eq!(restart_arguments(args.clone()), args);
}

fn zip_with(entries: &[(&str, &[u8])]) -> Vec<u8> {
    let mut writer = zip::ZipWriter::new(std::io::Cursor::new(Vec::new()));
    for (name, data) in entries {
        writer.start_file(*name, zip::write::SimpleFileOptions::default()).unwrap();
        writer.write_all(data).unwrap();
    }
    writer.finish().unwrap().into_inner()
}

fn tar_gz_with(entries: &[(&str, &[u8])]) -> Vec<u8> {
    let encoder = flate2::write::GzEncoder::new(Vec::new(), flate2::Compression::default());
    let mut builder = tar::Builder::new(encoder);
    for (name, data) in entries {
        let mut header = tar::Header::new_gnu();
        header.set_size(data.len() as u64);
        header.set_mode(0o755);
        header.set_cksum();
        builder.append_data(&mut header, name, *data).unwrap();
    }
    builder.into_inner().unwrap().finish().unwrap()
}

#[test]
fn extracts_the_executable_from_release_archives() {
    let zip = zip_with(&[("README.md", b"docs"), ("bin/bution.exe", b"EXE")]);
    assert_eq!(extract_binary("https://x/bution-windows-x64.zip", zip).unwrap(), b"EXE");
    let tgz = tar_gz_with(&[("LICENSE", b"text"), ("dist/bution", b"ELF")]);
    assert_eq!(extract_binary("https://x/bution.tar.gz", tgz).unwrap(), b"ELF");
    assert_eq!(extract_binary("https://x/bution", b"RAW".to_vec()).unwrap(), b"RAW");
}

#[test]
fn archives_without_the_executable_are_errors() {
    let zip = zip_with(&[("README.md", b"docs")]);
    assert_eq!(extract_binary("a.zip", zip), Err(ArchiveError::NoBinaryInZip));
    let tgz = tar_gz_with(&[("README.md", b"docs")]);
    assert_eq!(extract_binary("a.tgz", tgz), Err(ArchiveError::NoBinaryInTar));
    assert_eq!(extract_binary("a.zip", b"not a zip".to_vec()), Err(ArchiveError::Unreadable));
    assert_eq!(archive_kind("a.tar.gz"), ArchiveKind::TarGz);
    assert_eq!(archive_kind("a.exe"), ArchiveKind::Plain);
}

#[test]
fn formatted_versions_read_back() {
    for prefix in ["", "v", "V"] {
        for (a, b, c) in [(0u64, 0u64, 0u64), (1, 20, 3), (u64::MAX, 7, 10)] {
            for suffix in ["", "-beta", " rc1", "+build.5"] {
                let text = format!("{prefix}{a}.{b}.{c}{suffix}");
                assert_eq!(parse_semver(&text), Some((a, b, c)), "{text}");
            }
        }
    }
}
