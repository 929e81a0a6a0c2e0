use bution::hub::by_size::sort_by_size;
use bution::hub::download::{
    PathStyle,
    check_complete, deletion_allowed, local_file_name, next_step, part_file_name, progress_due, range_header,
    resume_accepted, resume_state, DownloadError, DownloadStep,
};
use bution::hub::filtering::primary_quantization;
use bution::hub::huggingface::{
    download_segments, search_terms, select_files, select_repositories, uses_fallback, ApiLfs, ApiModel,
    ApiSibling, HubError, HubFile,
};
use bution::hub::quantization::Quantization;
use bution::hub::recommendations::{rank_rated, FitRating};
use bution::hardware::GIB;

#[test]
fn removes_auxiliary_and_split_ggufs() {
    assert!(primary_quantization("Qwen-Q4_K_M.gguf").is_some());
    for file in [
        "mmproj-Q5_K_M.gguf",
        "vision-Q8_0.gguf",
        "draft-Q4.gguf",
        "model-Q4_K_M-00001-of-00003.gguf",
        "model.safetensors",
    ] {
        assert!(primary_quantization(file).is_none(), "{file}");
    }
}

#[test]
fn recognizes_supported_quantizations() {
    for (file, expected) in [
        ("model-IQ4_XS.gguf", "IQ4_XS"),
        ("model-Q5_K_M.gguf", "Q5_K_M"),
        ("model-Q8_0.gguf", "Q8_0"),
        ("model-BF16.gguf", "BF16"),
        ("model-F16.gguf", "F16"),
    ] {
        assert_eq!(Quantization::parse(file).unwrap().label(), expected);
    }
    assert!(Quantization::parse("model-Q1.gguf").is_none());
    assert!(Quantization::parse("model.safetensors").is_none());
}

#[test]
fn quantization_ignores_case_and_reports_upper_case() {
    assert_eq!(Quantization::parse("qwen.q4_k_m.GGUF").unwrap().label(), "Q4_K_M");
    assert_eq!(Quantization::parse("dir/model Q6_K.gguf").unwrap().label(), "Q6_K");
}

fn sibling(name: &str, size: Option<u64>, lfs: Option<u64>) -> ApiSibling {
    ApiSibling { rfilename: name.to_owned(), size, lfs: lfs.map(|size| ApiLfs { size: Some(size) }) }
}

fn model(id: Option<&str>, underscore: Option<&str>, siblings: Vec<ApiSibling>) -> ApiModel {
    ApiModel {
        id: id.map(str::to_owned),
        underscore_id: underscore.map(str::to_owned),
        downloads: Some(12),
        likes: None,
        sha: Some("abc123".to_owned()),
        siblings,
    }
}

#[test]
fn search_keeps_models_with_an_id_and_a_gguf_file() {
    let models = vec![
        model(Some("a/one"), None, vec![sibling("x.GGUF", None, None)]),
        model(None, Some("b/two"), vec![sibling("y.gguf", None, None)]),
        model(Some("c/three"), None, vec![sibling("z.safetensors", None, None)]),
        model(None, None, vec![sibling("w.gguf", None, None)]),
    ];
    let repositories = select_repositories(&models);
    assert_eq!(repositories.len(), 2);
    assert_eq!(repositories[0].id, "a/one");
    assert_eq!(repositories[0].downloads, 12);
    assert_eq!(repositories[0].likes, 0);
    assert_eq!(repositories[1].id, "b/two");
}

#[test]
fn repository_files_are_primary_sized_and_sorted() {
    let listing = model(
        Some("owner/model-GGUF"),
        None,
        vec![
            sibling("model-Q8_0.gguf", Some(30), None),
            sibling("model-Q4_K_M.gguf", None, Some(10)),
            sibling("mmproj-Q8_0.gguf", Some(5), None),
            sibling("model-Q5_K_M.gguf", None, None),
            sibling("model-Q6_K.gguf", Some(0), None),
            sibling("model-Q2_K.gguf", Some(10), None),
        ],
    );
    let files = select_files("owner/model-GGUF", &listing).unwrap();
    let names: Vec<&str> = files.iter().map(|f| f.filename.as_str()).collect();
    assert_eq!(names, ["model-Q4_K_M.gguf", "model-Q2_K.gguf", "model-Q8_0.gguf"]);
    assert_eq!(files[0].revision, "abc123");
    assert_eq!(files[0].repository, "owner/model-GGUF");
    assert_eq!(files[0].quantization.label(), "Q4_K_M");
}

#[test]
fn repository_without_standalone_gguf_is_an_error() {
    let mut listing = model(Some("o/m"), None, vec![sibling("model-00001-of-00002-Q4_K_M.gguf", Some(3), None)]);
    listing.sha = None;
    assert_eq!(select_files("o/m", &listing).unwrap_err(), HubError::NoStandaloneGguf);
}

#[test]
fn missing_revision_means_main() {
    let mut listing = model(Some("o/m"), None, vec![sibling("m-Q4_0.gguf", Some(3), None)]);
    listing.sha = None;
    assert_eq!(select_files("o/m", &listing).unwrap()[0].revision, "main");
}

#[test]
fn blank_search_sends_nothing() {
    assert_eq!(search_terms("   "), None);
    assert_eq!(search_terms("  qwen 7b \n").as_deref(), Some("qwen 7b"));
}

#[test]
fn only_the_public_hub_falls_back_to_the_mirror() {
    assert!(uses_fallback("https://huggingface.co"));
    assert!(uses_fallback("https://huggingface.co//"));
    assert!(!uses_fallback("https://hf-mirror.com"));
}

fn hub_file(name: &str, gib: u64) -> HubFile {
    HubFile {
        repository: "owner/model-GGUF".into(),
        revision: "main".into(),
        filename: format!("model-{name}.gguf"),
        size_bytes: gib * GIB,
        quantization: Quantization(name.into()),
    }
}

#[test]
fn download_path_follows_repository_revision_and_name() {
    let mut file = hub_file("Q4_K_M", 1);
    file.filename = "sub/model.gguf".into();
    let segments = download_segments(&file);
    assert_eq!(segments, ["owner", "model-GGUF", "resolve", "main", "sub", "model.gguf"]);
}

#[test]
fn largest_fitting_file_is_recommended() {
    let files = vec![hub_file("Q8_0", 25), hub_file("Q4_K_M", 12), hub_file("Q5_K_M", 15)];
    let ratings = vec![FitRating::TooLarge, FitRating::Fits, FitRating::Fits];
    let ranked = rank_rated(files, &ratings);
    assert_eq!(ranked.len(), 3);
    assert_eq!(ranked[0].file.filename, "model-Q4_K_M.gguf");
    assert_eq!(ranked[0].rating, FitRating::Fits);
    assert_eq!(ranked[1].rating, FitRating::Recommended);
    assert_eq!(ranked[2].rating, FitRating::TooLarge);
    assert_eq!(ranked[1].estimated_memory_bytes, bution::models::estimate_memory(15 * GIB));
}

#[test]
fn nothing_is_recommended_when_nothing_fits() {
    let files = vec![hub_file("Q8_0", 25), hub_file("Q4_K_M", 12)];
    let ratings = vec![FitRating::TooLarge, FitRating::Tight];
    let ranked = rank_rated(files, &ratings);
    assert!(ranked.iter().all(|r| r.rating != FitRating::Recommended));
    assert_eq!(FitRating::Recommended.label(), "★ Recommended");
    assert_eq!(FitRating::TooLarge.label(), "Too large");
}

#[test]
fn sort_keeps_equal_sizes_in_order() {
    let files = vec![hub_file("A", 2), hub_file("B", 1), hub_file("C", 2), hub_file("D", 1)];
    let sorted = sort_by_size(files);
    let names: Vec<&str> = sorted.iter().map(|f| f.quantization.label()).collect();
    assert_eq!(names, ["B", "D", "A", "C"]);
}

#[test]
fn local_names_come_from_the_last_component() {
    assert_eq!(local_file_name("dir/model-Q4_K_M.gguf", PathStyle::Unix).unwrap(), "model-Q4_K_M.gguf");
    assert_eq!(local_file_name("model.gguf/", PathStyle::Unix).unwrap(), "model.gguf");
    assert_eq!(local_file_name("a/..", PathStyle::Unix), Err(DownloadError::NoLocalName));
    assert_eq!(local_file_name("", PathStyle::Unix), Err(DownloadError::NoLocalName));
    assert_eq!(part_file_name("model-Q4_K_M.gguf"), "model-Q4_K_M.gguf.part");
    assert_eq!(part_file_name("model"), "model.gguf.part");
}

#[test]
fn resume_decisions() {
    let state = resume_state(900, 800);
    assert!(state.reset_part);
    assert_eq!(state.resume_from, 0);
    let state = resume_state(777, 8200);
    assert!(!state.reset_part);
    assert_eq!(state.resume_from, 777);
    assert_eq!(next_step(777, 8200, 10), Err(DownloadError::NotEnoughSpace { need: 7423, have: 10 }));
    assert_eq!(next_step(777, 8200, 7423), Ok(DownloadStep::Fetch { range_from: Some(777) }));
    assert_eq!(next_step(0, 8200, 9000), Ok(DownloadStep::Fetch { range_from: None }));
    assert_eq!(next_step(8200, 8200, 0), Ok(DownloadStep::Finalize));
    assert_eq!(range_header(777), "bytes=777-");
    assert!(resume_accepted(777, 206, Some("bytes 777-8199/8200")));
    assert!(!resume_accepted(777, 200, Some("bytes 777-8199/8200")));
    assert!(!resume_accepted(777, 206, Some("bytes 0-8199/8200")));
    assert!(!resume_accepted(0, 206, Some("bytes 0-8199/8200")));
    assert!(progress_due(250, 1, 10));
    assert!(progress_due(10, 10, 10));
    assert!(!progress_due(10, 9, 10));
    assert_eq!(check_complete(5, 6), Err(DownloadError::Incomplete { expected: 6, received: 5 }));
    assert_eq!(check_complete(6, 6), Ok(()));
}

#[test]
fn deletes_only_gguf_files_directly_in_the_models_directory() {
    assert!(deletion_allowed("/data/models/a.gguf", "/data/models", PathStyle::Unix));
    assert!(deletion_allowed("/data/models//a.gguf", "/data/models/", PathStyle::Unix));
    assert!(!deletion_allowed("/data/models/sub/a.gguf", "/data/models", PathStyle::Unix));
    assert!(!deletion_allowed("/data/other/a.gguf", "/data/models", PathStyle::Unix));
    assert!(!deletion_allowed("/data/models/a.bin", "/data/models", PathStyle::Unix));
    assert!(!deletion_allowed("/data/models/../a.gguf", "/data/models", PathStyle::Unix));
}

#[test]
fn windows_paths_also_split_at_backslash() {
    assert_eq!(local_file_name("dir\\model.gguf", PathStyle::Windows).unwrap(), "model.gguf");
    assert_eq!(local_file_name("dir\\model.gguf", PathStyle::Unix).unwrap(), "dir\\model.gguf");
    assert!(deletion_allowed("C:\\Users\\a\\models\\m.gguf", "C:\\Users\\a\\models", PathStyle::Windows));
    assert!(deletion_allowed("C:\\Users\\a\\models/m.gguf", "C:\\Users\\a\\models\\", PathStyle::Windows));
    assert!(!deletion_allowed("C:\\Users\\a\\models\\sub\\m.gguf", "C:\\Users\\a\\models", PathStyle::Windows));
    assert!(!deletion_allowed("C:\\Users\\a\\models\\m.bin", "C:\\Users\\a\\models", PathStyle::Windows));
    assert!(!deletion_allowed("C:\\Users\\a\\models\\m.gguf", "C:\\Users\\a\\models", PathStyle::Unix));
}
