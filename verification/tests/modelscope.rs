use arle::modelscope::{
    cache_dir_for, has_safetensors_twin, has_weight_ext, is_cache_hit, is_weight_extension_str,
    is_weight_file, is_weight_file_with_extension, listing_url,
    parse_model_id, partial_extension, plan_downloads, resolve_url, select_repo_files,
    truncate_for_display, FileEntry, ModelScopeError, RepoFilesResponse,
};

fn entry(path: &str, size: u64, file_type: &str) -> FileEntry {
    FileEntry { path: path.to_string(), size, file_type: file_type.to_string() }
}

fn fixture() -> RepoFilesResponse {
    RepoFilesResponse {
        code: 200,
        files: vec![
            entry("config.json", 726, "blob"),
            entry("tokenizer.json", 11422654, "blob"),
            entry("tokenizer_config.json", 9732, "blob"),
            entry("model.safetensors", 1503300328, "blob"),
            entry("pytorch_model.bin", 1503300328, "blob"),
            entry("model.safetensors.index.json", 64000, "blob"),
            entry("LICENSE", 11343, "blob"),
            entry("weights", 0, "tree"),
            entry("adapter_model.bin", 100, "blob"),
        ],
    }
}

fn parse_repo_files() -> Result<Vec<FileEntry>, ModelScopeError> {
    select_repo_files(fixture())
}

#[test]
fn parse_model_id_accepts_org_slash_name() {
    assert_eq!(parse_model_id("Qwen/Qwen3-0.6B").unwrap(), ("Qwen", "Qwen3-0.6B"));
}

#[test]
fn parse_model_id_rejects_nested_paths() {
    assert!(parse_model_id("Qwen/Qwen3/0.6B").is_err());
}

#[test]
fn parse_model_id_rejects_bare_name() {
    assert!(parse_model_id("Qwen3-0.6B").is_err());
    assert!(parse_model_id("/Qwen3-0.6B").is_err());
    assert!(parse_model_id("Qwen/").is_err());
}

#[test]
fn parse_repo_files_drops_directory_entries() {
    let files = parse_repo_files().expect("parse");
    assert!(files.iter().all(|f| f.path != "weights"));
    assert!(files.iter().any(|f| f.path == "config.json"));
}

#[test]
fn is_weight_file_picks_safetensors_over_bin_twin() {
    let files = parse_repo_files().expect("parse");
    assert!(is_weight_file("model.safetensors", &files));
}

#[test]
fn is_weight_file_excludes_adapters() {
    let files = parse_repo_files().expect("parse");
    assert!(!is_weight_file("adapter_model.bin", &files));
}

#[test]
fn is_weight_file_rejects_indices_and_configs() {
    let files = parse_repo_files().expect("parse");
    assert!(!is_weight_file("model.safetensors.index.json", &files));
    assert!(!is_weight_file("config.json", &files));
    assert!(!is_weight_file("LICENSE", &files));
}

#[test]
fn cache_dir_layout_is_flat_org_name() {
    let p = cache_dir_for(None, Some("/home/u"), "Qwen", "Qwen3-0.6B").unwrap();
    assert!(p.join("/").ends_with("modelscope/hub/models/Qwen/Qwen3-0.6B"));
}

#[test]
fn cache_dir_respects_modelscope_cache_env() {
    let p = cache_dir_for(Some("/tmp/ms"), Some("/home/u"), "Qwen", "Qwen3-0.6B").unwrap();
    assert!(p.join("/").starts_with("/tmp/ms"));
    assert!(p.join("/").ends_with("Qwen/Qwen3-0.6B"));
}

#[test]
fn cache_dir_without_home_is_refused() {
    assert_eq!(cache_dir_for(None, None, "Qwen", "Qwen3-0.6B"), Err(ModelScopeError::HomeNotSet));
    assert_eq!(
        cache_dir_for(None, Some("/home/u"), "Qwen", "Qwen3-0.6B").unwrap(),
        vec!["/home/u", ".cache", "modelscope", "hub", "models", "Qwen", "Qwen3-0.6B"]
    );
}

#[test]
fn has_weight_ext_recognises_common_formats() {
    assert!(has_weight_ext("model.safetensors"));
    assert!(has_weight_ext("model.bin"));
    assert!(has_weight_ext("model.gguf"));
    assert!(!has_weight_ext("config.json"));
    assert!(!has_weight_ext("README.md"));
}

#[test]
fn has_weight_ext_reads_the_last_extension_only() {
    assert!(!has_weight_ext("safetensors"));
    assert!(!has_weight_ext(".bin"));
    assert!(has_weight_ext("dir.v2/shard-00001.safetensors"));
    assert!(!has_weight_ext("model.bin.txt"));
}

#[test]
fn bin_with_safetensors_twin_is_not_a_weight() {
    let files = vec![entry("model.safetensors", 1, "blob"), entry("model.bin", 1, "blob")];
    assert!(has_safetensors_twin(&files, "model.bin"));
    assert!(!is_weight_file("model.bin", &files));
    assert!(is_weight_file("model.safetensors", &files));
    let alone = vec![entry("pytorch_model.bin", 1, "blob")];
    assert!(!has_safetensors_twin(&alone, "pytorch_model.bin"));
    assert!(is_weight_file("pytorch_model.bin", &alone));
}

#[test]
fn listing_with_error_code_is_refused() {
    let mut response = fixture();
    response.code = 404;
    assert_eq!(select_repo_files(response), Err(ModelScopeError::ListingCode(404)));
}

#[test]
fn selected_files_keep_listing_order() {
    let files = parse_repo_files().unwrap();
    let paths: Vec<&str> = files.iter().map(|f| f.path.as_str()).collect();
    assert_eq!(
        paths,
        vec![
            "config.json",
            "tokenizer.json",
            "tokenizer_config.json",
            "model.safetensors",
            "pytorch_model.bin",
            "model.safetensors.index.json",
            "LICENSE",
            "adapter_model.bin",
        ]
    );
}

#[test]
fn plan_fetches_fixed_files_then_sorted_weights() {
    let files = parse_repo_files().unwrap();
    let plan = plan_downloads(&files).unwrap();
    let paths: Vec<&str> = plan.iter().map(|&i| files[i].path.as_str()).collect();
    assert_eq!(
        paths,
        vec![
            "config.json",
            "tokenizer.json",
            "tokenizer_config.json",
            "model.safetensors.index.json",
            "model.safetensors",
            "pytorch_model.bin",
        ]
    );
}

#[test]
fn plan_refuses_unusable_listings() {
    assert_eq!(plan_downloads(&[]), Err(ModelScopeError::EmptyFileList));
    assert_eq!(
        plan_downloads(&[entry("config.json", 1, "blob")]),
        Err(ModelScopeError::NoWeightFiles)
    );
    assert_eq!(
        plan_downloads(&[entry("model.safetensors", 1, "blob")]),
        Err(ModelScopeError::MissingMandatoryFiles)
    );
}

#[test]
fn plan_sorts_weight_shards_by_path() {
    let files = vec![
        entry("b.safetensors", 1, "blob"),
        entry("a.safetensors", 1, "blob"),
        entry("tokenizer.json", 1, "blob"),
    ];
    assert_eq!(plan_downloads(&files).unwrap(), vec![2, 1, 0]);
}

#[test]
fn urls_follow_the_modelscope_layout() {
    assert_eq!(
        listing_url("Qwen", "Qwen3-0.6B"),
        "https://www.modelscope.cn/api/v1/models/Qwen/Qwen3-0.6B/repo/files?Revision=master&Root="
    );
    assert_eq!(
        resolve_url("Qwen", "Qwen3-0.6B", "config.json"),
        "https://www.modelscope.cn/models/Qwen/Qwen3-0.6B/resolve/master/config.json"
    );
}

#[test]
fn partial_files_get_a_partial_extension() {
    assert_eq!(partial_extension(Some("safetensors")), "safetensors.partial");
    assert_eq!(partial_extension(None), "dl.partial");
}

#[test]
fn cache_hit_needs_matching_size() {
    assert!(is_cache_hit(10, true, 10));
    assert!(!is_cache_hit(10, true, 9));
    assert!(!is_cache_hit(0, true, 0));
    assert!(!is_cache_hit(10, false, 10));
}

#[test]
fn long_names_keep_their_tail() {
    assert_eq!(truncate_for_display("short.json"), "short.json");
    let long = "model-00001-of-00002.safetensors";
    assert_eq!(truncate_for_display(long), "...0001-of-00002.safetensors");
}

#[test]
fn plan_fetches_each_path_once() {
    let files = vec![
        entry("config.json", 1, "blob"),
        entry("b.safetensors", 1, "blob"),
        entry("config.json", 2, "blob"),
        entry("b.safetensors", 2, "blob"),
        entry("a.gguf", 1, "blob"),
    ];
    assert_eq!(plan_downloads(&files).unwrap(), vec![0, 4, 1]);
}

#[test]
fn model_ids_are_trimmed_before_splitting() {
    assert_eq!(parse_model_id("  Qwen/Qwen3-0.6B\n").unwrap(), ("Qwen", "Qwen3-0.6B"));
    assert_eq!(
        parse_model_id("a//b"),
        Err(ModelScopeError::InvalidModelId("a//b".to_string()))
    );
}

#[test]
fn weight_extensions_are_recognised_by_name() {
    assert!(is_weight_extension_str(Some("safetensors")));
    assert!(is_weight_extension_str(Some("bin")));
    assert!(is_weight_extension_str(Some("gguf")));
    assert!(!is_weight_extension_str(Some("json")));
    assert!(!is_weight_extension_str(Some("")));
    assert!(!is_weight_extension_str(None));
}

#[test]
fn weight_files_are_judged_by_the_given_extension() {
    let files = vec![entry("m.safetensors", 1, "blob"), entry("m.bin", 1, "blob")];
    assert!(!is_weight_file_with_extension("m.bin", Some("bin"), &files));
    assert!(is_weight_file_with_extension("m.bin", Some("gguf"), &files));
    assert!(!is_weight_file_with_extension("adapter.gguf", Some("gguf"), &files));
    assert!(!is_weight_file_with_extension("m.safetensors", None, &files));
    assert!(is_weight_file_with_extension("m.safetensors", Some("safetensors"), &files));
}

#[test]
fn extensions_come_from_the_file_name() {
    assert!(has_weight_ext("shards/model-00001.safetensors"));
    assert!(!has_weight_ext("weights.bin/config"));
    assert!(!has_weight_ext(".gguf"));
    assert!(has_weight_ext("a/.b.gguf"));
    assert!(!has_weight_ext("model.bin/.."));
}
