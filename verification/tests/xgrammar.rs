use arle::xgrammar::{
    bitmask_size, compiled_backend_version, CompilerConfig, GrammarCompiler, MatcherConfig,
    VocabType, XGrammarError,
};

#[test]
fn bitmask_size_rounds_up_to_u32_words() {
    assert_eq!(bitmask_size(0).unwrap(), 0);
    assert_eq!(bitmask_size(1).unwrap(), 1);
    assert_eq!(bitmask_size(32).unwrap(), 1);
    assert_eq!(bitmask_size(33).unwrap(), 2);
}

#[test]
fn compiler_reports_unavailable_without_real_feature() {
    let err = GrammarCompiler::new(&["a", "b"], CompilerConfig::default()).unwrap_err();
    assert!(matches!(err, XGrammarError::Unavailable));
}

#[test]
fn bitmask_size_refuses_oversized_vocabularies() {
    assert_eq!(bitmask_size(2147483647).unwrap(), 67108864);
    let too_large = 2147483648usize;
    assert_eq!(bitmask_size(too_large), Err(XGrammarError::VocabTooLarge(too_large)));
}

#[test]
fn vocab_types_map_to_native_codes() {
    assert_eq!(VocabType::Raw.code(), 0);
    assert_eq!(VocabType::ByteFallback.code(), 1);
    assert_eq!(VocabType::ByteLevel.code(), 2);
}

#[test]
fn default_configs_match_the_native_defaults() {
    let c = CompilerConfig::default();
    assert_eq!(c.vocab_type, VocabType::Raw);
    assert_eq!(c.vocab_size, None);
    assert!(c.stop_token_ids.is_empty());
    assert!(!c.add_prefix_space);
    assert_eq!(c.max_threads, 8);
    assert!(c.cache_enabled);
    assert_eq!(c.max_memory_bytes, -1);
    let m = MatcherConfig::default();
    assert!(m.override_stop_tokens.is_empty());
    assert!(!m.terminate_without_stop_token);
    assert_eq!(m.max_rollback_tokens, -1);
}

#[test]
fn stub_backend_reports_its_version() {
    assert_eq!(compiled_backend_version(), "stub");
}
