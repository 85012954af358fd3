use hybrid_llm_core::EmbeddingGenerator;
use hybrid_llm_core::FileSystemInterface;
use hybrid_llm_core::chunk_text;
use hybrid_llm_core::first_token_str;
use hybrid_llm_core::split_whitespace_tokens;
use hybrid_llm_core::str_contains;
use hybrid_llm_core::str_eq;

#[test]
fn test_chunk_text() {
    let text = "This is a test document with multiple words that needs to be chunked";
    let chunks = chunk_text(text, 5, 2);

    assert!(!chunks.is_empty());
    assert!(chunks[0].contains("This is a test document"));
}

#[test]
fn chunks_overlap_by_the_requested_amount() {
    let chunks = chunk_text("one two three four five", 2, 1);
    assert_eq!(chunks, vec![
        "one two".to_string(),
        "two three".to_string(),
        "three four".to_string(),
        "four five".to_string(),
    ]);
}

#[test]
fn empty_text_gives_no_chunks() {
    let chunks = chunk_text("", 5, 2);
    assert!(chunks.is_empty());
    let blank = chunk_text("   \t \n ", 5, 2);
    assert!(blank.is_empty());
}

#[test]
fn short_text_gives_one_chunk() {
    let chunks = chunk_text("just three words", 5, 2);
    assert_eq!(chunks, vec!["just three words".to_string()]);
}

#[test]
fn tokenizer_splits_on_runs_of_whitespace() {
    let tokens = split_whitespace_tokens("  alpha\t beta\n\ngamma ");
    assert_eq!(tokens, vec![
        "alpha".to_string(),
        "beta".to_string(),
        "gamma".to_string(),
    ]);
}

#[test]
fn first_token_skips_leading_whitespace() {
    assert_eq!(first_token_str("  git status"), "git".to_string());
    assert_eq!(first_token_str("git"), "git".to_string());
    assert_eq!(first_token_str("   "), String::new());
}

#[test]
fn string_predicates_behave_like_std() {
    assert!(str_eq("abc", "abc"));
    assert!(!str_eq("abc", "abd"));
    assert!(str_contains("rm -rf /tmp", "-rf"));
    assert!(!str_contains("ls -la", "sudo"));
    assert!(str_contains("anything", ""));
}

#[test]
fn file_areas_hang_off_the_base_path() {
    let fs = FileSystemInterface::new("/srv/hybrid".to_string());
    assert_eq!(fs.downloads_path().as_str(), "/srv/hybrid/downloads");
    assert_eq!(fs.uploads_path().as_str(), "/srv/hybrid/uploads");
    assert_eq!(fs.rag_path().as_str(), "/srv/hybrid/rag");
    assert_eq!(fs.base_path, "/srv/hybrid");
}

#[test]
fn embedding_generator_keeps_its_model_name() {
    let generator = EmbeddingGenerator::new("custom-model");
    assert_eq!(generator.model_name, "custom-model");
    let default_generator = EmbeddingGenerator::default();
    assert_eq!(default_generator.model_name, "sentence-transformers/all-MiniLM-L6-v2");
}
