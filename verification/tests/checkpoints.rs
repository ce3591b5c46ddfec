use distill::cli::CompressionLevel;
use distill::error::DistillError;
use distill::state::checkpoint::{
    resume_plan, Checkpoint, ChunkStatus, ResumePlan, CACHE_SUFFIX, STALE_CHECKPOINT_WARNING,
};

fn sample_checkpoint() -> Checkpoint {
    let mut checkpoint = Checkpoint::new(
        "abc123".into(),
        CompressionLevel::Dense,
        "test-model".into(),
        &["original text".into(), "more text".into()],
    );
    checkpoint.update_chunk(0, "compressed text".into());
    checkpoint.completed_pass = 1;
    checkpoint
}

#[test]
fn test_cache_path_naming() {
    let cache = Checkpoint::cache_path("/home/user/books/thinking-fast.pdf");
    assert_eq!(cache, "/home/user/books/thinking-fast.distill-cache");
}

#[test]
fn test_cache_path_for_url_uses_temp_hash() {
    let temp_dir = "/tmp";
    let cache = Checkpoint::cache_path_for_input("https://example.com/book", temp_dir);
    let path = std::path::Path::new(&cache);
    let file_name = path.file_name().unwrap().to_string_lossy();
    assert!(path.starts_with(temp_dir));
    assert!(file_name.starts_with("distill-"));
    assert!(file_name.ends_with(".distill-cache"));
}

#[test]
fn test_matches_run_rejects_changed_input() {
    let checkpoint = sample_checkpoint();
    let originals = vec!["changed".to_string(), "more text".to_string()];
    assert!(!checkpoint.matches_run(
        "abc123",
        &CompressionLevel::Dense,
        "test-model",
        &originals
    ));
}

#[test]
fn test_all_chunks_compressed() {
    let checkpoint = sample_checkpoint();
    assert!(!checkpoint.all_chunks_compressed());
}

#[test]
fn fresh_checkpoint_has_every_chunk_pending() {
    let cp = Checkpoint::new("h".into(), CompressionLevel::Tight, "m".into(), &["a".into(), "b".into()]);
    assert_eq!(cp.completed_pass, 0);
    assert_eq!(cp.chunks.len(), 2);
    for (i, c) in cp.chunks.iter().enumerate() {
        assert_eq!(c.index, i);
        assert_eq!(c.status, ChunkStatus::Pending);
        assert_eq!(c.compressed, None);
    }
    assert_eq!(cp.chunks[1].original, "b");
    assert!(cp.matches_run("h", &CompressionLevel::Tight, "m", &["a".to_string(), "b".to_string()]));
}

#[test]
fn update_then_read_gives_the_text_back() {
    let cp = sample_checkpoint();
    assert_eq!(cp.compressed_for(0), Some("compressed text"));
    assert_eq!(cp.compressed_for(1), None);
    assert_eq!(cp.compressed_for(7), None);
    assert_eq!(cp.chunks[0].status, ChunkStatus::Compressed);
    assert_eq!(cp.chunks[1].status, ChunkStatus::Pending);
}

#[test]
fn updating_a_missing_chunk_changes_nothing() {
    let mut cp = sample_checkpoint();
    cp.update_chunk(5, "x".into());
    assert_eq!(cp.chunks.len(), 2);
    assert_eq!(cp.compressed_for(1), None);
}

#[test]
fn all_compressed_once_every_chunk_is_recorded() {
    let mut cp = sample_checkpoint();
    cp.update_chunk(1, "second".into());
    assert!(cp.all_chunks_compressed());
    let empty = Checkpoint::new("h".into(), CompressionLevel::Tldr, "m".into(), &[]);
    assert!(empty.all_chunks_compressed());
}

#[test]
fn matches_run_checks_every_field() {
    let cp = sample_checkpoint();
    let originals = vec!["original text".to_string(), "more text".to_string()];
    assert!(cp.matches_run("abc123", &CompressionLevel::Dense, "test-model", &originals));
    assert!(!cp.matches_run("abc124", &CompressionLevel::Dense, "test-model", &originals));
    assert!(!cp.matches_run("abc123", &CompressionLevel::Tight, "test-model", &originals));
    assert!(!cp.matches_run("abc123", &CompressionLevel::Dense, "other-model", &originals));
    assert!(!cp.matches_run("abc123", &CompressionLevel::Dense, "test-model", &originals[..1]));
}

fn mismatch(r: Result<(), DistillError>) -> (&'static str, String, String) {
    match r {
        Err(DistillError::CheckpointMismatch { field, expected, found }) => (field, expected, found),
        other => panic!("unexpected: {:?}", other),
    }
}

#[test]
fn validate_resume_names_the_first_difference() {
    let cp = sample_checkpoint();
    let originals = vec!["original text".to_string(), "more text".to_string()];
    assert!(cp
        .validate_resume("abc123", &CompressionLevel::Dense, "test-model", &originals)
        .is_ok());
    assert_eq!(
        mismatch(cp.validate_resume("zzz", &CompressionLevel::Tldr, "x", &originals)),
        ("input_hash", "zzz".to_string(), "abc123".to_string())
    );
    assert_eq!(
        mismatch(cp.validate_resume("abc123", &CompressionLevel::Tldr, "x", &originals)),
        ("level", "Tldr".to_string(), "Dense".to_string())
    );
    assert_eq!(
        mismatch(cp.validate_resume("abc123", &CompressionLevel::Dense, "x", &originals)),
        ("model", "x".to_string(), "test-model".to_string())
    );
    assert_eq!(
        mismatch(cp.validate_resume("abc123", &CompressionLevel::Dense, "test-model", &originals[..1])),
        ("chunk_count", "1".to_string(), "2".to_string())
    );
    let changed = vec!["original text".to_string(), "changed".to_string()];
    assert_eq!(
        mismatch(cp.validate_resume("abc123", &CompressionLevel::Dense, "test-model", &changed)),
        ("chunk_original", "changed".to_string(), "more text".to_string())
    );
}

#[test]
fn input_hash_is_hex_sha256() {
    assert_eq!(
        Checkpoint::input_hash(""),
        "e3b0c44298fc1c149afbf4c8996fb92427ae41e4649b934ca495991b7852b855"
    );
    assert_eq!(
        Checkpoint::input_hash("abc"),
        "ba7816bf8f01cfea414140de5dae2223b00361a396177a9cb410ff61f20015ad"
    );
}

#[test]
fn url_cache_name_uses_the_first_sixteen_hex_digits() {
    let url = "https://example.com/book";
    let digest = Checkpoint::input_hash(url);
    assert_eq!(
        Checkpoint::cache_path_for_input(url, "/tmp/"),
        format!("/tmp/distill-{}{}", &digest[..16], CACHE_SUFFIX)
    );
    assert_eq!(
        Checkpoint::cache_path_for_input(url, "/var/tmp"),
        format!("/var/tmp/distill-{}.distill-cache", &digest[..16])
    );
}

#[test]
fn local_inputs_keep_their_checkpoint_beside_them() {
    assert_eq!(Checkpoint::cache_path_for_input("book.epub", "/tmp"), "book.distill-cache");
    assert_eq!(Checkpoint::cache_path("dir/archive.tar.gz"), "dir/archive.tar.distill-cache");
    assert_eq!(Checkpoint::cache_path("/books/.hidden"), "/books/.hidden.distill-cache");
}

#[test]
fn resuming_continues_a_matching_checkpoint() {
    let originals = vec!["original text".to_string(), "more text".to_string()];
    match resume_plan(Ok(sample_checkpoint()), "abc123", &CompressionLevel::Dense, "test-model", &originals) {
        ResumePlan::Resume(cp) => assert_eq!(cp.compressed_for(0), Some("compressed text")),
        other => panic!("unexpected: {:?}", other),
    }
}

#[test]
fn a_changed_input_starts_fresh_with_a_warning() {
    let originals = vec!["original text".to_string(), "more text".to_string()];
    match resume_plan(Ok(sample_checkpoint()), "other-hash", &CompressionLevel::Dense, "test-model", &originals) {
        ResumePlan::StartFresh { checkpoint, warning } => {
            assert_eq!(checkpoint.input_hash, "other-hash");
            assert_eq!(checkpoint.completed_pass, 0);
            assert_eq!(checkpoint.compressed_for(0), None);
            assert_eq!(warning.as_deref(), Some(STALE_CHECKPOINT_WARNING));
        }
        other => panic!("unexpected: {:?}", other),
    }
}

#[test]
fn a_missing_checkpoint_starts_fresh_and_other_errors_stop() {
    let originals = vec!["a".to_string()];
    let missing = Err(DistillError::MissingCheckpoint { path: "x.distill-cache".into() });
    match resume_plan(missing, "h", &CompressionLevel::Tight, "m", &originals) {
        ResumePlan::StartFresh { checkpoint, warning } => {
            assert_eq!(checkpoint.chunks.len(), 1);
            assert_eq!(warning, None);
        }
        other => panic!("unexpected: {:?}", other),
    }
    let broken = Err(DistillError::CheckpointParse { path: "x".into(), cause: "eof".into() });
    match resume_plan(broken, "h", &CompressionLevel::Tight, "m", &originals) {
        ResumePlan::Fail(DistillError::CheckpointParse { cause, .. }) => assert_eq!(cause, "eof"),
        other => panic!("unexpected: {:?}", other),
    }
}
