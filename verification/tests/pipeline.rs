use distill::cli::CompressionLevel;
use distill::compress::pass1::{
    distill_request, first_response_outcome, keep_original_warning, retry_response_outcome,
    retry_system, TAG_REMINDER,
};
use distill::compress::{pass2, pass3};
use distill::compress::{
    collect_results, join_compressed, pending_chunks, persist_chunk, restore_results,
    section_name, tldr_chunk,
};
use distill::error::DistillError;
use distill::llm::strategy::{CompressionStrategy, LevelStrategy};
use distill::segment::Chunk;
use distill::state::checkpoint::Checkpoint;
use distill::state::CompressedChunk;

fn chunk(index: usize, path: &[&str], content: &str) -> Chunk {
    Chunk {
        index,
        header_path: path.iter().map(|s| s.to_string()).collect(),
        content: content.to_string(),
        token_estimate: 0,
    }
}

fn compressed(index: usize, content: &str) -> CompressedChunk {
    CompressedChunk { index, header_path: vec!["H".to_string()], content: content.to_string() }
}

fn sample_chunks() -> Vec<Chunk> {
    vec![chunk(0, &["A"], "first"), chunk(1, &["A", "B"], "second"), chunk(2, &[], "third")]
}

#[test]
fn compressed_chunks_join_with_blank_lines() {
    let cs = vec![compressed(0, "one"), compressed(1, "two"), compressed(2, "three")];
    assert_eq!(join_compressed(&cs), "one\n\ntwo\n\nthree");
    assert_eq!(join_compressed(&Vec::new()), "");
}

#[test]
fn section_names_join_headers() {
    assert_eq!(section_name(&vec!["A".to_string(), "B".to_string()]), "A > B");
    assert_eq!(section_name(&Vec::new()), "");
}

#[test]
fn nothing_is_restored_without_a_checkpoint() {
    let (results, n) = restore_results(&sample_chunks(), None);
    assert_eq!(n, 0);
    assert_eq!(results.len(), 3);
    assert!(results.iter().all(|r| r.is_none()));
}

#[test]
fn saved_texts_are_restored_under_their_chunk() {
    let chunks = sample_chunks();
    let originals: Vec<String> = chunks.iter().map(|c| c.content.clone()).collect();
    let mut cp = Checkpoint::new("h".into(), CompressionLevel::Dense, "m".into(), &originals);
    cp.update_chunk(1, "short second".into());
    let (results, n) = restore_results(&chunks, Some(&cp));
    assert_eq!(n, 1);
    assert!(results[0].is_none());
    assert!(results[2].is_none());
    let r = results[1].as_ref().unwrap();
    assert_eq!(r.index, 1);
    assert_eq!(r.header_path, vec!["A", "B"]);
    assert_eq!(r.content, "short second");
    // the restored chunk is not compressed again
    assert_eq!(pending_chunks(&chunks, &results), vec![0, 2]);
}

#[test]
fn persisting_records_and_completes_the_pass() {
    let chunks = sample_chunks();
    let originals: Vec<String> = chunks.iter().map(|c| c.content.clone()).collect();
    let mut cp = Some(Checkpoint::new("h".into(), CompressionLevel::Dense, "m".into(), &originals));
    assert!(persist_chunk(&mut cp, &compressed(0, "a")));
    assert!(persist_chunk(&mut cp, &compressed(2, "c")));
    assert_eq!(cp.as_ref().unwrap().completed_pass, 0);
    assert!(persist_chunk(&mut cp, &compressed(1, "b")));
    let state = cp.unwrap();
    assert_eq!(state.completed_pass, 1);
    assert_eq!(state.compressed_for(2), Some("c"));

    let mut none: Option<Checkpoint> = None;
    assert!(!persist_chunk(&mut none, &compressed(0, "a")));
    assert!(none.is_none());
}

#[test]
fn results_are_collected_in_order() {
    let chunks = sample_chunks();
    let results = vec![Some(compressed(0, "a")), Some(compressed(1, "b")), Some(compressed(2, "c"))];
    let all = collect_results(results, &chunks).unwrap();
    let texts: Vec<&str> = all.iter().map(|c| c.content.as_str()).collect();
    assert_eq!(texts, vec!["a", "b", "c"]);
}

#[test]
fn a_missing_result_is_an_error_for_its_chunk() {
    let chunks = sample_chunks();
    let results = vec![Some(compressed(0, "a")), None, None];
    match collect_results(results, &chunks) {
        Err(DistillError::Compression { chunk_index, section, cause }) => {
            assert_eq!(chunk_index, 1);
            assert_eq!(section, "A > B");
            assert_eq!(cause, "missing compressed output");
        }
        other => panic!("unexpected: {:?}", other),
    }
}

#[test]
fn requests_use_the_article_or_book_prompt() {
    let s = LevelStrategy::medium();
    let c = chunk(3, &["X"], "body text");
    let (system, user) = distill_request(&s, &c, true);
    assert_eq!(system, s.article_system());
    assert_eq!(user, "CONTENT TO DISTILL:\n\nbody text");
    let (system, _) = distill_request(&s, &c, false);
    assert_eq!(system, s.distill_system());
}

#[test]
fn retry_reminds_of_the_tags() {
    assert_eq!(retry_system("SYS"), format!("SYS{}", TAG_REMINDER));
    assert_eq!(
        TAG_REMINDER,
        "\n\nIMPORTANT: You MUST use <compressed> and </compressed> XML tags."
    );
}

#[test]
fn first_response_with_tags_is_used() {
    let c = chunk(4, &["P", "Q"], "original");
    let r = first_response_outcome(&c, "<compressed> shorter </compressed>").unwrap();
    assert_eq!(r.index, 4);
    assert_eq!(r.header_path, vec!["P", "Q"]);
    assert_eq!(r.content, "shorter");
    assert!(first_response_outcome(&c, "no tags").is_none());
}

#[test]
fn untagged_retry_keeps_the_original() {
    let c = chunk(4, &["P", "Q"], "original");
    let (r, warn) = retry_response_outcome(&c, "still no tags");
    assert!(warn);
    assert_eq!(r.content, "original");
    let (r, warn) = retry_response_outcome(&c, "<compressed>ok</compressed>");
    assert!(!warn);
    assert_eq!(r.content, "ok");
    assert_eq!(
        keep_original_warning(&c),
        "chunk 4 could not be parsed after retry, keeping original (section: \"P > Q\")"
    );
}

#[test]
fn refinement_keeps_the_input_when_unreadable() {
    let s = LevelStrategy::light();
    let (system, user) = pass2::refine_request(&s, "chapters");
    assert_eq!(system, s.refinement_system());
    assert_eq!(user, "DISTILLED CHAPTERS TO REFINE:\n\nchapters");
    assert_eq!(pass2::refine_outcome("chapters", "<compressed>better</compressed>"), ("better".to_string(), false));
    assert_eq!(pass2::refine_outcome("chapters", "oops"), ("chapters".to_string(), true));
    assert_eq!(pass3::refine_outcome("dedup", "oops"), ("dedup".to_string(), true));
    assert_eq!(pass2::REFINE_WARNING, "refinement pass failed to parse, keeping pass 1 output");
    assert_eq!(pass3::REFINE_WARNING, "refinement pass failed to parse, keeping pass 2 output");
}

#[test]
fn takeaways_read_one_headerless_chunk() {
    let c = tldr_chunk("all the text".to_string());
    assert_eq!(c.index, 0);
    assert!(c.header_path.is_empty());
    assert_eq!(c.content, "all the text");
    assert_eq!(c.token_estimate, 0);
}

#[test]
fn a_fresh_checkpoint_restores_nothing() {
    let chunks = sample_chunks();
    let originals: Vec<String> = chunks.iter().map(|c| c.content.clone()).collect();
    let cp = Checkpoint::new("h".into(), CompressionLevel::Tldr, "m".into(), &originals);
    let (results, n) = restore_results(&chunks, Some(&cp));
    assert_eq!(n, 0);
    assert!(results.iter().all(|r| r.is_none()));
    assert_eq!(pending_chunks(&chunks, &results), vec![0, 1, 2]);
}

#[test]
fn a_persisted_result_is_restored_on_resume() {
    let chunks = sample_chunks();
    let originals: Vec<String> = chunks.iter().map(|c| c.content.clone()).collect();
    let mut cp = Some(Checkpoint::new("h".into(), CompressionLevel::Dense, "m".into(), &originals));
    let result = CompressedChunk {
        index: 2,
        header_path: Vec::new(),
        content: "third, shorter".to_string(),
    };
    assert!(persist_chunk(&mut cp, &result));
    let (results, n) = restore_results(&chunks, cp.as_ref());
    assert_eq!(n, 1);
    assert_eq!(results[2].as_ref().unwrap().content, "third, shorter");
    assert_eq!(pending_chunks(&chunks, &results), vec![0, 1]);
}
