use distill::mode::estimate_tokens;
use distill::segment::{parse_header, segment, MAX_CHUNK_TOKENS, MIN_CHUNK_TOKENS, WORDS_PER_CHUNK};

#[test]
fn test_split_by_headers() {
    let input = "# Chapter 1\n\nSome text here.\n\n## Section 1.1\n\nMore text.\n\n# Chapter 2\n\nAnother chapter.";
    let chunks = segment(input);
    assert!(chunks.len() >= 2);
    assert_eq!(chunks[0].header_path, vec!["Chapter 1"]);
}

#[test]
fn test_no_headers_produces_chunks() {
    let input = "Just a long paragraph without any headers. ".repeat(500);
    let chunks = segment(&input);
    assert!(!chunks.is_empty());
}

#[test]
fn test_respects_max_chunk_size() {
    let big_section = format!("# Big Section\n\n{}", "word ".repeat(5000));
    let chunks = segment(&big_section);
    for chunk in &chunks {
        // Allow some tolerance for overlap
        assert!(
            chunk.token_estimate <= 6000,
            "chunk {} has {} tokens",
            chunk.index,
            chunk.token_estimate
        );
    }
}

#[test]
fn test_small_sections_merged() {
    let input = "# A\n\nTiny.\n\n# B\n\nAlso tiny.\n\n# C\n\nStill tiny.";
    let chunks = segment(input);
    assert!(!chunks.is_empty());
}

#[test]
fn test_chunk_indices_sequential() {
    let input = "# One\n\nSome text for one.\n\n# Two\n\nSome text for two.\n\n# Three\n\nSome text for three.";
    let chunks = segment(input);
    for (i, chunk) in chunks.iter().enumerate() {
        assert_eq!(chunk.index, i);
    }
}

#[test]
fn test_parse_header() {
    assert_eq!(parse_header("# Title"), Some((1, "Title".to_string())));
    assert_eq!(
        parse_header("## Sub Title"),
        Some((2, "Sub Title".to_string()))
    );
    assert_eq!(parse_header("### Deep"), Some((3, "Deep".to_string())));
    assert_eq!(parse_header("Not a header"), None);
    assert_eq!(parse_header("##"), None); // no title text
}

#[test]
fn test_header_hierarchy() {
    let input =
        "# Chapter 1\n\n## Section 1.1\n\nContent here.\n\n## Section 1.2\n\nMore content.";
    let chunks = segment(input);
    // All chunks should reference Chapter 1 in their header_path
    for chunk in &chunks {
        assert!(
            chunk.header_path.first().map(|s| s.as_str()) == Some("Chapter 1"),
            "Expected Chapter 1 in header_path, got {:?}",
            chunk.header_path
        );
    }
}

#[test]
fn test_overlap_present() {
    // Create sections large enough to not be merged
    let section_text = "word ".repeat(500);
    let input = format!(
        "# Section A\n\n{}\n\n# Section B\n\n{}",
        section_text, section_text
    );
    let chunks = segment(&input);
    if chunks.len() >= 2 {
        // The second chunk should contain some overlap from the first
        let section_only_tokens = estimate_tokens(&section_text.trim());
        assert!(
            chunks[1].token_estimate > section_only_tokens,
            "Expected overlap to increase token count"
        );
    }
}

#[test]
fn segmentation_limits_match_the_documented_values() {
    assert_eq!(MAX_CHUNK_TOKENS, 5000);
    assert_eq!(MIN_CHUNK_TOKENS, 500);
    // 5000 / 1.3, rounded down
    assert_eq!(WORDS_PER_CHUNK, 3846);
}

#[test]
fn header_levels_and_titles() {
    assert_eq!(parse_header("   ## Indented  "), Some((2, "Indented".to_string())));
    assert_eq!(parse_header("###### Six"), Some((6, "Six".to_string())));
    assert_eq!(parse_header("####### Seven"), None);
    assert_eq!(parse_header("#NoSpace"), Some((1, "NoSpace".to_string())));
    assert_eq!(parse_header("#   "), None);
    assert_eq!(parse_header(""), None);
}

#[test]
fn blank_text_has_no_chunks() {
    assert!(segment("").is_empty());
    assert!(segment("  \n\n \t \n").is_empty());
}

#[test]
fn headers_without_text_make_no_chunk() {
    assert!(segment("# Only\n\n## Headers\n").is_empty());
}

#[test]
fn single_small_section_is_one_chunk() {
    let chunks = segment("# Intro\n\n  Hello there, reader.  \n");
    assert_eq!(chunks.len(), 1);
    assert_eq!(chunks[0].index, 0);
    assert_eq!(chunks[0].header_path, vec!["Intro"]);
    assert_eq!(chunks[0].content, "Hello there, reader.");
    assert_eq!(chunks[0].token_estimate, 3);
}

#[test]
fn small_sections_under_one_top_header_merge() {
    let chunks = segment("# Top\n\n## A\n\nalpha\n\n## B\n\nbeta");
    assert_eq!(chunks.len(), 1);
    assert_eq!(chunks[0].header_path, vec!["Top", "A"]);
    assert_eq!(chunks[0].content, "alpha\n\nbeta");
}

#[test]
fn small_sections_under_different_top_headers_stay_apart() {
    let chunks = segment("# One\n\nalpha beta\n\n# Two\n\ngamma delta");
    assert_eq!(chunks.len(), 2);
    assert_eq!(chunks[0].content, "alpha beta");
    // the second chunk begins with the last word of the first (10%, at least one word)
    assert_eq!(chunks[1].content, "beta\n\ngamma delta");
    assert_eq!(chunks[1].header_path, vec!["Two"]);
    assert_eq!(chunks[1].token_estimate, estimate_tokens("beta\n\ngamma delta"));
}

#[test]
fn long_section_is_split_by_words() {
    let text = format!("# Long\n\n{}", "w ".repeat(8000));
    let chunks = segment(&text);
    // 3846 + 3846 + 308 words; the small last piece stays apart, as joining it
    // to the one before would pass the chunk limit
    assert_eq!(chunks.len(), 3);
    assert_eq!(chunks[0].content.split_whitespace().count(), 3846);
    for (i, c) in chunks.iter().enumerate() {
        assert_eq!(c.index, i);
        assert_eq!(c.header_path, vec!["Long"]);
        assert_eq!(c.token_estimate, estimate_tokens(&c.content));
    }
}

#[test]
fn header_paths_follow_the_open_headers() {
    let chunks = segment("# A\n## B\ntext\n# C\nmore");
    assert_eq!(chunks.len(), 2);
    assert_eq!(chunks[0].header_path, vec!["A", "B"]);
    assert_eq!(chunks[0].content, "text");
    assert_eq!(chunks[1].header_path, vec!["C"]);
    assert_eq!(chunks[1].content, "text\n\nmore");

    let chunks = segment("## B\n# A\nx");
    assert_eq!(chunks.len(), 1);
    assert_eq!(chunks[0].header_path, vec!["A"]);
}

#[test]
fn text_before_the_first_header_has_no_path() {
    let chunks = segment("text before\n# H\nafter");
    assert_eq!(chunks.len(), 2);
    assert!(chunks[0].header_path.is_empty());
    assert_eq!(chunks[0].content, "text before");
    assert_eq!(chunks[1].content, "before\n\nafter");
}

#[test]
fn carriage_returns_end_lines() {
    let chunks = segment("# T\r\nline one\r\nline two");
    assert_eq!(chunks.len(), 1);
    assert_eq!(chunks[0].header_path, vec!["T"]);
    assert_eq!(chunks[0].content, "line one\nline two");
}

#[test]
fn merging_stops_at_the_chunk_limit() {
    // 383 words (497 tokens) and 3846 words (4999 tokens) would make 5497 together
    let text = format!("# A\n\n{}\n\n## B\n\n{}", "w ".repeat(383), "w ".repeat(3846));
    let chunks = segment(&text);
    assert_eq!(chunks.len(), 2);
    assert_eq!(chunks[0].header_path, vec!["A"]);
    assert_eq!(chunks[0].content.split_whitespace().count(), 383);
    assert_eq!(chunks[1].header_path, vec!["A", "B"]);
    // the second chunk starts with the last 39 words (a tenth, rounded up) of the first
    assert_eq!(chunks[1].content.split_whitespace().count(), 3846 + 39);
    assert!(chunks[1].content.starts_with(&format!("{}\n\n", vec!["w"; 39].join(" "))));
}

#[test]
fn chunks_are_never_blank_and_stay_within_the_limit() {
    let text = format!(
        "  \n# A\n\n   \n\n## B\n\n{}\n\n\n\n# C\n\n{}\n\n# D\n\n \t \n",
        "word ".repeat(9000),
        "x ".repeat(40)
    );
    let chunks = segment(&text);
    assert!(!chunks.is_empty());
    for (i, c) in chunks.iter().enumerate() {
        assert!(!c.content.trim().is_empty());
        assert_eq!(c.index, i);
        assert_eq!(c.token_estimate, estimate_tokens(&c.content));
    }
    // the first chunk has no overlap, so it is within the limit itself
    assert!(chunks[0].token_estimate <= 5000);
}

#[test]
fn chunks_keep_the_words_of_the_text() {
    let long: Vec<String> = (0..9000).map(|i| format!("w{i}")).collect();
    let input = format!(
        "# Book\n\nopening  words here\n\n## Long part\n\n{}\n\nclosing line\n\n# Appendix\n\nlast   words",
        long.join(" ")
    );
    let chunks = segment(&input);
    assert!(chunks.len() >= 3);
    let mut seen: Vec<String> = Vec::new();
    for (i, chunk) in chunks.iter().enumerate() {
        let core = if i == 0 {
            chunk.content.as_str()
        } else {
            let at = chunk.content.find("\n\n").expect("overlap is followed by a blank line");
            &chunk.content[at + 2..]
        };
        seen.extend(core.split_whitespace().map(str::to_string));
    }
    let expected: Vec<String> = input
        .lines()
        .filter(|line| parse_header(line).is_none())
        .flat_map(|line| line.split_whitespace().map(str::to_string).collect::<Vec<_>>())
        .collect();
    assert_eq!(seen, expected);
}
