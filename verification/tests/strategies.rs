use distill::cli::CompressionLevel;
use distill::llm::strategy::{strategy_for, CompressionStrategy, LevelStrategy};

#[test]
fn article_light_is_article_specific() {
    let s = LevelStrategy::light();
    let prompt = s.article_system();
    assert!(prompt.contains("distilling an article"));
    assert!(!prompt.contains("book chapter"));
    assert!(prompt.contains("~80%"));
}

#[test]
fn article_medium_targets_50_percent() {
    let s = LevelStrategy::medium();
    let prompt = s.article_system();
    assert!(prompt.contains("~50%"));
    assert!(prompt.contains("Merge paragraphs"));
}

#[test]
fn article_heavy_is_annotated_outline() {
    let s = LevelStrategy::heavy();
    let prompt = s.article_system();
    assert!(prompt.contains("annotated outline"));
    assert!(prompt.contains("Takeaways"));
    assert!(!prompt.contains("book"));
}

#[test]
fn article_tldr_is_card_format() {
    let s = LevelStrategy::tldr();
    let prompt = s.article_system();
    assert!(prompt.contains("card"));
    assert!(prompt.contains("50-150 words"));
    assert!(prompt.contains("Key Points"));
}

#[test]
fn book_light_is_book_specific() {
    let s = LevelStrategy::light();
    let prompt = s.distill_system();
    assert!(prompt.contains("book chapter"));
    assert!(prompt.contains("~80%"));
}

#[test]
fn book_refinement_prompt_exists() {
    let s = LevelStrategy::light();
    let prompt = s.refinement_system();
    assert!(prompt.contains("coherence refinement"));
    assert!(prompt.contains("dangling references"));
}

#[test]
fn light_medium_heavy_support_multi_pass() {
    assert!(LevelStrategy::light().supports_multi_pass());
    assert!(LevelStrategy::medium().supports_multi_pass());
    assert!(LevelStrategy::heavy().supports_multi_pass());
}

#[test]
fn tldr_does_not_support_multi_pass() {
    assert!(!LevelStrategy::tldr().supports_multi_pass());
}

#[test]
fn book_tldr_is_theme_grouped() {
    let s = LevelStrategy::tldr();
    let prompt = s.distill_system();
    assert!(prompt.contains("THEME"));
    assert!(prompt.contains("1-3 pages"));
}

#[test]
fn strategy_for_returns_correct_types() {
    // The medium strategy is the one of the dense level.
    let medium = strategy_for(&CompressionLevel::Dense);
    assert!(medium.supports_multi_pass());

    let tldr = strategy_for(&CompressionLevel::Tldr);
    assert!(!tldr.supports_multi_pass());
}

#[test]
fn distill_user_wraps_content() {
    let s = LevelStrategy::light();
    let prompt = s.distill_user("some chapter text");
    assert!(prompt.contains("some chapter text"));
    assert!(prompt.contains("CONTENT TO DISTILL:"));
}

#[test]
fn tldr_user_prefix_is_extraction() {
    let s = LevelStrategy::tldr();
    let prompt = s.distill_user("some text");
    assert!(prompt.contains("TEXT TO EXTRACT FROM:"));
}

#[test]
fn book_heavy_enforces_prose() {
    let s = LevelStrategy::heavy();
    let prompt = s.distill_system();
    assert!(prompt.contains("Do NOT use bullet points"));
    assert!(prompt.contains("~30%"));
}

#[test]
fn book_heavy_refinement_rewrites_bullets_to_prose() {
    let s = LevelStrategy::heavy();
    let prompt = s.refinement_system();
    assert!(prompt.contains("ENFORCE PROSE"));
    assert!(prompt.contains("REWRITE"));
}

#[test]
fn book_medium_refinement_smooths_terse_sections() {
    let s = LevelStrategy::medium();
    let prompt = s.refinement_system();
    assert!(prompt.contains("terse"));
}

#[test]
fn article_prompts_never_mention_book() {
    for level in [
        LevelStrategy::light(),
        LevelStrategy::medium(),
        LevelStrategy::heavy(),
        LevelStrategy::tldr(),
    ] {
        let prompt = level.article_system();
        assert!(
            !prompt.contains("book chapter"),
            "article prompt should not mention 'book chapter'"
        );
    }
}

#[test]
fn all_prompts_require_compressed_tags() {
    for level in [
        LevelStrategy::light(),
        LevelStrategy::medium(),
        LevelStrategy::heavy(),
        LevelStrategy::tldr(),
    ] {
        assert!(
            level.article_system().contains("<compressed>"),
            "article prompt must mention <compressed> tag"
        );
        assert!(
            level.distill_system().contains("<compressed>"),
            "book prompt must mention <compressed> tag"
        );
    }
}

#[test]
fn each_level_has_distinct_article_prompt() {
    let prompts: Vec<String> = [
        LevelStrategy::light(),
        LevelStrategy::medium(),
        LevelStrategy::heavy(),
        LevelStrategy::tldr(),
    ]
    .iter()
    .map(|s| s.article_system())
    .collect();

    for i in 0..prompts.len() {
        for j in (i + 1)..prompts.len() {
            assert_ne!(
                prompts[i], prompts[j],
                "article prompts {i} and {j} must differ"
            );
        }
    }
}

#[test]
fn each_level_has_distinct_book_prompt() {
    let prompts: Vec<String> = [
        LevelStrategy::light(),
        LevelStrategy::medium(),
        LevelStrategy::heavy(),
        LevelStrategy::tldr(),
    ]
    .iter()
    .map(|s| s.distill_system())
    .collect();

    for i in 0..prompts.len() {
        for j in (i + 1)..prompts.len() {
            assert_ne!(
                prompts[i], prompts[j],
                "book prompts {i} and {j} must differ"
            );
        }
    }
}

#[test]
fn levels_map_to_their_strategies() {
    assert_eq!(
        strategy_for(&CompressionLevel::Tight).distill_system(),
        LevelStrategy::light().distill_system()
    );
    assert_eq!(
        strategy_for(&CompressionLevel::Dense).article_system(),
        LevelStrategy::medium().article_system()
    );
    assert_eq!(
        strategy_for(&CompressionLevel::Distilled).refinement_system(),
        LevelStrategy::heavy().refinement_system()
    );
    assert_eq!(
        strategy_for(&CompressionLevel::Tldr).distill_system(),
        LevelStrategy::tldr().distill_system()
    );
}

#[test]
fn user_messages_have_exact_shape() {
    assert_eq!(
        LevelStrategy::light().distill_user("abc"),
        "CONTENT TO DISTILL:\n\nabc"
    );
    assert_eq!(
        LevelStrategy::tldr().distill_user("abc"),
        "TEXT TO EXTRACT FROM:\n\nabc"
    );
    assert_eq!(
        LevelStrategy::heavy().refinement_user("x\n\ny"),
        "DISTILLED CHAPTERS TO REFINE:\n\nx\n\ny"
    );
    assert_eq!(LevelStrategy::tldr().refinement_system(), "");
}
