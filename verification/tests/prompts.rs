use distill::cli::CompressionLevel;
use distill::llm::prompt::{
    compression_level_policy, pass1_system, pass1_user, pass2_system, pass2_user, pass3_system,
    pass3_user, single_pass_system, single_pass_user,
};

#[test]
fn each_level_has_its_policy() {
    assert!(compression_level_policy(&CompressionLevel::Tight)
        .starts_with("COMPRESSION LEVEL: tight (~80% of original)\n"));
    assert!(compression_level_policy(&CompressionLevel::Dense)
        .starts_with("COMPRESSION LEVEL: dense (~50% of original)\n"));
    assert!(compression_level_policy(&CompressionLevel::Distilled)
        .starts_with("COMPRESSION LEVEL: distilled (~30% of original)\n"));
    assert_eq!(
        compression_level_policy(&CompressionLevel::Tldr),
        "COMPRESSION LEVEL: tldr\n- Extract key ideas only\n- Structured output"
    );
}

#[test]
fn system_prompts_carry_the_policy() {
    let policy = compression_level_policy(&CompressionLevel::Dense);
    let p1 = pass1_system(&CompressionLevel::Dense);
    assert!(p1.starts_with("You are a structure-preserving semantic compression engine.\n"));
    assert!(p1.contains(policy));
    assert!(p1.ends_with("- Use concept IDs from the existing ledger when referencing known concepts."));
    let sp = single_pass_system(&CompressionLevel::Tldr);
    assert!(sp.contains(compression_level_policy(&CompressionLevel::Tldr)));
    assert!(sp.ends_with("<compressed>\n[compressed markdown here]\n</compressed>"));
}

#[test]
fn user_messages_wrap_their_text() {
    assert_eq!(single_pass_user("abc"), "TEXT TO COMPRESS:\n\nabc");
    assert_eq!(pass3_user("abc"), "TEXT TO REFINE:\n\nabc");
    assert_eq!(
        pass1_user("body", 12, "{}"),
        "CHUNK INDEX: 12\n\nCURRENT LEDGER (all entries extracted so far \u{2014} do NOT duplicate these):\n{}\n\nTEXT TO COMPRESS:\nbody"
    );
    assert_eq!(
        pass2_user("chunks", "{\"a\":1}"),
        "FULL LEDGER (use this to identify duplicates across chunks):\n{\"a\":1}\n\nCHUNKS TO DEDUPLICATE:\nchunks"
    );
}

#[test]
fn later_passes_ask_for_the_tags() {
    assert!(pass2_system().starts_with("You are performing global deduplication on a compressed document.\n"));
    assert!(pass2_system().ends_with("<compressed>\n[deduplicated markdown here]\n</compressed>"));
    assert!(pass3_system().contains("Ensure no dangling references to removed content.\n"));
    assert!(pass3_system().ends_with("<compressed>\n[refined markdown here]\n</compressed>"));
}
