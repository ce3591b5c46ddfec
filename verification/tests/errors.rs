use distill::error::DistillError;

#[test]
fn every_error_has_its_message() {
    let cases = vec![
        (
            DistillError::Ingestion { source: "a.pdf".into(), cause: "bad".into() },
            "failed to ingest content\n  -> source: a.pdf\n  -> caused by: bad",
        ),
        (
            DistillError::UnsupportedInput { source: "a.txt".into(), extension: "txt".into() },
            "unsupported input\n  -> source: a.txt\n  -> extension: .txt",
        ),
        (
            DistillError::Compression { chunk_index: 12, section: "A > B".into(), cause: "x".into() },
            "failed to compress chunk 12\n  -> section: \"A > B\"\n  -> caused by: x",
        ),
        (DistillError::Llm { cause: "down".into() }, "LLM request failed\n  -> caused by: down"),
        (DistillError::Export { cause: "disk".into() }, "failed to export\n  -> caused by: disk"),
        (
            DistillError::MissingConfig { field: "model name", env_var: "DISTILL_MODEL", flag: "--model" },
            "configuration error\n  -> missing model name. Set DISTILL_MODEL or pass --model",
        ),
        (
            DistillError::MissingCheckpoint { path: "c.distill-cache".into() },
            "checkpoint not found\n  -> file: c.distill-cache",
        ),
        (
            DistillError::CheckpointIo { path: "c".into(), cause: "denied".into() },
            "checkpoint I/O error\n  -> file: c\n  -> caused by: denied",
        ),
        (
            DistillError::CheckpointParse { path: "c".into(), cause: "eof".into() },
            "checkpoint parse error\n  -> file: c\n  -> caused by: eof",
        ),
        (
            DistillError::CheckpointMismatch { field: "model", expected: "a".into(), found: "b".into() },
            "checkpoint mismatch\n  -> model: expected a, found b",
        ),
        (
            DistillError::HttpStatus { source: "u".into(), status: "500".into(), body: "x".into() },
            "HTTP request failed\n  -> source: u\n  -> status: 500\n  -> body: x",
        ),
    ];
    for (e, msg) in cases {
        assert_eq!(e.message(), msg);
    }
}

#[test]
fn chunk_numbers_are_written_in_decimal() {
    let e = DistillError::Compression { chunk_index: 0, section: String::new(), cause: String::new() };
    assert!(e.message().starts_with("failed to compress chunk 0\n"));
    let e = DistillError::Compression { chunk_index: 1907, section: String::new(), cause: String::new() };
    assert!(e.message().starts_with("failed to compress chunk 1907\n"));
}
