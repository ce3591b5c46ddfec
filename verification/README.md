# distill

Structure-preserving compression of books and articles with a language
model. The library in `src/` holds everything the tool decides; each function
carries a contract that Verus proves. The program in `app/` reads files and
web pages, talks to the model over HTTP, shows progress, and follows the
library's decisions.

## Layout

- `src/text.rs`: characters, trimming, words, lines, splitting and joining.
- `src/path.rs`: file names, stems and extensions of paths.
- `src/mode.rs`: token estimates and book/article detection.
- `src/segment/`: splitting a document into chunks at headers, paragraphs
  and words; merging small chunks; overlap between chunks.
- `src/llm/`: prompts, compression strategies, reading `<compressed>` tags
  out of responses, and the retry policy of completion requests.
- `src/compress/`: the passes: requests, outcomes of responses, resuming
  from a checkpoint and recording progress.
- `src/state/`: checkpoints and compressed chunks.
- `src/ingest/`: input kinds, PDF and EPUB documents, web pages (retries,
  content types, article extraction).
- `src/export/`: Markdown to HTML, the table of contents, and where the
  output goes.
- `src/config.rs`, `src/config_cmd.rs`: model settings from flags, the
  environment and the configuration file, and the `config` command.
- `src/cli.rs`, `src/ui.rs`, `src/error.rs`: run settings, warning lines and
  error messages.

The public proof functions (`lemma_*`) state what holds across functions:
a wrapped response reads back as its text, a checkpoint gives back what was
recorded, resuming restores exactly the saved chunks, retries are bounded,
a full page holds its title, table of contents and body in order with every
contents link landing on a header and no navigation block without section
headers, chunks are never blank and stay within the size limit before
overlap, merging keeps the text, and the chunks hold exactly the words of the
document's non-header lines, in order.
