//! Checkpoints: the progress of a book run, so that an interrupted run resumes.
use crate::cli::{level_name, spec_level_name, CompressionLevel};
use crate::error::DistillError;
use crate::mode::{is_url, spec_is_url};
use crate::path::{push_name, spec_file_stem, spec_with_file_name, with_file_name};
use crate::text::{decimal, decimal_string, extend_str, string_of_all, string_views, to_chars};
use vstd::prelude::*;
use vstd::string::StringSliceAdditionalSpecFns;

verus! {

/// Where a chunk stands in the pipeline.
#[derive(Debug, Clone, Copy, PartialEq, Eq, Structural)]
pub enum ChunkStatus {
    Pending,
    Compressed,
    Refined,
}

/// The saved state of one chunk.
#[derive(Debug, Clone)]
pub struct ChunkState {
    pub index: usize,
    pub status: ChunkStatus,
    pub original: String,
    pub compressed: Option<String>,
}

/// The saved state of a run.
#[derive(Debug, Clone)]
pub struct Checkpoint {
    pub input_hash: String,
    pub level: CompressionLevel,
    pub model: String,
    pub completed_pass: u8,
    pub chunks: Vec<ChunkState>,
}

/// The mathematical value of a chunk state.
pub struct ChunkStateView {
    pub index: int,
    pub status: ChunkStatus,
    pub original: Seq<char>,
    pub compressed: Option<Seq<char>>,
}

/// The mathematical value of a checkpoint.
pub struct CheckpointView {
    pub input_hash: Seq<char>,
    pub level: CompressionLevel,
    pub model: Seq<char>,
    pub completed_pass: int,
    pub chunks: Seq<ChunkStateView>,
}

/// The view of an optional string.
pub open spec fn opt_string_view(o: Option<String>) -> Option<Seq<char>> {
    match o {
        Some(s) => Some(s@),
        None => None,
    }
}

impl View for ChunkState {
    type V = ChunkStateView;

    open spec fn view(&self) -> ChunkStateView {
        ChunkStateView {
            index: self.index as int,
            status: self.status,
            original: self.original@,
            compressed: opt_string_view(self.compressed),
        }
    }
}

impl View for Checkpoint {
    type V = CheckpointView;

    open spec fn view(&self) -> CheckpointView {
        CheckpointView {
            input_hash: self.input_hash@,
            level: self.level,
            model: self.model@,
            completed_pass: self.completed_pass as int,
            chunks: self.chunks@.map_values(|c: ChunkState| c@),
        }
    }
}

/// A fresh checkpoint: every chunk pending, nothing compressed, no pass completed.
pub open spec fn fresh_checkpoint(
    input_hash: Seq<char>,
    level: CompressionLevel,
    model: Seq<char>,
    originals: Seq<Seq<char>>,
) -> CheckpointView {
    CheckpointView {
        input_hash,
        level,
        model,
        completed_pass: 0,
        chunks: Seq::new(
            originals.len(),
            |i: int|
                ChunkStateView {
                    index: i,
                    status: ChunkStatus::Pending,
                    original: originals[i],
                    compressed: None,
                },
        ),
    }
}

/// The checkpoint belongs to the run with this input, level, model and chunks.
pub open spec fn spec_matches_run(
    cp: CheckpointView,
    input_hash: Seq<char>,
    level: CompressionLevel,
    model: Seq<char>,
    originals: Seq<Seq<char>>,
) -> bool {
    &&& cp.input_hash == input_hash
    &&& cp.level == level
    &&& cp.model == model
    &&& cp.chunks.len() == originals.len()
    &&& forall|i: int| 0 <= i < originals.len() ==> #[trigger] cp.chunks[i].original == originals[i]
}

/// The error for a checkpoint that does not belong to the run: it names the
/// first field that differs (the input hash, the level, the model, the number
/// of chunks, then the first chunk whose text differs), with the run's value
/// as expected and the checkpoint's as found.
pub open spec fn resume_mismatch(
    cp: CheckpointView,
    input_hash: Seq<char>,
    level: CompressionLevel,
    model: Seq<char>,
    originals: Seq<Seq<char>>,
    e: DistillError,
) -> bool {
    match e {
        DistillError::CheckpointMismatch { field, expected, found } => if cp.input_hash
            != input_hash {
            field@ == "input_hash"@ && expected@ == input_hash && found@ == cp.input_hash
        } else if cp.level != level {
            field@ == "level"@ && expected@ == spec_level_name(level) && found@ == spec_level_name(
                cp.level,
            )
        } else if cp.model != model {
            field@ == "model"@ && expected@ == model && found@ == cp.model
        } else if cp.chunks.len() != originals.len() {
            field@ == "chunk_count"@ && expected@ == decimal(originals.len()) && found@ == decimal(
                cp.chunks.len(),
            )
        } else {
            field@ == "chunk_original"@ && exists|i: int|
                #![trigger cp.chunks[i]]
                0 <= i < originals.len() && cp.chunks[i].original != originals[i] && (forall|j: int|
                    0 <= j < i ==> #[trigger] cp.chunks[j].original == originals[j])
                    && expected@ == originals[i] && found@ == cp.chunks[i].original
        },
        _ => false,
    }
}

/// The checkpoint with chunk `index` (if it exists) compressed to `text`.
pub open spec fn spec_update_chunk(cp: CheckpointView, index: int, text: Seq<char>) -> CheckpointView {
    if 0 <= index < cp.chunks.len() {
        CheckpointView {
            chunks: cp.chunks.update(
                index,
                ChunkStateView {
                    status: ChunkStatus::Compressed,
                    compressed: Some(text),
                    ..cp.chunks[index]
                },
            ),
            ..cp
        }
    } else {
        cp
    }
}

/// The compressed text saved for chunk `index`, if any.
pub open spec fn spec_compressed_for(cp: CheckpointView, index: int) -> Option<Seq<char>> {
    if 0 <= index < cp.chunks.len() {
        cp.chunks[index].compressed
    } else {
        None
    }
}

/// Every chunk has its compressed text.
pub open spec fn spec_all_compressed(cp: CheckpointView) -> bool {
    forall|i: int| 0 <= i < cp.chunks.len() ==> (#[trigger] cp.chunks[i]).compressed is Some
}

/// The SHA-256 digest of `data`.
pub uninterp spec fn spec_sha256(data: Seq<u8>) -> Seq<u8>;

/// `sha2::Sha256::digest`: the result is named by `spec_sha256`, and is 32 bytes
/// long as SHA-256 digests are.
#[verifier::external_body]
fn sha256(data: &[u8]) -> (r: Vec<u8>)
    ensures
        r@ == spec_sha256(data@),
        r@.len() == 32,
{
    <sha2::Sha256 as sha2::Digest>::digest(data).to_vec()
}

/// The lower-case hexadecimal digit for `d` (`0 <= d < 16`).
pub open spec fn hex_digit(d: int) -> char {
    if d < 10 {
        (48 + d) as char
    } else {
        (87 + d) as char
    }
}

/// Two lower-case hexadecimal digits per byte (`{:x}` of a digest).
pub open spec fn hex_lower(bytes: Seq<u8>) -> Seq<char>
    decreases bytes.len(),
{
    if bytes.len() == 0 {
        seq![]
    } else {
        hex_lower(bytes.drop_last()) + seq![
            hex_digit((bytes.last() / 16) as int),
            hex_digit((bytes.last() % 16) as int),
        ]
    }
}

fn hex_char(d: u8) -> (c: char)
    requires
        d < 16,
    ensures
        c == hex_digit(d as int),
{
    if d < 10 {
        (48u8 + d) as char
    } else {
        (87u8 + d) as char
    }
}

fn to_hex(bytes: &Vec<u8>) -> (r: Vec<char>)
    ensures
        r@ == hex_lower(bytes@),
        r@.len() == 2 * bytes@.len(),
{
    let mut r: Vec<char> = Vec::new();
    let mut i: usize = 0;
    while i < bytes.len()
        invariant
            i <= bytes@.len(),
            r@ == hex_lower(bytes@.take(i as int)),
            r@.len() == 2 * i,
        decreases bytes@.len() - i,
    {
        assert(bytes@.take(i + 1).drop_last() =~= bytes@.take(i as int));
        let b = bytes[i];
        r.push(hex_char(b / 16));
        r.push(hex_char(b % 16));
        assert(r@ =~= hex_lower(bytes@.take(i + 1)));
        i += 1;
    }
    assert(bytes@.take(bytes@.len() as int) =~= bytes@);
    r
}

/// The hexadecimal SHA-256 digest of the UTF-8 bytes of a text.
pub open spec fn spec_stable_hash(s: &str) -> Seq<char> {
    hex_lower(spec_sha256(s.spec_bytes()))
}

/// Suffix of checkpoint files.
pub const CACHE_SUFFIX: &'static str = ".distill-cache";

/// The checkpoint file of a local input: beside it, named after its stem.
pub open spec fn spec_cache_path(input_path: Seq<char>) -> Seq<char> {
    let stem = match spec_file_stem(input_path) {
        Some(s) => s,
        None => seq![],
    };
    spec_with_file_name(input_path, stem + CACHE_SUFFIX@)
}

/// The checkpoint file of an input: for a URL, in the temporary directory,
/// named after the first 16 hexadecimal digits of the URL's hash; else beside
/// the input file.
pub open spec fn spec_cache_path_for_input(input: &str, temp_dir: Seq<char>) -> Seq<char> {
    if spec_is_url(input@) {
        push_name(temp_dir, "distill-"@ + spec_stable_hash(input).take(16) + CACHE_SUFFIX@)
    } else {
        spec_cache_path(input@)
    }
}

impl Checkpoint {
    /// The checkpoint file of a local input file.
    pub fn cache_path(input_path: &str) -> (r: String)
        ensures
            r@ == spec_cache_path(input_path@),
    {
        let mut name: Vec<char> = Vec::new();
        match crate::path::file_stem(input_path) {
            Some(stem) => extend_str(&mut name, stem.as_str()),
            None => {},
        }
        extend_str(&mut name, CACHE_SUFFIX);
        let name_s = string_of_all(&name);
        assert(name_s@ =~= (match spec_file_stem(input_path@) {
            Some(s) => s,
            None => seq![],
        }) + CACHE_SUFFIX@);
        with_file_name(input_path, name_s.as_str())
    }

    /// The checkpoint file of an input (path or URL); `temp_dir` is the
    /// directory for temporary files.
    pub fn cache_path_for_input(input: &str, temp_dir: &str) -> (r: String)
        ensures
            r@ == spec_cache_path_for_input(input, temp_dir@),
    {
        if is_url(input) {
            let digest = Self::stable_hash(input);
            let dv = to_chars(digest.as_str());
            let mut name: Vec<char> = Vec::new();
            extend_str(&mut name, "distill-");
            crate::text::extend_from(&mut name, &dv, 0, 16);
            extend_str(&mut name, CACHE_SUFFIX);
            assert(dv@.subrange(0, 16) =~= spec_stable_hash(input).take(16));
            let mut out = to_chars(temp_dir);
            let ghost base = out@;
            if out.len() > 0 && out[out.len() - 1] != '/' {
                out.push('/');
            }
            crate::text::extend_all(&mut out, &name);
            assert(out@ =~= push_name(base, name@));
            string_of_all(&out)
        } else {
            Self::cache_path(input)
        }
    }

    /// The hash that identifies an input text.
    pub fn input_hash(content: &str) -> (r: String)
        ensures
            r@ == spec_stable_hash(content),
    {
        Self::stable_hash(content)
    }

    fn stable_hash(value: &str) -> (r: String)
        ensures
            r@ == spec_stable_hash(value),
            r@.len() == 64,
    {
        let bytes = value.as_bytes();
        let digest = sha256(bytes);
        let hex = to_hex(&digest);
        string_of_all(&hex)
    }

    /// A fresh checkpoint for a run over chunks with these original texts.
    pub fn new(
        input_hash: String,
        level: CompressionLevel,
        model: String,
        originals: &[String],
    ) -> (cp: Self)
        ensures
            cp@ == fresh_checkpoint(input_hash@, level, model@, string_views(originals@)),
    {
        let mut chunks: Vec<ChunkState> = Vec::new();
        let ghost ov = string_views(originals@);
        let mut i: usize = 0;
        while i < originals.len()
            invariant
                ov == string_views(originals@),
                i <= originals@.len(),
                chunks@.map_values(|c: ChunkState| c@) == fresh_checkpoint(
                    input_hash@,
                    level,
                    model@,
                    ov,
                ).chunks.take(i as int),
            decreases originals@.len() - i,
        {
            let ghost before = chunks@.map_values(|c: ChunkState| c@);
            let original = originals[i].clone();
            let st = ChunkState { index: i, status: ChunkStatus::Pending, original, compressed: None };
            assert(st@ == fresh_checkpoint(input_hash@, level, model@, ov).chunks[i as int]);
            chunks.push(st);
            assert(chunks@.map_values(|c: ChunkState| c@) =~= before.push(st@));
            assert(chunks@.map_values(|c: ChunkState| c@) =~= fresh_checkpoint(
                input_hash@,
                level,
                model@,
                ov,
            ).chunks.take(i + 1));
            i += 1;
        }
        let cp = Checkpoint { input_hash, level, model, completed_pass: 0, chunks };
        assert(cp@.chunks =~= fresh_checkpoint(cp@.input_hash, level, cp@.model, ov).chunks);
        cp
    }

    /// Whether this checkpoint belongs to the given run.
    pub fn matches_run(
        &self,
        input_hash: &str,
        level: &CompressionLevel,
        model: &str,
        originals: &[String],
    ) -> (b: bool)
        ensures
            b == spec_matches_run(self@, input_hash@, *level, model@, string_views(originals@)),
    {
        if !crate::text::str_eq(self.input_hash.as_str(), input_hash) || self.level != *level
            || !crate::text::str_eq(self.model.as_str(), model) || self.chunks.len()
            != originals.len() {
            return false;
        }
        let mut i: usize = 0;
        while i < originals.len()
            invariant
                self.chunks@.len() == originals@.len(),
                i <= originals@.len(),
                forall|j: int| 0 <= j < i ==> #[trigger] self@.chunks[j].original == string_views(
                    originals@,
                )[j],
            decreases originals@.len() - i,
        {
            if self.chunks[i].original != originals[i] {
                assert(self@.chunks[i as int].original != string_views(originals@)[i as int]);
                return false;
            }
            i += 1;
        }
        true
    }

    /// Checks that this checkpoint belongs to the run; if not, the error
    /// names the first field that differs.
    pub fn validate_resume(
        &self,
        input_hash: &str,
        level: &CompressionLevel,
        model: &str,
        originals: &[String],
    ) -> (r: Result<(), DistillError>)
        ensures
            r is Ok <==> spec_matches_run(self@, input_hash@, *level, model@, string_views(originals@)),
            r matches Err(e) ==> resume_mismatch(self@, input_hash@, *level, model@, string_views(originals@), e),
    {
        if !crate::text::str_eq(self.input_hash.as_str(), input_hash) {
            return Err(DistillError::CheckpointMismatch {
                field: "input_hash",
                expected: String::from_str(input_hash),
                found: self.input_hash.clone(),
            });
        }
        if self.level != *level {
            return Err(DistillError::CheckpointMismatch {
                field: "level",
                expected: String::from_str(level_name(level)),
                found: String::from_str(level_name(&self.level)),
            });
        }
        if !crate::text::str_eq(self.model.as_str(), model) {
            return Err(DistillError::CheckpointMismatch {
                field: "model",
                expected: String::from_str(model),
                found: self.model.clone(),
            });
        }
        if self.chunks.len() != originals.len() {
            return Err(DistillError::CheckpointMismatch {
                field: "chunk_count",
                expected: decimal_string(originals.len()),
                found: decimal_string(self.chunks.len()),
            });
        }
        let ghost ov = string_views(originals@);
        let mut i: usize = 0;
        while i < originals.len()
            invariant
                ov == string_views(originals@),
                self.chunks@.len() == originals@.len(),
                self@.input_hash == input_hash@,
                self@.level == *level,
                self@.model == model@,
                i <= originals@.len(),
                forall|j: int| 0 <= j < i ==> #[trigger] self@.chunks[j].original == ov[j],
            decreases originals@.len() - i,
        {
            if !crate::text::str_eq(self.chunks[i].original.as_str(), originals[i].as_str()) {
                let ghost k = i as int;
                assert(self@.chunks[k].original != ov[k]);
                assert(ov[k] == originals@[k]@);
                assert(0 <= k < ov.len() && self@.chunks[k].original != ov[k] && (forall|j: int|
                    0 <= j < k ==> #[trigger] self@.chunks[j].original == ov[j]));
                return Err(DistillError::CheckpointMismatch {
                    field: "chunk_original",
                    expected: originals[i].clone(),
                    found: self.chunks[i].original.clone(),
                });
            }
            i += 1;
        }
        Ok(())
    }

    /// Records the compressed text of chunk `index`; other indices are ignored.
    pub fn update_chunk(&mut self, index: usize, compressed: String)
        ensures
            final(self)@ == spec_update_chunk(old(self)@, index as int, compressed@),
    {
        if index < self.chunks.len() {
            let ghost before = self@;
            let prev = &self.chunks[index];
            let c = ChunkState {
                index: prev.index,
                status: ChunkStatus::Compressed,
                original: prev.original.clone(),
                compressed: Some(compressed),
            };
            assert(c@ == (ChunkStateView {
                status: ChunkStatus::Compressed,
                compressed: Some(compressed@),
                ..before.chunks[index as int]
            }));
            self.chunks.set(index, c);
            assert(self@.chunks =~= spec_update_chunk(before, index as int, compressed@).chunks);
        }
    }

    /// The compressed text saved for chunk `index`, if any.
    pub fn compressed_for(&self, index: usize) -> (r: Option<&str>)
        ensures
            match r {
                Some(s) => spec_compressed_for(self@, index as int) == Some(s@),
                None => spec_compressed_for(self@, index as int) is None,
            },
    {
        if index < self.chunks.len() {
            match &self.chunks[index].compressed {
                Some(s) => Some(s.as_str()),
                None => None,
            }
        } else {
            None
        }
    }

    /// Whether every chunk has its compressed text.
    pub fn all_chunks_compressed(&self) -> (b: bool)
        ensures
            b == spec_all_compressed(self@),
    {
        let mut i: usize = 0;
        while i < self.chunks.len()
            invariant
                i <= self.chunks@.len(),
                forall|j: int| 0 <= j < i ==> (#[trigger] self@.chunks[j]).compressed is Some,
            decreases self.chunks@.len() - i,
        {
            if self.chunks[i].compressed.is_none() {
                assert(self@.chunks[i as int].compressed is None);
                return false;
            }
            i += 1;
        }
        true
    }
}


/// What a run with `--resume` does with the checkpoint it tried to load.
#[derive(Debug)]
pub enum ResumePlan {
    /// Continue from the loaded checkpoint.
    Resume(Checkpoint),
    /// Start over from this fresh checkpoint, saved before compressing; the
    /// warning says why a loaded checkpoint was set aside.
    StartFresh { checkpoint: Checkpoint, warning: Option<String> },
    /// Stop with this error.
    Fail(DistillError),
}

/// Shown when a saved checkpoint belongs to another run.
pub const STALE_CHECKPOINT_WARNING: &'static str = "checkpoint does not match this input; starting fresh";

/// The plan starts over from this checkpoint with this warning.
pub open spec fn starts_fresh(r: ResumePlan, cp: CheckpointView, warning: Option<Seq<char>>) -> bool {
    match r {
        ResumePlan::StartFresh { checkpoint, warning: w } => checkpoint@ == cp && opt_string_view(w)
            == warning,
        _ => false,
    }
}

/// The plan for a resumed run: a checkpoint of this run is continued; one of
/// another run (the input changed, or the level, the model or the chunks) is
/// set aside with a warning and a fresh one started; without a saved
/// checkpoint a fresh one is started; any other load error stops the run.
pub fn resume_plan(
    loaded: Result<Checkpoint, DistillError>,
    input_hash: &str,
    level: &CompressionLevel,
    model: &str,
    originals: &[String],
) -> (r: ResumePlan)
    ensures
        match loaded {
            Ok(cp) => if spec_matches_run(cp@, input_hash@, *level, model@, string_views(originals@)) {
                r matches ResumePlan::Resume(c) && c@ == cp@
            } else {
                starts_fresh(
                    r,
                    fresh_checkpoint(input_hash@, *level, model@, string_views(originals@)),
                    Some(STALE_CHECKPOINT_WARNING@),
                )
            },
            Err(DistillError::MissingCheckpoint { .. }) => starts_fresh(
                r,
                fresh_checkpoint(input_hash@, *level, model@, string_views(originals@)),
                None,
            ),
            Err(e) => r == ResumePlan::Fail(e),
        },
{
    match loaded {
        Ok(existing) => {
            if existing.matches_run(input_hash, level, model, originals) {
                ResumePlan::Resume(existing)
            } else {
                let fresh = Checkpoint::new(String::from_str(input_hash), *level, String::from_str(model), originals);
                ResumePlan::StartFresh {
                    checkpoint: fresh,
                    warning: Some(String::from_str(STALE_CHECKPOINT_WARNING)),
                }
            }
        },
        Err(DistillError::MissingCheckpoint { path }) => {
            let fresh = Checkpoint::new(String::from_str(input_hash), *level, String::from_str(model), originals);
            ResumePlan::StartFresh { checkpoint: fresh, warning: None }
        },
        Err(e) => ResumePlan::Fail(e),
    }
}

// ---------------------------------------------------------------------------
// Laws
// ---------------------------------------------------------------------------

/// A checkpoint made for a run belongs to that run.
pub proof fn lemma_fresh_matches_run(
    input_hash: Seq<char>,
    level: CompressionLevel,
    model: Seq<char>,
    originals: Seq<Seq<char>>,
)
    ensures
        spec_matches_run(
            fresh_checkpoint(input_hash, level, model, originals),
            input_hash,
            level,
            model,
            originals,
        ),
{
}

/// A fresh checkpoint holds no compressed text, so it is complete only when
/// there are no chunks.
pub proof fn lemma_fresh_is_empty(
    input_hash: Seq<char>,
    level: CompressionLevel,
    model: Seq<char>,
    originals: Seq<Seq<char>>,
    j: int,
)
    ensures
        spec_compressed_for(fresh_checkpoint(input_hash, level, model, originals), j) is None,
        spec_all_compressed(fresh_checkpoint(input_hash, level, model, originals)) <==> originals.len()
            == 0,
{
    let cp = fresh_checkpoint(input_hash, level, model, originals);
    if originals.len() > 0 {
        assert(cp.chunks[0].compressed is None);
    }
}

/// What is recorded for a chunk is what is read back for it; the other chunks
/// read back as before.
pub proof fn lemma_update_then_read(cp: CheckpointView, index: int, text: Seq<char>, j: int)
    requires
        0 <= index < cp.chunks.len(),
    ensures
        spec_compressed_for(spec_update_chunk(cp, index, text), index) == Some(text),
        j != index ==> spec_compressed_for(spec_update_chunk(cp, index, text), j)
            == spec_compressed_for(cp, j),
{
}

/// Recording compressed text keeps a checkpoint matching its run.
pub proof fn lemma_update_keeps_match(
    cp: CheckpointView,
    index: int,
    text: Seq<char>,
    input_hash: Seq<char>,
    level: CompressionLevel,
    model: Seq<char>,
    originals: Seq<Seq<char>>,
)
    requires
        spec_matches_run(cp, input_hash, level, model, originals),
    ensures
        spec_matches_run(spec_update_chunk(cp, index, text), input_hash, level, model, originals),
{
    let up = spec_update_chunk(cp, index, text);
    assert forall|i: int| 0 <= i < originals.len() implies #[trigger] up.chunks[i].original
        == originals[i] by {
        assert(cp.chunks[i].original == originals[i]);
    }
}

/// Once every chunk has been recorded, the checkpoint is complete.
pub proof fn lemma_all_recorded_is_complete(cp: CheckpointView, texts: Seq<Seq<char>>)
    requires
        texts.len() == cp.chunks.len(),
    ensures
        spec_all_compressed(record_all(cp, texts)),
        record_all(cp, texts).chunks.len() == cp.chunks.len(),
{
    lemma_record_all_len(cp, texts);
    lemma_record_all_keeps(cp, texts);
}

/// The checkpoint with chunk `i` recorded as `texts[i]`, for each `i` in order.
pub open spec fn record_all(cp: CheckpointView, texts: Seq<Seq<char>>) -> CheckpointView
    decreases texts.len(),
{
    if texts.len() == 0 {
        cp
    } else {
        spec_update_chunk(
            record_all(cp, texts.drop_last()),
            texts.len() - 1,
            texts.last(),
        )
    }
}

proof fn lemma_record_all_len(cp: CheckpointView, texts: Seq<Seq<char>>)
    ensures
        record_all(cp, texts).chunks.len() == cp.chunks.len(),
    decreases texts.len(),
{
    if texts.len() > 0 {
        lemma_record_all_len(cp, texts.drop_last());
    }
}

proof fn lemma_record_all_keeps(cp: CheckpointView, texts: Seq<Seq<char>>)
    requires
        texts.len() <= cp.chunks.len(),
    ensures
        forall|i: int|
            0 <= i < texts.len() ==> (#[trigger] record_all(cp, texts).chunks[i]).compressed
                == Some(texts[i]),
    decreases texts.len(),
{
    lemma_record_all_len(cp, texts);
    if texts.len() > 0 {
        let t = texts.drop_last();
        lemma_record_all_keeps(cp, t);
        lemma_record_all_len(cp, t);
        assert forall|i: int| 0 <= i < texts.len() implies (#[trigger] record_all(
            cp,
            texts,
        ).chunks[i]).compressed == Some(texts[i]) by {
            if i < t.len() {
                assert(record_all(cp, t).chunks[i].compressed == Some(t[i]));
            }
        }
    }
}

} // verus!
