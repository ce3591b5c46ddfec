//! The compression pipelines: what is carried between model calls, restored
//! from a checkpoint, and put together at the end.
pub mod pass1;
pub mod pass2;
pub mod pass3;

use crate::error::DistillError;
use crate::segment::{clone_strings, Chunk, ChunkView};
use crate::cli::CompressionLevel;
use crate::state::checkpoint::{
    fresh_checkpoint, spec_all_compressed, spec_compressed_for, spec_update_chunk, Checkpoint,
    CheckpointView,
};
use crate::state::{CompressedChunk, CompressedView};
use crate::text::{join, join_strings, string_views};
use vstd::prelude::*;

verus! {

/// The texts of the compressed chunks.
pub open spec fn contents(cs: Seq<CompressedChunk>) -> Seq<Seq<char>> {
    cs.map_values(|c: CompressedChunk| c.content@)
}

/// The compressed chunks joined by blank lines, in order.
pub fn join_compressed(cs: &Vec<CompressedChunk>) -> (r: String)
    ensures
        r@ == join(contents(cs@), "\n\n"@),
{
    let mut parts: Vec<String> = Vec::new();
    let mut i: usize = 0;
    while i < cs.len()
        invariant
            i <= cs@.len(),
            parts@.len() == i,
            forall|j: int| 0 <= j < i ==> (#[trigger] parts@[j])@ == cs@[j].content@,
        decreases cs@.len() - i,
    {
        parts.push(cs[i].content.clone());
        i += 1;
    }
    assert(string_views(parts@) =~= contents(cs@));
    join_strings(&parts, "\n\n")
}

/// The name of a section in messages: its header titles joined by ` > `.
pub fn section_name(header_path: &Vec<String>) -> (r: String)
    ensures
        r@ == join(string_views(header_path@), " > "@),
{
    join_strings(header_path, " > ")
}

/// The views of the pass 1 results.
pub open spec fn result_views(rs: Seq<Option<CompressedChunk>>) -> Seq<Option<CompressedView>> {
    rs.map_values(|o: Option<CompressedChunk>| match o {
        Some(c) => Some(c@),
        None => None,
    })
}

/// The views of the chunks.
pub open spec fn chunk_views(cs: Seq<Chunk>) -> Seq<ChunkView> {
    cs.map_values(|c: Chunk| c@)
}

/// Every chunk's index is a position in the list.
pub open spec fn indices_in_range(cs: Seq<ChunkView>) -> bool {
    forall|i: int| 0 <= i < cs.len() ==> 0 <= #[trigger] cs[i].index < cs.len()
}

/// The results known before pass 1 runs: for each chunk whose compressed text
/// the checkpoint holds, that text under the chunk's index and headers.
pub open spec fn restore_scan(cs: Seq<ChunkView>, cp: Option<CheckpointView>, n: nat) -> Seq<Option<CompressedView>>
    decreases cs.len(),
{
    if cs.len() == 0 {
        Seq::new(n, |i: int| None)
    } else {
        let prev = restore_scan(cs.drop_last(), cp, n);
        let c = cs.last();
        match cp {
            Some(cp) => match spec_compressed_for(cp, c.index) {
                Some(t) => if 0 <= c.index < n {
                    prev.update(
                        c.index,
                        Some(CompressedView { index: c.index, header_path: c.header_path, content: t }),
                    )
                } else {
                    prev
                },
                None => prev,
            },
            None => prev,
        }
    }
}

/// The number of chunks whose compressed text the checkpoint holds.
pub open spec fn restored_count(cs: Seq<ChunkView>, cp: Option<CheckpointView>) -> nat
    decreases cs.len(),
{
    if cs.len() == 0 {
        0
    } else {
        restored_count(cs.drop_last(), cp) + match cp {
            Some(cp) => if spec_compressed_for(cp, cs.last().index) is Some {
                1nat
            } else {
                0nat
            },
            None => 0nat,
        }
    }
}

/// The view of an optional checkpoint.
pub open spec fn opt_cp(cp: Option<&Checkpoint>) -> Option<CheckpointView> {
    match cp {
        Some(c) => Some(c@),
        None => None,
    }
}

/// The results restored from a checkpoint, and how many there are.
pub fn restore_results(chunks: &Vec<Chunk>, checkpoint: Option<&Checkpoint>) -> (r: (Vec<Option<CompressedChunk>>, usize))
    requires
        indices_in_range(chunk_views(chunks@)),
    ensures
        result_views(r.0@) == restore_scan(chunk_views(chunks@), opt_cp(checkpoint), chunks@.len()),
        r.1 == restored_count(chunk_views(chunks@), opt_cp(checkpoint)),
{
    let n = chunks.len();
    let ghost cv = chunk_views(chunks@);
    let mut results: Vec<Option<CompressedChunk>> = Vec::new();
    let mut k: usize = 0;
    while k < n
        invariant
            n == chunks@.len(),
            k <= n,
            results@.len() == k,
            forall|j: int| 0 <= j < k ==> (#[trigger] results@[j]) is None,
        decreases n - k,
    {
        results.push(None);
        k += 1;
    }
    assert(result_views(results@) =~= restore_scan(cv.take(0), opt_cp(checkpoint), n as nat));
    let mut count: usize = 0;
    let mut i: usize = 0;
    while i < n
        invariant
            n == chunks@.len(),
            cv == chunk_views(chunks@),
            indices_in_range(cv),
            i <= n,
            count <= i,
            results@.len() == n,
            result_views(results@) == restore_scan(cv.take(i as int), opt_cp(checkpoint), n as nat),
            count == restored_count(cv.take(i as int), opt_cp(checkpoint)),
        decreases n - i,
    {
        assert(cv.take(i + 1).drop_last() =~= cv.take(i as int));
        let chunk = &chunks[i];
        assert(cv.take(i + 1).last() == chunk@);
        assert(cv[i as int] == chunk@);
        match checkpoint {
            Some(cp) => {
                match cp.compressed_for(chunk.index) {
                    Some(content) => {
                        let ghost before = result_views(results@);
                        let c = CompressedChunk {
                            index: chunk.index,
                            header_path: clone_strings(&chunk.header_path),
                            content: String::from_str(content),
                        };
                        results.set(chunk.index, Some(c));
                        assert(result_views(results@) =~= before.update(chunk.index as int, Some(c@)));
                        count += 1;
                    },
                    None => {},
                }
            },
            None => {},
        }
        i += 1;
    }
    assert(cv.take(n as int) =~= cv);
    (results, count)
}

/// The result restored for a chunk: its saved text under its index and
/// headers, if the checkpoint holds one.
pub open spec fn restored(c: ChunkView, cp: CheckpointView) -> Option<CompressedView> {
    match spec_compressed_for(cp, c.index) {
        Some(t) => Some(CompressedView { index: c.index, header_path: c.header_path, content: t }),
        None => None,
    }
}

proof fn lemma_restore_scan_at(cs: Seq<ChunkView>, cp: CheckpointView, n: nat)
    requires
        cs.len() <= n,
        forall|i: int| 0 <= i < cs.len() ==> (#[trigger] cs[i]).index == i,
    ensures
        restore_scan(cs, Some(cp), n).len() == n,
        forall|i: int|
            0 <= i < n ==> #[trigger] restore_scan(cs, Some(cp), n)[i] == (if i < cs.len() {
                restored(cs[i], cp)
            } else {
                None
            }),
    decreases cs.len(),
{
    if cs.len() > 0 {
        let init = cs.drop_last();
        assert forall|i: int| 0 <= i < init.len() implies (#[trigger] init[i]).index == i by {
            assert(init[i] == cs[i]);
        }
        lemma_restore_scan_at(init, cp, n);
        let prev = restore_scan(init, Some(cp), n);
        let c = cs.last();
        assert(c == cs[cs.len() - 1]);
        assert forall|i: int| 0 <= i < n implies #[trigger] restore_scan(cs, Some(cp), n)[i] == (if i
            < cs.len() {
            restored(cs[i], cp)
        } else {
            None
        }) by {
            assert(prev[i] == (if i < init.len() {
                restored(init[i], cp)
            } else {
                None
            }));
            if i < init.len() {
                assert(init[i] == cs[i]);
            }
        }
    }
}

/// Resuming restores exactly the chunks whose text the checkpoint holds: when
/// every chunk's index is its position, result `i` is chunk `i` with its saved
/// text if the checkpoint has one, and nothing otherwise.
pub proof fn lemma_restore_exact(cs: Seq<ChunkView>, cp: CheckpointView)
    requires
        forall|i: int| 0 <= i < cs.len() ==> (#[trigger] cs[i]).index == i,
    ensures
        restore_scan(cs, Some(cp), cs.len()).len() == cs.len(),
        forall|i: int|
            0 <= i < cs.len() ==> #[trigger] restore_scan(cs, Some(cp), cs.len())[i] == restored(
                cs[i],
                cp,
            ),
{
    lemma_restore_scan_at(cs, cp, cs.len());
}

proof fn lemma_nothing_saved_count(cs: Seq<ChunkView>, cp: CheckpointView)
    requires
        forall|i: int| 0 <= i < cp.chunks.len() ==> (#[trigger] cp.chunks[i]).compressed is None,
    ensures
        restored_count(cs, Some(cp)) == 0,
        forall|n: nat| #[trigger] restore_scan(cs, Some(cp), n) == Seq::new(n, |i: int| None::<CompressedView>),
    decreases cs.len(),
{
    if cs.len() > 0 {
        lemma_nothing_saved_count(cs.drop_last(), cp);
    }
    assert forall|n: nat| #[trigger] restore_scan(cs, Some(cp), n) == Seq::new(n, |i: int| None::<CompressedView>) by {
        if cs.len() > 0 {
            assert(restore_scan(cs.drop_last(), Some(cp), n) == Seq::new(n, |i: int| None::<CompressedView>));
        } else {
            assert(restore_scan(cs, Some(cp), n) =~= Seq::new(n, |i: int| None::<CompressedView>));
        }
    }
}

/// A fresh checkpoint restores nothing: a new run compresses every chunk.
pub proof fn lemma_fresh_restores_nothing(
    cs: Seq<ChunkView>,
    input_hash: Seq<char>,
    level: CompressionLevel,
    model: Seq<char>,
    originals: Seq<Seq<char>>,
)
    ensures
        ({
            let cp = fresh_checkpoint(input_hash, level, model, originals);
            &&& restored_count(cs, Some(cp)) == 0
            &&& restore_scan(cs, Some(cp), cs.len()) == Seq::new(cs.len(), |i: int| None::<CompressedView>)
        }),
{
    let cp = fresh_checkpoint(input_hash, level, model, originals);
    assert forall|i: int| 0 <= i < cp.chunks.len() implies (#[trigger] cp.chunks[i]).compressed is None by {}
    lemma_nothing_saved_count(cs, cp);
}

/// A result that is persisted is restored on resume: after a chunk's text is
/// recorded, the checkpoint gives that text back for the chunk and keeps the
/// others' as they were.
pub proof fn lemma_persist_then_restore(cp: CheckpointView, c: CompressedView, j: int)
    requires
        0 <= c.index < cp.chunks.len(),
    ensures
        spec_compressed_for(spec_persist(cp, c), c.index) == Some(c.content),
        j != c.index ==> spec_compressed_for(spec_persist(cp, c), j) == spec_compressed_for(cp, j),
{
}

/// The checkpoint after a chunk is compressed: its text recorded, and pass 1
/// marked complete once every chunk has its text.
pub open spec fn spec_persist(cp: CheckpointView, c: CompressedView) -> CheckpointView {
    let up = spec_update_chunk(cp, c.index, c.content);
    if spec_all_compressed(up) {
        CheckpointView { completed_pass: 1, ..up }
    } else {
        up
    }
}

/// Records a compressed chunk in the checkpoint, if there is one; the result
/// says whether there is a checkpoint to save.
pub fn persist_chunk(checkpoint: &mut Option<Checkpoint>, result: &CompressedChunk) -> (saved: bool)
    ensures
        saved == (*old(checkpoint) is Some),
        match *old(checkpoint) {
            Some(cp) => *final(checkpoint) matches Some(n) && n@ == spec_persist(cp@, result@),
            None => *final(checkpoint) is None,
        },
{
    match checkpoint {
        Some(state) => {
            state.update_chunk(result.index, result.content.clone());
            if state.all_chunks_compressed() {
                state.completed_pass = 1;
            }
            true
        },
        None => false,
    }
}

/// The positions of the chunks that still need compressing.
pub fn pending_chunks(chunks: &Vec<Chunk>, results: &Vec<Option<CompressedChunk>>) -> (r: Vec<usize>)
    requires
        indices_in_range(chunk_views(chunks@)),
        results@.len() == chunks@.len(),
    ensures
        forall|j: int| 0 <= j < r@.len() ==> #[trigger] r@[j] < chunks@.len()
            && results@[chunks@[r@[j] as int].index as int] is None,
        forall|i: int, j: int| 0 <= i < j < r@.len() ==> r@[i] < r@[j],
        forall|i: int|
            0 <= i < chunks@.len() && (#[trigger] results@[chunks@[i].index as int]) is None
                ==> r@.contains(i as usize),
{
    let mut r: Vec<usize> = Vec::new();
    let mut i: usize = 0;
    while i < chunks.len()
        invariant
            indices_in_range(chunk_views(chunks@)),
            results@.len() == chunks@.len(),
            i <= chunks@.len(),
            forall|j: int| 0 <= j < r@.len() ==> #[trigger] r@[j] < i
                && results@[chunks@[r@[j] as int].index as int] is None,
            forall|a: int, b: int| 0 <= a < b < r@.len() ==> r@[a] < r@[b],
            forall|k: int|
                0 <= k < i && (#[trigger] results@[chunks@[k].index as int]) is None ==> r@.contains(
                    k as usize,
                ),
        decreases chunks@.len() - i,
    {
        assert(chunk_views(chunks@)[i as int].index == chunks@[i as int].index);
        if results[chunks[i].index].is_none() {
            let ghost before = r@;
            r.push(i);
            assert forall|k: int|
                0 <= k < i + 1 && (#[trigger] results@[chunks@[k].index as int]) is None implies r@.contains(
                k as usize,
            ) by {
                if k < i {
                    let w = choose|w: int| 0 <= w < before.len() && before[w] == k as usize;
                    assert(r@[w] == k as usize);
                } else {
                    assert(r@[r@.len() - 1] == i);
                }
            }
        }
        i += 1;
    }
    r
}

/// The pass 1 results in order, or an error naming the first chunk without one.
pub open spec fn collect_ok(rs: Seq<Option<CompressedView>>, cs: Seq<ChunkView>, r: Result<Seq<CompressedView>, (int, Seq<char>)>) -> bool {
    match r {
        Ok(v) => v.len() == rs.len() && forall|i: int| 0 <= i < rs.len() ==> rs[i] == Some(#[trigger] v[i]),
        Err((k, section)) => 0 <= k < rs.len() && rs[k] is None && (forall|i: int| 0 <= i < k ==> (#[trigger] rs[i]) is Some)
            && section == join(cs[k].header_path, " > "@),
    }
}

/// The collected results, or the position and section of the first missing one.
pub open spec fn collect_view(r: Result<Vec<CompressedChunk>, DistillError>) -> Result<Seq<CompressedView>, (int, Seq<char>)> {
    match r {
        Ok(v) => Ok(v@.map_values(|c: CompressedChunk| c@)),
        Err(DistillError::Compression { chunk_index, section, cause }) => Err((chunk_index as int, section@)),
        Err(_) => Err((-1, seq![])),
    }
}

/// The pass 1 results in order, or an error for the first chunk without one.
pub fn collect_results(results: Vec<Option<CompressedChunk>>, chunks: &Vec<Chunk>) -> (r: Result<Vec<CompressedChunk>, DistillError>)
    requires
        results@.len() == chunks@.len(),
    ensures
        collect_ok(result_views(results@), chunk_views(chunks@), collect_view(r)),
        r matches Err(e) ==> e matches DistillError::Compression { cause, .. } && cause@ == "missing compressed output"@,
{
    let ghost rv = result_views(results@);
    let mut out: Vec<CompressedChunk> = Vec::new();
    let mut i: usize = 0;
    let n = results.len();
    while i < n
        invariant
            n == results@.len(),
            n == chunks@.len(),
            rv == result_views(results@),
            i <= n,
            out@.len() == i,
            forall|j: int| 0 <= j < i ==> rv[j] == Some(#[trigger] out@[j]@),
        decreases n - i,
    {
        match &results[i] {
            Some(c) => {
                let cc = CompressedChunk {
                    index: c.index,
                    header_path: clone_strings(&c.header_path),
                    content: c.content.clone(),
                };
                out.push(cc);
            },
            None => {
                assert(chunk_views(chunks@)[i as int] == chunks@[i as int]@);
                assert(rv[i as int] is None);
                assert forall|j: int| 0 <= j < i implies (#[trigger] rv[j]) is Some by {
                    assert(rv[j] == Some(out@[j]@));
                }
                return Err(
                    DistillError::Compression {
                        chunk_index: i,
                        section: section_name(&chunks[i].header_path),
                        cause: String::from_str("missing compressed output"),
                    },
                );
            },
        }
        i += 1;
    }
    assert(out@.map_values(|c: CompressedChunk| c@).len() == rv.len());
    Ok(out)
}

/// The single chunk that the takeaway extraction of a book reads: all the
/// pre-compressed text, without headers.
pub fn tldr_chunk(pre_compressed: String) -> (c: Chunk)
    ensures
        c@.index == 0,
        c@.header_path.len() == 0,
        c@.content == pre_compressed@,
        c@.token_estimate == 0,
{
    let c = Chunk { index: 0, header_path: Vec::new(), content: pre_compressed, token_estimate: 0 };
    assert(c@.header_path =~= Seq::<Seq<char>>::empty());
    c
}

} // verus!
