//! Writing a response body to a file piece by piece.
use crate::status::{reply, HttpStatus, Reply, ReplyView};
use vstd::prelude::*;

verus! {

/// How one piece of a body fared.
#[derive(Debug)]
pub enum Chunk {
    /// It did not arrive.
    Lost(String),
    /// It arrived and could not be written.
    Unwritten(String),
    /// It arrived, and this many bytes were written.
    Written(u64),
}

/// What is said of one piece of a body.
pub enum ChunkView {
    Lost(Seq<char>),
    Unwritten(Seq<char>),
    Written(u64),
}

impl View for Chunk {
    type V = ChunkView;

    open spec fn view(&self) -> ChunkView {
        match self {
            Chunk::Lost(error) => ChunkView::Lost(error@),
            Chunk::Unwritten(error) => ChunkView::Unwritten(error@),
            Chunk::Written(len) => ChunkView::Written(*len),
        }
    }
}

/// A body that is being written to a file.
#[derive(Debug)]
pub struct StreamToFile {
    count: u64,
}

impl View for StreamToFile {
    type V = nat;

    /// How many bytes have been written.
    closed spec fn view(&self) -> nat {
        self.count as nat
    }
}

/// How many bytes have been written after one more piece, or what is answered if it failed.
pub open spec fn chunk_step(count: nat, chunk: ChunkView) -> Result<nat, ReplyView> {
    match chunk {
        ChunkView::Lost(error) => Err(reply(502, "Download stream error: "@ + error)),
        ChunkView::Unwritten(error) => Err(reply(500, "Write failed: "@ + error)),
        ChunkView::Written(len) => Ok((count + len) as nat),
    }
}

/// How many bytes have been written after these pieces, or what is answered to the first of them
/// that failed.
pub open spec fn chunks_run(count: nat, chunks: Seq<ChunkView>) -> Result<nat, ReplyView>
    decreases chunks.len(),
{
    if chunks.len() == 0 {
        Ok(count)
    } else {
        match chunks_run(count, chunks.drop_last()) {
            Ok(before) => chunk_step(before, chunks.last()),
            Err(r) => Err(r),
        }
    }
}

/// Begins writing a response body to a file, once the file was to be created.
pub fn stream_response_to_file(created: Result<(), String>) -> (stream: Result<
    StreamToFile,
    Reply,
>)
    ensures
        match (created, stream) {
            (Ok(_), Ok(s)) => s@ == 0,
            (Err(error), Err(r)) => r@ == reply(500, "Create file failed: "@ + error@),
            _ => false,
        },
{
    match created {
        Ok(_) => Ok(StreamToFile { count: 0 }),
        Err(error) => Err(
            Reply::labelled(
                HttpStatus::internal_server_error(),
                "Create file failed: ",
                error.as_str(),
            ),
        ),
    }
}

impl StreamToFile {
    /// How many bytes have been written.
    pub fn count(&self) -> (count: u64)
        ensures
            count == self@,
    {
        self.count
    }

    /// Takes note of one piece of the body. The number of bytes must stay within 64 bits.
    pub fn chunk(&mut self, chunk: Chunk) -> (verdict: Result<(), Reply>)
        requires
            chunk matches Chunk::Written(len) ==> old(self)@ + len <= u64::MAX,
        ensures
            match verdict {
                Ok(_) => chunk_step(old(self)@, chunk@) == Ok::<nat, ReplyView>(final(self)@),
                Err(r) => chunk_step(old(self)@, chunk@) == Err::<nat, ReplyView>(r@)
                    && final(self)@ == old(self)@,
            },
    {
        match chunk {
            Chunk::Lost(error) => Err(
                Reply::labelled(
                    HttpStatus::bad_gateway(),
                    "Download stream error: ",
                    error.as_str(),
                ),
            ),
            Chunk::Unwritten(error) => Err(
                Reply::labelled(
                    HttpStatus::internal_server_error(),
                    "Write failed: ",
                    error.as_str(),
                ),
            ),
            Chunk::Written(len) => {
                self.count = self.count + len;
                Ok(())
            },
        }
    }

    /// Ends the writing, once the file was to be flushed, and says how many bytes there were.
    pub fn flushed(self, outcome: Result<(), String>) -> (total: Result<u64, Reply>)
        ensures
            match (outcome, total) {
                (Ok(_), Ok(count)) => count == self@,
                (Err(error), Err(r)) => r@ == reply(500, "Flush failed: "@ + error@),
                _ => false,
            },
    {
        match outcome {
            Ok(_) => Ok(self.count),
            Err(error) => Err(
                Reply::labelled(
                    HttpStatus::internal_server_error(),
                    "Flush failed: ",
                    error.as_str(),
                ),
            ),
        }
    }
}

/// The lengths added up.
pub open spec fn total(lens: Seq<u64>) -> nat
    decreases lens.len(),
{
    if lens.len() == 0 {
        0
    } else {
        total(lens.drop_last()) + lens.last() as nat
    }
}

/// Pieces that were all written.
pub open spec fn all_written(lens: Seq<u64>) -> Seq<ChunkView> {
    lens.map_values(|len: u64| ChunkView::Written(len))
}

/// The count of a body that was written whole is the sum of the lengths of its pieces, however it
/// was cut.
pub proof fn law_count_is_the_sum_of_the_pieces(lens: Seq<u64>)
    ensures
        chunks_run(0, all_written(lens)) == Ok::<nat, ReplyView>(total(lens)),
    decreases lens.len(),
{
    if lens.len() > 0 {
        law_count_is_the_sum_of_the_pieces(lens.drop_last());
        assert(all_written(lens).drop_last() =~= all_written(lens.drop_last()));
        assert(all_written(lens).last() == ChunkView::Written(lens.last()));
    }
}

/// The first piece that fails decides the answer; what would have come behind it plays no part.
pub proof fn law_first_failure_decides(
    count: nat,
    before: Seq<ChunkView>,
    failed: ChunkView,
    behind: Seq<ChunkView>,
)
    requires
        chunks_run(count, before) is Ok,
        !(failed is Written),
    ensures
        chunks_run(count, before.push(failed) + behind) == chunk_step(0, failed),
        chunk_step(0, failed) is Err,
    decreases behind.len(),
{
    let chunks = before.push(failed) + behind;
    if behind.len() == 0 {
        assert(chunks.drop_last() =~= before);
    } else {
        law_first_failure_decides(count, before, failed, behind.drop_last());
        assert(chunks.drop_last() =~= before.push(failed) + behind.drop_last());
    }
}

/// What is said of a piece is said of its whole error or length.
pub proof fn law_pieces_are_seen_whole(error: String, len: u64)
    ensures
        Chunk::Lost(error)@ == ChunkView::Lost(error@),
        Chunk::Unwritten(error)@ == ChunkView::Unwritten(error@),
        Chunk::Written(len)@ == ChunkView::Written(len),
{
}

/// A piece that was written adds its length to the count, whatever the count is; one that was lost
/// or not written is answered 502 or 500, with the whole error.
pub proof fn law_each_piece_counts_by_its_length(count: nat, len: u64, error: Seq<char>)
    ensures
        chunk_step(count, ChunkView::Written(len)) matches Ok(n) && n - count == len,
        chunk_step(count, ChunkView::Lost(error)) matches Err(r) && r.status == 502 && r.body
            == "Download stream error: "@ + error,
        chunk_step(count, ChunkView::Unwritten(error)) matches Err(r) && r.status == 500 && r.body
            == "Write failed: "@ + error,
{
}

/// How a body is cut makes no difference: two pieces in a row count as much as one piece of both
/// lengths.
pub proof fn law_cutting_a_piece_changes_nothing(count: nat, a: u64, b: u64)
    requires
        a + b <= u64::MAX,
    ensures
        ({
            let whole = seq![ChunkView::Written((a + b) as u64)];
            let parts = seq![ChunkView::Written(a), ChunkView::Written(b)];
            chunks_run(count, parts) == chunks_run(count, whole)
        }),
{
    let whole = seq![ChunkView::Written((a + b) as u64)];
    let parts = seq![ChunkView::Written(a), ChunkView::Written(b)];
    reveal_with_fuel(chunks_run, 3);
    assert(parts.drop_last() =~= seq![ChunkView::Written(a)]);
    assert(parts.drop_last().drop_last() =~= Seq::<ChunkView>::empty());
    assert(whole.drop_last() =~= Seq::<ChunkView>::empty());
}

/// Lengths are added up piece by piece.
pub proof fn law_totals_grow_by_each_length(lens: Seq<u64>, len: u64)
    ensures
        total(lens.push(len)) == total(lens) + len,
        total(Seq::empty()) == 0,
        all_written(lens.push(len)) == all_written(lens).push(ChunkView::Written(len)),
{
    assert(lens.push(len).drop_last() =~= lens);
    assert(all_written(lens.push(len)) =~= all_written(lens).push(ChunkView::Written(len)));
}

} // verus!
