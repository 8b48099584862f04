//! Splitting a byte payload into ordered, size-bounded chunks and putting it
//! back together.
use vstd::prelude::*;
use crate::entity::{Address, copy_vec};
use crate::record::Record;
use crate::store::{History, Store};

verus! {

/// Where a chunk stands in its sequence, and how many bytes it declares.
#[derive(Debug, Clone, Copy, PartialEq, Eq, Structural)]
pub struct SequencePosition {
    pub position: u64,
    pub length: u64,
}

/// One ordered slice of a larger payload.
#[derive(Debug, Clone)]
pub struct DnaChunkEntry {
    pub sequence: SequencePosition,
    pub bytes: Vec<u8>,
}

/// Why a sequence of chunks could not be put back together.
#[derive(Debug, Clone, Copy, PartialEq, Eq, Structural)]
pub enum ChunkError {
    /// The positions do not run 0, 1, 2, ... in the order given.
    SequenceGap,
    /// A chunk's declared length disagrees with its bytes, or the whole
    /// disagrees with the declared total.
    SizeMismatch,
    /// An address did not resolve to a chunk record.
    ChunkNotFound,
}

/// The bytes of the chunks, one after the other.
pub open spec fn concat_chunks(chunks: Seq<DnaChunkEntry>) -> Seq<u8>
    decreases chunks.len(),
{
    if chunks.len() == 0 {
        Seq::empty()
    } else {
        concat_chunks(chunks.drop_last()) + chunks.last().bytes@
    }
}

/// Positions run 0, 1, 2, ... in the order given.
pub open spec fn positions_contiguous(chunks: Seq<DnaChunkEntry>) -> bool {
    forall|i: int| 0 <= i < chunks.len() ==> #[trigger] chunks[i].sequence.position == i
}

/// Every chunk holds as many bytes as it declares.
pub open spec fn lengths_declared(chunks: Seq<DnaChunkEntry>) -> bool {
    forall|i: int|
        0 <= i < chunks.len() ==> #[trigger] chunks[i].sequence.length == chunks[i].bytes@.len()
}

/// The outcome of reassembling `chunks` against a declared total size.
pub open spec fn assembled(chunks: Seq<DnaChunkEntry>, total: int) -> Result<Seq<u8>, ChunkError> {
    if !positions_contiguous(chunks) {
        Err(ChunkError::SequenceGap)
    } else if !lengths_declared(chunks) || concat_chunks(chunks).len() != total {
        Err(ChunkError::SizeMismatch)
    } else {
        Ok(concat_chunks(chunks))
    }
}

/// The shape that `split` gives: positions from 0, each chunk non-empty and
/// no longer than `max`, and every chunk but the last exactly `max` long.
pub open spec fn well_split(chunks: Seq<DnaChunkEntry>, max: int) -> bool {
    &&& positions_contiguous(chunks)
    &&& lengths_declared(chunks)
    &&& forall|i: int|
        0 <= i < chunks.len() ==> 0 < (#[trigger] chunks[i]).bytes@.len() <= max
    &&& forall|i: int|
        0 <= i < chunks.len() - 1 ==> (#[trigger] chunks[i]).bytes@.len() == max
}

/// The number of chunks of at most `max` bytes that `len` bytes need.
pub open spec fn chunk_count(len: int, max: int) -> int {
    (len + max - 1) / max
}

fn copy_range(b: &Vec<u8>, start: usize, end: usize) -> (r: Vec<u8>)
    requires
        start <= end <= b@.len(),
    ensures
        r@ == b@.subrange(start as int, end as int),
{
    let mut r: Vec<u8> = Vec::new();
    let mut i: usize = start;
    while i < end
        invariant
            start <= i <= end <= b@.len(),
            r@ == b@.subrange(start as int, i as int),
        decreases end - i,
    {
        r.push(b[i]);
        i = i + 1;
        assert(r@ =~= b@.subrange(start as int, i as int));
    }
    r
}

/// Splits `bytes` into chunks of `max_chunk_size` bytes, the last one shorter
/// where the size does not divide the length.
pub fn split(bytes: &Vec<u8>, max_chunk_size: usize) -> (r: Vec<DnaChunkEntry>)
    requires
        max_chunk_size > 0,
    ensures
        concat_chunks(r@) == bytes@,
        well_split(r@, max_chunk_size as int),
        r@.len() == chunk_count(bytes@.len() as int, max_chunk_size as int),
{
    let len = bytes.len();
    let mut r: Vec<DnaChunkEntry> = Vec::new();
    let mut offset: usize = 0;
    let ghost m = max_chunk_size as int;
    while offset < len
        invariant
            len == bytes@.len(),
            m == max_chunk_size as int,
            m > 0,
            offset <= len,
            offset <= r@.len() * m,
            r@.len() > 0 ==> (r@.len() - 1) * m < offset,
            r@.len() == 0 ==> offset == 0,
            offset < len ==> offset == r@.len() * m,
            concat_chunks(r@) == bytes@.subrange(0, offset as int),
            well_split(r@, m),
            offset < len ==> forall|i: int| 0 <= i < r@.len() ==> (#[trigger] r@[i]).bytes@.len() == m,
        decreases len - offset,
    {
        let end: usize = if len - offset > max_chunk_size { offset + max_chunk_size } else { len };
        let piece = copy_range(bytes, offset, end);
        let ghost prev = r@;
        let chunk = DnaChunkEntry {
            sequence: SequencePosition { position: r.len() as u64, length: (end - offset) as u64 },
            bytes: piece,
        };
        r.push(chunk);
        assert(r@.drop_last() == prev);
        assert(bytes@.subrange(0, end as int) =~= bytes@.subrange(0, offset as int)
            + bytes@.subrange(offset as int, end as int));
        proof {
            let n = prev.len() as int;
            assert(end <= (n + 1) * m && n * m < end) by (nonlinear_arith)
                requires offset == n * m, end <= offset + m, offset < end;
            assert((n + 1) * m == n * m + m) by (nonlinear_arith);
        }
        offset = end;
    }
    proof {
        let n = r@.len() as int;
        let l = len as int;
        if n > 0 {
            assert((l + m - 1) / m == n) by (nonlinear_arith)
                requires (n - 1) * m < l, l <= n * m, m > 0;
        } else {
            assert((m - 1) / m == 0) by (nonlinear_arith) requires m > 0;
        }
    }
    r
}

fn append_bytes(out: &mut Vec<u8>, b: &Vec<u8>)
    ensures
        final(out)@ == old(out)@ + b@,
{
    let mut i: usize = 0;
    while i < b.len()
        invariant
            i <= b@.len(),
            out@ == old(out)@ + b@.subrange(0, i as int),
        decreases b@.len() - i,
    {
        out.push(b[i]);
        i = i + 1;
        assert(out@ =~= old(out)@ + b@.subrange(0, i as int));
    }
    assert(b@.subrange(0, b@.len() as int) =~= b@);
}

/// Checks that the chunks stand in position order from 0 and that each holds
/// what it declares, then concatenates them and checks the total against
/// `total_size`.
pub fn assemble_chunks(chunks: &Vec<DnaChunkEntry>, total_size: u64) -> (r: Result<Vec<u8>, ChunkError>)
    ensures
        match r {
            Ok(v) => assembled(chunks@, total_size as int) == Ok::<Seq<u8>, ChunkError>(v@),
            Err(e) => assembled(chunks@, total_size as int) == Err::<Seq<u8>, ChunkError>(e),
        },
{
    let n = chunks.len();
    let mut i: usize = 0;
    while i < n
        invariant
            n == chunks@.len(),
            i <= n,
            forall|j: int| 0 <= j < i ==> #[trigger] chunks@[j].sequence.position == j,
        decreases n - i,
    {
        if chunks[i].sequence.position != i as u64 {
            return Err(ChunkError::SequenceGap);
        }
        i = i + 1;
    }
    let mut out: Vec<u8> = Vec::new();
    let mut i: usize = 0;
    while i < n
        invariant
            n == chunks@.len(),
            i <= n,
            positions_contiguous(chunks@),
            forall|j: int|
                0 <= j < i ==> #[trigger] chunks@[j].sequence.length == chunks@[j].bytes@.len(),
            out@ == concat_chunks(chunks@.take(i as int)),
        decreases n - i,
    {
        if chunks[i].sequence.length != chunks[i].bytes.len() as u64 {
            return Err(ChunkError::SizeMismatch);
        }
        append_bytes(&mut out, &chunks[i].bytes);
        assert(chunks@.take(i + 1).drop_last() =~= chunks@.take(i as int));
        i = i + 1;
    }
    assert(chunks@.take(n as int) =~= chunks@);
    if out.len() as u64 != total_size {
        return Err(ChunkError::SizeMismatch);
    }
    Ok(out)
}

/// Putting back together what `split` made, against the payload's length,
/// gives the payload: any chunk sequence that meets `split`'s postcondition
/// for `bytes` and `max` reassembles to `bytes`.
pub proof fn lemma_split_then_assemble(bytes: Seq<u8>, max: int, chunks: Seq<DnaChunkEntry>)
    requires
        max > 0,
        concat_chunks(chunks) == bytes,
        well_split(chunks, max),
    ensures
        assembled(chunks, bytes.len() as int) == Ok::<Seq<u8>, ChunkError>(bytes),
        positions_contiguous(chunks),
{
}

/// Every address holds a chunk record.
pub open spec fn all_chunks(h: History, addresses: Seq<Address>) -> bool {
    forall|i: int|
        0 <= i < addresses.len() ==> {
            let a = (#[trigger] addresses[i]).slot as int;
            a < h.len() && h.records[a].content is DnaChunk
        }
}

/// The chunk stored at `a`.
pub open spec fn chunk_at(h: History, a: Address) -> DnaChunkEntry {
    h.records[a.slot as int].content->DnaChunk_0
}

/// The chunks stored at `addresses`, in that order.
pub open spec fn chunks_at(h: History, addresses: Seq<Address>) -> Seq<DnaChunkEntry> {
    addresses.map_values(|a: Address| chunk_at(h, a))
}

/// Two chunk sequences that hold the same positions, lengths and bytes.
pub open spec fn same_chunks(a: Seq<DnaChunkEntry>, b: Seq<DnaChunkEntry>) -> bool {
    &&& a.len() == b.len()
    &&& forall|i: int|
        0 <= i < a.len() ==> (#[trigger] a[i]).sequence == b[i].sequence && a[i].bytes@ == b[i].bytes@
}

proof fn lemma_same_chunks_concat(a: Seq<DnaChunkEntry>, b: Seq<DnaChunkEntry>)
    requires
        same_chunks(a, b),
    ensures
        concat_chunks(a) == concat_chunks(b),
    decreases a.len(),
{
    if a.len() > 0 {
        assert(same_chunks(a.drop_last(), b.drop_last()));
        lemma_same_chunks_concat(a.drop_last(), b.drop_last());
        assert(a[a.len() - 1].bytes@ == b[b.len() - 1].bytes@);
    }
}

proof fn lemma_same_chunks_assembled(a: Seq<DnaChunkEntry>, b: Seq<DnaChunkEntry>, total: int)
    requires
        same_chunks(a, b),
    ensures
        assembled(a, total) == assembled(b, total),
{
    lemma_same_chunks_concat(a, b);
    assert(positions_contiguous(a) == positions_contiguous(b)) by {
        if positions_contiguous(a) {
            assert forall|i: int| 0 <= i < b.len() implies #[trigger] b[i].sequence.position == i by {
                assert(a[i].sequence == b[i].sequence);
            }
        }
        if positions_contiguous(b) {
            assert forall|i: int| 0 <= i < a.len() implies #[trigger] a[i].sequence.position == i by {
                assert(a[i].sequence == b[i].sequence);
            }
        }
    }
    assert(lengths_declared(a) == lengths_declared(b)) by {
        if lengths_declared(a) {
            assert forall|i: int| 0 <= i < b.len() implies #[trigger] b[i].sequence.length == b[i].bytes@.len() by {
                assert(a[i].sequence == b[i].sequence);
            }
        }
        if lengths_declared(b) {
            assert forall|i: int| 0 <= i < a.len() implies #[trigger] a[i].sequence.length == a[i].bytes@.len() by {
                assert(a[i].sequence == b[i].sequence);
            }
        }
    }
}

/// Reads the chunk records at `addresses`, each on its own, in the order given.
pub fn fetch_chunks(store: &Store, addresses: &Vec<Address>) -> (r: Result<Vec<DnaChunkEntry>, ChunkError>)
    ensures
        !all_chunks(store.history(), addresses@) ==> r == Err::<Vec<DnaChunkEntry>, ChunkError>(
            ChunkError::ChunkNotFound,
        ),
        all_chunks(store.history(), addresses@) ==> r is Ok && same_chunks(
            r->Ok_0@,
            chunks_at(store.history(), addresses@),
        ),
{
    let ghost h = store.history();
    let mut out: Vec<DnaChunkEntry> = Vec::new();
    let mut i: usize = 0;
    while i < addresses.len()
        invariant
            h == store.history(),
            i <= addresses@.len(),
            all_chunks(h, addresses@.take(i as int)),
            same_chunks(out@, chunks_at(h, addresses@.take(i as int))),
        decreases addresses@.len() - i,
    {
        let a = addresses[i];
        match store.record(a) {
            Some(Record::DnaChunk(c)) => {
                out.push(DnaChunkEntry { sequence: c.sequence, bytes: copy_vec(&c.bytes) });
                assert(addresses@.take(i + 1) =~= addresses@.take(i as int).push(a));
                assert(chunks_at(h, addresses@.take(i + 1)) =~= chunks_at(h, addresses@.take(i as int)).push(
                    chunk_at(h, a),
                ));
            },
            _ => {
                assert(!all_chunks(h, addresses@)) by {
                    assert(addresses@[i as int] == a);
                }
                return Err(ChunkError::ChunkNotFound);
            },
        }
        i = i + 1;
    }
    assert(addresses@.take(addresses@.len() as int) =~= addresses@);
    Ok(out)
}

/// Reassembles the payload held in the chunk records at `addresses`, in the
/// order given, against its declared total size.
pub fn assemble(store: &Store, addresses: &Vec<Address>, total_size: u64) -> (r: Result<Vec<u8>, ChunkError>)
    ensures
        !all_chunks(store.history(), addresses@) ==> r == Err::<Vec<u8>, ChunkError>(
            ChunkError::ChunkNotFound,
        ),
        all_chunks(store.history(), addresses@) ==> match r {
            Ok(v) => assembled(chunks_at(store.history(), addresses@), total_size as int)
                == Ok::<Seq<u8>, ChunkError>(v@),
            Err(e) => assembled(chunks_at(store.history(), addresses@), total_size as int)
                == Err::<Seq<u8>, ChunkError>(e),
        },
{
    let chunks = fetch_chunks(store, addresses)?;
    proof {
        lemma_same_chunks_assembled(chunks@, chunks_at(store.history(), addresses@), total_size as int);
    }
    assemble_chunks(&chunks, total_size)
}

} // verus!
