//! Chunked file transfer over the connection.
//!
//! Binary payloads travel in strictly ordered chunks of at most
//! 1,000,000 bytes; only the final chunk may be shorter. Downloads
//! announce the chunk count, then send each chunk; uploads declare a chunk
//! count, accumulate exactly that many binary frames in memory, and are
//! flushed to disk only when the last one has arrived — a premature
//! disconnect writes nothing.

use vstd::prelude::*;
use vstd::arithmetic::div_mod::lemma_fundamental_div_mod;
use vstd::slice::slice_subrange;
use vstd::slice::slice_to_vec;

verus! {

/// The size bound of one transfer chunk, in bytes.
pub const CHUNK_SIZE: usize = 1000000;

/// How many chunks a payload of `len` bytes needs: the ceiling of
/// `len / CHUNK_SIZE`.
pub open spec fn spec_chunk_count(len: nat) -> nat {
    if len % (CHUNK_SIZE as nat) == 0 {
        len / (CHUNK_SIZE as nat)
    } else {
        len / (CHUNK_SIZE as nat) + 1
    }
}

/// Chunk `i` of a payload: the bytes from `i * CHUNK_SIZE` up to the next
/// chunk boundary or the end.
pub open spec fn spec_chunk(data: Seq<u8>, i: nat) -> Seq<u8> {
    data.subrange(
        i * (CHUNK_SIZE as nat) as int,
        if i * (CHUNK_SIZE as nat) + (CHUNK_SIZE as nat) <= data.len() {
            (i * (CHUNK_SIZE as nat) + (CHUNK_SIZE as nat)) as int
        } else {
            data.len() as int
        },
    )
}

/// A chunk index below the count starts strictly inside the payload.
proof fn lemma_chunk_start_in_range(len: nat, i: nat)
    requires
        i < spec_chunk_count(len),
    ensures
        i * (CHUNK_SIZE as nat) < len,
        (i + 1) * (CHUNK_SIZE as nat) == i * (CHUNK_SIZE as nat) + (CHUNK_SIZE as nat),
{
    let k = CHUNK_SIZE as nat;
    let q = len / k;
    let r = len % k;
    lemma_fundamental_div_mod(len as int, k as int);
    if r == 0 {
        assert(i * k < len) by (nonlinear_arith)
            requires
                i < q,
                len == k * q,
                k > 0,
        ;
    } else {
        assert(i * k < len) by (nonlinear_arith)
            requires
                i <= q,
                len == k * q + r,
                r > 0,
                k > 0,
        ;
    }
    assert((i + 1) * k == i * k + k) by (nonlinear_arith);
}

/// The number of chunks of a payload held in memory.
pub fn chunk_count(len: usize) -> (r: usize)
    ensures
        r == spec_chunk_count(len as nat),
{
    if len % CHUNK_SIZE == 0 {
        len / CHUNK_SIZE
    } else {
        len / CHUNK_SIZE + 1
    }
}

/// Copies chunk `i` of the payload.
pub fn chunk(data: &Vec<u8>, i: usize) -> (r: Vec<u8>)
    requires
        (i as nat) < spec_chunk_count(data@.len()),
    ensures
        r@ == spec_chunk(data@, i as nat),
{
    let n = data.len();
    proof {
        lemma_chunk_start_in_range(data@.len(), i as nat);
    }
    let start = i * CHUNK_SIZE;
    let end = if n - start >= CHUNK_SIZE {
        start + CHUNK_SIZE
    } else {
        n
    };
    let r = slice_to_vec(slice_subrange(data.as_slice(), start, end));
    proof {
        assert(r@ =~= spec_chunk(data@, i as nat));
    }
    r
}

/// Splits a payload into its chunks, in order.
pub fn split_chunks(data: &Vec<u8>) -> (r: Vec<Vec<u8>>)
    ensures
        r@.len() == spec_chunk_count(data@.len()),
        forall|i: int|
            0 <= i < r@.len() ==> #[trigger] r@[i]@ == spec_chunk(data@, i as nat),
{
    let count = chunk_count(data.len());
    let mut r: Vec<Vec<u8>> = Vec::new();
    let mut i: usize = 0;
    while i < count
        invariant
            0 <= i <= count,
            count == spec_chunk_count(data@.len()),
            r@.len() == i,
            forall|j: int|
                0 <= j < i ==> #[trigger] r@[j]@ == spec_chunk(data@, j as nat),
        decreases count - i,
    {
        r.push(chunk(data, i));
        i = i + 1;
    }
    r
}

/// The concatenation of a list of chunks, in order.
pub open spec fn spec_concat_chunks(chunks: Seq<Seq<u8>>) -> Seq<u8>
    decreases chunks.len(),
{
    if chunks.len() == 0 {
        Seq::empty()
    } else {
        spec_concat_chunks(chunks.drop_last()) + chunks.last()
    }
}

/// The chunks of a payload, as one list.
pub open spec fn spec_chunks_of(data: Seq<u8>) -> Seq<Seq<u8>> {
    Seq::new(spec_chunk_count(data.len()), |i: int| spec_chunk(data, i as nat))
}

/// Concatenating the first `n` chunks yields the payload up to the `n`th
/// chunk boundary.
proof fn lemma_chunks_prefix(data: Seq<u8>, n: int)
    requires
        0 <= n <= spec_chunk_count(data.len()),
    ensures
        spec_concat_chunks(spec_chunks_of(data).take(n)) == data.take(
            if n * (CHUNK_SIZE as int) <= data.len() {
                n * (CHUNK_SIZE as int)
            } else {
                data.len() as int
            },
        ),
    decreases n,
{
    let k = CHUNK_SIZE as int;
    if n == 0 {
        assert(spec_chunks_of(data).take(0) =~= Seq::<Seq<u8>>::empty());
        assert(data.take(0) =~= Seq::<u8>::empty());
    } else {
        lemma_chunks_prefix(data, n - 1);
        lemma_chunk_start_in_range(data.len(), (n - 1) as nat);
        assert(spec_chunks_of(data).take(n).drop_last() =~= spec_chunks_of(data).take(n - 1));
        assert(spec_chunks_of(data).take(n).last() == spec_chunk(data, (n - 1) as nat));
        let upper = if n * k <= data.len() {
            n * k
        } else {
            data.len() as int
        };
        assert((n - 1) * k <= data.len()) by (nonlinear_arith)
            requires
                (n - 1) * (CHUNK_SIZE as nat) < data.len(),
                k == CHUNK_SIZE as int,
        ;
        assert(data.take((n - 1) * k) + spec_chunk(data, (n - 1) as nat) =~= data.take(upper));
    }
}

/// Concatenating all chunks of a payload reconstructs it exactly, and the
/// chunk list's length is the ceiling of `len / CHUNK_SIZE`.
pub proof fn lemma_chunks_reconstruct(data: Seq<u8>)
    ensures
        spec_chunks_of(data).len() == spec_chunk_count(data.len()),
        spec_concat_chunks(spec_chunks_of(data)) == data,
{
    let count = spec_chunk_count(data.len()) as int;
    let k = CHUNK_SIZE as int;
    lemma_chunks_prefix(data, count);
    assert(spec_chunks_of(data).take(count) =~= spec_chunks_of(data));
    if data.len() == 0 {
        assert(data.take(0) =~= data);
    } else {
        lemma_fundamental_div_mod(data.len() as int, k);
        assert(data.len() <= count * k) by (nonlinear_arith)
            requires
                count == spec_chunk_count(data.len()),
                data.len() == k * (data.len() as int / k) + data.len() as int % k,
                k == CHUNK_SIZE as int,
                0 <= data.len() as int % k < k,
        ;
        assert(data.take(data.len() as int) =~= data);
    }
}

/// The mathematical state of the upload accumulator.
pub struct UploadModel {
    pub path: Seq<char>,
    pub declared: nat,
    pub received: nat,
    pub buf: Seq<u8>,
}

impl UploadModel {
    /// No upload declared, nothing buffered.
    pub open spec fn empty() -> UploadModel {
        UploadModel { path: Seq::empty(), declared: 0, received: 0, buf: Seq::empty() }
    }
}

/// The upload accumulator: destination path, the declared chunk count, and
/// what has arrived so far. Created empty, re-armed by each `up` command,
/// flushed to disk exactly when the declared count is reached. Dropping it
/// early — a disconnect — writes nothing.
pub struct UploadState {
    pub path: String,
    pub declared: usize,
    pub received: usize,
    pub buf: Vec<u8>,
}

impl View for UploadState {
    type V = UploadModel;

    open spec fn view(&self) -> UploadModel {
        UploadModel {
            path: self.path@,
            declared: self.declared as nat,
            received: self.received as nat,
            buf: self.buf@,
        }
    }
}

/// One binary frame arrives: the bytes are appended and counted; when the
/// count reaches the declared total the whole buffer is committed under the
/// destination path and the accumulator empties.
pub open spec fn spec_upload_push(m: UploadModel, data: Seq<u8>) -> (
    UploadModel,
    Option<(Seq<char>, Seq<u8>)>,
) {
    if m.received + 1 == m.declared {
        (UploadModel::empty(), Some((m.path, m.buf + data)))
    } else {
        (
            UploadModel {
                path: m.path,
                declared: m.declared,
                received: (m.received + 1) as nat,
                buf: m.buf + data,
            },
            None,
        )
    }
}

impl UploadState {
    /// No upload declared, nothing buffered.
    pub fn new() -> (s: UploadState)
        ensures
            s@ == UploadModel::empty(),
    {
        UploadState { path: String::new(), declared: 0, received: 0, buf: Vec::new() }
    }

    /// An `up` command: remember the destination and the declared chunk
    /// count, and discard anything a previous upload left behind.
    pub fn begin(&mut self, path: String, declared: usize)
        ensures
            final(self)@ == (UploadModel {
                path: path@,
                declared: declared as nat,
                received: 0,
                buf: Seq::empty(),
            }),
    {
        self.path = path;
        self.declared = declared;
        self.received = 0;
        self.buf = Vec::new();
    }

    /// One binary frame. Returns the destination path and the complete
    /// body exactly when this frame is the declared last one; the caller
    /// then writes the file and reports completion.
    pub fn push_chunk(&mut self, data: Vec<u8>) -> (commit: Option<(String, Vec<u8>)>)
        requires
            old(self).received < usize::MAX,
        ensures
            (
                final(self)@,
                match commit {
                    Some(c) => Some((c.0@, c.1@)),
                    None => None,
                },
            ) == spec_upload_push(old(self)@, data@),
    {
        let mut data = data;
        self.buf.append(&mut data);
        if self.received + 1 == self.declared {
            let mut path = String::new();
            std::mem::swap(&mut self.path, &mut path);
            let mut buf: Vec<u8> = Vec::new();
            std::mem::swap(&mut self.buf, &mut buf);
            self.declared = 0;
            self.received = 0;
            Some((path, buf))
        } else {
            self.received = self.received + 1;
            None
        }
    }
}

/// Feeding a run of binary frames into the accumulator: the state after all
/// of them, and every commit they caused, in order.
pub open spec fn spec_upload_run(m: UploadModel, chunks: Seq<Seq<u8>>) -> (
    UploadModel,
    Seq<(Seq<char>, Seq<u8>)>,
)
    decreases chunks.len(),
{
    if chunks.len() == 0 {
        (m, Seq::empty())
    } else {
        let step = spec_upload_push(m, chunks.first());
        let rest = spec_upload_run(step.0, chunks.drop_first());
        (
            rest.0,
            match step.1 {
                Some(c) => seq![c] + rest.1,
                None => rest.1,
            },
        )
    }
}

/// Once nothing more is owed — the declared count does not exceed what
/// was already received, as after a commit empties the accumulator —
/// further frames only accumulate: no commit is ever emitted again.
pub proof fn lemma_upload_no_further_commit(m: UploadModel, chunks: Seq<Seq<u8>>)
    requires
        m.declared <= m.received,
    ensures
        spec_upload_run(m, chunks).1 =~= Seq::<(Seq<char>, Seq<u8>)>::empty(),
    decreases chunks.len(),
{
    if chunks.len() > 0 {
        let step = spec_upload_push(m, chunks.first());
        lemma_upload_no_further_commit(step.0, chunks.drop_first());
    }
}

/// The upload commit law: after an `up` declaring at least one chunk, the
/// destination is written if and only if at least the declared number of
/// binary frames arrives, and the commit happens exactly at the declared
/// frame. Fewer frames commit nothing — a disconnect then discards the
/// buffer. The one commit carries, under the declared path, the
/// concatenation of the first declared-many frames in order; whatever
/// arrives later commits nothing more.
pub proof fn lemma_upload_commit_iff_complete(m: UploadModel, chunks: Seq<Seq<u8>>)
    requires
        m.received < m.declared,
    ensures
        chunks.len() < m.declared - m.received ==> spec_upload_run(m, chunks).1 =~= Seq::<
            (Seq<char>, Seq<u8>),
        >::empty(),
        chunks.len() >= m.declared - m.received ==> spec_upload_run(m, chunks).1 =~= seq![
            (m.path, m.buf + spec_concat_chunks(chunks.take(m.declared - m.received))),
        ],
    decreases chunks.len(),
{
    let owed = m.declared - m.received;
    if chunks.len() == 0 {
    } else {
        let step = spec_upload_push(m, chunks.first());
        let rest = spec_upload_run(step.0, chunks.drop_first());
        if m.received + 1 == m.declared {
            // the first frame is the declared last one: it commits, and
            // nothing afterwards can commit again
            lemma_upload_no_further_commit(step.0, chunks.drop_first());
            reveal_with_fuel(spec_concat_chunks, 2);
            assert(chunks.take(1) =~= seq![chunks.first()]);
            assert(seq![chunks.first()].drop_last() =~= Seq::<Seq<u8>>::empty());
            assert(Seq::<u8>::empty() + chunks.first() =~= chunks.first());
            assert(spec_concat_chunks(chunks.take(1)) == chunks.first());
            assert(spec_upload_run(m, chunks).1 =~= seq![(m.path, m.buf + chunks.first())]);
        } else {
            lemma_upload_commit_iff_complete(step.0, chunks.drop_first());
            if chunks.len() >= owed {
                assert(chunks.take(owed).first() == chunks.first());
                assert(chunks.drop_first().take(owed - 1) =~= chunks.take(owed).drop_first());
                lemma_concat_chunks_first(chunks.take(owed));
                assert(rest.1 =~= seq![
                    (
                        m.path,
                        (m.buf + chunks.first()) + spec_concat_chunks(
                            chunks.take(owed).drop_first(),
                        ),
                    ),
                ]);
                assert((m.buf + chunks.first()) + spec_concat_chunks(chunks.take(owed).drop_first())
                    =~= m.buf + (chunks.first() + spec_concat_chunks(
                    chunks.take(owed).drop_first(),
                )));
            }
        }
    }
}

/// Concatenation taken from the front: the first chunk, then the rest.
proof fn lemma_concat_chunks_first(chunks: Seq<Seq<u8>>)
    requires
        chunks.len() > 0,
    ensures
        spec_concat_chunks(chunks) == chunks.first() + spec_concat_chunks(chunks.drop_first()),
    decreases chunks.len(),
{
    if chunks.len() == 1 {
        assert(chunks.drop_last() =~= Seq::<Seq<u8>>::empty());
        assert(chunks.drop_first() =~= Seq::<Seq<u8>>::empty());
        assert(Seq::<u8>::empty() + chunks.last() =~= chunks.last());
        assert(chunks.first() + Seq::<u8>::empty() =~= chunks.first());
        assert(chunks.first() == chunks.last());
    } else {
        lemma_concat_chunks_first(chunks.drop_last());
        assert(chunks.drop_last().first() == chunks.first());
        assert(chunks.drop_last().drop_first() =~= chunks.drop_first().drop_last());
        assert(spec_concat_chunks(chunks) == spec_concat_chunks(chunks.drop_last())
            + chunks.last());
        assert(chunks.first() + (spec_concat_chunks(chunks.drop_first().drop_last())
            + chunks.last()) =~= (chunks.first() + spec_concat_chunks(
            chunks.drop_first().drop_last(),
        )) + chunks.last());
        assert(spec_concat_chunks(chunks.drop_first()) == spec_concat_chunks(
            chunks.drop_first().drop_last(),
        ) + chunks.drop_first().last());
        assert(chunks.drop_first().last() == chunks.last());
    }
}

/// Every chunk but the last is exactly `CHUNK_SIZE` bytes; the last holds
/// the remainder.
pub proof fn lemma_chunk_sizes(data: Seq<u8>, i: nat)
    requires
        i < spec_chunk_count(data.len()),
    ensures
        i + 1 < spec_chunk_count(data.len()) ==> spec_chunk(data, i).len() == CHUNK_SIZE,
        i + 1 == spec_chunk_count(data.len()) ==> spec_chunk(data, i).len() == data.len() - i * (
        CHUNK_SIZE as nat),
        spec_chunk(data, i).len() <= CHUNK_SIZE,
{
    let k = CHUNK_SIZE as nat;
    lemma_chunk_start_in_range(data.len(), i);
    if i + 1 < spec_chunk_count(data.len()) {
        lemma_chunk_start_in_range(data.len(), i + 1);
        assert((i + 1) * k < data.len());
    } else {
        lemma_fundamental_div_mod(data.len() as int, k as int);
        assert(data.len() <= (i + 1) * k) by (nonlinear_arith)
            requires
                i + 1 == spec_chunk_count(data.len()),
                data.len() == (k as int) * (data.len() as int / (k as int)) + data.len() as int % (
                k as int),
                0 <= data.len() as int % (k as int) < k,
                k == CHUNK_SIZE as nat,
                k > 0,
        ;
    }
}

} // verus!
