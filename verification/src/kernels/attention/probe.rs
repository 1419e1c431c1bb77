//! Which rows of composed attention are read back for diagnosis, and where the
//! findings are kept.

use super::composed::{ComposedBuffers, ComposedShape};
use crate::types::CudaBuffer;
use vstd::prelude::*;

verus! {

/// Diagnosis of composed attention: the lines that were reported and not yet
/// taken, the class of every prompt row, and how many prefill calls were made.
pub struct AttentionDiagnostics {
    pub lines: Vec<String>,
    pub segments: Vec<u8>,
    pub calls: usize,
}

/// Text layers whose attention is probed.
#[derive(Clone, Copy, Debug, PartialEq, Eq, Structural)]
pub enum ProbeLayer {
    /// The first full-attention layer, text layer 3.
    First,
    /// The last full-attention layer, text layer 31.
    Last,
}

impl ProbeLayer {
    /// The number of the text layer.
    pub open spec fn number(self) -> int {
        match self {
            ProbeLayer::First => 3,
            ProbeLayer::Last => 31,
        }
    }

    pub fn tag(self) -> (tag: usize)
        ensures
            tag == self.number(),
    {
        match self {
            ProbeLayer::First => 3,
            ProbeLayer::Last => 31,
        }
    }
}

/// The layer that a prefill call is probed for, by how many went before it.
pub open spec fn probed_layer(calls: usize) -> Option<ProbeLayer> {
    if calls == 0 {
        Some(ProbeLayer::First)
    } else if calls == 7 {
        Some(ProbeLayer::Last)
    } else {
        None
    }
}

impl AttentionDiagnostics {
    pub fn new() -> (diagnostics: Self)
        ensures
            diagnostics.lines@.len() == 0,
            diagnostics.segments@.len() == 0,
            diagnostics.calls == 0,
    {
        AttentionDiagnostics { lines: Vec::new(), segments: Vec::new(), calls: 0 }
    }

    /// Note one composed call. Only causal calls with more than one row count;
    /// the first and the eighth of them are probed.
    pub fn begin(&mut self, causal: bool, rows: usize) -> (layer: Option<ProbeLayer>)
        ensures
            final(self).lines == old(self).lines,
            final(self).segments == old(self).segments,
            if causal && rows > 1 {
                &&& layer == probed_layer(old(self).calls)
                &&& final(self).calls == old(self).calls.wrapping_add(1)
            } else {
                &&& layer is None
                &&& final(self).calls == old(self).calls
            },
    {
        if !causal || rows <= 1 {
            return None;
        }
        let calls: usize = self.calls;
        self.calls = calls.wrapping_add(1);
        if calls == 0 {
            Some(ProbeLayer::First)
        } else if calls == 7 {
            Some(ProbeLayer::Last)
        } else {
            None
        }
    }

    /// The class of a prompt row; zero where none was published.
    pub fn segment(&self, row: usize) -> (class: u8)
        ensures
            class == (if row < self.segments@.len() {
                self.segments@[row as int]
            } else {
                0
            }),
    {
        if row < self.segments.len() {
            self.segments[row]
        } else {
            0
        }
    }
}

/// Drain the attention probe lines.
pub fn take_attn_diag_lines(diagnostics: &mut AttentionDiagnostics) -> (lines: Vec<String>)
    ensures
        lines == old(diagnostics).lines,
        final(diagnostics).lines@.len() == 0,
        final(diagnostics).segments == old(diagnostics).segments,
        final(diagnostics).calls == old(diagnostics).calls,
{
    let mut lines: Vec<String> = Vec::new();
    std::mem::swap(&mut lines, &mut diagnostics.lines);
    lines
}

/// Publish the segment map.
pub fn set_attn_seg_map(diagnostics: &mut AttentionDiagnostics, map: Vec<u8>)
    ensures
        final(diagnostics).segments == map,
        final(diagnostics).lines == old(diagnostics).lines,
        final(diagnostics).calls == old(diagnostics).calls,
{
    diagnostics.segments = map;
}

/// One read of device memory.
#[derive(Clone, Copy, Debug, PartialEq, Eq, Structural)]
pub enum ProbeRead {
    /// Probabilities, query and output of one row at head 0.
    Row {
        row: usize,
        key_end: usize,
        probabilities: CudaBuffer,
        query: CudaBuffer,
        output: CudaBuffer,
    },
    /// The same of one row at head 1, for the pairing of heads.
    Pairing { row: usize, probabilities: CudaBuffer, query: CudaBuffer, output: CudaBuffer },
    /// The output of one of the last rows at one head.
    Tail { row: usize, head: usize, output: CudaBuffer },
}

/// The difference, or zero.
pub open spec fn reduced(a: int, b: int) -> int {
    if a < b {
        0
    } else {
        a - b
    }
}

/// The probed rows, in the order in which they are read.
pub open spec fn probe_rows(rows: int) -> Seq<int> {
    seq![3, 5000, reduced(rows, 16), reduced(rows, 13), reduced(rows, 1)]
}

/// One row of one head of a packed `[rows, heads, head_dim]` buffer.
pub open spec fn packed_row(shape: ComposedShape, buffer: CudaBuffer, row: int, head: int) -> CudaBuffer {
    buffer.part((row * shape.heads + head) * shape.head_dim * 4, shape.head_dim * 4)
}

/// One row of one head of a chunk's probabilities.
pub open spec fn probability_row(
    shape: ComposedShape,
    buffer: CudaBuffer,
    chunk: int,
    row: int,
    head: int,
) -> CudaBuffer {
    buffer.part(
        ((row - shape.start(chunk)) * shape.heads + head) * shape.key_end(chunk) * 4,
        shape.key_end(chunk) * 4,
    )
}

/// Whether a row belongs to a chunk.
pub open spec fn in_chunk(shape: ComposedShape, chunk: int, row: int) -> bool {
    shape.start(chunk) <= row < shape.start(chunk) + shape.len(chunk)
}

/// What is read of one probed row in a chunk, where there is a head. The pairing of heads is read once,
/// and only where there are two heads.
pub open spec fn row_reads(
    shape: ComposedShape,
    buffers: ComposedBuffers,
    chunk: int,
    layer: ProbeLayer,
    row: int,
) -> Seq<ProbeRead> {
    if !in_chunk(shape, chunk, row) || shape.heads == 0 {
        Seq::empty()
    } else {
        let first = seq![
            ProbeRead::Row {
                row: row as usize,
                key_end: shape.key_end(chunk) as usize,
                probabilities: probability_row(shape, buffers.scores, chunk, row, 0),
                query: packed_row(shape, buffers.query, row, 0),
                output: packed_row(shape, buffers.output, row, 0),
            },
        ];
        if row == reduced(shape.rows as int, 13) && layer == ProbeLayer::First && shape.heads >= 2 {
            first.push(
                ProbeRead::Pairing {
                    row: row as usize,
                    probabilities: probability_row(shape, buffers.scores, chunk, row, 1),
                    query: packed_row(shape, buffers.query, row, 1),
                    output: packed_row(shape, buffers.output, row, 1),
                },
            )
        } else {
            first
        }
    }
}

/// What is read of the first `count` probed rows in a chunk.
pub open spec fn probe_reads(
    shape: ComposedShape,
    buffers: ComposedBuffers,
    chunk: int,
    layer: ProbeLayer,
    count: int,
) -> Seq<ProbeRead>
    decreases count,
{
    if count <= 0 {
        Seq::empty()
    } else {
        probe_reads(shape, buffers, chunk, layer, count - 1) + row_reads(
            shape,
            buffers,
            chunk,
            layer,
            probe_rows(shape.rows as int)[count - 1],
        )
    }
}

/// What is read of the rows from the fifteenth last one up to `end`.
pub open spec fn tail_reads(
    shape: ComposedShape,
    buffers: ComposedBuffers,
    chunk: int,
    end: int,
) -> Seq<ProbeRead>
    decreases
            (if end > 0 {
                end
            } else {
                0
            }),
{
    if end <= reduced(shape.rows as int, 15) || end <= 0 {
        Seq::empty()
    } else {
        let row = end - 1;
        tail_reads(shape, buffers, chunk, end - 1) + (if in_chunk(shape, chunk, row) {
            Seq::new(
                shape.heads as nat,
                |head: int|
                    ProbeRead::Tail {
                        row: row as usize,
                        head: head as usize,
                        output: packed_row(shape, buffers.output, row, head),
                    },
            )
        } else {
            Seq::empty()
        })
    }
}

proof fn lemma_packed_row(shape: ComposedShape, row: int, head: int)
    requires
        shape.valid(),
        0 <= row < shape.rows,
        0 <= head < shape.heads,
    ensures
        0 <= row * shape.heads <= usize::MAX - head,
        0 <= (row * shape.heads + head) * shape.head_dim <= usize::MAX,
        (row * shape.heads + head) * shape.head_dim * 4 + shape.head_dim * 4
            <= shape.query_size(),
{
    let rows = shape.rows as int;
    let heads = shape.heads as int;
    let d = shape.head_dim as int;
    assert(row * heads + head + 1 <= rows * heads) by (nonlinear_arith)
        requires
            0 <= row < rows,
            0 <= head < heads,
    ;
    assert(row * heads >= 0) by (nonlinear_arith)
        requires
            row >= 0,
            heads >= 0,
    ;
    let x = row * heads + head;
    let y = rows * heads;
    assert(x * d + d <= y * d) by (nonlinear_arith)
        requires
            x + 1 <= y,
            d >= 0,
    ;
    assert(x * d >= 0) by (nonlinear_arith)
        requires
            x >= 0,
            d >= 0,
    ;
}

fn read_packed(shape: &ComposedShape, buffer: &CudaBuffer, row: usize, head: usize) -> (part:
    CudaBuffer)
    requires
        shape.valid(),
        buffer.in_memory(),
        buffer.len >= shape.query_size(),
        row < shape.rows,
        head < shape.heads,
    ensures
        part == packed_row(*shape, *buffer, row as int, head as int),
{
    proof {
        lemma_packed_row(*shape, row as int, head as int);
    }
    buffer.slice((row * shape.heads + head) * shape.head_dim * 4, shape.head_dim * 4).unwrap()
}

fn read_probabilities(
    shape: &ComposedShape,
    buffer: &CudaBuffer,
    chunk: usize,
    start: usize,
    key_end: usize,
    row: usize,
    head: usize,
) -> (part: CudaBuffer)
    requires
        shape.valid(),
        buffer.in_memory(),
        buffer.len >= shape.scores_size(),
        chunk < shape.chunk_count(),
        start == shape.start(chunk as int),
        key_end == shape.key_end(chunk as int),
        in_chunk(*shape, chunk as int, row as int),
        head < shape.heads,
    ensures
        part == probability_row(*shape, *buffer, chunk as int, row as int, head as int),
{
    proof {
        let c = shape.len(chunk as int);
        let r = row - start;
        let heads = shape.heads as int;
        let kend = key_end as int;
        let most = super::composed::least(super::composed::CHUNK as int, shape.rows as int);
        assert(r * heads + head + 1 <= heads * most) by (nonlinear_arith)
            requires
                0 <= r < most,
                0 <= head < heads,
        ;
        assert(r * heads >= 0) by (nonlinear_arith)
            requires
                r >= 0,
                heads >= 0,
        ;
        let x = r * heads + head;
        let y = heads * most;
        assert(x * kend + kend <= y * shape.key_tokens) by (nonlinear_arith)
            requires
                0 <= x,
                x + 1 <= y,
                0 <= kend <= shape.key_tokens,
        ;
        assert(x * kend >= 0) by (nonlinear_arith)
            requires
                x >= 0,
                kend >= 0,
        ;
    }
    buffer.slice(((row - start) * shape.heads + head) * key_end * 4, key_end * 4).unwrap()
}

/// Everything that is read back after a chunk of a probed call, in order.
pub fn chunk_reads(
    shape: &ComposedShape,
    buffers: &ComposedBuffers,
    chunk: usize,
    layer: ProbeLayer,
) -> (reads: Vec<ProbeRead>)
    requires
        shape.valid(),
        shape.fits(*buffers),
        chunk < shape.chunk_count(),
    ensures
        reads@ == probe_reads(*shape, *buffers, chunk as int, layer, 5) + tail_reads(
            *shape,
            *buffers,
            chunk as int,
            shape.rows as int,
        ),
{
    let mut reads: Vec<ProbeRead> = Vec::new();
    let start: usize = chunk * super::composed::CHUNK;
    let rest: usize = shape.rows - start;
    let len: usize = if super::composed::CHUNK <= rest {
        super::composed::CHUNK
    } else {
        rest
    };
    let key_end: usize = if shape.causal {
        shape.key_tokens - shape.rows + start + len
    } else {
        shape.key_tokens
    };
    let pairing: usize = shape.rows.saturating_sub(13);
    let rows: Vec<usize> = vec![
        3,
        5000,
        shape.rows.saturating_sub(16),
        pairing,
        shape.rows.saturating_sub(1),
    ];
    assert(forall|j: int|
        0 <= j < 5 ==> #[trigger] rows@[j] == probe_rows(shape.rows as int)[j]);
    let mut i: usize = 0;
    while i < rows.len()
        invariant
            i <= rows@.len(),
            rows@.len() == 5,
            forall|j: int|
                0 <= j < 5 ==> #[trigger] rows@[j] == probe_rows(shape.rows as int)[j],
            shape.valid(),
            shape.fits(*buffers),
            chunk < shape.chunk_count(),
            start == shape.start(chunk as int),
            len == shape.len(chunk as int),
            key_end == shape.key_end(chunk as int),
            start + len <= shape.rows,
            pairing == reduced(shape.rows as int, 13),
            reads@ == probe_reads(*shape, *buffers, chunk as int, layer, i as int),
        decreases rows.len() - i,
    {
        let row: usize = rows[i];
        let ghost before = reads@;
        if row >= start && row < start + len && shape.heads > 0 {
            reads.push(
                ProbeRead::Row {
                    row,
                    key_end,
                    probabilities: read_probabilities(
                        shape,
                        &buffers.scores,
                        chunk,
                        start,
                        key_end,
                        row,
                        0,
                    ),
                    query: read_packed(shape, &buffers.query, row, 0),
                    output: read_packed(shape, &buffers.output, row, 0),
                },
            );
            if row == pairing && layer == ProbeLayer::First && shape.heads >= 2 {
                reads.push(
                    ProbeRead::Pairing {
                        row,
                        probabilities: read_probabilities(
                            shape,
                            &buffers.scores,
                            chunk,
                            start,
                            key_end,
                            row,
                            1,
                        ),
                        query: read_packed(shape, &buffers.query, row, 1),
                        output: read_packed(shape, &buffers.output, row, 1),
                    },
                );
            }
        }
        i = i + 1;
        assert(reads@ =~= before + row_reads(
            *shape,
            *buffers,
            chunk as int,
            layer,
            row as int,
        ));
    }
    let ghost probed = reads@;
    let mut row: usize = shape.rows.saturating_sub(15);
    assert(probed =~= probed + tail_reads(*shape, *buffers, chunk as int, row as int));
    while row < shape.rows
        invariant
            reduced(shape.rows as int, 15) <= row <= shape.rows,
            shape.valid(),
            shape.fits(*buffers),
            chunk < shape.chunk_count(),
            start == shape.start(chunk as int),
            len == shape.len(chunk as int),
            start + len <= shape.rows,
            reads@ == probed + tail_reads(*shape, *buffers, chunk as int, row as int),
        decreases shape.rows - row,
    {
        let ghost before = reads@;
        let ghost r = row as int;
        if row >= start && row < start + len {
            let mut head: usize = 0;
            while head < shape.heads
                invariant
                    head <= shape.heads,
                    row < shape.rows,
                    r == row,
                    shape.valid(),
                    shape.fits(*buffers),
                    reads@ == before + Seq::new(
                        head as nat,
                        |h: int|
                            ProbeRead::Tail {
                                row: r as usize,
                                head: h as usize,
                                output: packed_row(*shape, buffers.output, r, h),
                            },
                    ),
                decreases shape.heads - head,
            {
                reads.push(
                    ProbeRead::Tail {
                        row,
                        head,
                        output: read_packed(shape, &buffers.output, row, head),
                    },
                );
                head = head + 1;
            }
        }
        row = row + 1;
        assert(reads@ =~= probed + tail_reads(*shape, *buffers, chunk as int, row as int));
    }
    reads
}

/// Whether a part starts so many bytes into a buffer and has so many.
pub open spec fn lies_at(part: CudaBuffer, buffer: CudaBuffer, offset: int, len: int) -> bool {
    part.address == buffer.address + offset && part.len == len && part.device == buffer.device
}

/// Whether a read is of a row that is probed, in this chunk, and reads that row: of the
/// probabilities `[row - start, head, key]`, of queries and outputs `[row, head, column]`.
pub open spec fn reads_its_row(
    shape: ComposedShape,
    buffers: ComposedBuffers,
    chunk: int,
    layer: ProbeLayer,
    read: ProbeRead,
) -> bool {
    let heads = shape.heads as int;
    let width = shape.head_dim * 4;
    let keys = shape.key_end(chunk) * 4;
    match read {
        ProbeRead::Row { row, key_end, probabilities, query, output } => {
            &&& shape.start(chunk) <= row < shape.start(chunk) + shape.len(chunk)
            &&& row == 3 || row == 5000 || row + 16 == shape.rows || row + 13 == shape.rows || row
                + 1 == shape.rows || (row == 0 && shape.rows < 16)
            &&& key_end == shape.key_end(chunk)
            &&& lies_at(probabilities, buffers.scores, (row - shape.start(chunk)) * heads * keys, keys)
            &&& lies_at(query, buffers.query, row * heads * width, width)
            &&& lies_at(output, buffers.output, row * heads * width, width)
        },
        ProbeRead::Pairing { row, probabilities, query, output } => {
            &&& shape.start(chunk) <= row < shape.start(chunk) + shape.len(chunk)
            &&& layer == ProbeLayer::First && heads >= 2
            &&& row + 13 == shape.rows || (row == 0 && shape.rows < 13)
            &&& lies_at(
                probabilities,
                buffers.scores,
                ((row - shape.start(chunk)) * heads + 1) * keys,
                keys,
            )
            &&& lies_at(query, buffers.query, (row * heads + 1) * width, width)
            &&& lies_at(output, buffers.output, (row * heads + 1) * width, width)
        },
        ProbeRead::Tail { row, head, output } => {
            &&& shape.start(chunk) <= row < shape.start(chunk) + shape.len(chunk)
            &&& row < shape.rows <= row + 15
            &&& head < heads
            &&& lies_at(output, buffers.output, (row * heads + head) * width, width)
        },
    }
}

proof fn lemma_packed_lies(shape: ComposedShape, buffer: CudaBuffer, row: int, head: int)
    requires
        shape.valid(),
        buffer.in_memory(),
        buffer.len >= shape.query_size(),
        0 <= row < shape.rows,
        0 <= head < shape.heads,
    ensures
        lies_at(
            packed_row(shape, buffer, row, head),
            buffer,
            (row * shape.heads + head) * (shape.head_dim * 4),
            shape.head_dim * 4,
        ),
{
    lemma_packed_row(shape, row, head);
    let x = row * shape.heads + head;
    let d = shape.head_dim as int;
    assert(x * d * 4 == x * (d * 4)) by (nonlinear_arith);
}

proof fn lemma_probability_lies(
    shape: ComposedShape,
    buffer: CudaBuffer,
    chunk: int,
    row: int,
    head: int,
)
    requires
        shape.valid(),
        buffer.in_memory(),
        buffer.len >= shape.scores_size(),
        0 <= chunk < shape.chunk_count(),
        in_chunk(shape, chunk, row),
        0 <= head < shape.heads,
    ensures
        lies_at(
            probability_row(shape, buffer, chunk, row, head),
            buffer,
            ((row - shape.start(chunk)) * shape.heads + head) * (shape.key_end(chunk) * 4),
            shape.key_end(chunk) * 4,
        ),
{
    let r = row - shape.start(chunk);
    let heads = shape.heads as int;
    let kend = shape.key_end(chunk);
    let most = super::composed::least(super::composed::CHUNK as int, shape.rows as int);
    assert(r * heads + head + 1 <= heads * most) by (nonlinear_arith)
        requires
            0 <= r < most,
            0 <= head < heads,
    ;
    assert(r * heads >= 0) by (nonlinear_arith)
        requires
            r >= 0,
            heads >= 0,
    ;
    let x = r * heads + head;
    let y = heads * most;
    assert(x * kend + kend <= y * shape.key_tokens) by (nonlinear_arith)
        requires
            0 <= x,
            x + 1 <= y,
            0 <= kend <= shape.key_tokens,
    ;
    assert(x * kend >= 0) by (nonlinear_arith)
        requires
            x >= 0,
            kend >= 0,
    ;
    assert(x * kend * 4 == x * (kend * 4)) by (nonlinear_arith);
}

proof fn lemma_row_reads(
    shape: ComposedShape,
    buffers: ComposedBuffers,
    chunk: int,
    layer: ProbeLayer,
    at: int,
    i: int,
)
    requires
        shape.valid(),
        shape.fits(buffers),
        0 <= chunk < shape.chunk_count(),
        0 <= at < 5,
        ({
            let row = probe_rows(shape.rows as int)[at];
            0 <= i < row_reads(shape, buffers, chunk, layer, row).len()
        }),
    ensures
        reads_its_row(
            shape,
            buffers,
            chunk,
            layer,
            row_reads(shape, buffers, chunk, layer, probe_rows(shape.rows as int)[at])[i],
        ),
{
    let row = probe_rows(shape.rows as int)[at];
    assert(0 <= row < shape.rows);
    lemma_packed_lies(shape, buffers.query, row, 0);
    lemma_packed_lies(shape, buffers.output, row, 0);
    lemma_probability_lies(shape, buffers.scores, chunk, row, 0);
    if shape.heads >= 2 {
        lemma_packed_lies(shape, buffers.query, row, 1);
        lemma_packed_lies(shape, buffers.output, row, 1);
        lemma_probability_lies(shape, buffers.scores, chunk, row, 1);
    }
}

proof fn lemma_probe_reads(
    shape: ComposedShape,
    buffers: ComposedBuffers,
    chunk: int,
    layer: ProbeLayer,
    count: int,
    i: int,
)
    requires
        shape.valid(),
        shape.fits(buffers),
        0 <= chunk < shape.chunk_count(),
        0 <= count <= 5,
        0 <= i < probe_reads(shape, buffers, chunk, layer, count).len(),
    ensures
        reads_its_row(
            shape,
            buffers,
            chunk,
            layer,
            probe_reads(shape, buffers, chunk, layer, count)[i],
        ),
    decreases count,
{
    let before = probe_reads(shape, buffers, chunk, layer, count - 1);
    if i < before.len() {
        lemma_probe_reads(shape, buffers, chunk, layer, count - 1, i);
    } else {
        lemma_row_reads(shape, buffers, chunk, layer, count - 1, i - before.len());
    }
}

proof fn lemma_tail_reads(
    shape: ComposedShape,
    buffers: ComposedBuffers,
    chunk: int,
    layer: ProbeLayer,
    end: int,
    i: int,
)
    requires
        shape.valid(),
        shape.fits(buffers),
        0 <= chunk < shape.chunk_count(),
        end <= shape.rows,
        0 <= i < tail_reads(shape, buffers, chunk, end).len(),
    ensures
        reads_its_row(shape, buffers, chunk, layer, tail_reads(shape, buffers, chunk, end)[i]),
    decreases
            (if end > 0 {
                end
            } else {
                0
            }),
{
    let before = tail_reads(shape, buffers, chunk, end - 1);
    if i < before.len() {
        lemma_tail_reads(shape, buffers, chunk, layer, end - 1, i);
    } else {
        lemma_packed_lies(shape, buffers.output, end - 1, i - before.len());
    }
}

/// Everything that is read back after a chunk is of a probed row of that chunk and lies where
/// that row does.
pub proof fn lemma_probes_read_their_rows(
    shape: ComposedShape,
    buffers: ComposedBuffers,
    chunk: usize,
    layer: ProbeLayer,
    reads: Vec<ProbeRead>,
    i: int,
)
    requires
        call_ensures(chunk_reads, (&shape, &buffers, chunk, layer), reads),
        shape.valid(),
        shape.fits(buffers),
        chunk < shape.chunk_count(),
        0 <= i < reads@.len(),
    ensures
        reads_its_row(shape, buffers, chunk as int, layer, reads@[i]),
{
    let probed = probe_reads(shape, buffers, chunk as int, layer, 5);
    if i < probed.len() {
        lemma_probe_reads(shape, buffers, chunk as int, layer, 5, i);
    } else {
        lemma_tail_reads(
            shape,
            buffers,
            chunk as int,
            layer,
            shape.rows as int,
            i - probed.len(),
        );
    }
}

/// The last row of a call is read back after its chunk, at head 0 in full and at every head its
/// output.
pub proof fn lemma_last_row_is_probed(
    shape: ComposedShape,
    buffers: ComposedBuffers,
    chunk: usize,
    layer: ProbeLayer,
    reads: Vec<ProbeRead>,
    head: int,
)
    requires
        call_ensures(chunk_reads, (&shape, &buffers, chunk, layer), reads),
        shape.rows > 0,
        0 <= head < shape.heads,
        shape.start(chunk as int) <= shape.rows - 1 < shape.start(chunk as int) + shape.len(
            chunk as int,
        ),
    ensures
        exists|i: int|
            0 <= i < reads@.len() && (#[trigger] reads@[i] matches ProbeRead::Row { row, .. } && row
                == shape.rows - 1),
        exists|i: int|
            0 <= i < reads@.len() && (#[trigger] reads@[i] matches ProbeRead::Tail {
                row,
                head: at,
                ..
            } && row == shape.rows - 1 && at == head),
{
    let c = chunk as int;
    let last = shape.rows - 1;
    let before = probe_reads(shape, buffers, c, layer, 4);
    let own = row_reads(shape, buffers, c, layer, probe_rows(shape.rows as int)[4]);
    let probed = probe_reads(shape, buffers, c, layer, 5);
    assert(probed == before + own);
    assert(own[0] is Row);
    assert(reads@[before.len() as int] == own[0]);
    let early = tail_reads(shape, buffers, c, last);
    let tail = tail_reads(shape, buffers, c, shape.rows as int);
    let place = (probed.len() + early.len() + head) as int;
    assert(reads@[place] == tail[early.len() + head]);
    assert(reads@[place] matches ProbeRead::Tail { row, head: at, .. } && row == last && at == head);
}

/// Every fourth text layer has full attention, from layer 3 on; of the calls that count the first
/// and the eighth are probed, each for the layer that it belongs to.
pub proof fn lemma_probed_calls_are_full_layers(calls: usize)
    ensures
        probed_layer(calls) matches Some(layer) ==> layer.number() == 4 * calls + 3,
        probed_layer(calls) is Some <==> calls == 0 || calls == 7,
{
}

/// Whether a row is given back by one of the reads.
pub open spec fn row_is_read(reads: Seq<ProbeRead>, row: int) -> bool {
    exists|i: int|
        0 <= i < reads.len() && (#[trigger] reads[i] matches ProbeRead::Row { row: at, .. } && at
            == row)
}

proof fn lemma_probed_row_is_read(
    shape: ComposedShape,
    buffers: ComposedBuffers,
    chunk: int,
    layer: ProbeLayer,
    count: int,
    j: int,
)
    requires
        0 <= j < count <= 5,
        shape.heads > 0,
        in_chunk(shape, chunk, probe_rows(shape.rows as int)[j]),
        0 <= probe_rows(shape.rows as int)[j] <= usize::MAX,
    ensures
        row_is_read(
            probe_reads(shape, buffers, chunk, layer, count),
            probe_rows(shape.rows as int)[j],
        ),
    decreases count,
{
    let row = probe_rows(shape.rows as int)[j];
    let before = probe_reads(shape, buffers, chunk, layer, count - 1);
    let all = probe_reads(shape, buffers, chunk, layer, count);
    if j == count - 1 {
        let own = row_reads(shape, buffers, chunk, layer, row);
        assert(all == before + own);
        assert(own[0] is Row);
        assert(all[before.len() as int] == own[0]);
    } else {
        lemma_probed_row_is_read(shape, buffers, chunk, layer, count - 1, j);
        let i = choose|i: int|
            0 <= i < before.len() && (#[trigger] before[i] matches ProbeRead::Row { row: at, .. }
                && at == row);
        assert(all[i] == before[i]);
    }
}

/// Read back are the rows 3 and 5000, the last one, and the thirteenth and the sixteenth last
/// one, each after the chunk that holds it.
pub proof fn lemma_probed_rows_are_read(
    shape: ComposedShape,
    buffers: ComposedBuffers,
    chunk: usize,
    layer: ProbeLayer,
    reads: Vec<ProbeRead>,
    row: usize,
)
    requires
        call_ensures(chunk_reads, (&shape, &buffers, chunk, layer), reads),
        shape.heads > 0,
        shape.start(chunk as int) <= row < shape.start(chunk as int) + shape.len(chunk as int),
        row == 3 || row == 5000 || row + 1 == shape.rows || row + 13 == shape.rows || row + 16
            == shape.rows,
    ensures
        row_is_read(reads@, row as int),
{
    let c = chunk as int;
    let rows = probe_rows(shape.rows as int);
    let j: int = if row == 3 {
        0
    } else if row == 5000 {
        1
    } else if row + 16 == shape.rows {
        2
    } else if row + 13 == shape.rows {
        3
    } else {
        4
    };
    assert(rows[j] == row);
    lemma_probed_row_is_read(shape, buffers, c, layer, 5, j);
    let probed = probe_reads(shape, buffers, c, layer, 5);
    let i = choose|i: int|
        0 <= i < probed.len() && (#[trigger] probed[i] matches ProbeRead::Row { row: at, .. } && at
            == row);
    assert(reads@[i] == probed[i]);
}

} // verus!
