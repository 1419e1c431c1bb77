//! BF16 attention inside segments of one packed sequence.

use super::super::contracts::{
    buffer_problem, byte_size, checked_bytes, collected, device_problem, first_of, gpu_ptr,
    lemma_collected_error, lemma_collected_places, lemma_collected_values, lemma_product3, pointer_problem,
    pointers_problem, product, require_buffer, require_device, same_dims, tensor_bytes,
    tensor_fits, tensor_size, unless,
};
use super::bf16::all_of;
use super::composed::Cast;
use super::fa2::{split_sizes_problem, splitkv_at, splitkv_over, AttentionExtents, Fa2Launch};
use super::features::{AttentionBuild, AttentionSwitches};
use crate::context::CudaContext;
use crate::cublas::{row_major, stored, CublasCall, CublasTranspose, Scalar, FIXED_ALGO};
use crate::error::Error;
use crate::ffi::cublas::{cublasComputeType_t, cublasOperation_t, cudaDataType_t};
use crate::laws::attention::{attended, fa2_entry};
use crate::laws::products::{
    has_extents, launched_address, launched_entry, lemma_call_is_product, matrix, product_entry,
    transposed,
};
use crate::types::{CudaBuffer, DType, Device, Tensor};
use vstd::prelude::*;

verus! {

/// Rows `start .. start + tokens` of a packed sequence.
#[derive(Clone, Copy, Debug, PartialEq, Eq, Structural)]
pub struct Segment {
    pub start: usize,
    pub tokens: usize,
}

/// The segment between two neighbouring offsets.
pub open spec fn segment(offsets: Seq<u32>, i: int) -> Segment {
    Segment { start: offsets[i] as usize, tokens: (offsets[i + 1] - offsets[i]) as usize }
}

/// Whether no offset is below the one before it.
pub open spec fn ascending(offsets: Seq<u32>) -> bool {
    forall|i: int| 0 <= i < offsets.len() - 1 ==> #[trigger] offsets[i] <= offsets[i + 1]
}

/// The first `count` segments without the empty ones.
pub open spec fn filled(offsets: Seq<u32>, count: int) -> Seq<Segment>
    decreases count,
{
    if count <= 0 {
        Seq::empty()
    } else if segment(offsets, count - 1).tokens == 0 {
        filled(offsets, count - 1)
    } else {
        filled(offsets, count - 1).push(segment(offsets, count - 1))
    }
}

/// Whether offsets cut `rows` rows into segments of at most `max_tokens`.
pub open spec fn cuts(offsets: Seq<u32>, rows: usize, max_tokens: usize) -> bool {
    &&& offsets[0] == 0
    &&& offsets.last() == rows
    &&& forall|i: int|
        0 <= i < offsets.len() - 1 ==> #[trigger] offsets[i] <= offsets[i + 1] && offsets[i + 1]
            - offsets[i] <= max_tokens
}

proof fn lemma_ordered(offsets: Seq<u32>, i: int, j: int)
    requires
        ascending(offsets),
        0 <= i <= j < offsets.len(),
    ensures
        offsets[i] <= offsets[j],
    decreases j - i,
{
    if i < j {
        lemma_ordered(offsets, i, j - 1);
        assert(offsets[j - 1] <= offsets[j - 1 + 1]);
    }
}

proof fn lemma_segment_of(offsets: Seq<u32>, row: int, count: int) -> (i: int)
    requires
        ascending(offsets),
        0 <= count < offsets.len(),
        offsets[0] <= row < offsets[count],
    ensures
        0 <= i < count,
        offsets[i] <= row < offsets[i + 1],
    decreases count,
{
    if row >= offsets[count - 1] {
        count - 1
    } else {
        lemma_segment_of(offsets, row, count - 1)
    }
}

/// Every row belongs to exactly one segment.
pub proof fn lemma_segments_cover(offsets: Seq<u32>, rows: usize, max_tokens: usize, row: int)
    requires
        offsets.len() >= 2,
        cuts(offsets, rows, max_tokens),
        0 <= row < rows,
    ensures
        exists|i: int|
            0 <= i < offsets.len() - 1 && (#[trigger] segment(offsets, i)).start <= row < segment(
                offsets,
                i,
            ).start + segment(offsets, i).tokens,
        forall|i: int, j: int|
            0 <= i < offsets.len() - 1 && 0 <= j < offsets.len() - 1 && (#[trigger] segment(
                offsets,
                i,
            )).start <= row < segment(offsets, i).start + segment(offsets, i).tokens && (
            #[trigger] segment(offsets, j)).start <= row < segment(offsets, j).start + segment(
                offsets,
                j,
            ).tokens ==> i == j,
{
    assert(ascending(offsets));
    let found = lemma_segment_of(offsets, row, offsets.len() - 1);
    assert(segment(offsets, found).start <= row);
    assert forall|i: int, j: int|
        0 <= i < offsets.len() - 1 && 0 <= j < offsets.len() - 1 && (#[trigger] segment(
            offsets,
            i,
        )).start <= row < segment(offsets, i).start + segment(offsets, i).tokens && (
        #[trigger] segment(offsets, j)).start <= row < segment(offsets, j).start + segment(
            offsets,
            j,
        ).tokens implies i == j by {
        assert(offsets[i] <= offsets[i + 1]);
        assert(offsets[j] <= offsets[j + 1]);
        if i < j {
            lemma_ordered(offsets, i + 1, j);
        } else if j < i {
            lemma_ordered(offsets, j + 1, i);
        }
    }
}

/// One segment of the head-64 specialisation: attention over its rows, and a
/// copy of `tokens` rows to `offset` of the output.
#[derive(Clone, Copy, Debug, PartialEq, Eq, Structural)]
pub struct SpecialPiece {
    pub launch: Fa2Launch,
    pub offset: usize,
    pub tokens: usize,
}

#[derive(Clone, Debug)]
pub struct SpecialPlan {
    pub output_bytes: usize,
    pub row_bytes: usize,
    pub pieces: Vec<SpecialPiece>,
}

/// Attention composed of matrix products, segment by segment. Queries and keys
/// are widened into buffers of `wide_bytes` first where `widen` is set
/// (`widen_segments`).
#[derive(Clone, Debug)]
pub struct ComposedSegments {
    pub query: usize,
    pub key: usize,
    pub widen: bool,
    pub wide_bytes: usize,
    pub heads: usize,
    pub output_bytes: usize,
    pub segments: Vec<Segment>,
}

/// `apxinf_static_fa2_bf16` over one segment, at byte offsets of the operands
/// and of the log-sum-exp buffer.
#[derive(Clone, Copy, Debug, PartialEq, Eq, Structural)]
pub struct GenericPiece {
    pub offset: usize,
    pub lse_offset: usize,
    pub tokens: i32,
}

#[derive(Clone, Debug)]
pub struct GenericSegments {
    pub query: usize,
    pub key: usize,
    pub value: usize,
    pub heads: i32,
    pub head_dim: i32,
    pub scale_dim: usize,
    pub output_bytes: usize,
    pub lse_bytes: usize,
    pub pieces: Vec<GenericPiece>,
}

/// `apxinf_static_segmented_mha_bf16`.
#[derive(Clone, Copy, Debug, PartialEq, Eq, Structural)]
pub struct SegmentedLaunch {
    pub query: usize,
    pub key: usize,
    pub value: usize,
    pub offsets: usize,
    pub segments: i32,
    pub max_tokens: i32,
    pub heads: i32,
    pub head_dim: i32,
    pub output_bytes: usize,
}

/// How segmented attention is run. The output has the query's shape.
#[derive(Clone, Debug)]
pub enum SegmentedRoute {
    Special(SpecialPlan),
    Composed(ComposedSegments),
    Generic(GenericSegments),
    Native(SegmentedLaunch),
}

#[derive(Clone, Copy, Debug, PartialEq, Eq, Structural)]
pub enum SegmentedKind {
    Special,
    Composed,
    Generic,
    Native,
}

/// The specialisation runs head dimension 64 wherever it is compiled and not
/// switched off; other builds than those for the SM80 family compose it.
pub open spec fn segmented_kind(build: AttentionBuild, switches: AttentionSwitches, head_dim: usize) -> SegmentedKind {
    if !build.has_fa2() {
        SegmentedKind::Native
    } else if build.fa2_head_special && head_dim == 64 && switches.vision_fa2 {
        SegmentedKind::Special
    } else if !build.fa2_sm80 && head_dim == 64 {
        SegmentedKind::Composed
    } else {
        SegmentedKind::Generic
    }
}

pub const SEGMENTED_SHAPE: &'static str =
    "segmented BF16 MHA requires matching [tokens,heads,head_dim] tensors";

pub const SEGMENTED_OFFSETS: &'static str = "segmented MHA offsets/device mismatch";

pub const SEGMENTED: &'static str = "segmented BF16 MHA";

pub const SPECIAL_SIZE: &'static str = "segmented head64 MHA";

pub const SPECIAL_ROW: &'static str = "head64 row";

pub open spec fn segmented_matches(
    q: Tensor,
    k: Tensor,
    v: Tensor,
    offsets: Seq<u32>,
    segments: usize,
    max_tokens: usize,
) -> bool {
    &&& all_of(DType::BF16, q, k, v)
    &&& q.dims@.len() == 3
    &&& k.dims@ == q.dims@
    &&& v.dims@ == q.dims@
    &&& segments != 0
    &&& offsets.len() == segments + 1
    &&& max_tokens != 0
    &&& q.dims@[2] <= 256
}

/// The extents of one segment of the head-64 specialisation.
pub open spec fn special_extents(heads: usize, tokens: usize) -> AttentionExtents {
    AttentionExtents {
        batches: 1,
        query_tokens: tokens,
        key_tokens: tokens,
        query_heads: heads,
        kv_heads: heads,
        head_dim: 64,
    }
}

pub open spec fn special_piece(
    ctx: CudaContext,
    build: AttentionBuild,
    q: Tensor,
    k: Tensor,
    v: Tensor,
    row_bytes: int,
    part: Segment,
) -> Result<SpecialPiece, Error> {
    let offset = part.start * row_bytes;
    let len = part.tokens * row_bytes;
    let extents = special_extents(q.dims@[1], part.tokens);
    match q.buffer.slice_of(offset, len) {
        Err(error) => Err(error),
        Ok(a) => match k.buffer.slice_of(offset, len) {
            Err(error) => Err(error),
            Ok(b) => match v.buffer.slice_of(offset, len) {
                Err(error) => Err(error),
                Ok(c) => unless(
                    split_sizes_problem(extents),
                    SpecialPiece {
                        launch: splitkv_at(
                            ctx,
                            build,
                            a.address,
                            b.address,
                            c.address,
                            len as usize,
                            extents,
                            false,
                        ),
                        offset: offset as usize,
                        tokens: part.tokens,
                    },
                ),
            },
        },
    }
}

pub open spec fn special_pieces(
    ctx: CudaContext,
    build: AttentionBuild,
    q: Tensor,
    k: Tensor,
    v: Tensor,
    row_bytes: int,
    parts: Seq<Segment>,
) -> Result<Seq<SpecialPiece>, Error> {
    collected(
        |i: int| special_piece(ctx, build, q, k, v, row_bytes, parts[i]),
        parts.len() as int,
    )
}

/// What is wrong with a request before its segments are looked at.
pub open spec fn segmented_problem(
    ctx: CudaContext,
    build: AttentionBuild,
    switches: AttentionSwitches,
    q: Tensor,
    k: Tensor,
    v: Tensor,
    offsets_buffer: CudaBuffer,
    offsets: Seq<u32>,
    segments: usize,
    max_tokens: usize,
) -> Option<Error> {
    if !segmented_matches(q, k, v, offsets, segments, max_tokens) {
        Some(Error::Other(SEGMENTED_SHAPE))
    } else {
        first_of(
            buffer_problem(
                ctx.device_id,
                SEGMENTED,
                "offsets",
                offsets_buffer,
                (segments + 1) * 4,
            ),
            match segmented_kind(build, switches, q.dims@[2]) {
                SegmentedKind::Special => {
                    let device = Device::Cuda(ctx.device_id);
                    if !cuts(offsets, q.dims@[0], max_tokens) || q.device != device || k.device
                        != device || v.device != device {
                        Some(Error::Other(SEGMENTED_OFFSETS))
                    } else {
                        match byte_size(DType::BF16, q.dims@, SPECIAL_SIZE) {
                            Err(error) => Some(error),
                            Ok(_) => match byte_size(
                                DType::BF16,
                                seq![q.dims@[1], 64usize],
                                SPECIAL_ROW,
                            ) {
                                Err(error) => Some(error),
                                Ok(row_bytes) => match special_pieces(
                                    ctx,
                                    build,
                                    q,
                                    k,
                                    v,
                                    row_bytes as int,
                                    filled(offsets, segments as int),
                                ) {
                                    Err(error) => Some(error),
                                    Ok(_) => None,
                                },
                            },
                        }
                    }
                },
                SegmentedKind::Composed => if switches.wide_scores {
                    None
                } else {
                    first_of(pointer_problem(q), pointer_problem(k))
                },
                SegmentedKind::Generic | SegmentedKind::Native => pointers_problem(q, k, v),
            },
        )
    }
}

/// Whether a route is the one for a request.
pub open spec fn is_route(
    ctx: CudaContext,
    build: AttentionBuild,
    switches: AttentionSwitches,
    q: Tensor,
    k: Tensor,
    v: Tensor,
    offsets_buffer: CudaBuffer,
    offsets: Seq<u32>,
    segments: usize,
    max_tokens: usize,
    route: SegmentedRoute,
) -> bool {
    let rows = q.dims@[0];
    let heads = q.dims@[1];
    let head_dim = q.dims@[2];
    match segmented_kind(build, switches, head_dim) {
        SegmentedKind::Special => {
            &&& route matches SegmentedRoute::Special(plan)
            &&& plan.output_bytes == tensor_size(q)
            &&& plan.row_bytes == heads * 128
            &&& special_pieces(
                ctx,
                build,
                q,
                k,
                v,
                plan.row_bytes as int,
                filled(offsets, segments as int),
            ) == Ok::<Seq<SpecialPiece>, Error>(plan.pieces@)
        },
        SegmentedKind::Composed => {
            &&& route matches SegmentedRoute::Composed(plan)
            &&& plan.query == q.buffer.address
            &&& plan.key == k.buffer.address
            &&& plan.widen == switches.wide_scores
            &&& plan.wide_bytes == (if switches.wide_scores {
                rows * heads * 64 * 4
            } else {
                0
            })
            &&& plan.heads == heads
            &&& plan.output_bytes == tensor_size(q)
            &&& plan.segments@ == filled(offsets, segments as int)
        },
        SegmentedKind::Generic => {
            &&& route matches SegmentedRoute::Generic(plan)
            &&& plan.query == q.buffer.address
            &&& plan.key == k.buffer.address
            &&& plan.value == v.buffer.address
            &&& plan.heads == heads as i32
            &&& plan.head_dim == head_dim as i32
            &&& plan.scale_dim == head_dim
            &&& plan.output_bytes == tensor_size(q)
            &&& plan.lse_bytes == rows * heads * 4
            &&& plan.pieces@ == Seq::new(
                segments as nat,
                |i: int| generic_piece(heads, head_dim, segment(offsets, i)),
            )
        },
        SegmentedKind::Native => route == SegmentedRoute::Native(
            SegmentedLaunch {
                query: q.buffer.address,
                key: k.buffer.address,
                value: v.buffer.address,
                offsets: offsets_buffer.address,
                segments: segments as i32,
                max_tokens: max_tokens as i32,
                heads: heads as i32,
                head_dim: head_dim as i32,
                output_bytes: tensor_size(q) as usize,
            },
        ),
    }
}

pub open spec fn generic_piece(heads: usize, head_dim: usize, part: Segment) -> GenericPiece {
    GenericPiece {
        offset: (part.start * (heads * head_dim * 2)) as usize,
        lse_offset: (part.start * (heads * 4)) as usize,
        tokens: part.tokens as i32,
    }
}

/// What each route needs beyond its checks: ascending offsets, and sizes that
/// are machine words.
pub open spec fn route_fits(kind: SegmentedKind, widen: bool, q: Tensor, offsets: Seq<u32>) -> bool {
    let rows = q.dims@[0];
    let heads = q.dims@[1];
    let head_dim = q.dims@[2];
    match kind {
        SegmentedKind::Special => true,
        SegmentedKind::Composed => {
            &&& ascending(offsets)
            &&& widen ==> rows * heads <= usize::MAX && rows * heads * 64 * 4 <= usize::MAX
        },
        SegmentedKind::Generic => {
            &&& ascending(offsets)
            &&& rows * heads * 4 <= usize::MAX
            &&& heads * head_dim * 2 <= usize::MAX
            &&& heads * 4 <= usize::MAX
            &&& forall|i: int|
                0 <= i < offsets.len() ==> (#[trigger] offsets[i]) * (heads * head_dim * 2)
                    <= usize::MAX && offsets[i] * (heads * 4) <= usize::MAX
        },
        SegmentedKind::Native => true,
    }
}

fn cuts_rows(offsets: &[u32], rows: usize, max_tokens: usize) -> (result: bool)
    requires
        offsets@.len() >= 2,
    ensures
        result == cuts(offsets@, rows, max_tokens),
{
    if offsets[0] != 0 || offsets[offsets.len() - 1] as usize != rows {
        return false;
    }
    let count: usize = offsets.len() - 1;
    let mut i: usize = 0;
    while i < count
        invariant
            i <= count,
            count == offsets@.len() - 1,
            forall|j: int|
                0 <= j < i ==> #[trigger] offsets@[j] <= offsets@[j + 1] && offsets@[j + 1]
                    - offsets@[j] <= max_tokens,
        decreases count - i,
    {
        if offsets[i + 1] < offsets[i] || (offsets[i + 1] - offsets[i]) as usize > max_tokens {
            assert(!(offsets@[i as int] <= offsets@[i + 1] && offsets@[i + 1] - offsets@[i as int]
                <= max_tokens));
            return false;
        }
        i = i + 1;
    }
    true
}

fn filled_segments(offsets: &[u32]) -> (parts: Vec<Segment>)
    requires
        offsets@.len() >= 1,
        ascending(offsets@),
    ensures
        parts@ == filled(offsets@, offsets@.len() - 1),
{
    let mut parts: Vec<Segment> = Vec::new();
    let count: usize = offsets.len() - 1;
    let mut i: usize = 0;
    while i < count
        invariant
            i <= count,
            count == offsets@.len() - 1,
            ascending(offsets@),
            parts@ == filled(offsets@, i as int),
        decreases count - i,
    {
        assert(offsets@[i as int] <= offsets@[i + 1]);
        let start: usize = offsets[i] as usize;
        let tokens: usize = (offsets[i + 1] - offsets[i]) as usize;
        if tokens != 0 {
            parts.push(Segment { start, tokens });
        }
        i = i + 1;
    }
    parts
}

proof fn lemma_filled(offsets: Seq<u32>, count: int, at: int) -> (i: int)
    requires
        0 <= count < offsets.len(),
        0 <= at < filled(offsets, count).len(),
    ensures
        0 <= i < count,
        filled(offsets, count)[at] == segment(offsets, i),
        segment(offsets, i).tokens != 0,
    decreases count,
{
    if segment(offsets, count - 1).tokens != 0 && at == filled(offsets, count).len() - 1 {
        count - 1
    } else {
        lemma_filled(offsets, count - 1, at)
    }
}

fn special_segment(
    ctx: &CudaContext,
    build: &AttentionBuild,
    q: &Tensor,
    k: &Tensor,
    v: &Tensor,
    row_bytes: usize,
    part: Segment,
) -> (result: Result<SpecialPiece, Error>)
    requires
        q.dims@.len() == 3,
        q.buffer.in_memory(),
        k.buffer.in_memory(),
        v.buffer.in_memory(),
        part.start * row_bytes <= usize::MAX,
        part.tokens * row_bytes <= usize::MAX,
    ensures
        result == special_piece(*ctx, *build, *q, *k, *v, row_bytes as int, part),
{
    let offset: usize = part.start * row_bytes;
    let len: usize = part.tokens * row_bytes;
    let a = q.buffer.slice(offset, len)?;
    let b = k.buffer.slice(offset, len)?;
    let c = v.buffer.slice(offset, len)?;
    let extents = AttentionExtents {
        batches: 1,
        query_tokens: part.tokens,
        key_tokens: part.tokens,
        query_heads: q.dims[1],
        kv_heads: q.dims[1],
        head_dim: 64,
    };
    let launch = splitkv_over(
        ctx,
        build,
        a.address,
        b.address,
        c.address,
        len,
        &extents,
        false,
    )?;
    Ok(SpecialPiece { launch, offset, tokens: part.tokens })
}

fn special_list(
    ctx: &CudaContext,
    build: &AttentionBuild,
    q: &Tensor,
    k: &Tensor,
    v: &Tensor,
    row_bytes: usize,
    parts: &Vec<Segment>,
) -> (result: Result<Vec<SpecialPiece>, Error>)
    requires
        q.dims@.len() == 3,
        q.buffer.in_memory(),
        k.buffer.in_memory(),
        v.buffer.in_memory(),
        forall|i: int|
            0 <= i < parts@.len() ==> (#[trigger] parts@[i]).start * row_bytes <= usize::MAX
                && parts@[i].tokens * row_bytes <= usize::MAX,
    ensures
        match special_pieces(*ctx, *build, *q, *k, *v, row_bytes as int, parts@) {
            Err(error) => result == Err::<Vec<SpecialPiece>, Error>(error),
            Ok(pieces) => result matches Ok(made) && made@ == pieces,
        },
{
    let ghost results = |i: int|
        special_piece(*ctx, *build, *q, *k, *v, row_bytes as int, parts@[i]);
    let mut pieces: Vec<SpecialPiece> = Vec::new();
    let mut i: usize = 0;
    while i < parts.len()
        invariant
            i <= parts@.len(),
            q.dims@.len() == 3,
            q.buffer.in_memory(),
            k.buffer.in_memory(),
            v.buffer.in_memory(),
            forall|i: int|
                0 <= i < parts@.len() ==> (#[trigger] parts@[i]).start * row_bytes <= usize::MAX
                    && parts@[i].tokens * row_bytes <= usize::MAX,
            results == (|i: int|
                special_piece(*ctx, *build, *q, *k, *v, row_bytes as int, parts@[i])),
            collected(results, i as int) == Ok::<Seq<SpecialPiece>, Error>(pieces@),
        decreases parts.len() - i,
    {
        match special_segment(ctx, build, q, k, v, row_bytes, parts[i]) {
            Ok(piece) => {
                pieces.push(piece);
            },
            Err(error) => {
                proof {
                    lemma_collected_error(results, i as int, parts@.len() as int);
                }
                return Err(error);
            },
        }
        i = i + 1;
    }
    Ok(pieces)
}

proof fn lemma_row_size(dims: Seq<usize>, row: Seq<usize>)
    requires
        dims.len() == 3,
        dims[2] == 64,
        row == seq![dims[1], 64usize],
    ensures
        product(dims) * 2 == dims[0] * (dims[1] * 128),
        product(row) * 2 == dims[1] * 128,
{
    lemma_product3(dims);
    let single = seq![dims[1]];
    assert(row.drop_last() =~= single);
    assert(single.drop_last() =~= Seq::<usize>::empty());
    assert(product(Seq::<usize>::empty()) == 1);
    assert(product(single) == product(single.drop_last()) * single.last() as nat);
    assert(row.last() == 64);
    assert(product(row) == product(single) * 64);
    let a = dims[0] as int;
    let b = dims[1] as int;
    assert(a * b * 64 * 2 == a * (b * 128)) by (nonlinear_arith);
}

proof fn lemma_parts_fit(offsets: Seq<u32>, rows: int, row_bytes: int)
    requires
        offsets.len() >= 2,
        ascending(offsets),
        offsets.last() == rows,
        rows * row_bytes <= usize::MAX,
        row_bytes >= 0,
    ensures
        ({
            let parts = filled(offsets, offsets.len() - 1);
            forall|i: int|
                0 <= i < parts.len() ==> (#[trigger] parts[i]).start * row_bytes <= usize::MAX
                    && parts[i].tokens * row_bytes <= usize::MAX
        }),
{
    let parts = filled(offsets, offsets.len() - 1);
    assert forall|i: int| 0 <= i < parts.len() implies (#[trigger] parts[i]).start * row_bytes
        <= usize::MAX && parts[i].tokens * row_bytes <= usize::MAX by {
        let at = lemma_filled(offsets, offsets.len() - 1, i);
        lemma_ordered(offsets, at, at + 1);
        lemma_ordered(offsets, at + 1, offsets.len() - 1);
        let part = parts[i];
        assert(part.start * row_bytes <= rows * row_bytes && part.tokens * row_bytes <= rows
            * row_bytes) by (nonlinear_arith)
            requires
                part.start <= rows,
                part.tokens <= rows,
                row_bytes >= 0,
        ;
    }
}

fn special_plan(
    ctx: &CudaContext,
    build: &AttentionBuild,
    q: &Tensor,
    k: &Tensor,
    v: &Tensor,
    offsets: &[u32],
    max_tokens: usize,
) -> (result: Result<SpecialPlan, Error>)
    requires
        q.dims@.len() == 3,
        q.dims@[2] == 64,
        q.dtype == DType::BF16,
        offsets@.len() >= 2,
        cuts(offsets@, q.dims@[0], max_tokens),
        q.buffer.in_memory(),
        k.buffer.in_memory(),
        v.buffer.in_memory(),
    ensures
        match byte_size(DType::BF16, q.dims@, SPECIAL_SIZE) {
            Err(error) => result == Err::<SpecialPlan, Error>(error),
            Ok(bytes) => match byte_size(DType::BF16, seq![q.dims@[1], 64usize], SPECIAL_ROW) {
                Err(error) => result == Err::<SpecialPlan, Error>(error),
                Ok(row_bytes) => match special_pieces(
                    *ctx,
                    *build,
                    *q,
                    *k,
                    *v,
                    row_bytes as int,
                    filled(offsets@, offsets@.len() - 1),
                ) {
                    Err(error) => result == Err::<SpecialPlan, Error>(error),
                    Ok(pieces) => {
                        &&& result matches Ok(plan)
                        &&& plan.output_bytes == bytes
                        &&& bytes == tensor_size(*q)
                        &&& plan.row_bytes == row_bytes
                        &&& row_bytes == q.dims@[1] * 128
                        &&& plan.pieces@ == pieces
                    },
                },
            },
        },
{
    let bytes: usize = checked_bytes(DType::BF16, q.dims.as_slice(), SPECIAL_SIZE)?;
    let row: Vec<usize> = vec![q.dims[1], 64];
    assert(row@ =~= seq![q.dims@[1], 64usize]);
    let row_bytes: usize = checked_bytes(DType::BF16, row.as_slice(), SPECIAL_ROW)?;
    assert(ascending(offsets@));
    let parts = filled_segments(offsets);
    proof {
        lemma_row_size(q.dims@, row@);
        lemma_parts_fit(offsets@, q.dims@[0] as int, row_bytes as int);
    }
    let pieces = special_list(ctx, build, q, k, v, row_bytes, &parts)?;
    Ok(SpecialPlan { output_bytes: bytes, row_bytes, pieces })
}

fn generic_plan(q: &Tensor, k: &Tensor, v: &Tensor, offsets: &[u32]) -> (result: Result<
    GenericSegments,
    Error,
>)
    requires
        q.dims@.len() == 3,
        tensor_fits(*q),
        offsets@.len() >= 2,
        route_fits(SegmentedKind::Generic, false, *q, offsets@),
    ensures
        match pointers_problem(*q, *k, *v) {
            Some(error) => result == Err::<GenericSegments, Error>(error),
            None => {
                &&& result matches Ok(plan)
                &&& plan.query == q.buffer.address
                &&& plan.key == k.buffer.address
                &&& plan.value == v.buffer.address
                &&& plan.heads == q.dims@[1] as i32
                &&& plan.head_dim == q.dims@[2] as i32
                &&& plan.scale_dim == q.dims@[2]
                &&& plan.output_bytes == tensor_size(*q)
                &&& plan.lse_bytes == q.dims@[0] * q.dims@[1] * 4
                &&& plan.pieces@ == Seq::new(
                    (offsets@.len() - 1) as nat,
                    |i: int| generic_piece(q.dims@[1], q.dims@[2], segment(offsets@, i)),
                )
            },
        },
{
    let query: usize = gpu_ptr(q)?;
    let key: usize = gpu_ptr(k)?;
    let value: usize = gpu_ptr(v)?;
    let heads: usize = q.dims[1];
    let head_dim: usize = q.dims[2];
    let row_bytes: usize = heads * head_dim * 2;
    let lse_row_bytes: usize = heads * 4;
    let mut pieces: Vec<GenericPiece> = Vec::new();
    let count: usize = offsets.len() - 1;
    let mut i: usize = 0;
    while i < count
        invariant
            i <= count,
            count == offsets@.len() - 1,
            q.dims@.len() == 3,
            heads == q.dims@[1],
            head_dim == q.dims@[2],
            row_bytes == heads * head_dim * 2,
            lse_row_bytes == heads * 4,
            route_fits(SegmentedKind::Generic, false, *q, offsets@),
            pieces@ == Seq::new(
                i as nat,
                |j: int| generic_piece(q.dims@[1], q.dims@[2], segment(offsets@, j)),
            ),
        decreases count - i,
    {
        assert(offsets@[i as int] <= offsets@[i + 1]);
        let start: usize = offsets[i] as usize;
        let tokens: usize = (offsets[i + 1] - offsets[i]) as usize;
        pieces.push(
            GenericPiece {
                offset: start * row_bytes,
                lse_offset: start * lse_row_bytes,
                tokens: tokens as i32,
            },
        );
        i = i + 1;
    }
    Ok(
        GenericSegments {
            query,
            key,
            value,
            heads: heads as i32,
            head_dim: head_dim as i32,
            scale_dim: head_dim,
            output_bytes: tensor_bytes(q),
            lse_bytes: q.dims[0] * heads * 4,
            pieces,
        },
    )
}

/// BF16 multi-head attention inside the segments of a packed sequence.
pub fn segmented_mha_bf16(
    ctx: &CudaContext,
    build: &AttentionBuild,
    switches: &AttentionSwitches,
    q: &Tensor,
    k: &Tensor,
    v: &Tensor,
    offsets: &CudaBuffer,
    host_offsets: &[u32],
    segments: usize,
    max_tokens: usize,
) -> (result: Result<SegmentedRoute, Error>)
    requires
        tensor_fits(*q),
        (segments + 1) * 4 <= usize::MAX,
        q.buffer.in_memory(),
        k.buffer.in_memory(),
        v.buffer.in_memory(),
        segmented_matches(*q, *k, *v, host_offsets@, segments, max_tokens) ==> route_fits(
            segmented_kind(*build, *switches, q.dims@[2]),
            switches.wide_scores,
            *q,
            host_offsets@,
        ),
    ensures
        match segmented_problem(
            *ctx,
            *build,
            *switches,
            *q,
            *k,
            *v,
            *offsets,
            host_offsets@,
            segments,
            max_tokens,
        ) {
            Some(error) => result == Err::<SegmentedRoute, Error>(error),
            None => result matches Ok(route) && is_route(
                *ctx,
                *build,
                *switches,
                *q,
                *k,
                *v,
                *offsets,
                host_offsets@,
                segments,
                max_tokens,
                route,
            ),
        },
{
    if q.dtype != DType::BF16 || k.dtype != DType::BF16 || v.dtype != DType::BF16 || q.dims.len()
        != 3 || !same_dims(&k.dims, &q.dims) || !same_dims(&v.dims, &q.dims) || segments == 0
        || host_offsets.len() != segments + 1 || max_tokens == 0 || q.dims[2] > 256 {
        return Err(Error::Other(SEGMENTED_SHAPE));
    }
    require_buffer(ctx, SEGMENTED, "offsets", offsets, (segments + 1) * 4)?;
    let heads: usize = q.dims[1];
    let head_dim: usize = q.dims[2];
    if !build.fa2() {
        let query: usize = gpu_ptr(q)?;
        let key: usize = gpu_ptr(k)?;
        let value: usize = gpu_ptr(v)?;
        return Ok(
            SegmentedRoute::Native(
                SegmentedLaunch {
                    query,
                    key,
                    value,
                    offsets: offsets.address,
                    segments: segments as i32,
                    max_tokens: max_tokens as i32,
                    heads: heads as i32,
                    head_dim: head_dim as i32,
                    output_bytes: tensor_bytes(q),
                },
            ),
        );
    }
    if build.fa2_head_special && head_dim == 64 && switches.vision_fa2 {
        let device = Device::Cuda(ctx.device_id);
        if !cuts_rows(host_offsets, q.dims[0], max_tokens) || q.device != device || k.device
            != device || v.device != device {
            return Err(Error::Other(SEGMENTED_OFFSETS));
        }
        let plan = special_plan(ctx, build, q, k, v, host_offsets, max_tokens)?;
        return Ok(SegmentedRoute::Special(plan));
    }
    if !build.fa2_sm80 && head_dim == 64 {
        let widen = switches.wide_scores;
        let wide_bytes: usize = if widen {
            q.dims[0] * heads * 64 * 4
        } else {
            gpu_ptr(q)?;
            gpu_ptr(k)?;
            0
        };
        return Ok(
            SegmentedRoute::Composed(
                ComposedSegments {
                    query: q.buffer.address,
                    key: k.buffer.address,
                    widen,
                    wide_bytes,
                    heads,
                    output_bytes: tensor_bytes(q),
                    segments: filled_segments(host_offsets),
                },
            ),
        );
    }
    let plan = generic_plan(q, k, v, host_offsets)?;
    Ok(SegmentedRoute::Generic(plan))
}

impl ComposedSegments {
    /// The casts before the first segment: queries and keys, each whole, into
    /// the given buffers; none where they stay BF16.
    pub open spec fn widenings(self, query: CudaBuffer, key: CudaBuffer) -> Seq<Cast> {
        let count = (self.wide_bytes / 4) as usize;
        if self.widen {
            seq![
                Cast { source: self.query, target: query.address, count },
                Cast { source: self.key, target: key.address, count },
            ]
        } else {
            Seq::empty()
        }
    }
}

/// The BF16 queries and keys as 32-bit floats: the casts to run before the
/// segments.
pub fn widen_segments(plan: &ComposedSegments, query: &CudaBuffer, key: &CudaBuffer) -> (casts: Vec<
    Cast,
>)
    ensures
        casts@ == plan.widenings(*query, *key),
{
    let mut casts: Vec<Cast> = Vec::new();
    if plan.widen {
        let count: usize = plan.wide_bytes / 4;
        casts.push(Cast { source: plan.query, target: query.address, count });
        casts.push(Cast { source: plan.key, target: key.address, count });
    }
    assert(casts@ =~= plan.widenings(*query, *key));
    casts
}

/// A cast converts a whole operand and fills its buffer.
pub proof fn lemma_segment_casts_are_whole(
    ctx: CudaContext,
    build: AttentionBuild,
    switches: AttentionSwitches,
    q: Tensor,
    k: Tensor,
    v: Tensor,
    offsets_buffer: CudaBuffer,
    offsets: Seq<u32>,
    segments: usize,
    max_tokens: usize,
    plan: ComposedSegments,
    query: CudaBuffer,
    key: CudaBuffer,
    i: int,
)
    requires
        segmented_matches(q, k, v, offsets, segments, max_tokens),
        is_route(
            ctx,
            build,
            switches,
            q,
            k,
            v,
            offsets_buffer,
            offsets,
            segments,
            max_tokens,
            SegmentedRoute::Composed(plan),
        ),
        0 <= i < plan.widenings(query, key).len(),
    ensures
        plan.widenings(query, key)[i].count * 4 == plan.wide_bytes,
        plan.widenings(query, key)[i].count * 2 == tensor_size(q),
        plan.widenings(query, key)[i].count * 2 == tensor_size(k),
{
    lemma_product3(q.dims@);
    lemma_product3(k.dims@);
}

/// The device memory of one composed segment: queries and keys, BF16 or
/// widened, BF16 values and output, 32-bit scores and BF16 probabilities.
#[derive(Clone, Copy, Debug, PartialEq, Eq, Structural)]
pub struct SegmentBuffers {
    pub query: CudaBuffer,
    pub key: CudaBuffer,
    pub value: CudaBuffer,
    pub output: CudaBuffer,
    pub scores: CudaBuffer,
    pub probs: CudaBuffer,
}

/// `apxinf_static_row_softmax_f32_bf16`.
#[derive(Clone, Copy, Debug, PartialEq, Eq, Structural)]
pub struct SegmentSoftmax {
    pub scores: usize,
    pub probs: usize,
    pub cols: u32,
    pub rows: u32,
}

#[derive(Clone, Copy, Debug, PartialEq, Eq, Structural)]
pub enum SegmentStep {
    Product(CublasCall),
    Softmax(SegmentSoftmax),
}

/// The extents of composed segments.
#[derive(Clone, Copy, Debug, PartialEq, Eq, Structural)]
pub struct SegmentShape {
    pub heads: usize,
    pub widen: bool,
}

impl SegmentShape {
    /// Bytes of an element of queries and keys.
    pub open spec fn width(self) -> int {
        if self.widen {
            4
        } else {
            2
        }
    }

    /// Where the rows of a segment start for one head, in elements.
    pub open spec fn first(self, part: Segment, head: int) -> int {
        part.start * self.heads * 64 + head * 64
    }

    /// From the first to the last element of a segment for one head.
    pub open spec fn extent(self, part: Segment) -> int {
        (part.tokens - 1) * self.heads * 64 + 64
    }

    /// Whether the sizes of a segment are machine words.
    pub open spec fn fits(self, part: Segment) -> bool {
        &&& part.tokens > 0
        &&& self.heads * 64 <= usize::MAX
        &&& part.start * self.heads <= usize::MAX
        &&& (part.start * self.heads * 64 + self.heads * 64) * 4 <= usize::MAX
        &&& (part.tokens * self.heads * 64) * 4 <= usize::MAX
        &&& part.tokens * self.heads <= usize::MAX
        &&& part.tokens * part.tokens <= usize::MAX
        &&& self.heads * part.tokens * part.tokens * 4 <= usize::MAX
        &&& part.tokens * part.tokens * 4 <= usize::MAX
    }

    /// `scores = queries @ keys^T / 8` for one head.
    pub open spec fn score_step(self, buffers: SegmentBuffers, part: Segment, head: int) -> Result<
        SegmentStep,
        Error,
    > {
        let offset = self.first(part, head) * self.width();
        let len = self.extent(part) * self.width();
        let element = if self.widen {
            cudaDataType_t::CUDA_R_32F
        } else {
            cudaDataType_t::CUDA_R_16BF
        };
        match buffers.query.slice_of(offset, len) {
            Err(error) => Err(error),
            Ok(a) => match buffers.key.slice_of(offset, len) {
                Err(error) => Err(error),
                Ok(b) => match buffers.scores.slice_of(
                    head * part.tokens * part.tokens * 4,
                    part.tokens * part.tokens * 4,
                ) {
                    Err(error) => Err(error),
                    Ok(c) => Ok(
                        SegmentStep::Product(
                            CublasCall::GemmEx(
                                row_major(
                                    cublasOperation_t::CUBLAS_OP_N,
                                    cublasOperation_t::CUBLAS_OP_T,
                                    part.tokens as i32,
                                    part.tokens as i32,
                                    64,
                                    Scalar::InverseRoot(64),
                                    stored(a, element, (self.heads * 64) as i32),
                                    stored(b, element, (self.heads * 64) as i32),
                                    Scalar::Real(0),
                                    stored(c, cudaDataType_t::CUDA_R_32F, part.tokens as i32),
                                    cublasComputeType_t::CUBLAS_COMPUTE_32F,
                                    if self.widen {
                                        99
                                    } else {
                                        FIXED_ALGO
                                    },
                                ),
                            ),
                        ),
                    ),
                },
            },
        }
    }

    /// `output = probabilities @ values` for one head.
    pub open spec fn value_step(
        self,
        ctx: CudaContext,
        value_device: Device,
        buffers: SegmentBuffers,
        part: Segment,
        head: int,
    ) -> Result<SegmentStep, Error> {
        let offset = self.first(part, head) * 2;
        let len = self.extent(part) * 2;
        match buffers.probs.slice_of(
            head * part.tokens * part.tokens * 2,
            part.tokens * part.tokens * 2,
        ) {
            Err(error) => Err(error),
            Ok(a) => match device_problem(Device::Cuda(ctx.device_id), value_device) {
                Some(error) => Err(error),
                None => match buffers.value.slice_of(offset, len) {
                    Err(error) => Err(error),
                    Ok(b) => match buffers.output.slice_of(offset, len) {
                        Err(error) => Err(error),
                        Ok(c) => Ok(
                            SegmentStep::Product(
                                CublasCall::GemmEx(
                                    row_major(
                                        cublasOperation_t::CUBLAS_OP_N,
                                        cublasOperation_t::CUBLAS_OP_N,
                                        part.tokens as i32,
                                        64,
                                        part.tokens as i32,
                                        Scalar::Real(0x3f80_0000),
                                        stored(a, cudaDataType_t::CUDA_R_16BF, part.tokens as i32),
                                        stored(
                                            b,
                                            cudaDataType_t::CUDA_R_16BF,
                                            (self.heads * 64) as i32,
                                        ),
                                        Scalar::Real(0),
                                        stored(
                                            c,
                                            cudaDataType_t::CUDA_R_16BF,
                                            (self.heads * 64) as i32,
                                        ),
                                        cublasComputeType_t::CUBLAS_COMPUTE_32F,
                                        -1i32,
                                    ),
                                ),
                            ),
                        ),
                    },
                },
            },
        }
    }

    /// The steps of a segment: the scores of every head, the softmax, and the
    /// output of every head.
    pub open spec fn step(
        self,
        ctx: CudaContext,
        value_device: Device,
        buffers: SegmentBuffers,
        part: Segment,
        i: int,
    ) -> Result<SegmentStep, Error> {
        if i < self.heads {
            self.score_step(buffers, part, i)
        } else if i == self.heads {
            Ok(
                SegmentStep::Softmax(
                    SegmentSoftmax {
                        scores: buffers.scores.address,
                        probs: buffers.probs.address,
                        cols: part.tokens as u32,
                        rows: (self.heads * part.tokens) as u32,
                    },
                ),
            )
        } else {
            self.value_step(ctx, value_device, buffers, part, i - self.heads - 1)
        }
    }
}

proof fn lemma_segment_sizes(shape: SegmentShape, part: Segment, head: int)
    requires
        shape.fits(part),
        0 <= head < shape.heads,
    ensures
        0 <= part.start * shape.heads * 64 <= usize::MAX,
        0 <= shape.first(part, head),
        shape.first(part, head) * 4 <= usize::MAX,
        0 <= (part.tokens - 1) * shape.heads <= part.tokens * shape.heads,
        0 <= (part.tokens - 1) * shape.heads * 64,
        0 <= shape.extent(part),
        shape.extent(part) * 4 <= usize::MAX,
        0 <= head * part.tokens <= usize::MAX,
        0 <= head * part.tokens * part.tokens,
        0 <= head * part.tokens * part.tokens * 4 <= usize::MAX,
        head * part.tokens * part.tokens + part.tokens * part.tokens <= shape.heads * part.tokens
            * part.tokens,
{
    let t = part.tokens as int;
    let heads = shape.heads as int;
    assert(0 <= part.start * shape.heads) by (nonlinear_arith);
    assert(0 <= (t - 1) * heads <= t * heads - heads) by (nonlinear_arith)
        requires
            t >= 1,
            heads >= 1,
    ;
    assert(0 <= head * t <= heads * t - t) by (nonlinear_arith)
        requires
            0 <= head,
            head + 1 <= heads,
            t >= 1,
    ;
    let x = head * t;
    let y = heads * t;
    assert(0 <= x * t && x * t + t * t <= y * t) by (nonlinear_arith)
        requires
            0 <= x,
            x + t <= y,
            t >= 1,
    ;
    assert(y == t * heads) by (nonlinear_arith)
        requires
            y == heads * t,
    ;
}

fn score_segment(
    ctx: &CudaContext,
    shape: &SegmentShape,
    buffers: &SegmentBuffers,
    part: Segment,
    head: usize,
) -> (result: Result<SegmentStep, Error>)
    requires
        shape.fits(part),
        head < shape.heads,
        buffers.query.in_memory(),
        buffers.key.in_memory(),
        buffers.scores.in_memory(),
    ensures
        result == shape.score_step(*buffers, part, head as int),
{
    proof {
        lemma_segment_sizes(*shape, part, head as int);
    }
    let width: usize = if shape.widen {
        4
    } else {
        2
    };
    let tokens: usize = part.tokens;
    let offset: usize = (part.start * shape.heads * 64 + head * 64) * width;
    let len: usize = ((tokens - 1) * shape.heads * 64 + 64) * width;
    let a = buffers.query.slice(offset, len)?;
    let b = buffers.key.slice(offset, len)?;
    let c = buffers.scores.slice(head * tokens * tokens * 4, tokens * tokens * 4)?;
    let stride: i32 = (shape.heads * 64) as i32;
    if shape.widen {
        let call = ctx.cublas.gemm_ex(
            DType::F32,
            CublasTranspose::Normal,
            CublasTranspose::Transpose,
            tokens,
            tokens,
            64,
            Scalar::InverseRoot(64),
            &a,
            stride,
            &b,
            stride,
            Scalar::Real(0),
            &c,
            tokens as i32,
        )?;
        Ok(SegmentStep::Product(call))
    } else {
        Ok(
            SegmentStep::Product(
                ctx.cublas.gemm_bf16_f32_ex(
                    CublasTranspose::Normal,
                    CublasTranspose::Transpose,
                    tokens,
                    tokens,
                    64,
                    Scalar::InverseRoot(64),
                    &a,
                    stride,
                    &b,
                    stride,
                    Scalar::Real(0),
                    &c,
                    tokens as i32,
                ),
            ),
        )
    }
}

fn value_segment(
    ctx: &CudaContext,
    value_device: Device,
    shape: &SegmentShape,
    buffers: &SegmentBuffers,
    part: Segment,
    head: usize,
) -> (result: Result<SegmentStep, Error>)
    requires
        shape.fits(part),
        head < shape.heads,
        buffers.probs.in_memory(),
        buffers.value.in_memory(),
        buffers.output.in_memory(),
    ensures
        result == shape.value_step(*ctx, value_device, *buffers, part, head as int),
{
    proof {
        lemma_segment_sizes(*shape, part, head as int);
    }
    let tokens: usize = part.tokens;
    let offset: usize = (part.start * shape.heads * 64 + head * 64) * 2;
    let len: usize = ((tokens - 1) * shape.heads * 64 + 64) * 2;
    let a = buffers.probs.slice(head * tokens * tokens * 2, tokens * tokens * 2)?;
    require_device(ctx, value_device)?;
    let b = buffers.value.slice(offset, len)?;
    let c = buffers.output.slice(offset, len)?;
    let stride: i32 = (shape.heads * 64) as i32;
    let call = ctx.cublas.gemm_ex(
        DType::BF16,
        CublasTranspose::Normal,
        CublasTranspose::Normal,
        tokens,
        64,
        tokens,
        Scalar::Real(0x3f80_0000),
        &a,
        tokens as i32,
        &b,
        stride,
        Scalar::Real(0),
        &c,
        stride,
    )?;
    Ok(SegmentStep::Product(call))
}

/// Everything that is run for one segment, in order.
pub fn segment_steps(
    ctx: &CudaContext,
    value_device: Device,
    shape: &SegmentShape,
    buffers: &SegmentBuffers,
    part: Segment,
) -> (result: Result<Vec<SegmentStep>, Error>)
    requires
        shape.fits(part),
        shape.heads <= (usize::MAX - 1) / 2,
        buffers.query.in_memory(),
        buffers.key.in_memory(),
        buffers.value.in_memory(),
        buffers.output.in_memory(),
        buffers.scores.in_memory(),
        buffers.probs.in_memory(),
    ensures
        match collected(
            |i: int| shape.step(*ctx, value_device, *buffers, part, i),
            2 * shape.heads + 1,
        ) {
            Err(error) => result == Err::<Vec<SegmentStep>, Error>(error),
            Ok(steps) => result matches Ok(made) && made@ == steps,
        },
{
    let count: usize = 2 * shape.heads + 1;
    let ghost results = |i: int| shape.step(*ctx, value_device, *buffers, part, i);
    let mut steps: Vec<SegmentStep> = Vec::new();
    let mut i: usize = 0;
    while i < count
        invariant
            i <= count,
            count == 2 * shape.heads + 1,
            shape.fits(part),
            buffers.query.in_memory(),
            buffers.key.in_memory(),
            buffers.value.in_memory(),
            buffers.output.in_memory(),
            buffers.scores.in_memory(),
            buffers.probs.in_memory(),
            results == (|i: int| shape.step(*ctx, value_device, *buffers, part, i)),
            collected(results, i as int) == Ok::<Seq<SegmentStep>, Error>(steps@),
        decreases count - i,
    {
        let made = if i < shape.heads {
            score_segment(ctx, shape, buffers, part, i)
        } else if i == shape.heads {
            assert(shape.heads * part.tokens == part.tokens * shape.heads) by (nonlinear_arith);
            Ok(
                SegmentStep::Softmax(
                    SegmentSoftmax {
                        scores: buffers.scores.address,
                        probs: buffers.probs.address,
                        cols: part.tokens as u32,
                        rows: (shape.heads * part.tokens) as u32,
                    },
                ),
            )
        } else {
            value_segment(ctx, value_device, shape, buffers, part, i - shape.heads - 1)
        };
        match made {
            Ok(step) => {
                steps.push(step);
            },
            Err(error) => {
                proof {
                    lemma_collected_error(results, i as int, count as int);
                }
                return Err(error);
            },
        }
        i = i + 1;
    }
    Ok(steps)
}

/// The bytes of a segment's scores and probabilities.
pub fn segment_memory(heads: usize, tokens: usize) -> (sizes: (usize, usize))
    requires
        heads * tokens <= usize::MAX,
        heads * tokens * tokens <= usize::MAX,
        heads * tokens * tokens * 4 <= usize::MAX,
    ensures
        sizes.0 == heads * tokens * tokens * 4,
        sizes.1 == heads * tokens * tokens * 2,
{
    (heads * tokens * tokens * 4, heads * tokens * tokens * 2)
}

/// A segment inside the sequence, with buffers of full size on the context's
/// device, is run step by step without a failure.
pub proof fn lemma_segment_runs(
    ctx: CudaContext,
    shape: SegmentShape,
    buffers: SegmentBuffers,
    part: Segment,
    rows: int,
)
    requires
        shape.fits(part),
        part.start + part.tokens <= rows,
        buffers.query.len >= rows * shape.heads * 64 * shape.width(),
        buffers.key.len >= rows * shape.heads * 64 * shape.width(),
        buffers.value.len >= rows * shape.heads * 64 * 2,
        buffers.output.len >= rows * shape.heads * 64 * 2,
        buffers.scores.len >= shape.heads * part.tokens * part.tokens * 4,
        buffers.probs.len >= shape.heads * part.tokens * part.tokens * 2,
    ensures
        collected(
            |i: int| shape.step(ctx, Device::Cuda(ctx.device_id), buffers, part, i),
            2 * shape.heads + 1,
        ) is Ok,
{
    let results = |i: int| shape.step(ctx, Device::Cuda(ctx.device_id), buffers, part, i);
    assert forall|i: int| 0 <= i < 2 * shape.heads + 1 implies (#[trigger] results(i)) is Ok by {
        if i != shape.heads {
            let head = if i < shape.heads {
                i
            } else {
                i - shape.heads - 1
            };
            lemma_segment_sizes(shape, part, head);
            let heads = shape.heads as int;
            let s = part.start as int;
            let t = part.tokens as int;
            assert(s * heads * 64 + head * 64 + ((t - 1) * heads * 64 + 64) <= rows * heads * 64)
                by (nonlinear_arith)
                requires
                    0 <= head,
                    head + 1 <= heads,
                    s + t <= rows,
                    t >= 1,
                    s >= 0,
            ;
            let whole = rows * heads * 64;
            let width = shape.width();
            let first = shape.first(part, head);
            let extent = shape.extent(part);
            assert(first + extent <= whole);
            assert(first * width + extent * width <= whole * width && 0 <= first * width && 0
                <= extent * width) by (nonlinear_arith)
                requires
                    first + extent <= whole,
                    0 <= first,
                    0 <= extent,
                    width >= 2,
            ;
            assert(buffers.query.holds(
                shape.first(part, head) * shape.width(),
                shape.extent(part) * shape.width(),
            ));
            assert(buffers.key.holds(
                shape.first(part, head) * shape.width(),
                shape.extent(part) * shape.width(),
            ));
            assert(buffers.scores.holds(
                head * part.tokens * part.tokens * 4,
                part.tokens * part.tokens * 4,
            ));
            assert(buffers.probs.holds(
                head * part.tokens * part.tokens * 2,
                part.tokens * part.tokens * 2,
            ));
            if i < shape.heads {
                assert(shape.score_step(buffers, part, head) is Ok);
            } else {
                assert(shape.value_step(
                    ctx,
                    Device::Cuda(ctx.device_id),
                    buffers,
                    part,
                    head,
                ) is Ok);
            }
        }
    }
    lemma_collected_values(results, 2 * shape.heads + 1);
}

/// Attention inside a segment, composed of products: the score of row `row` of head `head`
/// against key `key` is their scalar product over eight, both counted from the start of
/// the segment; the output is the sum of the values, each weighed by its probability.
pub proof fn lemma_segment_composes_attention(
    ctx: CudaContext,
    value_device: Device,
    shape: SegmentShape,
    buffers: SegmentBuffers,
    part: Segment,
    result: Result<Vec<SegmentStep>, Error>,
    memory: spec_fn(int) -> int,
    head: int,
    row: int,
    key: int,
    column: int,
)
    requires
        call_ensures(segment_steps, (&ctx, value_device, &shape, &buffers, part), result),
        shape.fits(part),
        shape.heads * 64 <= i32::MAX,
        shape.heads * part.tokens <= u32::MAX,
        part.tokens <= i32::MAX,
        buffers.query.in_memory(),
        buffers.key.in_memory(),
        buffers.value.in_memory(),
        buffers.output.in_memory(),
        buffers.scores.in_memory(),
        buffers.probs.in_memory(),
        0 <= head < shape.heads,
    ensures
        result matches Ok(steps) ==> {
            let score = steps@[head]->Product_0->GemmEx_0;
            let softmax = steps@[shape.heads as int]->Softmax_0;
            let value = steps@[shape.heads + 1 + head]->Product_0->GemmEx_0;
            let tokens = part.tokens as int;
            let stride = shape.heads * 64;
            let w = if shape.widen {
                4int
            } else {
                2
            };
            let at = part.start * stride + head * 64;
            &&& steps@.len() == 2 * shape.heads + 1
            &&& steps@[head] matches SegmentStep::Product(CublasCall::GemmEx(_))
            &&& steps@[shape.heads as int] is Softmax
            &&& steps@[shape.heads + 1 + head] matches SegmentStep::Product(CublasCall::GemmEx(_))
            &&& has_extents(score, tokens, tokens, 64)
            &&& score.alpha == Scalar::InverseRoot(64) && score.beta == Scalar::Real(0)
            &&& launched_entry(score, memory, 0, 0, row, key) == product_entry(
                matrix(memory, buffers.query.address + at * w, w, stride),
                transposed(matrix(memory, buffers.key.address + at * w, w, stride)),
                64,
                row,
                key,
            )
            &&& launched_address(score, 0, row, key) == softmax.scores + ((head * tokens + row)
                * tokens + key) * 4
            &&& softmax.scores == buffers.scores.address && softmax.probs == buffers.probs.address
            &&& softmax.cols == tokens && softmax.rows == shape.heads * tokens
            &&& has_extents(value, tokens, 64, tokens)
            &&& value.alpha == Scalar::Real(0x3f80_0000) && value.beta == Scalar::Real(0)
            &&& launched_entry(value, memory, 0, 0, row, column) == product_entry(
                matrix(memory, softmax.probs + head * tokens * tokens * 2, 2, tokens),
                matrix(memory, buffers.value.address + at * 2, 2, stride),
                tokens,
                row,
                column,
            )
            &&& launched_address(value, 0, row, column) == buffers.output.address + (at + row
                * stride + column) * 2
        },
{
    let results = |i: int| shape.step(ctx, value_device, buffers, part, i);
    if let Ok(steps) = result {
        let count = 2 * shape.heads + 1;
        let t = part.tokens as int;
        let stride = shape.heads * 64;
        let w = shape.width();
        lemma_segment_sizes(shape, part, head);
        lemma_collected_places(results, count, head);
        lemma_collected_places(results, count, shape.heads as int);
        lemma_collected_places(results, count, shape.heads + 1 + head);
        assert(results(head) == shape.score_step(buffers, part, head));
        assert(results(shape.heads + 1 + head) == shape.value_step(
            ctx,
            value_device,
            buffers,
            part,
            head,
        ));
        let at = part.start * stride + head * 64;
        assert(part.start * shape.heads * 64 == part.start * stride) by (nonlinear_arith)
            requires
                stride == shape.heads * 64,
        ;
        assert(at == shape.first(part, head));
        assert(0 <= at * w <= at * 4) by (nonlinear_arith)
            requires
                0 <= at,
                w == 2 || w == 4,
        ;
        let score = steps@[head]->Product_0->GemmEx_0;
        let value = steps@[shape.heads + 1 + head]->Product_0->GemmEx_0;
        lemma_call_is_product(
            score,
            memory,
            0,
            0,
            matrix(memory, buffers.query.address + at * w, w, stride),
            transposed(matrix(memory, buffers.key.address + at * w, w, stride)),
            row,
            key,
        );
        lemma_call_is_product(
            value,
            memory,
            0,
            0,
            matrix(memory, buffers.probs.address + head * t * t * 2, 2, t),
            matrix(memory, buffers.value.address + at * 2, 2, stride),
            row,
            column,
        );
        assert(head * t * t * 4 + (row * t + key) * 4 == ((head * t + row) * t + key) * 4)
            by (nonlinear_arith);
    }
}

/// The segments that are run are those between neighbouring offsets that hold a row, in
/// their order.
pub proof fn lemma_filled_leaves_out_empty_segments(offsets: Seq<u32>, count: int)
    requires
        0 <= count < offsets.len(),
    ensures
        filled(offsets, count) == Seq::new(
            count as nat,
            |i: int|
                Segment {
                    start: offsets[i] as usize,
                    tokens: (offsets[i + 1] - offsets[i]) as usize,
                },
        ).filter(|part: Segment| part.tokens != 0),
    decreases count,
{
    let keep = |part: Segment| part.tokens != 0;
    let between = |i: int|
        Segment { start: offsets[i] as usize, tokens: (offsets[i + 1] - offsets[i]) as usize };
    let all = Seq::new(count as nat, between);
    reveal(Seq::filter);
    if count > 0 {
        lemma_filled_leaves_out_empty_segments(offsets, count - 1);
        assert(all.drop_last() =~= Seq::new((count - 1) as nat, between));
        assert(all.last() == between(count - 1));
    } else {
        assert(all =~= Seq::<Segment>::empty());
    }
}

/// The attention of row `t` of head `h` over the rows `start .. start + tokens` of three
/// tensors of the same extents.
pub open spec fn attended_in_segment(
    memory: spec_fn(int) -> int,
    soft: spec_fn(Seq<int>, int) -> Seq<int>,
    q: Tensor,
    k: Tensor,
    v: Tensor,
    start: int,
    tokens: int,
    t: int,
    h: int,
    c: int,
) -> int {
    let heads = q.dims@[1] as int;
    let head_dim = q.dims@[2] as int;
    let before = start * (heads * head_dim) * 2;
    attended(
        memory,
        soft,
        q.buffer.address + before,
        k.buffer.address + before,
        v.buffer.address + before,
        tokens,
        tokens,
        heads,
        heads,
        head_dim,
        head_dim,
        tokens,
        0,
        t,
        h,
        c,
    )
}

/// Segmented attention by one native launch: it reads the tensors of the call and as many
/// offsets as there are segments, and one more.
pub proof fn lemma_native_segments_attend(
    ctx: CudaContext,
    build: AttentionBuild,
    switches: AttentionSwitches,
    q: Tensor,
    k: Tensor,
    v: Tensor,
    offsets: CudaBuffer,
    host_offsets: &[u32],
    segments: usize,
    max_tokens: usize,
    result: Result<SegmentedRoute, Error>,
)
    requires
        call_ensures(
            segmented_mha_bf16,
            (
                &ctx,
                &build,
                &switches,
                &q,
                &k,
                &v,
                &offsets,
                host_offsets,
                segments,
                max_tokens,
            ),
            result,
        ),
        tensor_size(q) <= usize::MAX,
        segments <= i32::MAX,
        max_tokens <= i32::MAX,
        q.dims@.len() == 3 ==> q.dims@[1] <= i32::MAX,
    ensures
        result matches Ok(SegmentedRoute::Native(launch)) ==> {
            &&& launch.query == q.buffer.address
            &&& launch.key == k.buffer.address
            &&& launch.value == v.buffer.address
            &&& launch.offsets == offsets.address
            &&& launch.segments == segments && launch.max_tokens == max_tokens
            &&& launch.heads == q.dims@[1] && launch.head_dim == q.dims@[2]
            &&& launch.output_bytes == tensor_size(q)
        },
        result matches Ok(route) ==> {
            let fa2 = build.fa2_sm80 || build.fa2_f16_sm100;
            let head64 = q.dims@[2] == 64;
            &&& route is Native <==> !fa2
            &&& route is Special <==> fa2 && head64 && build.fa2_head_special && switches.vision_fa2
            &&& route is Composed <==> fa2 && head64 && !(build.fa2_head_special
                && switches.vision_fa2) && !build.fa2_sm80
        },
        result is Ok ==> {
            &&& q.dtype == DType::BF16 && k.dtype == DType::BF16 && v.dtype == DType::BF16
            &&& q.dims@.len() == 3 && k.dims@ == q.dims@ && v.dims@ == q.dims@ && q.dims@[2] <= 256
            &&& segments > 0 && host_offsets@.len() == segments + 1 && max_tokens > 0
            &&& offsets.device == ctx.device_id && (segments + 1) * 4 <= offsets.len
        },
{
    if result is Ok {
        lemma_product3(q.dims@);
    }
}

/// Segmented attention launch by launch: that of segment `i` attends inside the rows
/// between its two offsets.
pub proof fn lemma_generic_segments_attend(
    ctx: CudaContext,
    build: AttentionBuild,
    switches: AttentionSwitches,
    q: Tensor,
    k: Tensor,
    v: Tensor,
    offsets: CudaBuffer,
    host_offsets: &[u32],
    segments: usize,
    max_tokens: usize,
    result: Result<SegmentedRoute, Error>,
    memory: spec_fn(int) -> int,
    soft: spec_fn(Seq<int>, int) -> Seq<int>,
    i: int,
    t: int,
    h: int,
    c: int,
)
    requires
        call_ensures(
            segmented_mha_bf16,
            (
                &ctx,
                &build,
                &switches,
                &q,
                &k,
                &v,
                &offsets,
                host_offsets,
                segments,
                max_tokens,
            ),
            result,
        ),
        q.dims@.len() == 3 ==> q.dims@[1] <= i32::MAX && route_fits(
            SegmentedKind::Generic,
            false,
            q,
            host_offsets@,
        ),
        0 <= i < segments,
        host_offsets@.len() == segments + 1 ==> host_offsets@[i + 1] - host_offsets@[i] <= i32::MAX,
    ensures
        result matches Ok(SegmentedRoute::Generic(plan)) ==> {
            let piece = plan.pieces@[i];
            let start = host_offsets@[i] as int;
            let tokens = host_offsets@[i + 1] - host_offsets@[i];
            &&& plan.pieces@.len() == segments
            &&& attended(
                memory,
                soft,
                plan.query + piece.offset,
                plan.key + piece.offset,
                plan.value + piece.offset,
                piece.tokens as int,
                piece.tokens as int,
                plan.heads as int,
                plan.heads as int,
                plan.head_dim as int,
                plan.scale_dim as int,
                piece.tokens as int,
                0,
                t,
                h,
                c,
            ) == attended_in_segment(memory, soft, q, k, v, start, tokens, t, h, c)
            &&& piece.offset == start * (q.dims@[1] * q.dims@[2]) * 2
            &&& piece.lse_offset == start * q.dims@[1] * 4
            &&& plan.output_bytes == tensor_size(q)
            &&& plan.lse_bytes == q.dims@[0] * q.dims@[1] * 4
        },
{
    if let Ok(SegmentedRoute::Generic(plan)) = result {
        let (heads, d) = (q.dims@[1], q.dims@[2]);
        let start = host_offsets@[i] as int;
        assert(host_offsets@[i] <= host_offsets@[i + 1]);
        assert(plan.pieces@[i] == generic_piece(heads, d, segment(host_offsets@, i)));
        assert(start * (heads * d * 2) == start * (heads * d) * 2) by (nonlinear_arith);
        assert(start * (heads * 4) == start * heads * 4) by (nonlinear_arith);
        assert(0 <= start * (heads * d * 2) && 0 <= start * (heads * 4)) by (nonlinear_arith)
            requires
                start >= 0,
                heads >= 0,
                d >= 0,
        ;
    }
}

/// Segmented attention by the head-64 specialisation: the `i`-th launch attends inside the
/// `i`-th segment that holds a row, and its rows go where the segment lies.
pub proof fn lemma_special_segments_attend(
    ctx: CudaContext,
    build: AttentionBuild,
    switches: AttentionSwitches,
    q: Tensor,
    k: Tensor,
    v: Tensor,
    offsets: CudaBuffer,
    host_offsets: &[u32],
    segments: usize,
    max_tokens: usize,
    result: Result<SegmentedRoute, Error>,
    memory: spec_fn(int) -> int,
    soft: spec_fn(Seq<int>, int) -> Seq<int>,
    i: int,
    t: int,
    h: int,
    c: int,
)
    requires
        call_ensures(
            segmented_mha_bf16,
            (
                &ctx,
                &build,
                &switches,
                &q,
                &k,
                &v,
                &offsets,
                host_offsets,
                segments,
                max_tokens,
            ),
            result,
        ),
        q.buffer.in_memory(),
        k.buffer.in_memory(),
        v.buffer.in_memory(),
        q.dims@.len() == 3 ==> q.dims@[1] <= i32::MAX,
        max_tokens <= i32::MAX,
        0 <= i < filled(host_offsets@, segments as int).len(),
    ensures
        result matches Ok(SegmentedRoute::Special(plan)) ==> {
            let piece = plan.pieces@[i];
            let part = filled(host_offsets@, segments as int)[i];
            &&& plan.pieces@.len() == filled(host_offsets@, segments as int).len()
            &&& fa2_entry(piece.launch, memory, soft, 0, t, h, c) == attended_in_segment(
                memory,
                soft,
                q,
                k,
                v,
                part.start as int,
                part.tokens as int,
                t,
                h,
                c,
            )
            &&& piece.launch.batches == 1 && piece.launch.query_tokens == part.tokens
            &&& piece.launch.output_bytes == part.tokens * (q.dims@[1] * q.dims@[2]) * 2
            &&& piece.offset == part.start * (q.dims@[1] * q.dims@[2]) * 2
            &&& piece.tokens == part.tokens
            &&& plan.row_bytes == q.dims@[1] * q.dims@[2] * 2
            &&& plan.output_bytes == tensor_size(q)
            &&& cuts(host_offsets@, q.dims@[0], max_tokens)
        },
{
    if let Ok(SegmentedRoute::Special(plan)) = result {
        let parts = filled(host_offsets@, segments as int);
        let row_bytes = plan.row_bytes as int;
        let results = |n: int| special_piece(ctx, build, q, k, v, row_bytes, parts[n]);
        let part = parts[i];
        let heads = q.dims@[1];
        let at = lemma_filled(host_offsets@, segments as int, i);
        assert(host_offsets@[at] <= host_offsets@[at + 1]);
        lemma_collected_places(results, parts.len() as int, i);
        assert(results(i) == Ok::<SpecialPiece, Error>(plan.pieces@[i]));
        let start = part.start as int;
        let tokens = part.tokens as int;
        assert(row_bytes == heads * 64 * 2);
        assert(start * row_bytes == start * (heads * 64) * 2) by (nonlinear_arith)
            requires
                row_bytes == heads * 64 * 2,
        ;
        assert(tokens * row_bytes == tokens * (heads * 64) * 2) by (nonlinear_arith)
            requires
                row_bytes == heads * 64 * 2,
        ;
        assert(0 <= start * row_bytes && 0 <= tokens * row_bytes) by (nonlinear_arith)
            requires
                start >= 0,
                tokens >= 0,
                row_bytes >= 0,
        ;
    }
}

/// Segmented attention composed of products: the plan names the queries and keys of the
/// call, widens them where that was asked for, and runs the segments that hold a row.
pub proof fn lemma_composed_segments_name_their_operands(
    ctx: CudaContext,
    build: AttentionBuild,
    switches: AttentionSwitches,
    q: Tensor,
    k: Tensor,
    v: Tensor,
    offsets: CudaBuffer,
    host_offsets: &[u32],
    segments: usize,
    max_tokens: usize,
    result: Result<SegmentedRoute, Error>,
    query: CudaBuffer,
    key: CudaBuffer,
    plan: ComposedSegments,
    casts: Vec<Cast>,
)
    requires
        call_ensures(
            segmented_mha_bf16,
            (
                &ctx,
                &build,
                &switches,
                &q,
                &k,
                &v,
                &offsets,
                host_offsets,
                segments,
                max_tokens,
            ),
            result,
        ),
        result == Ok::<SegmentedRoute, Error>(SegmentedRoute::Composed(plan)),
        call_ensures(widen_segments, (&plan, &query, &key), casts),
    ensures
        plan.query == q.buffer.address,
        plan.key == k.buffer.address,
        plan.heads == q.dims@[1],
        plan.widen == switches.wide_scores,
        plan.output_bytes == tensor_size(q),
        plan.segments@ == filled(host_offsets@, segments as int),
        switches.wide_scores ==> {
            &&& plan.wide_bytes == q.dims@[0] * q.dims@[1] * q.dims@[2] * 4
            &&& casts@.len() == 2
            &&& casts@[0].source == q.buffer.address && casts@[0].target == query.address
            &&& casts@[1].source == k.buffer.address && casts@[1].target == key.address
        },
        !switches.wide_scores ==> casts@.len() == 0,
{
}

} // verus!
