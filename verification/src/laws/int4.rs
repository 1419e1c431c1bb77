//! INT4 weights: unpacking, split-K products, grouped products and their schedules.

use super::memory::{element, has_room, row};
use crate::context::CudaContext;
use crate::error::Error;
use crate::kernels::contracts::positive_bits;
use crate::kernels::gemm::packed::{build, gemv, PackedCache, PackedKey, PackedSizes, PackedStep};
use crate::kernels::gemm::tiles::{cut, Tile};
use crate::kernels::gemm::w4a16::{
    dequant_bf16_into, dequant_range_bf16_into, gemv_partial_impl, gemv_partial_into,
    gemv_partial_repacked_into, grouped_bf16_into, partial_bytes,
    partial_residual_rms_f16_weight_into, partial_residual_rms_into,
    partial_residual_rms_rows_f16_weight_into, partial_residual_rms_rows_into,
    partial_silu_mul_into, partial_sum_into, AwqWeightView, BlockedRepack, BlockedWeights,
    DequantLaunch, GemvKernel, GemvLaunch, GemvSlots, GroupedLaunch, GroupedRows, NibbleConversion,
    PartialSiluLaunch, PartialSumLaunch, ResidualRmsLaunch,
};
use crate::types::{CudaBuffer, CudaDeviceAddress};
use vstd::prelude::*;

verus! {

/// The number that entry `(i, j)` of an expert stands for: its nibble less the zero point of
/// its group, times the scale of its group. `nibble` picks a column's bits out of a word of
/// eight columns. The three planes start at the given addresses.
pub open spec fn unpacked(
    memory: spec_fn(int) -> int,
    nibble: spec_fn(int, int) -> int,
    qweight: int,
    qzeros: int,
    scales: int,
    packed_cols: int,
    group_size: int,
    i: int,
    j: int,
) -> int {
    let group = i / group_size;
    (nibble(element(memory, qweight, 4, i * packed_cols + j / 8), j % 8) - nibble(
        element(memory, qzeros, 4, group * packed_cols + j / 8),
        j % 8,
    )) * element(memory, scales, 2, group * (packed_cols * 8) + j)
}

/// Entry `(i, j)` of an expert of a view: each plane holds the experts one stride apart.
pub open spec fn weight_of(
    weight: AwqWeightView,
    memory: spec_fn(int) -> int,
    nibble: spec_fn(int, int) -> int,
    expert: int,
    i: int,
    j: int,
) -> int {
    unpacked(
        memory,
        nibble,
        weight.qweight.address + expert * weight.stride_q * 4,
        weight.qzeros.address + expert * weight.stride_z * 4,
        weight.scales.address + expert * weight.stride_s * 2,
        weight.out_dim as int / 8,
        weight.group_size as int,
        i,
        j,
    )
}

/// Whether a view describes whole groups of whole words.
pub open spec fn is_packed_linear(weight: AwqWeightView) -> bool {
    &&& 0 < weight.in_dim && 0 < weight.out_dim && 0 < weight.group_size && 0 < weight.experts
    &&& weight.out_dim % 8 == 0
    &&& weight.in_dim % weight.group_size == 0
}

/// Whether the experts of a view lie apart, inside the buffers of `device`.
pub open spec fn holds_experts(weight: AwqWeightView, device: usize) -> bool {
    let words = weight.in_dim * (weight.out_dim as int / 8);
    let groups = weight.in_dim as int / weight.group_size as int;
    let last = weight.experts - 1;
    &&& weight.experts > 1 ==> weight.stride_q >= words && weight.stride_z >= groups * (
    weight.out_dim as int / 8) && weight.stride_s >= groups * weight.out_dim
    &&& has_room(weight.qweight, device, last * weight.stride_q + words, 4)
    &&& has_room(
        weight.qzeros,
        device,
        last * weight.stride_z + groups * (weight.out_dim as int / 8),
        4,
    )
    &&& has_room(weight.scales, device, last * weight.stride_s + groups * weight.out_dim, 2)
}

/// Extents and strides that the native interface can take.
pub open spec fn native_view(weight: AwqWeightView) -> bool {
    &&& weight.fits()
    &&& weight.in_dim <= i32::MAX && weight.out_dim <= i32::MAX && weight.group_size <= i32::MAX
    &&& weight.experts <= i32::MAX
    &&& weight.stride_q <= i64::MAX && weight.stride_z <= i64::MAX && weight.stride_s <= i64::MAX
    &&& weight.in_dim * weight.out_dim <= i64::MAX
}

/// Entry `(i, j)` of expert `e` of the range, as the launch reads it.
pub open spec fn launched_weight(
    launch: DequantLaunch,
    memory: spec_fn(int) -> int,
    nibble: spec_fn(int, int) -> int,
    e: int,
    i: int,
    j: int,
) -> int {
    unpacked(
        memory,
        nibble,
        launch.qweight.address + launch.qweight_offset + e * launch.stride_q * 4,
        launch.qzeros.address + launch.qzeros_offset + e * launch.stride_z * 4,
        launch.scales.address + launch.scales_offset + e * launch.stride_s * 2,
        launch.packed_cols as int,
        launch.group_size as int,
        i,
        j,
    )
}

/// Unpacking a range writes expert `first + e` of the view at place `e` of the output, as
/// `[count, K, N]`.
pub proof fn lemma_dequant_unpacks_the_range(
    ctx: CudaContext,
    weight: AwqWeightView,
    first: usize,
    count: usize,
    output: CudaBuffer,
    result: Result<DequantLaunch, Error>,
    memory: spec_fn(int) -> int,
    nibble: spec_fn(int, int) -> int,
    e: int,
    i: int,
    j: int,
)
    requires
        call_ensures(dequant_range_bf16_into, (&ctx, weight, first, count, &output), result),
        native_view(weight),
        count <= i32::MAX,
    ensures
        result matches Ok(launch) ==> {
            &&& launched_weight(launch, memory, nibble, e, i, j) == weight_of(
                weight,
                memory,
                nibble,
                first + e,
                i,
                j,
            )
            &&& launch.output + (e * launch.output_stride + i * (launch.packed_cols * 8) + j) * 2
                == output.address + ((e * (weight.in_dim * weight.out_dim) + i * weight.out_dim + j)
                * 2)
            &&& launch.count == count && launch.in_dim == weight.in_dim
        },
        result is Ok <==> {
            &&& is_packed_linear(weight) && holds_experts(weight, ctx.device_id)
            &&& 0 < count && first + count <= weight.experts
            &&& has_room(output, ctx.device_id, count * (weight.in_dim * weight.out_dim), 2)
        },
{
    if let Ok(launch) = result {
        lemma_offsets(weight, first as int);
        let (q, z, s) = (weight.stride_q as int, weight.stride_z as int, weight.stride_s as int);
        let f = first as int;
        assert(f * q * 4 + e * q * 4 == (f + e) * q * 4) by (nonlinear_arith);
        assert(f * z * 4 + e * z * 4 == (f + e) * z * 4) by (nonlinear_arith);
        assert(f * s * 2 + e * s * 2 == (f + e) * s * 2) by (nonlinear_arith);
        assert(weight.in_dim * weight.out_dim >= 0) by (nonlinear_arith);
    }
}

proof fn lemma_offsets(weight: AwqWeightView, first: int)
    requires
        weight.fits(),
        weight.geometry(),
        0 <= first < weight.experts,
    ensures
        0 <= first * weight.stride_q * 4 <= usize::MAX,
        0 <= first * weight.stride_z * 4 <= usize::MAX,
        0 <= first * weight.stride_s * 2 <= usize::MAX,
{
    let last = weight.experts - 1;
    let groups = weight.in_dim as int / weight.group_size as int;
    let cols = weight.out_dim as int / 8;
    assert(groups >= 0) by (nonlinear_arith)
        requires
            groups == weight.in_dim as int / weight.group_size as int,
            weight.group_size > 0,
            weight.in_dim >= 0,
    ;
    assert(weight.words() >= 0) by (nonlinear_arith)
        requires
            weight.words() == weight.in_dim * cols,
            cols >= 0,
    ;
    assert(groups * cols >= 0) by (nonlinear_arith)
        requires
            groups >= 0,
            cols >= 0,
    ;
    assert(groups * weight.out_dim >= 0) by (nonlinear_arith)
        requires
            groups >= 0,
    ;
    crate::kernels::gemm::w4a16::lemma_expert_offset(
        first,
        last,
        weight.stride_q as int,
        weight.words(),
        4,
    );
    crate::kernels::gemm::w4a16::lemma_expert_offset(
        first,
        last,
        weight.stride_z as int,
        weight.zero_words(),
        4,
    );
    crate::kernels::gemm::w4a16::lemma_expert_offset(
        first,
        last,
        weight.stride_s as int,
        weight.scale_elements(),
        2,
    );
}

/// Unpacking a whole view is unpacking the range of all its experts.
pub proof fn lemma_dequant_unpacks_every_expert(
    ctx: CudaContext,
    weight: AwqWeightView,
    output: CudaBuffer,
    whole: Result<DequantLaunch, Error>,
    range: Result<DequantLaunch, Error>,
)
    requires
        call_ensures(dequant_bf16_into, (&ctx, weight, &output), whole),
        call_ensures(
            dequant_range_bf16_into,
            (&ctx, weight, 0, weight.experts, &output),
            range,
        ),
    ensures
        whole == range,
{
}

/// The expert of slot `s`: the one that the ids name, or else the slot's own number.
pub open spec fn expert_of(ids: Option<int>, memory: spec_fn(int) -> int, s: int) -> int {
    match ids {
        Some(address) => element(memory, address, 4, s),
        None => s,
    }
}

/// The multiplier of slot `s`.
pub open spec fn multiplier_of(scale: Option<int>, memory: spec_fn(int) -> int, s: int) -> int {
    match scale {
        Some(address) => element(memory, address, 4, s),
        None => 1,
    }
}

pub open spec fn start_of(address: Option<CudaDeviceAddress>) -> Option<int> {
    match address {
        Some(address) => Some(address.address as int),
        None => None,
    }
}

pub open spec fn widened(address: Option<usize>) -> Option<int> {
    match address {
        Some(address) => Some(address as int),
        None => None,
    }
}

/// Whether a kernel reads a copy in blocked order.
pub open spec fn reads_blocks(kernel: GemvKernel) -> bool {
    kernel == GemvKernel::Blocked || kernel == GemvKernel::MagicBlocked || kernel
        == GemvKernel::PairBlocked
}

/// The word of `(expert, i, c)` as a kernel finds it: at its place in a blocked copy, or one
/// stride after the other.
pub open spec fn word_of(
    launch: GemvLaunch,
    memory: spec_fn(int) -> int,
    place: spec_fn(int, int, int) -> int,
    expert: int,
    i: int,
    c: int,
) -> int {
    if reads_blocks(launch.kernel) {
        element(memory, launch.qweight as int, 4, place(expert, i, c))
    } else {
        element(
            memory,
            launch.qweight + expert * launch.stride_q * 4,
            4,
            i * launch.packed_cols + c,
        )
    }
}

/// The term that input feature `i` adds to column `j` of slot `s`.
pub open spec fn launched_term(
    launch: GemvLaunch,
    memory: spec_fn(int) -> int,
    nibble: spec_fn(int, int) -> int,
    place: spec_fn(int, int, int) -> int,
    s: int,
    i: int,
    j: int,
) -> int {
    let expert = expert_of(widened(launch.expert_ids), memory, s);
    let group = i / launch.group_size as int;
    let value = (nibble(word_of(launch, memory, place, expert, i, j / 8), j % 8) - nibble(
        element(
            memory,
            launch.qzeros + expert * launch.stride_z * 4,
            4,
            group * launch.packed_cols + j / 8,
        ),
        j % 8,
    )) * element(
        memory,
        launch.scales + expert * launch.stride_s * 2,
        2,
        group * (launch.packed_cols * 8) + j,
    );
    element(memory, launch.x as int, 2, s * launch.x_stride + i) * value * multiplier_of(
        widened(launch.slot_scale),
        memory,
        s,
    )
}

/// The same term, from the operands: the activation of the slot, the weight of its expert,
/// the slot's multiplier.
pub open spec fn slot_term(
    x: CudaBuffer,
    weight: AwqWeightView,
    slots: GemvSlots,
    memory: spec_fn(int) -> int,
    nibble: spec_fn(int, int) -> int,
    s: int,
    i: int,
    j: int,
) -> int {
    let start = if slots.per_slot_activation {
        s * weight.in_dim
    } else {
        0
    };
    element(memory, x.address as int, 2, start + i) * weight_of(
        weight,
        memory,
        nibble,
        expert_of(start_of(slots.expert_ids), memory, s),
        i,
        j,
    ) * multiplier_of(start_of(slots.slot_scale), memory, s)
}

/// A copy holds every word of the view, each at its place.
pub open spec fn is_copy(
    copy: BlockedWeights,
    weight: AwqWeightView,
    memory: spec_fn(int) -> int,
    place: spec_fn(int, int, int) -> int,
) -> bool {
    forall|expert: int, i: int, c: int| #[trigger]
        element(memory, copy.q.address as int, 4, place(expert, i, c)) == element(
            memory,
            weight.qweight.address + expert * weight.stride_q * 4,
            4,
            i * (weight.out_dim as int / 8) + c,
        )
}

/// The room that the operands of a product over slots need.
pub open spec fn slots_fit(
    device: usize,
    x: CudaBuffer,
    weight: AwqWeightView,
    slots: GemvSlots,
    splits: usize,
    partial: CudaBuffer,
) -> bool {
    let rows = if slots.per_slot_activation {
        slots.slots as int
    } else {
        1
    };
    &&& 0 < splits && 0 < slots.slots
    &&& slots.expert_ids is None ==> slots.slots <= weight.experts
    &&& has_room(x, device, rows * weight.in_dim, 2)
    &&& has_room(partial, device, weight.out_dim * splits * slots.slots, 4)
    &&& slots.expert_ids matches Some(ids) ==> ids.device == device && slots.slots * 4 <= ids.len
    &&& slots.slot_scale matches Some(scale) ==> scale.device == device && slots.slots * 4
        <= scale.len
}

/// Every term of a product over slots multiplies the slot's activation with the weight of
/// the slot's expert and with the slot's multiplier, whether the words are read from the view
/// or from a copy of it. Column `j` of part `p` of slot `s` lies at `partial[s, p, j]`.
pub proof fn lemma_gemv_multiplies_slots(
    ctx: CudaContext,
    x: CudaBuffer,
    weight: AwqWeightView,
    blocked: Option<BlockedWeights>,
    conversion: NibbleConversion,
    slots: GemvSlots,
    splits: usize,
    partial: CudaBuffer,
    result: Result<GemvLaunch, Error>,
    memory: spec_fn(int) -> int,
    nibble: spec_fn(int, int) -> int,
    place: spec_fn(int, int, int) -> int,
    s: int,
    i: int,
    j: int,
)
    requires
        call_ensures(
            gemv_partial_impl,
            (&ctx, &x, weight, blocked, conversion, slots, splits, &partial),
            result,
        ),
        native_view(weight),
        slots.slots <= i32::MAX,
        splits <= i32::MAX,
        blocked matches Some(copy) ==> is_copy(copy, weight, memory, place),
    ensures
        result matches Ok(launch) ==> {
            &&& launched_term(launch, memory, nibble, place, s, i, j) == slot_term(
                x,
                weight,
                slots,
                memory,
                nibble,
                s,
                i,
                j,
            )
            &&& launch.partial == partial.address
            &&& launch.in_dim == weight.in_dim && launch.packed_cols * 8 == weight.out_dim
            &&& launch.splits == splits && launch.slots == slots.slots
            &&& reads_blocks(launch.kernel) <==> blocked is Some
            &&& launch.kernel == GemvKernel::PairBlocked <==> conversion == NibbleConversion::Pair
            &&& conversion == NibbleConversion::Magic <==> launch.kernel == GemvKernel::Magic
                || launch.kernel == GemvKernel::MagicBlocked
        },
        result is Ok <==> {
            &&& is_packed_linear(weight) && holds_experts(weight, ctx.device_id)
            &&& slots_fit(ctx.device_id, x, weight, slots, splits, partial)
            &&& blocked matches Some(copy) ==> {
                &&& copy.source_address == weight.qweight.address
                &&& copy.k == weight.in_dim && copy.n == weight.out_dim
                &&& copy.experts == weight.experts && weight.group_size == 128
                &&& has_room(
                    copy.q,
                    ctx.device_id,
                    weight.in_dim * (weight.out_dim as int / 8) * weight.experts,
                    4,
                )
            }
            &&& conversion == NibbleConversion::Pair ==> blocked is Some
        },
{
    if let Ok(launch) = result {
        let c = j / 8;
        if let Some(copy) = blocked {
            let expert = expert_of(start_of(slots.expert_ids), memory, s);
            assert(element(memory, copy.q.address as int, 4, place(expert, i, c)) == element(
                memory,
                weight.qweight.address + expert * weight.stride_q * 4,
                4,
                i * (weight.out_dim as int / 8) + c,
            ));
        }
        assert(widened(launch.expert_ids) == start_of(slots.expert_ids));
        assert(widened(launch.slot_scale) == start_of(slots.slot_scale));
        assert(s * 0 == 0) by (nonlinear_arith);
    }
}

/// The product without a copy is the one of the standard conversion; a variable asks for
/// another conversion only by the text `1`, and for the paired one first.
pub proof fn lemma_gemv_forms_agree(
    ctx: CudaContext,
    x: CudaBuffer,
    weight: AwqWeightView,
    blocked: Option<BlockedWeights>,
    slots: GemvSlots,
    splits: usize,
    partial: CudaBuffer,
    pair: Option<&str>,
    magic: Option<&str>,
    conversion: NibbleConversion,
    plain: Result<GemvLaunch, Error>,
    standard: Result<GemvLaunch, Error>,
    asked: Result<GemvLaunch, Error>,
    converted: Result<GemvLaunch, Error>,
)
    requires
        call_ensures(gemv_partial_into, (&ctx, &x, weight, slots, splits, &partial), plain),
        call_ensures(
            gemv_partial_impl,
            (&ctx, &x, weight, None, NibbleConversion::Standard, slots, splits, &partial),
            standard,
        ),
        call_ensures(
            gemv_partial_repacked_into,
            (&ctx, &x, weight, blocked, slots, splits, &partial, pair, magic),
            asked,
        ),
        call_ensures(
            gemv_partial_impl,
            (&ctx, &x, weight, blocked, conversion, slots, splits, &partial),
            converted,
        ),
        match conversion {
            NibbleConversion::Pair => pair matches Some(text) && text@ == seq!['1'],
            NibbleConversion::Magic => !(pair matches Some(text) && text@ == seq!['1']) && (
            magic matches Some(text) && text@ == seq!['1']),
            NibbleConversion::Standard => !(pair matches Some(text) && text@ == seq!['1']) && !(
            magic matches Some(text) && text@ == seq!['1']),
        },
    ensures
        plain == standard,
        asked == converted,
{
    reveal_strlit("1");
    assert("1"@ =~= seq!['1']);
}

/// The number of numbers in `[slots, splits, out_dim]`, of four bytes each.
pub proof fn lemma_partials_take_four_bytes(out_dim: usize, splits: usize, slots: usize, bytes: usize)
    requires
        call_ensures(partial_bytes, (out_dim, splits, slots), bytes),
    ensures
        bytes == 4 * (slots * (splits * out_dim)),
{
    assert(out_dim * splits * slots * 4 == 4 * (slots * (splits * out_dim))) by (nonlinear_arith);
}

/// The sum of the first `count` partials of column `n`.
pub open spec fn reduced(
    memory: spec_fn(int) -> int,
    partial: int,
    start: int,
    stride: int,
    n: int,
    count: int,
) -> int
    decreases count,
{
    if count <= 0 {
        0
    } else {
        reduced(memory, partial, start, stride, n, count - 1) + element(
            memory,
            partial,
            4,
            start + (count - 1) * stride + n,
        )
    }
}

/// A partial sum adds the parts of each column.
pub proof fn lemma_partial_sum_adds_parts(
    ctx: CudaContext,
    partial: CudaBuffer,
    count: usize,
    out_dim: usize,
    output: CudaBuffer,
    result: Result<PartialSumLaunch, Error>,
    memory: spec_fn(int) -> int,
    n: int,
)
    requires
        call_ensures(partial_sum_into, (&ctx, &partial, count, out_dim, &output), result),
        count <= i32::MAX,
        out_dim <= i32::MAX,
    ensures
        result matches Ok(launch) ==> {
            &&& reduced(
                memory,
                launch.partial as int,
                0,
                launch.out_dim as int,
                n,
                launch.count as int,
            ) == reduced(memory, partial.address as int, 0, out_dim as int, n, count as int)
            &&& launch.output == output.address
            &&& launch.out_dim == out_dim && launch.count == count
        },
        result is Ok <==> {
            &&& 0 < count && 0 < out_dim
            &&& has_room(partial, ctx.device_id, out_dim * count, 4)
            &&& has_room(output, ctx.device_id, out_dim as int, 2)
        },
{
}

/// A SwiGLU over partials combines column `c` of a gate half with column `c` of the up
/// half of the same slot, each the sum of its parts. The activation is any function.
pub proof fn lemma_partial_silu_pairs_halves(
    ctx: CudaContext,
    partial: CudaBuffer,
    slots: usize,
    splits: usize,
    inter: usize,
    output: CudaBuffer,
    result: Result<PartialSiluLaunch, Error>,
    memory: spec_fn(int) -> int,
    silu: spec_fn(int) -> int,
    s: int,
    c: int,
)
    requires
        call_ensures(
            partial_silu_mul_into,
            (&ctx, &partial, slots, splits, inter, &output),
            result,
        ),
        slots <= i32::MAX,
        splits <= i32::MAX,
        inter <= i32::MAX,
    ensures
        result matches Ok(launch) ==> {
            let start = s * (launch.splits * (2 * launch.inter));
            let here = s * (splits * (2 * inter));
            &&& silu(
                reduced(
                    memory,
                    launch.partial as int,
                    start,
                    2 * launch.inter,
                    c,
                    launch.splits as int,
                ),
            ) * reduced(
                memory,
                launch.partial as int,
                start,
                2 * launch.inter,
                launch.inter + c,
                launch.splits as int,
            ) == silu(
                reduced(memory, partial.address as int, here, 2 * inter, c, splits as int),
            ) * reduced(memory, partial.address as int, here, 2 * inter, inter + c, splits as int)
            &&& launch.output + (s * launch.inter + c) * 2 == output.address + (s * inter + c) * 2
            &&& launch.slots == slots
        },
        result is Ok <==> {
            &&& 0 < slots && 0 < splits && 0 < inter
            &&& has_room(partial, ctx.device_id, 2 * inter * splits * slots, 4)
            &&& has_room(output, ctx.device_id, slots * inter, 2)
        },
{
}

/// The residual stream of a row after its partials are added to it.
pub open spec fn summed_row(
    memory: spec_fn(int) -> int,
    x: int,
    partial: int,
    cols: int,
    count: int,
    r: int,
) -> Seq<int> {
    Seq::new(
        cols as nat,
        |c: int|
            element(memory, x, 2, r * cols + c) + reduced(
                memory,
                partial,
                r * count * cols,
                cols,
                c,
                count,
            ),
    )
}

/// A reduction followed by a norm adds the parts of each row to the row of `x`, norms the
/// sum with the weight and the epsilon, and writes the row to `output`. The norm is any
/// function.
pub open spec fn adds_parts(
    launch: ResidualRmsLaunch,
    x: CudaBuffer,
    partial: CudaBuffer,
    weight: CudaBuffer,
    output: CudaBuffer,
    cols: usize,
    rows: usize,
    count: usize,
    eps: u32,
    memory: spec_fn(int) -> int,
    norm: spec_fn(Seq<int>, Seq<int>, u32) -> Seq<int>,
    r: int,
) -> bool {
    &&& launch.x == x.address && launch.output == output.address
    &&& launch.cols == cols && launch.count == count
    &&& norm(
        summed_row(
            memory,
            launch.x as int,
            launch.partial as int,
            launch.cols as int,
            launch.count as int,
            r,
        ),
        row(memory, launch.weight as int, 2, 0, launch.cols as int),
        launch.eps,
    ) == norm(
        summed_row(
            memory,
            x.address as int,
            partial.address as int,
            cols as int,
            count as int,
            r,
        ),
        row(memory, weight.address as int, 2, 0, cols as int),
        eps,
    )
    &&& match launch.rows {
        Some(several) => several == rows && rows != 1,
        None => rows == 1,
    }
}

/// The room that a reduction followed by a norm needs.
pub open spec fn parts_fit(
    device: usize,
    x: CudaBuffer,
    partial: CudaBuffer,
    weight: CudaBuffer,
    output: CudaBuffer,
    cols: int,
    rows: int,
    count: int,
    eps: u32,
) -> bool {
    &&& 0 < rows <= i32::MAX && 0 < cols <= 8192 && 0 < count <= i32::MAX && positive_bits(eps)
    &&& has_room(x, device, rows * cols, 2)
    &&& has_room(partial, device, rows * cols * count, 4)
    &&& has_room(weight, device, cols, 2)
    &&& has_room(output, device, rows * cols, 2)
}

/// Every form of the reduction with a norm, see `adds_parts`. A single row of the form for
/// several rows is the decode row. The forms differ only in the type of the norm weights.
pub proof fn lemma_partial_residual_adds_parts(
    ctx: CudaContext,
    x: CudaBuffer,
    partial: CudaBuffer,
    weight: CudaBuffer,
    output: CudaBuffer,
    cols: usize,
    rows: usize,
    count: usize,
    eps: u32,
    single: Result<ResidualRmsLaunch, Error>,
    single_half: Result<ResidualRmsLaunch, Error>,
    several: Result<ResidualRmsLaunch, Error>,
    several_half: Result<ResidualRmsLaunch, Error>,
    memory: spec_fn(int) -> int,
    norm: spec_fn(Seq<int>, Seq<int>, u32) -> Seq<int>,
    r: int,
)
    requires
        call_ensures(
            partial_residual_rms_into,
            (&ctx, &x, &partial, &weight, &output, cols, count, eps),
            single,
        ),
        call_ensures(
            partial_residual_rms_f16_weight_into,
            (&ctx, &x, &partial, &weight, &output, cols, count, eps),
            single_half,
        ),
        call_ensures(
            partial_residual_rms_rows_into,
            (&ctx, &x, &partial, &weight, &output, cols, rows, count, eps),
            several,
        ),
        call_ensures(
            partial_residual_rms_rows_f16_weight_into,
            (&ctx, &x, &partial, &weight, &output, cols, rows, count, eps),
            several_half,
        ),
    ensures
        single matches Ok(launch) ==> !launch.f16_weight && adds_parts(
            launch,
            x,
            partial,
            weight,
            output,
            cols,
            1,
            count,
            eps,
            memory,
            norm,
            r,
        ),
        single_half matches Ok(launch) ==> launch.f16_weight && adds_parts(
            launch,
            x,
            partial,
            weight,
            output,
            cols,
            1,
            count,
            eps,
            memory,
            norm,
            r,
        ),
        several matches Ok(launch) ==> !launch.f16_weight && adds_parts(
            launch,
            x,
            partial,
            weight,
            output,
            cols,
            rows,
            count,
            eps,
            memory,
            norm,
            r,
        ),
        several_half matches Ok(launch) ==> launch.f16_weight && adds_parts(
            launch,
            x,
            partial,
            weight,
            output,
            cols,
            rows,
            count,
            eps,
            memory,
            norm,
            r,
        ),
        single is Ok <==> parts_fit(
            ctx.device_id,
            x,
            partial,
            weight,
            output,
            cols as int,
            1,
            count as int,
            eps,
        ),
        single_half is Ok <==> single is Ok,
        several is Ok <==> rows * cols <= u32::MAX && parts_fit(
            ctx.device_id,
            x,
            partial,
            weight,
            output,
            cols as int,
            rows as int,
            count as int,
            eps,
        ),
        several_half is Ok <==> several is Ok,
        rows == 1 ==> several == single && several_half == single_half,
{
    assert(1 * cols == cols) by (nonlinear_arith);
    assert(cols * count == count * cols) by (nonlinear_arith);
    assert(0 <= rows * cols) by (nonlinear_arith);
    assert(0 <= count * cols) by (nonlinear_arith);
    let elements = rows * cols;
    assert(0 <= elements * count) by (nonlinear_arith)
        requires
            0 <= elements,
    ;
}

/// A grouped product hands each tile's rows of `x` to the kernel with the planes of the view
/// and one stride per expert, so that the tile's expert is unpacked as in the view.
pub proof fn lemma_grouped_product_names_its_operands(
    ctx: CudaContext,
    x: CudaBuffer,
    weight: AwqWeightView,
    schedule: GroupedRows,
    output: CudaBuffer,
    result: Result<GroupedLaunch, Error>,
    memory: spec_fn(int) -> int,
    nibble: spec_fn(int, int) -> int,
    expert: int,
    r: int,
    i: int,
    j: int,
)
    requires
        call_ensures(grouped_bf16_into, (&ctx, &x, weight, &schedule, &output), result),
        native_view(weight),
        schedule.count <= i32::MAX,
    ensures
        result matches Ok(launch) ==> {
            &&& element(memory, launch.x as int, 2, r * launch.in_dim + i) * unpacked(
                memory,
                nibble,
                launch.qweight + expert * launch.stride_q * 4,
                launch.qzeros + expert * launch.stride_z * 4,
                launch.scales + expert * launch.stride_s * 2,
                launch.out_dim as int / 8,
                launch.group_size as int,
                i,
                j,
            ) == element(memory, x.address as int, 2, r * weight.in_dim + i) * weight_of(
                weight,
                memory,
                nibble,
                expert,
                i,
                j,
            )
            &&& launch.output + (r * launch.out_dim + j) * 2 == output.address + (r * weight.out_dim
                + j) * 2
            &&& launch.tiles == schedule.tiles.address && launch.count == schedule.count
        },
        result is Ok <==> {
            &&& is_packed_linear(weight) && holds_experts(weight, ctx.device_id)
            &&& ctx.caps.compute_major >= 8
            &&& weight.group_size == 128 && weight.experts == schedule.experts
            &&& weight.out_dim <= 65535 * 128
            &&& has_room(x, ctx.device_id, schedule.rows * weight.in_dim, 2)
            &&& has_room(output, ctx.device_id, schedule.rows * weight.out_dim, 2)
            &&& has_room(schedule.tiles, ctx.device_id, schedule.count as int, 12)
        },
{
}

/// A blocked copy is made of the words of the view it was planned for, and is accepted for
/// that view: `reused` tells whether the words moved to the new allocation.
pub proof fn lemma_blocked_copy_serves_its_view(
    ctx: CudaContext,
    source: AwqWeightView,
    mapped: bool,
    beside: Result<BlockedRepack, Error>,
    reused: Result<BlockedRepack, Error>,
    size: Result<usize, Error>,
    allocated: CudaBuffer,
    copy: BlockedWeights,
    moved: BlockedWeights,
)
    requires
        call_ensures(BlockedWeights::repack, (&ctx, source, mapped), beside),
        call_ensures(BlockedWeights::repack_reusing_storage, (&ctx, source), reused),
        call_ensures(BlockedWeights::validate_source, (&ctx, source), size),
        beside matches Ok(plan) ==> call_ensures(
            BlockedWeights::from_repack,
            (&plan, allocated),
            copy,
        ),
        reused matches Ok(plan) ==> call_ensures(
            BlockedWeights::from_repack,
            (&plan, allocated),
            moved,
        ),
    ensures
        beside matches Ok(plan) ==> {
            &&& plan.bytes == source.in_dim * (source.out_dim as int / 8) * source.experts * 4
            &&& plan.mapped == mapped && !plan.reuse_source
            &&& plan.source == source.qweight
            &&& plan.in_dim == source.in_dim && plan.packed_cols * 8 == source.out_dim
            &&& plan.expert_count == source.experts
            &&& copy.q == allocated && copy.source_address == source.qweight.address
            &&& copy.k == source.in_dim && copy.n == source.out_dim
            &&& copy.experts == source.experts
        },
        reused matches Ok(plan) ==> {
            &&& plan.bytes == source.in_dim * (source.out_dim as int / 8) * source.experts * 4
            &&& plan.mapped && plan.reuse_source
            &&& plan.source == source.qweight
            &&& moved.q == source.qweight && moved.source_address == allocated.address
            &&& moved.k == source.in_dim && moved.n == source.out_dim
            &&& moved.experts == source.experts
        },
        beside is Ok <==> size is Ok,
        reused is Ok <==> size is Ok,
        size matches Ok(bytes) ==> bytes == source.in_dim * (source.out_dim as int / 8)
            * source.experts * 4,
        size is Ok ==> {
            &&& is_packed_linear(source) && holds_experts(source, ctx.device_id)
            &&& source.group_size == 128 && source.out_dim % 256 == 0
            &&& source.experts > 1 ==> source.stride_q == source.in_dim * (source.out_dim as int
                / 8)
        },
{
}

/// A tile is one expert's rows `row..row + step`, cut at the end of the expert. The tiles of
/// a schedule hold every row of every expert, and no row twice.
pub proof fn lemma_cut_covers_every_row_once(
    offsets: &[usize],
    step: usize,
    tiles: Vec<Tile>,
    expert: int,
    r: int,
)
    requires
        call_ensures(cut, (offsets, step), tiles),
        crate::kernels::gemm::tiles::are_offsets(offsets@),
        step > 0,
        0 <= expert < offsets@.len() - 1,
        offsets@[expert] <= r < offsets@[expert + 1],
    ensures
        exists|t: int|
            #![trigger tiles@[t]]
            0 <= t < tiles@.len() && tiles@[t].expert == expert && tiles@[t].row <= r
                < tiles@[t].row + step && r < tiles@[t].end,
        forall|t: int, u: int|
            #![trigger tiles@[t], tiles@[u]]
            0 <= t < u < tiles@.len() && tiles@[t].row <= r < tiles@[t].row + step && r
                < tiles@[t].end ==> r < tiles@[u].row,
        forall|t: int|
            #![trigger tiles@[t]]
            0 <= t < tiles@.len() ==> {
                &&& tiles@[t].expert < offsets@.len() - 1
                &&& offsets@[tiles@[t].expert as int] <= tiles@[t].row < tiles@[t].end
                &&& tiles@[t].end == offsets@[tiles@[t].expert + 1]
            },
{
    crate::kernels::gemm::tiles::lemma_tiles_cover(offsets@, step as int, expert, r);
    let all = tiles@;
    let t = choose|t: int|
        0 <= t < all.len() && crate::kernels::gemm::tiles::covers(
            #[trigger] all[t],
            step as int,
            expert,
            r,
        );
    assert(tiles@[t].expert == expert);
    assert forall|t: int, u: int|
        #![trigger tiles@[t], tiles@[u]]
        0 <= t < u < tiles@.len() && tiles@[t].row <= r < tiles@[t].row + step && r
            < tiles@[t].end implies r < tiles@[u].row by {
        crate::kernels::gemm::tiles::lemma_tiles_are_disjoint(offsets@, step as int, t, u);
    }
    assert forall|t: int| #![trigger tiles@[t]] 0 <= t < tiles@.len() implies {
        &&& tiles@[t].expert < offsets@.len() - 1
        &&& offsets@[tiles@[t].expert as int] <= tiles@[t].row < tiles@[t].end
        &&& tiles@[t].end == offsets@[tiles@[t].expert + 1]
    } by {
        crate::kernels::gemm::tiles::lemma_tile_bounds(offsets@, step as int, t);
    }
}

/// A packed copy keeps a byte, four bits and one bit of every weight, and one byte of every
/// block of weights.
pub proof fn lemma_packed_planes_hold_every_weight(k: usize, n: usize, sizes: Option<PackedSizes>)
    requires
        call_ensures(build, (k, n), sizes),
        k * n <= usize::MAX,
    ensures
        sizes matches Some(planes) ==> {
            &&& planes.lo == k * n
            &&& 2 * planes.off_lo == k * n
            &&& 8 * planes.off_hi == k * n
            &&& 128 * planes.base == k * n
            &&& planes.reject == 4
        },
        sizes is Some <==> k % 128 == 0,
{
    if k % 128 == 0 {
        let blocks = k as int / 128;
        let count = k * n;
        let groups = blocks * n;
        assert(count == 128 * groups) by (nonlinear_arith)
            requires
                k == 128 * blocks,
                count == k * n,
                groups == blocks * n,
        ;
    }
}

/// A packed product launches on a copy that was kept for this weight and shape. A narrow
/// shape is declined, and a shape without a copy builds one where it can be packed.
pub proof fn lemma_packed_product_uses_its_copy(
    cache: PackedCache,
    min_width: usize,
    weight: CudaBuffer,
    activation: CudaBuffer,
    output: CudaBuffer,
    k: usize,
    n: usize,
    found: Option<crate::kernels::gemm::packed::PackedWeight>,
    step: PackedStep,
)
    requires
        call_ensures(gemv, (&cache, min_width, &weight, &activation, &output, k, n), step),
        call_ensures(
            PackedCache::find,
            (&cache, (PackedKey { address: weight.address, k, n })),
            found,
        ),
        k <= i32::MAX,
        n <= i32::MAX,
    ensures
        step matches PackedStep::Launch {
            lo,
            off_lo,
            off_hi,
            base,
            activation: x,
            output: y,
            n: cols,
            k: rows,
        } ==> found matches Some(copy) && {
            &&& lo == copy.lo.address && off_lo == copy.off_lo.address
            &&& off_hi == copy.off_hi.address && base == copy.base.address
            &&& x == activation.address && y == output.address
            &&& cols == n && rows == k
        },
        step is Launch <==> n >= min_width && (found matches Some(copy) && copy.k == k && copy.n
            == n),
        step is Build <==> n >= min_width && found is None && k % 128 == 0,
        found matches Some(copy) ==> exists|e: int|
            #![trigger cache.entries@[e]]
            0 <= e < cache.entries@.len() && cache.entries@[e].weight == copy
                && cache.entries@[e].key.address == weight.address && cache.entries@[e].key.k == k
                && cache.entries@[e].key.n == n,
        found is None ==> forall|e: int|
            #![trigger cache.entries@[e]]
            0 <= e < cache.entries@.len() ==> !(cache.entries@[e].key.address == weight.address
                && cache.entries@[e].key.k == k && cache.entries@[e].key.n == n),
{
    lemma_found(cache.entries@, PackedKey { address: weight.address, k, n });
}

proof fn lemma_found(
    entries: Seq<crate::kernels::gemm::packed::PackedEntry>,
    key: PackedKey,
)
    ensures
        match crate::kernels::gemm::packed::lookup_packed(entries, key) {
            Some(copy) => exists|e: int|
                #![trigger entries[e]]
                0 <= e < entries.len() && entries[e].weight == copy && entries[e].key == key,
            None => forall|e: int|
                #![trigger entries[e]]
                0 <= e < entries.len() ==> entries[e].key != key,
        },
    decreases entries.len(),
{
    if entries.len() > 0 {
        let rest = entries.drop_last();
        lemma_found(rest, key);
        if entries.last().key == key {
            assert(entries[entries.len() - 1].key == key);
        } else {
            if let Some(copy) = crate::kernels::gemm::packed::lookup_packed(rest, key) {
                let e = choose|e: int|
                    #![trigger rest[e]]
                    0 <= e < rest.len() && rest[e].weight == copy && rest[e].key == key;
                assert(entries[e] == rest[e]);
            } else {
                assert forall|e: int|
                    #![trigger entries[e]]
                    0 <= e < entries.len() implies entries[e].key != key by {
                    if e < rest.len() {
                        assert(entries[e] == rest[e]);
                    }
                }
            }
        }
    }
}

} // verus!
