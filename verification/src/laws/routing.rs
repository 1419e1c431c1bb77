//! Mixture-of-experts routing.

use super::memory::{element, has_room, row};
use crate::context::CudaContext;
use crate::error::Error;
use crate::kernels::moe::{
    gather_rows_into, router_topk_into, routed_residual_rms_f16_weight_into,
    routed_residual_rms_into, silu_mul_rows_f16_lut_into, silu_mul_rows_f16_rounded_into,
    silu_mul_rows_into, weighted_gather_sum_into, CombineLaunch, GatherRowsLaunch, RoutedOperands,
    RoutedResidualLaunch, RouterLaunch, SiluBf16Table, SwigluKernel, SwigluLaunch,
};
use crate::types::CudaBuffer;
use vstd::prelude::*;

verus! {

/// The first `slots` terms of the sum over the experts of token `token`:
/// `sum_s weights[token * topk + s] * y[rows[token * topk + s], col]`.
pub open spec fn expert_sum(
    memory: spec_fn(int) -> int,
    y: int,
    rows: int,
    weights: int,
    topk: int,
    cols: int,
    token: int,
    col: int,
    slots: int,
) -> int
    decreases slots,
{
    if slots <= 0 {
        0
    } else {
        let slot = token * topk + slots - 1;
        expert_sum(memory, y, rows, weights, topk, cols, token, col, slots - 1) + element(
            memory,
            weights,
            4,
            slot,
        ) * element(memory, y, 2, element(memory, rows, 4, slot) * cols + col)
    }
}

/// The residual stream that a routed launch leaves in row `token`:
/// `x[token, col] + sum_s router_weights[token, s] * y[ids[token, s], col]`.
pub open spec fn launched_residual(
    launch: RoutedResidualLaunch,
    memory: spec_fn(int) -> int,
    token: int,
) -> Seq<int> {
    Seq::new(
        launch.cols as nat,
        |col: int|
            element(memory, launch.x as int, 2, token * launch.cols + col) + expert_sum(
                memory,
                launch.y as int,
                launch.ids as int,
                launch.router_weights as int,
                launch.topk as int,
                launch.cols as int,
                token,
                col,
                launch.topk as int,
            ),
    )
}

/// The same row, read at the operands of the call.
pub open spec fn routed_row(
    operands: RoutedOperands,
    memory: spec_fn(int) -> int,
    topk: int,
    cols: int,
    token: int,
) -> Seq<int> {
    Seq::new(
        cols as nat,
        |col: int|
            element(memory, operands.x.address as int, 2, token * cols + col) + expert_sum(
                memory,
                operands.y.address as int,
                operands.ids.address as int,
                operands.router_weights.address as int,
                topk,
                cols,
                token,
                col,
                topk,
            ),
    )
}

/// The launch adds to each row of `x` the rows of `y` that `ids` names, each times
/// its router weight, and writes the normalised row to `output`. The norm is any
/// function of the row, the norm weights and the epsilon.
pub open spec fn adds_weighted_experts(
    launch: RoutedResidualLaunch,
    operands: RoutedOperands,
    cols: usize,
    rows: usize,
    topk: usize,
    eps: u32,
    memory: spec_fn(int) -> int,
    norm: spec_fn(Seq<int>, Seq<int>, u32) -> Seq<int>,
    token: int,
) -> bool {
    let before = launched_residual(launch, memory, token);
    let updated = routed_row(operands, memory, topk as int, cols as int, token);
    &&& before =~= updated
    &&& norm(
        before,
        row(memory, launch.norm_weight as int, 2, 0, launch.cols as int),
        launch.eps,
    ) == norm(
        updated,
        row(memory, operands.norm_weight.address as int, 2, 0, cols as int),
        eps,
    )
    &&& launch.output == operands.output.address
    &&& launch.rows == rows
}

/// Every operand has room for what the launch reads or writes of it.
pub open spec fn routed_room(
    ctx: CudaContext,
    operands: RoutedOperands,
    cols: int,
    rows: int,
    topk: int,
) -> bool {
    &&& has_room(operands.x, ctx.device_id, rows * cols, 2)
    &&& has_room(operands.y, ctx.device_id, rows * topk * cols, 2)
    &&& has_room(operands.ids, ctx.device_id, rows * topk, 4)
    &&& has_room(operands.router_weights, ctx.device_id, rows * topk, 4)
    &&& has_room(operands.norm_weight, ctx.device_id, cols, 2)
    &&& has_room(operands.output, ctx.device_id, rows * cols, 2)
}

/// A routed residual with BF16 norm weights, see `adds_weighted_experts`. It is
/// planned exactly where the geometry is one of the kernel's and every operand has
/// room.
pub proof fn lemma_routed_residual_adds_weighted_experts(
    ctx: CudaContext,
    operands: RoutedOperands,
    cols: usize,
    rows: usize,
    topk: usize,
    eps: u32,
    input_half: bool,
    result: Result<RoutedResidualLaunch, Error>,
    memory: spec_fn(int) -> int,
    norm: spec_fn(Seq<int>, Seq<int>, u32) -> Seq<int>,
    token: int,
)
    requires
        call_ensures(
            routed_residual_rms_into,
            (&ctx, &operands, cols, rows, topk, eps, input_half),
            result,
        ),
    ensures
        result matches Ok(launch) ==> adds_weighted_experts(
            launch,
            operands,
            cols,
            rows,
            topk,
            eps,
            memory,
            norm,
            token,
        ) && launch.input_half == input_half && !launch.half_weight,
        result is Ok ==> routed_room(ctx, operands, cols as int, rows as int, topk as int),
        routed_room(ctx, operands, cols as int, rows as int, topk as int) && 0 < cols <= 8192 && 0
            < rows <= i32::MAX && 0 < topk <= i32::MAX && 0 < eps < 0x7f80_0000 ==> result is Ok,
{
    lemma_slots_grow(rows as int, topk as int, cols as int);
    if let Ok(launch) = result {
        assert(launched_residual(launch, memory, token) =~= routed_row(
            operands,
            memory,
            topk as int,
            cols as int,
            token,
        ));
    }
}

proof fn lemma_slots_grow(rows: int, topk: int, cols: int)
    ensures
        rows > 0 && topk > 0 && cols > 0 ==> rows * topk <= rows * topk * cols,
{
    if rows > 0 && topk > 0 && cols > 0 {
        let slots = rows * topk;
        assert(slots > 0) by (nonlinear_arith)
            requires
                rows > 0,
                topk > 0,
                slots == rows * topk,
        ;
        assert(slots <= slots * cols) by (nonlinear_arith)
            requires
                slots > 0,
                cols > 0,
        ;
    }
}

/// A routed residual with FP16 norm weights, see `adds_weighted_experts`.
pub proof fn lemma_routed_residual_f16_weight_adds_weighted_experts(
    ctx: CudaContext,
    operands: RoutedOperands,
    cols: usize,
    rows: usize,
    topk: usize,
    eps: u32,
    input_half: bool,
    result: Result<RoutedResidualLaunch, Error>,
    memory: spec_fn(int) -> int,
    norm: spec_fn(Seq<int>, Seq<int>, u32) -> Seq<int>,
    token: int,
)
    requires
        call_ensures(
            routed_residual_rms_f16_weight_into,
            (&ctx, &operands, cols, rows, topk, eps, input_half),
            result,
        ),
    ensures
        result matches Ok(launch) ==> adds_weighted_experts(
            launch,
            operands,
            cols,
            rows,
            topk,
            eps,
            memory,
            norm,
            token,
        ) && launch.input_half == input_half && launch.half_weight,
        result is Ok ==> routed_room(ctx, operands, cols as int, rows as int, topk as int),
        routed_room(ctx, operands, cols as int, rows as int, topk as int) && 0 < cols <= 8192 && 0
            < rows <= i32::MAX && 0 < topk <= i32::MAX && 0 < eps < 0x7f80_0000 ==> result is Ok,
{
    lemma_slots_grow(rows as int, topk as int, cols as int);
    if let Ok(launch) = result {
        assert(launched_residual(launch, memory, token) =~= routed_row(
            operands,
            memory,
            topk as int,
            cols as int,
            token,
        ));
    }
}

/// Choosing experts reads a row of logits for each token and writes as many
/// indices and weights as were asked for. The choice is any function of the
/// logits and of the number of experts to keep.
pub proof fn lemma_router_reads_each_token(
    ctx: CudaContext,
    logits: CudaBuffer,
    tokens: usize,
    experts: usize,
    k: usize,
    renormalize: bool,
    topk_idx: CudaBuffer,
    topk_weight: CudaBuffer,
    result: Result<RouterLaunch, Error>,
    memory: spec_fn(int) -> int,
    choice: spec_fn(Seq<int>, int, bool) -> Seq<(int, int)>,
    token: int,
)
    requires
        call_ensures(
            router_topk_into,
            (&ctx, &logits, tokens, experts, k, renormalize, &topk_idx, &topk_weight),
            result,
        ),
        tokens <= i32::MAX,
    ensures
        result matches Ok(launch) ==> {
            &&& choice(
                row(
                    memory,
                    launch.logits as int,
                    2,
                    token * launch.experts,
                    launch.experts as int,
                ),
                launch.k as int,
                launch.renormalize,
            ) == choice(
                row(memory, logits.address as int, 2, token * experts, experts as int),
                k as int,
                renormalize,
            )
            &&& launch.tokens == tokens
            &&& launch.topk_idx == topk_idx.address
            &&& launch.topk_weight == topk_weight.address
        },
        result is Ok <==> {
            &&& tokens > 0
            &&& 0 < experts <= 256
            &&& 0 < k <= 32
            &&& k <= experts
            &&& has_room(logits, ctx.device_id, tokens * experts, 2)
            &&& has_room(topk_idx, ctx.device_id, tokens * k, 4)
            &&& has_room(topk_weight, ctx.device_id, tokens * k, 4)
        },
{
}

/// A gather launch writes `x[source_rows[r], c]` to `output[r, c]`.
pub proof fn lemma_gather_reads_source_rows(
    ctx: CudaContext,
    x: CudaBuffer,
    x_rows: usize,
    source_rows: CudaBuffer,
    rows: usize,
    cols: usize,
    output: CudaBuffer,
    result: Result<GatherRowsLaunch, Error>,
    memory: spec_fn(int) -> int,
    r: int,
    c: int,
)
    requires
        call_ensures(
            gather_rows_into,
            (&ctx, &x, x_rows, &source_rows, rows, cols, &output),
            result,
        ),
        rows <= i32::MAX,
        cols <= i32::MAX,
    ensures
        result matches Ok(launch) ==> {
            &&& element(
                memory,
                launch.x as int,
                2,
                element(memory, launch.source_rows as int, 4, r) * launch.cols + c,
            ) == element(
                memory,
                x.address as int,
                2,
                element(memory, source_rows.address as int, 4, r) * cols + c,
            )
            &&& launch.output + (r * launch.cols + c) * 2 == output.address + (r * cols + c) * 2
            &&& launch.output == output.address
            &&& launch.rows == rows
        },
        result is Ok <==> {
            &&& rows > 0 && cols > 0 && x_rows > 0
            &&& has_room(x, ctx.device_id, x_rows * cols, 2)
            &&& has_room(source_rows, ctx.device_id, rows as int, 4)
            &&& has_room(output, ctx.device_id, rows * cols, 2)
        },
{
}

/// A combine launch sums, for each token, the rows of `y` that `slot_rows` names,
/// each times its weight.
pub proof fn lemma_combine_sums_weighted_rows(
    ctx: CudaContext,
    y: CudaBuffer,
    slot_rows: CudaBuffer,
    weight: CudaBuffer,
    tokens: usize,
    k: usize,
    cols: usize,
    output: CudaBuffer,
    result: Result<CombineLaunch, Error>,
    memory: spec_fn(int) -> int,
    token: int,
    col: int,
)
    requires
        call_ensures(
            weighted_gather_sum_into,
            (&ctx, &y, &slot_rows, &weight, tokens, k, cols, &output),
            result,
        ),
        tokens <= i32::MAX,
        k <= i32::MAX,
        cols <= i32::MAX,
    ensures
        result matches Ok(launch) ==> {
            &&& expert_sum(
                memory,
                launch.y as int,
                launch.slot_rows as int,
                launch.weight as int,
                launch.k as int,
                launch.cols as int,
                token,
                col,
                launch.k as int,
            ) == expert_sum(
                memory,
                y.address as int,
                slot_rows.address as int,
                weight.address as int,
                k as int,
                cols as int,
                token,
                col,
                k as int,
            )
            &&& launch.output == output.address
            &&& launch.tokens == tokens
        },
        result is Ok <==> {
            &&& tokens > 0 && k > 0 && cols > 0
            &&& has_room(y, ctx.device_id, tokens * k * cols, 2)
            &&& has_room(slot_rows, ctx.device_id, tokens * k, 4)
            &&& has_room(weight, ctx.device_id, tokens * k, 4)
            &&& has_room(output, ctx.device_id, tokens * cols, 2)
        },
{
}

/// A column's gate and up value: a row holds all gate values, then all
/// up values.
pub open spec fn gate_and_up(
    memory: spec_fn(int) -> int,
    gate_up: int,
    inter: int,
    r: int,
    c: int,
) -> (int, int) {
    (
        element(memory, gate_up, 2, r * (2 * inter) + c),
        element(memory, gate_up, 2, r * (2 * inter) + inter + c),
    )
}

/// The launch reads a gate and an up value for each column of `gate_up` and
/// writes one value for them to `output`.
pub open spec fn pairs_gate_with_up(
    launch: SwigluLaunch,
    gate_up: CudaBuffer,
    output: CudaBuffer,
    rows: usize,
    inter: usize,
    memory: spec_fn(int) -> int,
    r: int,
    c: int,
) -> bool {
    &&& gate_and_up(memory, launch.gate_up as int, launch.inter as int, r, c) == gate_and_up(
        memory,
        gate_up.address as int,
        inter as int,
        r,
        c,
    )
    &&& launch.output == output.address
    &&& launch.rows == rows
    &&& launch.inter == inter
}

/// SwiGLU over BF16 rows, see `pairs_gate_with_up`.
pub proof fn lemma_swiglu_pairs_gate_with_up(
    ctx: CudaContext,
    gate_up: CudaBuffer,
    rows: usize,
    inter: usize,
    output: CudaBuffer,
    result: Result<SwigluLaunch, Error>,
    memory: spec_fn(int) -> int,
    r: int,
    c: int,
)
    requires
        call_ensures(silu_mul_rows_into, (&ctx, &gate_up, rows, inter, &output), result),
        rows <= i32::MAX,
        inter <= i32::MAX,
    ensures
        result matches Ok(launch) ==> launch.kernel == SwigluKernel::Bf16 && pairs_gate_with_up(
            launch,
            gate_up,
            output,
            rows,
            inter,
            memory,
            r,
            c,
        ),
        result is Ok <==> {
            &&& rows > 0 && inter > 0
            &&& has_room(gate_up, ctx.device_id, rows * 2 * inter, 2)
            &&& has_room(output, ctx.device_id, rows * inter, 2)
        },
{
}

/// SwiGLU over FP16 rows, see `pairs_gate_with_up`.
pub proof fn lemma_rounded_swiglu_pairs_gate_with_up(
    ctx: CudaContext,
    gu: CudaBuffer,
    output: CudaBuffer,
    rows: usize,
    inter: usize,
    result: Result<SwigluLaunch, Error>,
    memory: spec_fn(int) -> int,
    r: int,
    c: int,
)
    requires
        call_ensures(silu_mul_rows_f16_rounded_into, (&ctx, &gu, &output, rows, inter), result),
    ensures
        result matches Ok(launch) ==> launch.kernel == SwigluKernel::F16Rounded
            && pairs_gate_with_up(launch, gu, output, rows, inter, memory, r, c),
        result is Ok <==> {
            &&& 0 < rows <= i32::MAX
            &&& 0 < inter
            &&& 2 * inter <= i32::MAX
            &&& has_room(gu, ctx.device_id, rows * inter, 4)
            &&& has_room(output, ctx.device_id, rows * inter, 2)
        },
{
}

/// SwiGLU over FP16 rows with tabled values, see `pairs_gate_with_up`. The table
/// has a 32-bit float for each of the 65536 BF16 values.
pub proof fn lemma_tabled_swiglu_pairs_gate_with_up(
    ctx: CudaContext,
    gu: CudaBuffer,
    output: CudaBuffer,
    table: SiluBf16Table,
    rows: usize,
    inter: usize,
    result: Result<SwigluLaunch, Error>,
    memory: spec_fn(int) -> int,
    r: int,
    c: int,
)
    requires
        call_ensures(
            silu_mul_rows_f16_lut_into,
            (&ctx, &gu, &output, &table, rows, inter),
            result,
        ),
    ensures
        result matches Ok(launch) ==> launch.kernel == SwigluKernel::F16Table(table.buffer.address)
            && pairs_gate_with_up(launch, gu, output, rows, inter, memory, r, c),
        result is Ok <==> {
            &&& 0 < rows <= i32::MAX
            &&& 0 < inter <= i32::MAX
            &&& has_room(gu, ctx.device_id, rows * inter, 4)
            &&& has_room(output, ctx.device_id, rows * inter, 2)
            &&& has_room(table.buffer, ctx.device_id, 65536, 4)
        },
{
}

} // verus!
