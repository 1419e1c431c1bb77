//! Mixture-of-experts routing and token permutation contracts.
//!
//! These operators are model-neutral: any top-k softmax router with
//! per-token expert weights can use them. Expert products themselves are
//! run through [`super::gemm`].

use super::contracts::{
    buffer_problem, first_of, is_positive, positive_bits, require_buffer, unless,
};
use crate::context::CudaContext;
use crate::error::Error;
use crate::types::CudaBuffer;
use vstd::prelude::*;

verus! {

/// `apxinf_moe_router_topk_bf16`.
#[derive(Clone, Copy, Debug, PartialEq, Eq, Structural)]
pub struct RouterLaunch {
    pub logits: usize,
    pub topk_idx: usize,
    pub topk_weight: usize,
    pub tokens: i32,
    pub experts: i32,
    pub k: i32,
    pub renormalize: bool,
}

pub const ROUTER: &'static str = "MoE router";

pub const ROUTER_EXTENTS: &'static str = "MoE router: unsupported tokens, experts or k";

/// Whether the router covers some extents.
pub open spec fn router_supported(tokens: usize, experts: usize, k: usize) -> bool {
    tokens != 0 && experts != 0 && experts <= 256 && k != 0 && k <= experts && k <= 32
}

pub open spec fn router_problem(
    ctx: CudaContext,
    logits: CudaBuffer,
    tokens: usize,
    experts: usize,
    k: usize,
    topk_idx: CudaBuffer,
    topk_weight: CudaBuffer,
) -> Option<Error> {
    if !router_supported(tokens, experts, k) {
        Some(Error::Other(ROUTER_EXTENTS))
    } else {
        first_of(
            buffer_problem(ctx.device_id, ROUTER, "logits", logits, tokens * experts * 2),
            first_of(
                buffer_problem(ctx.device_id, ROUTER, "topk_idx", topk_idx, tokens * k * 4),
                buffer_problem(ctx.device_id, ROUTER, "topk_weight", topk_weight, tokens * k * 4),
            ),
        )
    }
}

/// Softmax over `experts` router logits per token, keep the `k` largest.
///
/// * `logits`: BF16 `[tokens, experts]` (experts <= 256).
/// * `topk_idx`: i32 `[tokens, k]`, `topk_weight`: 32-bit floats `[tokens, k]`,
///   both in descending probability order.
/// * `renormalize`: divide the kept weights by their sum.
pub fn router_topk_into(
    ctx: &CudaContext,
    logits: &CudaBuffer,
    tokens: usize,
    experts: usize,
    k: usize,
    renormalize: bool,
    topk_idx: &CudaBuffer,
    topk_weight: &CudaBuffer,
) -> (result: Result<RouterLaunch, Error>)
    requires
        router_supported(tokens, experts, k) ==> tokens * experts * 2 <= usize::MAX && tokens * k
            * 4 <= usize::MAX,
    ensures
        result == unless(
            router_problem(*ctx, *logits, tokens, experts, k, *topk_idx, *topk_weight),
            RouterLaunch {
                logits: logits.address,
                topk_idx: topk_idx.address,
                topk_weight: topk_weight.address,
                tokens: tokens as i32,
                experts: experts as i32,
                k: k as i32,
                renormalize,
            },
        ),
{
    if tokens == 0 || experts == 0 || experts > 256 || k == 0 || k > experts || k > 32 {
        return Err(Error::Other(ROUTER_EXTENTS));
    }
    require_buffer(ctx, ROUTER, "logits", logits, tokens * experts * 2)?;
    require_buffer(ctx, ROUTER, "topk_idx", topk_idx, tokens * k * 4)?;
    require_buffer(ctx, ROUTER, "topk_weight", topk_weight, tokens * k * 4)?;
    Ok(
        RouterLaunch {
            logits: logits.address,
            topk_idx: topk_idx.address,
            topk_weight: topk_weight.address,
            tokens: tokens as i32,
            experts: experts as i32,
            k: k as i32,
            renormalize,
        },
    )
}

/// `apxinf_gather_rows_bf16`.
#[derive(Clone, Copy, Debug, PartialEq, Eq, Structural)]
pub struct GatherRowsLaunch {
    pub x: usize,
    pub source_rows: usize,
    pub output: usize,
    pub rows: i32,
    pub cols: i32,
}

pub const GATHER: &'static str = "MoE gather";

pub const GATHER_EXTENTS: &'static str = "MoE gather needs non-zero dimensions";

pub open spec fn gather_problem(
    ctx: CudaContext,
    x: CudaBuffer,
    x_rows: usize,
    source_rows: CudaBuffer,
    rows: usize,
    cols: usize,
    output: CudaBuffer,
) -> Option<Error> {
    if rows == 0 || cols == 0 || x_rows == 0 {
        Some(Error::Other(GATHER_EXTENTS))
    } else {
        first_of(
            buffer_problem(ctx.device_id, GATHER, "x", x, x_rows * cols * 2),
            first_of(
                buffer_problem(ctx.device_id, GATHER, "source_rows", source_rows, rows * 4),
                buffer_problem(ctx.device_id, GATHER, "output", output, rows * cols * 2),
            ),
        )
    }
}

/// `output[r, :] = x[source_rows[r], :]` for BF16 rows of width `cols`.
pub fn gather_rows_into(
    ctx: &CudaContext,
    x: &CudaBuffer,
    x_rows: usize,
    source_rows: &CudaBuffer,
    rows: usize,
    cols: usize,
    output: &CudaBuffer,
) -> (result: Result<GatherRowsLaunch, Error>)
    requires
        rows != 0 && cols != 0 && x_rows != 0 ==> x_rows * cols * 2 <= usize::MAX && rows * 4
            <= usize::MAX && rows * cols * 2 <= usize::MAX,
    ensures
        result == unless(
            gather_problem(*ctx, *x, x_rows, *source_rows, rows, cols, *output),
            GatherRowsLaunch {
                x: x.address,
                source_rows: source_rows.address,
                output: output.address,
                rows: rows as i32,
                cols: cols as i32,
            },
        ),
{
    if rows == 0 || cols == 0 || x_rows == 0 {
        return Err(Error::Other(GATHER_EXTENTS));
    }
    require_buffer(ctx, GATHER, "x", x, x_rows * cols * 2)?;
    require_buffer(ctx, GATHER, "source_rows", source_rows, rows * 4)?;
    require_buffer(ctx, GATHER, "output", output, rows * cols * 2)?;
    Ok(
        GatherRowsLaunch {
            x: x.address,
            source_rows: source_rows.address,
            output: output.address,
            rows: rows as i32,
            cols: cols as i32,
        },
    )
}

/// `apxinf_weighted_gather_sum_bf16`.
#[derive(Clone, Copy, Debug, PartialEq, Eq, Structural)]
pub struct CombineLaunch {
    pub y: usize,
    pub slot_rows: usize,
    pub weight: usize,
    pub output: usize,
    pub tokens: i32,
    pub k: i32,
    pub cols: i32,
}

pub const COMBINE: &'static str = "MoE combine";

pub const COMBINE_EXTENTS: &'static str = "MoE combine needs non-zero dimensions";

pub open spec fn combine_problem(
    ctx: CudaContext,
    y: CudaBuffer,
    slot_rows: CudaBuffer,
    weight: CudaBuffer,
    tokens: usize,
    k: usize,
    cols: usize,
    output: CudaBuffer,
) -> Option<Error> {
    if tokens == 0 || k == 0 || cols == 0 {
        Some(Error::Other(COMBINE_EXTENTS))
    } else {
        first_of(
            buffer_problem(ctx.device_id, COMBINE, "y", y, tokens * k * cols * 2),
            first_of(
                buffer_problem(ctx.device_id, COMBINE, "slot_rows", slot_rows, tokens * k * 4),
                first_of(
                    buffer_problem(ctx.device_id, COMBINE, "weight", weight, tokens * k * 4),
                    buffer_problem(ctx.device_id, COMBINE, "output", output, tokens * cols * 2),
                ),
            ),
        )
    }
}

/// `output[m, :] = sum_{s<k} weight[m*k+s] * y[slot_rows[m*k+s], :]`.
///
/// `y` holds `tokens * k` expert-output rows in any order; `slot_rows` maps
/// each (token, slot) to its row in `y`.
pub fn weighted_gather_sum_into(
    ctx: &CudaContext,
    y: &CudaBuffer,
    slot_rows: &CudaBuffer,
    weight: &CudaBuffer,
    tokens: usize,
    k: usize,
    cols: usize,
    output: &CudaBuffer,
) -> (result: Result<CombineLaunch, Error>)
    requires
        tokens != 0 && k != 0 && cols != 0 ==> tokens * k * cols <= usize::MAX && tokens * k * cols
            * 2 <= usize::MAX && tokens * k * 4 <= usize::MAX && tokens * cols * 2 <= usize::MAX,
    ensures
        result == unless(
            combine_problem(*ctx, *y, *slot_rows, *weight, tokens, k, cols, *output),
            CombineLaunch {
                y: y.address,
                slot_rows: slot_rows.address,
                weight: weight.address,
                output: output.address,
                tokens: tokens as i32,
                k: k as i32,
                cols: cols as i32,
            },
        ),
{
    if tokens == 0 || k == 0 || cols == 0 {
        return Err(Error::Other(COMBINE_EXTENTS));
    }
    require_buffer(ctx, COMBINE, "y", y, tokens * k * cols * 2)?;
    require_buffer(ctx, COMBINE, "slot_rows", slot_rows, tokens * k * 4)?;
    require_buffer(ctx, COMBINE, "weight", weight, tokens * k * 4)?;
    require_buffer(ctx, COMBINE, "output", output, tokens * cols * 2)?;
    Ok(
        CombineLaunch {
            y: y.address,
            slot_rows: slot_rows.address,
            weight: weight.address,
            output: output.address,
            tokens: tokens as i32,
            k: k as i32,
            cols: cols as i32,
        },
    )
}

#[derive(Clone, Copy, Debug, PartialEq, Eq, Structural)]
pub enum SwigluKernel {
    /// `apxinf_silu_mul_rows_bf16`.
    Bf16,
    /// `apxinf_silu_mul_rows_f16_rounded`.
    F16Rounded,
    /// `apxinf_silu_mul_rows_f16_lut` with the table at this address.
    F16Table(usize),
}

/// A row-wise SwiGLU launch.
#[derive(Clone, Copy, Debug, PartialEq, Eq, Structural)]
pub struct SwigluLaunch {
    pub kernel: SwigluKernel,
    pub gate_up: usize,
    pub output: usize,
    pub rows: i32,
    pub inter: i32,
}

pub const SWIGLU: &'static str = "row SwiGLU";

pub const SWIGLU_EXTENTS: &'static str = "row SwiGLU needs non-zero dimensions";

pub open spec fn swiglu_problem(
    ctx: CudaContext,
    gate_up: CudaBuffer,
    rows: usize,
    inter: usize,
    output: CudaBuffer,
) -> Option<Error> {
    if rows == 0 || inter == 0 {
        Some(Error::Other(SWIGLU_EXTENTS))
    } else {
        first_of(
            buffer_problem(ctx.device_id, SWIGLU, "gate_up", gate_up, rows * 2 * inter * 2),
            buffer_problem(ctx.device_id, SWIGLU, "output", output, rows * inter * 2),
        )
    }
}

/// Row-wise SwiGLU: `gate_up` BF16 `[rows, 2*inter]` -> `output` `[rows, inter]`.
pub fn silu_mul_rows_into(
    ctx: &CudaContext,
    gate_up: &CudaBuffer,
    rows: usize,
    inter: usize,
    output: &CudaBuffer,
) -> (result: Result<SwigluLaunch, Error>)
    requires
        rows != 0 && inter != 0 ==> rows * 2 * inter * 2 <= usize::MAX && rows * inter * 2
            <= usize::MAX && rows * 2 <= usize::MAX,
    ensures
        result == unless(
            swiglu_problem(*ctx, *gate_up, rows, inter, *output),
            SwigluLaunch {
                kernel: SwigluKernel::Bf16,
                gate_up: gate_up.address,
                output: output.address,
                rows: rows as i32,
                inter: inter as i32,
            },
        ),
{
    if rows == 0 || inter == 0 {
        return Err(Error::Other(SWIGLU_EXTENTS));
    }
    require_buffer(ctx, SWIGLU, "gate_up", gate_up, rows * 2 * inter * 2)?;
    require_buffer(ctx, SWIGLU, "output", output, rows * inter * 2)?;
    Ok(
        SwigluLaunch {
            kernel: SwigluKernel::Bf16,
            gate_up: gate_up.address,
            output: output.address,
            rows: rows as i32,
            inter: inter as i32,
        },
    )
}

/// `apxinf_routed_residual_rms_bf16`, or `..._f16_weight` where `half_weight`
/// is set.
#[derive(Clone, Copy, Debug, PartialEq, Eq, Structural)]
pub struct RoutedResidualLaunch {
    pub half_weight: bool,
    pub x: usize,
    pub y: usize,
    pub ids: usize,
    pub router_weights: usize,
    pub norm_weight: usize,
    pub output: usize,
    pub cols: i32,
    pub rows: i32,
    pub topk: i32,
    pub eps: u32,
    pub input_half: bool,
}

/// The operands of a routed residual normalisation.
#[derive(Clone, Copy, Debug, PartialEq, Eq, Structural)]
pub struct RoutedOperands {
    pub x: CudaBuffer,
    pub y: CudaBuffer,
    pub ids: CudaBuffer,
    pub router_weights: CudaBuffer,
    pub norm_weight: CudaBuffer,
    pub output: CudaBuffer,
}

pub const ROUTED: &'static str = "routed residual RMSNorm";

pub const ROUTED_EXTENTS: &'static str = "routed residual RMSNorm: invalid geometry";

pub const ROUTED_OVERFLOW: &'static str = "routed residual RMSNorm size overflow";

pub open spec fn routed_supported(cols: usize, rows: usize, topk: usize, eps: u32) -> bool {
    &&& cols != 0
    &&& cols <= 8192
    &&& rows != 0
    &&& rows <= i32::MAX
    &&& topk != 0
    &&& topk <= i32::MAX
    &&& positive_bits(eps)
}

pub open spec fn routed_problem(
    ctx: CudaContext,
    operands: RoutedOperands,
    cols: usize,
    rows: usize,
    topk: usize,
    eps: u32,
) -> Option<Error> {
    let slots = rows * topk;
    if !routed_supported(cols, rows, topk, eps) {
        Some(Error::Other(ROUTED_EXTENTS))
    } else if slots > usize::MAX || rows * cols * 2 > usize::MAX || slots * cols * 2 > usize::MAX
        || slots * 4 > usize::MAX {
        Some(Error::Other(ROUTED_OVERFLOW))
    } else {
        first_of(
            buffer_problem(ctx.device_id, ROUTED, "x", operands.x, rows * cols * 2),
            first_of(
                buffer_problem(ctx.device_id, ROUTED, "y", operands.y, slots * cols * 2),
                first_of(
                    buffer_problem(ctx.device_id, ROUTED, "ids", operands.ids, slots * 4),
                    first_of(
                        buffer_problem(
                            ctx.device_id,
                            ROUTED,
                            "router weights",
                            operands.router_weights,
                            slots * 4,
                        ),
                        first_of(
                            buffer_problem(
                                ctx.device_id,
                                ROUTED,
                                "norm weight",
                                operands.norm_weight,
                                cols * 2,
                            ),
                            buffer_problem(
                                ctx.device_id,
                                ROUTED,
                                "output",
                                operands.output,
                                rows * cols * 2,
                            ),
                        ),
                    ),
                ),
            ),
        )
    }
}

pub open spec fn routed_launch(
    half_weight: bool,
    operands: RoutedOperands,
    cols: usize,
    rows: usize,
    topk: usize,
    eps: u32,
    input_half: bool,
) -> RoutedResidualLaunch {
    RoutedResidualLaunch {
        half_weight,
        x: operands.x.address,
        y: operands.y.address,
        ids: operands.ids.address,
        router_weights: operands.router_weights.address,
        norm_weight: operands.norm_weight.address,
        output: operands.output.address,
        cols: cols as i32,
        rows: rows as i32,
        topk: topk as i32,
        eps,
        input_half,
    }
}

fn sized(a: usize, b: usize, width: usize) -> (result: Result<usize, Error>)
    requires
        width >= 1,
    ensures
        result == (if a * b * width > usize::MAX {
            Err(Error::Other(ROUTED_OVERFLOW))
        } else {
            Ok::<usize, Error>((a * b * width) as usize)
        }),
{
    match a.checked_mul(b) {
        Some(n) => match n.checked_mul(width) {
            Some(bytes) => Ok(bytes),
            None => Err(Error::Other(ROUTED_OVERFLOW)),
        },
        None => {
            proof {
                let p = a * b;
                assert(p * width >= p) by (nonlinear_arith)
                    requires
                        p >= 0,
                        width >= 1,
                ;
            }
            Err(Error::Other(ROUTED_OVERFLOW))
        },
    }
}

fn routed_residual(
    ctx: &CudaContext,
    half_weight: bool,
    operands: &RoutedOperands,
    cols: usize,
    rows: usize,
    topk: usize,
    eps: u32,
    input_half: bool,
) -> (result: Result<RoutedResidualLaunch, Error>)
    ensures
        result == unless(
            routed_problem(*ctx, *operands, cols, rows, topk, eps),
            routed_launch(half_weight, *operands, cols, rows, topk, eps, input_half),
        ),
{
    if cols == 0 || cols > 8192 || rows == 0 || rows > 0x7fff_ffff || topk == 0 || topk
        > 0x7fff_ffff || !is_positive(eps) {
        return Err(Error::Other(ROUTED_EXTENTS));
    }
    let slots: usize = sized(rows, topk, 1)?;
    let row_bytes: usize = sized(rows, cols, 2)?;
    let slot_bytes: usize = sized(slots, cols, 2)?;
    let index_bytes: usize = sized(slots, 1, 4)?;
    require_buffer(ctx, ROUTED, "x", &operands.x, row_bytes)?;
    require_buffer(ctx, ROUTED, "y", &operands.y, slot_bytes)?;
    require_buffer(ctx, ROUTED, "ids", &operands.ids, index_bytes)?;
    require_buffer(ctx, ROUTED, "router weights", &operands.router_weights, index_bytes)?;
    require_buffer(ctx, ROUTED, "norm weight", &operands.norm_weight, cols * 2)?;
    require_buffer(ctx, ROUTED, "output", &operands.output, row_bytes)?;
    Ok(
        RoutedResidualLaunch {
            half_weight,
            x: operands.x.address,
            y: operands.y.address,
            ids: operands.ids.address,
            router_weights: operands.router_weights.address,
            norm_weight: operands.norm_weight.address,
            output: operands.output.address,
            cols: cols as i32,
            rows: rows as i32,
            topk: topk as i32,
            eps,
            input_half,
        },
    )
}

/// Combine routed rows, preserve BF16 rounding, and update residual/RMSNorm.
pub fn routed_residual_rms_into(
    ctx: &CudaContext,
    operands: &RoutedOperands,
    cols: usize,
    rows: usize,
    topk: usize,
    eps: u32,
    input_half: bool,
) -> (result: Result<RoutedResidualLaunch, Error>)
    ensures
        result == unless(
            routed_problem(*ctx, *operands, cols, rows, topk, eps),
            routed_launch(false, *operands, cols, rows, topk, eps, input_half),
        ),
        result matches Ok(launch) ==> {
            &&& launch.x == operands.x.address
            &&& launch.y == operands.y.address
            &&& launch.ids == operands.ids.address
            &&& launch.router_weights == operands.router_weights.address
            &&& launch.norm_weight == operands.norm_weight.address
            &&& launch.output == operands.output.address
        },
{
    routed_residual(ctx, false, operands, cols, rows, topk, eps, input_half)
}

/// BF16 activations with checkpoint FP16 RMSNorm weights.
pub fn routed_residual_rms_f16_weight_into(
    ctx: &CudaContext,
    operands: &RoutedOperands,
    cols: usize,
    rows: usize,
    topk: usize,
    eps: u32,
    input_half: bool,
) -> (result: Result<RoutedResidualLaunch, Error>)
    ensures
        result == unless(
            routed_problem(*ctx, *operands, cols, rows, topk, eps),
            routed_launch(true, *operands, cols, rows, topk, eps, input_half),
        ),
        result matches Ok(launch) ==> {
            &&& launch.x == operands.x.address
            &&& launch.y == operands.y.address
            &&& launch.ids == operands.ids.address
            &&& launch.router_weights == operands.router_weights.address
            &&& launch.norm_weight == operands.norm_weight.address
            &&& launch.output == operands.output.address
        },
{
    routed_residual(ctx, true, operands, cols, rows, topk, eps, input_half)
}

pub const F16_SWIGLU: &'static str = "FP16 SwiGLU";

pub const F16_SWIGLU_OVERFLOW: &'static str = "FP16 SwiGLU size overflow";

pub const F16_SWIGLU_EXTENTS: &'static str = "FP16 SwiGLU invalid geometry";

pub open spec fn rounded_problem(
    ctx: CudaContext,
    gu: CudaBuffer,
    output: CudaBuffer,
    rows: usize,
    inter: usize,
) -> Option<Error> {
    if rows * inter * 4 > usize::MAX {
        Some(Error::Other(F16_SWIGLU_OVERFLOW))
    } else if rows == 0 || inter == 0 || rows > i32::MAX || inter > i32::MAX / 2 {
        Some(Error::Other(F16_SWIGLU_EXTENTS))
    } else {
        first_of(
            buffer_problem(ctx.device_id, F16_SWIGLU, "gate/up", gu, rows * inter * 4),
            buffer_problem(ctx.device_id, F16_SWIGLU, "output", output, rows * inter * 2),
        )
    }
}

/// SwiGLU for the FP16 expert path, rounding gate/up and product through BF16.
pub fn silu_mul_rows_f16_rounded_into(
    ctx: &CudaContext,
    gu: &CudaBuffer,
    output: &CudaBuffer,
    rows: usize,
    inter: usize,
) -> (result: Result<SwigluLaunch, Error>)
    ensures
        result == unless(
            rounded_problem(*ctx, *gu, *output, rows, inter),
            SwigluLaunch {
                kernel: SwigluKernel::F16Rounded,
                gate_up: gu.address,
                output: output.address,
                rows: rows as i32,
                inter: inter as i32,
            },
        ),
{
    let bytes: usize = match rows.checked_mul(inter) {
        Some(n) => match n.checked_mul(4) {
            Some(bytes) => bytes,
            None => {
                return Err(Error::Other(F16_SWIGLU_OVERFLOW));
            },
        },
        None => {
            return Err(Error::Other(F16_SWIGLU_OVERFLOW));
        },
    };
    if rows == 0 || inter == 0 || rows > 0x7fff_ffff || inter > 0x3fff_ffff {
        return Err(Error::Other(F16_SWIGLU_EXTENTS));
    }
    require_buffer(ctx, F16_SWIGLU, "gate/up", gu, bytes)?;
    require_buffer(ctx, F16_SWIGLU, "output", output, bytes / 2)?;
    Ok(
        SwigluLaunch {
            kernel: SwigluKernel::F16Rounded,
            gate_up: gu.address,
            output: output.address,
            rows: rows as i32,
            inter: inter as i32,
        },
    )
}

/// The bytes of a table with one 32-bit float for every BF16 value.
pub const SILU_TABLE_BYTES: usize = 262144;

/// 32-bit SiLU values for every BF16 input; initialized once on the model
/// stream by `apxinf_silu_bf16_table`.
#[derive(Clone, Copy, Debug, PartialEq, Eq, Structural)]
pub struct SiluBf16Table {
    pub buffer: CudaBuffer,
}

impl SiluBf16Table {
    /// The table in a buffer that was filled.
    pub fn new(buffer: CudaBuffer) -> (table: Self)
        ensures
            table.buffer == buffer,
    {
        SiluBf16Table { buffer }
    }
}

pub const LOOKUP: &'static str = "SiLU lookup";

pub const LOOKUP_EXTENTS: &'static str = "SiLU lookup: invalid geometry";

pub const LOOKUP_OVERFLOW: &'static str = "SiLU lookup: size overflow";

pub open spec fn lookup_problem(
    ctx: CudaContext,
    gu: CudaBuffer,
    output: CudaBuffer,
    table: SiluBf16Table,
    rows: usize,
    inter: usize,
) -> Option<Error> {
    if rows == 0 || inter == 0 || rows > i32::MAX || inter > i32::MAX {
        Some(Error::Other(LOOKUP_EXTENTS))
    } else if rows * inter * 4 > usize::MAX {
        Some(Error::Other(LOOKUP_OVERFLOW))
    } else {
        first_of(
            buffer_problem(ctx.device_id, LOOKUP, "gate/up", gu, rows * inter * 4),
            first_of(
                buffer_problem(ctx.device_id, LOOKUP, "output", output, rows * inter * 2),
                buffer_problem(
                    ctx.device_id,
                    LOOKUP,
                    "table",
                    table.buffer,
                    SILU_TABLE_BYTES as int,
                ),
            ),
        )
    }
}

/// Same rounding boundaries as rounded FP16 SwiGLU, with a precomputed SiLU.
pub fn silu_mul_rows_f16_lut_into(
    ctx: &CudaContext,
    gu: &CudaBuffer,
    output: &CudaBuffer,
    table: &SiluBf16Table,
    rows: usize,
    inter: usize,
) -> (result: Result<SwigluLaunch, Error>)
    ensures
        result == unless(
            lookup_problem(*ctx, *gu, *output, *table, rows, inter),
            SwigluLaunch {
                kernel: SwigluKernel::F16Table(table.buffer.address),
                gate_up: gu.address,
                output: output.address,
                rows: rows as i32,
                inter: inter as i32,
            },
        ),
{
    if rows == 0 || inter == 0 || rows > 0x7fff_ffff || inter > 0x7fff_ffff {
        return Err(Error::Other(LOOKUP_EXTENTS));
    }
    let count: usize = match rows.checked_mul(inter) {
        Some(n) => match n.checked_mul(2) {
            Some(count) => count,
            None => {
                return Err(Error::Other(LOOKUP_OVERFLOW));
            },
        },
        None => {
            return Err(Error::Other(LOOKUP_OVERFLOW));
        },
    };
    let bytes: usize = match count.checked_mul(2) {
        Some(bytes) => bytes,
        None => {
            return Err(Error::Other(LOOKUP_OVERFLOW));
        },
    };
    require_buffer(ctx, LOOKUP, "gate/up", gu, bytes)?;
    require_buffer(ctx, LOOKUP, "output", output, count)?;
    require_buffer(ctx, LOOKUP, "table", &table.buffer, SILU_TABLE_BYTES)?;
    Ok(
        SwigluLaunch {
            kernel: SwigluKernel::F16Table(table.buffer.address),
            gate_up: gu.address,
            output: output.address,
            rows: rows as i32,
            inter: inter as i32,
        },
    )
}

} // verus!
